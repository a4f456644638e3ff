//! The description of a project: its resources and their source files.

use vstd::prelude::*;

pub mod resource;
pub mod source;

pub use self::resource::Event;
pub use self::resource::EventType;
pub use self::resource::ResourceTag;
pub use self::resource::ResourceType;
pub use self::resource::ResourceValue;
pub use self::resource::Script;
pub use self::source::Source;

verus! {

/// The identifier of a resource.
#[derive(Debug, PartialEq, Eq, Hash)]
pub struct ID(pub String);

impl View for ID {
    type V = Seq<char>;

    open spec fn view(&self) -> Seq<char> {
        self.0@
    }
}

impl Clone for ID {
    fn clone(&self) -> (r: Self)
        ensures
            r@ == self@,
    {
        ID(self.0.clone())
    }
}

impl ID {
    /// The identifier as text.
    pub fn print(&self) -> (r: String)
        ensures
            r@ == self@,
    {
        self.0.clone()
    }
}

/// The kinds of records in the files of a project.
#[derive(Clone, Copy, Debug, PartialEq, Eq, Structural)]
pub enum Model {
    Project,
    ParentProject,
    Event,
    Script,
    Object,
    Path,
    // sprites
    Sprite,
    SpriteFrame,
    ImageLayer,
    // rooms
    Room,
    RoomSettings,
    RoomViewSettings,
    RoomPhysicsSettings,
    RInstanceLayer,
    RInstance,
    RBackgroundLayer,
    RView,
    Folder,
}

/// The project that a project was derived from.
#[derive(Debug)]
pub struct ParentProject {
    pub id: ID,
    pub model_name: Model,
    pub mvc: String,
    pub altered_resources: Vec<ResourceTag>,
    pub hidden_resources: Vec<ResourceTag>,
    pub project_path: String,
}

} // verus!
