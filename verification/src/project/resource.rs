//! The resources of a project.

use vstd::prelude::*;
use vstd::string::StrSliceExecFns;
use vstd::string::StringExecFns;

use super::source::Paths;
use super::source::Source;
use super::Model;
use super::ID;

verus! {

/// The kinds of resources.
#[derive(Clone, Copy, Debug, PartialEq, Eq, Structural)]
pub enum ResourceType {
    Object,
    Folder,
    Script,
    Sprite,
    Room,
    TileSet,
    Font,
    Sound,
    Shader,
    Timeline,
    Note,
    IncludedFile,
    Extension,
    MainOptions,
    LinuxOptions,
    MacOptions,
    WindowsOptions,
}

/// Where a resource is and of what kind it is.
#[derive(Debug)]
pub struct ResourceValue {
    pub id: ID,
    pub config_deltas: Option<Vec<String>>,
    pub resource_path: String,
    pub resource_type: ResourceType,
}

/// The entry of a resource in the list of a project.
#[derive(Debug)]
pub struct ResourceTag {
    pub key: ID,
    pub value: ResourceValue,
}

/// A path with every backslash turned into a slash.
pub open spec fn slashed(path: Seq<char>) -> Seq<char> {
    Seq::new(
        path.len(),
        |i: int|
            if path[i] == '\\' {
                '/'
            } else {
                path[i]
            },
    )
}

impl ResourceTag {
    /// The type of resource that is being tagged.
    pub fn resource_type(&self) -> (r: ResourceType)
        ensures
            r == self.value.resource_type,
    {
        self.value.resource_type
    }

    /// Whether the resource can hold source files: objects and scripts
    /// do.
    pub fn has_sources(&self) -> (r: bool)
        ensures
            r == (self.value.resource_type == ResourceType::Object || self.value.resource_type
                == ResourceType::Script),
    {
        self.value.resource_type == ResourceType::Object || self.value.resource_type
            == ResourceType::Script
    }

    /// The path of the file that describes the resource, below the
    /// directory `base_path`, with slashes throughout.
    pub fn resource_file(&self, base_path: &str) -> (r: String)
        ensures
            r@ == base_path@ + seq!['/'] + slashed(self.value.resource_path@),
    {
        let mut r = String::from_str(base_path);
        r.push('/');
        let path = self.value.resource_path.as_str();
        let len: usize = path.unicode_len();
        let ghost head = r@;
        let mut i: usize = 0;
        assert(r@ =~= head + slashed(path@).take(0));
        while i < len
            invariant
                i <= len,
                len == path@.len(),
                r@ == head + slashed(path@).take(i as int),
            decreases len - i,
        {
            let c = path.get_char(i);
            if c == '\\' {
                r.push('/');
            } else {
                r.push(c);
            }
            i = i + 1;
            assert(r@ =~= head + slashed(path@).take(i as int));
        }
        assert(slashed(path@).take(i as int) =~= slashed(path@));
        r
    }
}

/// What an object reacts to.
#[derive(Debug)]
pub struct Event {
    pub id: ID,
    pub model_name: Model,
    pub mvc: String,
    pub is_dnd: bool,
    pub collision_object_id: ID,
    pub enumb: i32,
    pub eventtype: i32,
    pub m_owner: ID,
}

/// The kind of an event, with its number, or with the identifier of the
/// event for a collision.
#[derive(Debug)]
pub enum EventType {
    Create(i32),
    Step(i32),
    Collision(ID),
    Other(i32),
    Draw(i32),
    CleanUp(i32),
}

/// An event type as the contracts see it.
pub enum EventKind {
    Create(int),
    Step(int),
    Collision(Seq<char>),
    Other(int),
    Draw(int),
    CleanUp(int),
}

impl View for EventType {
    type V = EventKind;

    open spec fn view(&self) -> EventKind {
        match self {
            EventType::Create(num) => EventKind::Create(*num as int),
            EventType::Step(num) => EventKind::Step(*num as int),
            EventType::Collision(id) => EventKind::Collision(id@),
            EventType::Other(num) => EventKind::Other(*num as int),
            EventType::Draw(num) => EventKind::Draw(*num as int),
            EventType::CleanUp(num) => EventKind::CleanUp(*num as int),
        }
    }
}

/// The character of a digit.
pub open spec fn digit(d: nat) -> char {
    if d == 0 {
        '0'
    } else if d == 1 {
        '1'
    } else if d == 2 {
        '2'
    } else if d == 3 {
        '3'
    } else if d == 4 {
        '4'
    } else if d == 5 {
        '5'
    } else if d == 6 {
        '6'
    } else if d == 7 {
        '7'
    } else if d == 8 {
        '8'
    } else {
        '9'
    }
}

/// The decimal digits of a natural number, without leading zeros.
pub open spec fn digits(n: nat) -> Seq<char>
    decreases n,
{
    if n < 10 {
        seq![digit(n)]
    } else {
        digits(n / 10).push(digit(n % 10))
    }
}

/// An integer in decimal notation, with a minus sign in front of a
/// negative one.
pub open spec fn decimal(n: int) -> Seq<char> {
    if n < 0 {
        seq!['-'] + digits((-n) as nat)
    } else {
        digits(n as nat)
    }
}

/// The name of the file that holds the code of an event.
pub open spec fn event_file(kind: EventKind) -> Seq<char> {
    match kind {
        EventKind::Create(num) => "Create_"@ + decimal(num) + ".gml"@,
        EventKind::Step(num) => "Step_"@ + decimal(num) + ".gml"@,
        EventKind::Collision(id) => "Collision_"@ + id + ".gml"@,
        EventKind::Other(num) => "Other_"@ + decimal(num) + ".gml"@,
        EventKind::Draw(num) => "Draw_"@ + decimal(num) + ".gml"@,
        EventKind::CleanUp(num) => "CleanUp_"@ + decimal(num) + ".gml"@,
    }
}

/// The character of a digit.
fn digit_char(d: u64) -> (r: char)
    requires
        d < 10,
    ensures
        r == digit(d as nat),
{
    if d == 0 {
        '0'
    } else if d == 1 {
        '1'
    } else if d == 2 {
        '2'
    } else if d == 3 {
        '3'
    } else if d == 4 {
        '4'
    } else if d == 5 {
        '5'
    } else if d == 6 {
        '6'
    } else if d == 7 {
        '7'
    } else if d == 8 {
        '8'
    } else {
        '9'
    }
}

/// Appends the decimal digits of `n` to `out`.
fn write_digits(n: u64, out: &mut String)
    ensures
        final(out)@ == old(out)@ + digits(n as nat),
    decreases n,
{
    if n < 10 {
        out.push(digit_char(n));
        assert(out@ =~= old(out)@ + digits(n as nat));
    } else {
        write_digits(n / 10, out);
        out.push(digit_char(n % 10));
        assert(out@ =~= old(out)@ + digits(n as nat));
    }
}

/// Appends `n` in decimal notation to `out`.
fn write_decimal(n: i32, out: &mut String)
    ensures
        final(out)@ == old(out)@ + decimal(n as int),
{
    if n < 0 {
        out.push('-');
        write_digits((-(n as i64)) as u64, out);
        assert(out@ =~= old(out)@ + decimal(n as int));
    } else {
        write_digits(n as u64, out);
    }
}

impl EventType {
    /// The name of the file that holds the code of the event.
    pub fn file_name(&self) -> (r: String)
        ensures
            r@ == event_file(self@),
    {
        let mut r = String::new();
        match self {
            EventType::Create(num) => {
                r.append("Create_");
                write_decimal(*num, &mut r);
            },
            EventType::Step(num) => {
                r.append("Step_");
                write_decimal(*num, &mut r);
            },
            EventType::Collision(id) => {
                r.append("Collision_");
                r.append(id.0.as_str());
            },
            EventType::Other(num) => {
                r.append("Other_");
                write_decimal(*num, &mut r);
            },
            EventType::Draw(num) => {
                r.append("Draw_");
                write_decimal(*num, &mut r);
            },
            EventType::CleanUp(num) => {
                r.append("CleanUp_");
                write_decimal(*num, &mut r);
            },
        }
        r.append(".gml");
        assert(r@ =~= event_file(self@));
        r
    }
}

/// The kind of the event with the given type code, number and identifier,
/// for the type codes that have a kind.
pub open spec fn event_kind(eventtype: int, enumb: int, id: Seq<char>) -> Option<EventKind> {
    if eventtype == 0 {
        Some(EventKind::Create(enumb))
    } else if eventtype == 3 {
        Some(EventKind::Step(enumb))
    } else if eventtype == 4 {
        Some(EventKind::Collision(id))
    } else if eventtype == 7 {
        Some(EventKind::Other(enumb))
    } else if eventtype == 8 {
        Some(EventKind::Draw(enumb))
    } else if eventtype == 12 {
        Some(EventKind::CleanUp(enumb))
    } else {
        None
    }
}

impl Event {
    /// Whether the type code of the event is one that has a kind.
    pub fn is_known(&self) -> (r: bool)
        ensures
            r == event_kind(self.eventtype as int, self.enumb as int, self.id@).is_some(),
    {
        self.eventtype == 0 || self.eventtype == 3 || self.eventtype == 4 || self.eventtype == 7
            || self.eventtype == 8 || self.eventtype == 12
    }

    /// The kind of the event.
    pub fn event_type(&self) -> (r: EventType)
        requires
            event_kind(self.eventtype as int, self.enumb as int, self.id@).is_some(),
        ensures
            Some(r@) == event_kind(self.eventtype as int, self.enumb as int, self.id@),
    {
        if self.eventtype == 0 {
            EventType::Create(self.enumb)
        } else if self.eventtype == 3 {
            EventType::Step(self.enumb)
        } else if self.eventtype == 4 {
            EventType::Collision(self.id.clone())
        } else if self.eventtype == 7 {
            EventType::Other(self.enumb)
        } else if self.eventtype == 8 {
            EventType::Draw(self.enumb)
        } else {
            EventType::CleanUp(self.enumb)
        }
    }
}

/// A script resource.
#[derive(Debug)]
pub struct Script {
    pub id: ID,
    pub mvc: String,
    pub name: String,
    pub is_compatibility: bool,
    pub is_dnd: bool,
}

impl Script {
    /// Returns the source files for this script, which is just the one:
    /// the `.gml` file of the script's name, with the `.gmlpp` file of the
    /// same name beside it.
    pub fn sources(&self) -> (r: Vec<Source>)
        ensures
            r@.len() == 1,
            r@[0]@ == (Paths {
                gml: self.name@ + ".gml"@,
                gmlpp: Some(self.name@ + ".gmlpp"@),
                helper: None,
            }),
    {
        let mut gml = self.name.clone();
        gml.append(".gml");
        let mut gmlpp = self.name.clone();
        gmlpp.append(".gmlpp");
        let mut r = Vec::new();
        r.push(Source::new(gml, Some(gmlpp), None));
        r
    }
}

} // verus!
