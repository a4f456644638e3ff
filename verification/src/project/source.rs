//! The files that belong to one script.

use vstd::prelude::*;
use vstd::string::StrSliceExecFns;
use vstd::string::StringExecFns;

use crate::chars::same_text;

verus! {

/// A `.gml` source file and its corresponding `.gmlpp` and helper files if
/// it has any.
#[derive(Debug, PartialEq, Eq)]
pub struct Source {
    gml: String,
    gmlpp: Option<String>,
    helper: Option<String>,
}

/// Whether a path names a `.gmlpp` file: it ends in `.gmlpp`, and the file
/// name has at least one character in front of that.
pub open spec fn is_gmlpp(path: Seq<char>) -> bool {
    &&& path.len() > 6
    &&& path.subrange(path.len() - 6, path.len() as int) == ".gmlpp"@
    &&& path[path.len() - 7] != '/'
}

/// The path of the `.gml` file that goes with a `.gmlpp` file: the same
/// path with the extension `gml`.
pub open spec fn gml_of(path: Seq<char>) -> Seq<char> {
    path.subrange(0, path.len() - 5) + "gml"@
}

/// The texts of an optional path.
pub open spec fn optional(path: Option<String>) -> Option<Seq<char>> {
    match path {
        Some(path) => Some(path@),
        None => None,
    }
}

/// A source as the contracts see it.
pub struct Paths {
    pub gml: Seq<char>,
    pub gmlpp: Option<Seq<char>>,
    pub helper: Option<Seq<char>>,
}

impl View for Source {
    type V = Paths;

    closed spec fn view(&self) -> Paths {
        Paths { gml: self.gml@, gmlpp: optional(self.gmlpp), helper: optional(self.helper) }
    }
}

impl Clone for Source {
    fn clone(&self) -> (r: Self)
        ensures
            r@ == self@,
    {
        Source {
            gml: self.gml.clone(),
            gmlpp: match &self.gmlpp {
                Some(path) => Some(path.clone()),
                None => None,
            },
            helper: match &self.helper {
                Some(path) => Some(path.clone()),
                None => None,
            },
        }
    }
}

impl Source {
    /// A source from its three paths.
    pub fn new(gml: String, gmlpp: Option<String>, helper: Option<String>) -> (r: Self)
        ensures
            r@ == (Paths { gml: gml@, gmlpp: optional(gmlpp), helper: optional(helper) }),
    {
        Source { gml, gmlpp, helper }
    }

    /// The path to the `.gml` file for this source.
    pub fn gml(&self) -> (r: &String)
        ensures
            r@ == self@.gml,
    {
        &self.gml
    }

    /// The path to the `.gmlpp` file for this source.
    pub fn gmlpp(&self) -> (r: &Option<String>)
        ensures
            optional(*r) == self@.gmlpp,
    {
        &self.gmlpp
    }

    /// The path to the helper `.gml` file for this source.
    pub fn helper(&self) -> (r: &Option<String>)
        ensures
            optional(*r) == self@.helper,
    {
        &self.helper
    }

    /// Determines the source files if the path is a `.gmlpp` file: the
    /// `.gml` file beside it, the file itself, and no helper.
    pub fn from(path: &str) -> (r: Option<Self>)
        ensures
            match r {
                Some(source) => is_gmlpp(path@) && source@ == (Paths {
                    gml: gml_of(path@),
                    gmlpp: Some(path@),
                    helper: None,
                }),
                None => !is_gmlpp(path@),
            },
    {
        let len: usize = path.unicode_len();
        if len > 6 && same_text(path.substring_char(len - 6, len), ".gmlpp") && path.get_char(
            len - 7,
        ) != '/' {
            let mut gml = String::from_str(path.substring_char(0, len - 5));
            gml.append("gml");
            Some(Source { gml, gmlpp: Some(String::from_str(path)), helper: None })
        } else {
            None
        }
    }
}

} // verus!
