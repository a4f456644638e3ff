//! The compiler: from gmlpp source text to GML text.

use vstd::prelude::*;

use crate::ast::compiled;
use crate::ast::AST;
use crate::error::Error;
use crate::project::source::Paths;
use crate::project::Source;

verus! {

/// Performs compilation of the `.gmlpp` files of a project.
#[derive(Debug)]
pub struct Compiler {
    sources: Vec<Source>,
}

/// What comes of one source: the path of the file to write, and the text
/// to write to it or the error to report.
#[derive(Debug)]
pub struct Output {
    pub path: String,
    pub result: Result<String, Error>,
}

/// An output as the contracts see it.
pub struct Outcome {
    pub path: Seq<char>,
    pub result: Result<Seq<char>, Error>,
}

impl View for Output {
    type V = Outcome;

    open spec fn view(&self) -> Outcome {
        Outcome {
            path: self.path@,
            result: match self.result {
                Ok(text) => Ok(text@),
                Err(error) => Err(error),
            },
        }
    }
}

/// The sources of a list as the contracts see them.
pub open spec fn paths(sources: Seq<Source>) -> Seq<Paths> {
    sources.map_values(|source: Source| source@)
}

/// The texts of a list as the contracts see them.
pub open spec fn texts_of(texts: Seq<Option<String>>) -> Seq<Option<Seq<char>>> {
    texts.map_values(
        |text: Option<String>|
            match text {
                Some(text) => Some(text@),
                None => None,
            },
    )
}

/// The outputs of a list as the contracts see them.
pub open spec fn outcomes(outputs: Seq<Output>) -> Seq<Outcome> {
    outputs.map_values(|output: Output| output@)
}

/// What comes of the first `n` sources, given the text of each one's
/// `.gmlpp` file where there is such a file: for each source that has a
/// text, in the order of the sources, the path of its `.gml` file with
/// what the text compiles to.
pub open spec fn compiled_all(
    sources: Seq<Paths>,
    texts: Seq<Option<Seq<char>>>,
    n: nat,
) -> Seq<Outcome>
    decreases n,
{
    if n == 0 || n > sources.len() || n > texts.len() {
        Seq::empty()
    } else {
        let before = compiled_all(sources, texts, (n - 1) as nat);
        match texts[n - 1] {
            Some(text) => before.push(Outcome { path: sources[n - 1].gml, result: compiled(text) }),
            None => before,
        }
    }
}

impl Compiler {
    /// Creates a new instance of the compiler, for the sources of a
    /// project.
    pub fn new(sources: Vec<Source>) -> (r: Self)
        ensures
            r@ == paths(sources@),
    {
        Self { sources }
    }

    /// The sources of the project.
    pub fn sources(&self) -> (r: &Vec<Source>)
        ensures
            paths(r@) == self@,
    {
        &self.sources
    }

    /// Compiles the text of a `.gmlpp` file to the text of its `.gml`
    /// file.
    pub fn compile(text: &str) -> (r: Result<String, Error>)
        ensures
            match compiled(text@) {
                Ok(output) => r matches Ok(found) && found@ == output,
                Err(error) => r matches Err(e) && e == error,
            },
    {
        match AST::from_source(text) {
            Ok(tree) => Ok(tree.print()),
            Err(error) => Err(error),
        }
    }

    /// Compiles all the `.gmlpp` files in the project, given the text of
    /// each source's `.gmlpp` file, and `None` for a source that has no
    /// such file.
    pub fn compile_all(&self, texts: &Vec<Option<String>>) -> (r: Vec<Output>)
        requires
            texts@.len() == self@.len(),
        ensures
            outcomes(r@) == compiled_all(self@, texts_of(texts@), self@.len()),
    {
        let mut outputs: Vec<Output> = Vec::new();
        let mut i: usize = 0;
        assert(outcomes(outputs@) =~= compiled_all(self@, texts_of(texts@), 0));
        while i < self.sources.len()
            invariant
                i <= self.sources.len(),
                texts@.len() == self.sources@.len(),
                self@ == paths(self.sources@),
                outcomes(outputs@) == compiled_all(self@, texts_of(texts@), i as nat),
            decreases self.sources.len() - i,
        {
            let ghost before = outcomes(outputs@);
            match &texts[i] {
                Some(text) => {
                    let result = Self::compile(text.as_str());
                    let output = Output { path: self.sources[i].gml().clone(), result };
                    outputs.push(output);
                    assert(outcomes(outputs@) =~= before.push(output@));
                },
                None => {},
            }
            i = i + 1;
        }
        outputs
    }
}

impl View for Compiler {
    type V = Seq<Paths>;

    closed spec fn view(&self) -> Seq<Paths> {
        paths(self.sources@)
    }
}

} // verus!
