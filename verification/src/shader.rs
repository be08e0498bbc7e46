//! The source text of a shader program.

use vstd::prelude::*;
use vstd::string::*;

verus! {

/// The two stages of a program as borrowed text, in the form in which a
/// program is handed over for compilation.
#[derive(Clone, Copy, Debug)]
pub enum ShaderSource<'a> {
    Glsl { vertex: &'a str, fragment: &'a str },
}

/// The source text of a vertex and a fragment stage.
#[derive(Debug)]
pub struct Shader {
    pub vert: String,
    pub frag: String,
}

impl Shader {
    /// A shader made of the given texts: `vert_source` is the text of the
    /// vertex stage and `frag_source` that of the fragment stage, not the
    /// names of files that hold them.
    pub fn new(vert_source: &str, frag_source: &str) -> (s: Shader)
        ensures
            s.vert@ == vert_source@,
            s.frag@ == frag_source@,
    {
        Shader { vert: String::from_str(vert_source), frag: String::from_str(frag_source) }
    }

    /// Both texts, borrowed for compilation.
    pub fn to_source<'a>(&'a self) -> (src: ShaderSource<'a>)
        ensures
            src matches ShaderSource::Glsl { vertex, fragment } && vertex@ == self.vert@
                && fragment@ == self.frag@,
    {
        ShaderSource::Glsl { vertex: self.vert.as_str(), fragment: self.frag.as_str() }
    }
}

} // verus!
