//! Shaders: a body of code and the library modules it needs.
use vstd::prelude::*;

verus! {

#[derive(Clone, Copy, PartialEq, Eq, Structural, Debug)]
pub enum ShaderLibraryModule {
    ColorSpaces,
    Random,
}

#[derive(Clone, Copy, PartialEq, Eq, Structural, Debug)]
pub enum ShaderLibraryFunctions {
    ColorSpaces,
}

pub struct ShaderLibrary {}

pub struct Shader {
    body_code: String,
    libraries: Vec<ShaderLibraryModule>,
}

impl Shader {
    pub closed spec fn spec_body_code(self) -> Seq<char> {
        self.body_code@
    }

    pub closed spec fn spec_libraries(self) -> Seq<ShaderLibraryModule> {
        self.libraries@
    }

    /// A shader made of `code` alone, with no library module.
    pub fn from_code(code: &str) -> (r: Self)
        ensures
            r.spec_body_code() == code@,
            r.spec_libraries() == Seq::<ShaderLibraryModule>::empty(),
    {
        Shader { body_code: code.to_owned(), libraries: Vec::new() }
    }

    pub fn body_code(&self) -> (r: &str)
        ensures
            r@ == self.spec_body_code(),
    {
        self.body_code.as_str()
    }

    pub fn libraries(&self) -> (r: &Vec<ShaderLibraryModule>)
        ensures
            r@ == self.spec_libraries(),
    {
        &self.libraries
    }
}

} // verus!
