//! Error results that can be returned from the styling code.
use vstd::prelude::*;
use crate::text::{push_all, string_of, chars_of};

verus! {

/// An error of the styling code.
#[derive(Debug, Clone, PartialEq, Eq)]
pub enum Error {
    /// A property syntax could not be compiled.
    CssCompile(String),
}

impl Error {
    /// The message of the error: `css: compilation error: ` and the detail.
    pub fn message(&self) -> (s: String)
        ensures
            match self {
                Error::CssCompile(d) => s@ == "css: compilation error: "@ + d@,
            },
    {
        match self {
            Error::CssCompile(d) => {
                let mut v = chars_of("css: compilation error: ");
                push_all(&mut v, &chars_of(d.as_str()));
                string_of(v.as_slice())
            },
        }
    }
}

} // verus!
