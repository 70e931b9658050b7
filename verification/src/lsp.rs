//! Servers that know a programming language.
use vstd::prelude::*;
use crate::text::concat2;

verus! {

/// Why such a server failed.
#[derive(Debug)]
pub enum Error {
    Protocol(String),
}

impl View for Error {
    type V = Seq<char>;

    open spec fn view(&self) -> Seq<char> {
        match self {
            Error::Protocol(s) => s@,
        }
    }
}

impl Error {
    /// The text of the error.
    pub fn text(&self) -> (r: String)
        ensures
            r@ == "error de protocolo LSP: "@ + self@,
    {
        match self {
            Error::Protocol(s) => concat2("error de protocolo LSP: ", s.as_str()),
        }
    }
}

} // verus!
