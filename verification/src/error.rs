//! What can go wrong.

use vstd::prelude::*;

verus! {

/// The failures that the library reports.
#[derive(Debug)]
pub enum Error {
    /// The binary could not be loaded.
    Load(String),
    /// The decompilation pipeline refused a request.
    Pipeline(String),
    /// Optimising a module, or generating code for it, failed.
    Codegen(String),
}

/// An [`Error`] with its message as a sequence of characters.
pub enum Failure {
    Load(Seq<char>),
    Pipeline(Seq<char>),
    Codegen(Seq<char>),
}

impl View for Error {
    type V = Failure;

    open spec fn view(&self) -> Failure {
        match *self {
            Error::Load(message) => Failure::Load(message@),
            Error::Pipeline(message) => Failure::Pipeline(message@),
            Error::Codegen(message) => Failure::Codegen(message@),
        }
    }
}

impl Error {
    /// A failure of the pipeline.
    pub fn pipeline(message: &str) -> (error: Error)
        ensures
            error@ == Failure::Pipeline(message@),
    {
        Error::Pipeline(message.to_owned())
    }

    /// A failure of code generation.
    pub fn codegen(message: String) -> (error: Error)
        ensures
            error@ == Failure::Codegen(message@),
    {
        Error::Codegen(message)
    }

    /// What went wrong, in words.
    pub fn message(&self) -> (message: &str)
        ensures
            match self@ {
                Failure::Load(text) => message@ == text,
                Failure::Pipeline(text) => message@ == text,
                Failure::Codegen(text) => message@ == text,
            },
    {
        match self {
            Error::Load(message) => message.as_str(),
            Error::Pipeline(message) => message.as_str(),
            Error::Codegen(message) => message.as_str(),
        }
    }
}

/// A failure is of the kind of the error, and has its message.
pub proof fn failure_has_the_message(message: String)
    ensures
        Error::Load(message)@ == Failure::Load(message@),
        Error::Pipeline(message)@ == Failure::Pipeline(message@),
        Error::Codegen(message)@ == Failure::Codegen(message@),
{
}

} // verus!
