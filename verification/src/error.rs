//! The error type shared by every stage.
use vstd::prelude::*;

verus! {

/// What went wrong, by the kind of failure.
#[derive(Debug, Clone, Copy, PartialEq, Eq, Structural)]
pub enum ErrorKind {
    /// The configuration was rejected.
    Config,
    /// A file could not be opened or created.
    IoOpen,
    /// Reading the input failed.
    IoRead,
    /// Writing the output failed.
    IoWrite,
    /// A message could not be sent because its channel is closed.
    ChannelClosed,
}

/// A fatal failure of one stage, with the text shown to the operator.
#[derive(Debug, Clone, PartialEq, Eq)]
pub struct Error {
    pub kind: ErrorKind,
    pub message: String,
}

/// An error, with its message as a sequence of characters.
pub struct ErrorView {
    pub kind: ErrorKind,
    pub message: Seq<char>,
}

impl View for Error {
    type V = ErrorView;

    open spec fn view(&self) -> ErrorView {
        ErrorView { kind: self.kind, message: self.message@ }
    }
}

impl Error {
    /// Builds an error of the given kind that carries `message` unchanged.
    pub fn new(kind: ErrorKind, message: String) -> (e: Error)
        ensures
            e.kind == kind,
            e.message@ == message@,
    {
        Error { kind, message }
    }
}

} // verus!
