//! Failures and their kinds.

use vstd::prelude::*;

verus! {

/// The machine-checkable kind of a failure.
#[derive(Clone, Copy, Debug, PartialEq, Eq, Structural)]
pub enum ErrorKind {
    /// An address could not be parsed or resolved, or the connection was not made.
    Connect,
    /// A listener could not be bound.
    Bind,
    /// An incoming connection could not be accepted.
    Accept,
    /// The operating system reported an error on an open handle.
    Io,
    /// A configured deadline elapsed with no data.
    Timeout,
    /// Bytes were not valid UTF-8, or JSON text was malformed.
    Decode,
    /// A value nests deeper than the bridge converts.
    TooDeep,
    /// An argument was missing, superfluous or of the wrong type.
    Type,
    /// The handle was closed, or of the wrong role for the operation.
    State,
}

/// A failure as the calling script sees it: a kind and a readable message.
#[derive(Clone, Debug, PartialEq, Eq)]
pub struct Failure {
    pub kind: ErrorKind,
    pub message: String,
}

/// What a [`Failure`] states: its kind and the characters of its message.
pub ghost struct FailureModel {
    pub kind: ErrorKind,
    pub message: Seq<char>,
}

impl View for Failure {
    type V = FailureModel;

    open spec fn view(&self) -> FailureModel {
        FailureModel { kind: self.kind, message: self.message@ }
    }
}

/// A result by what it states: what its value stands for, or what its
/// failure states.
pub open spec fn stated<T: View>(result: Result<T, Failure>) -> Result<T::V, FailureModel> {
    match result {
        Ok(value) => Ok(value@),
        Err(failure) => Err(failure@),
    }
}

impl ErrorKind {
    /// The tag under which scripts test for this kind.
    pub open spec fn tag_text(self) -> Seq<char> {
        match self {
            ErrorKind::Connect => "CONNECT"@,
            ErrorKind::Bind => "BIND"@,
            ErrorKind::Accept => "ACCEPT"@,
            ErrorKind::Io => "IO"@,
            ErrorKind::Timeout => "TIMEOUT"@,
            ErrorKind::Decode => "DECODE"@,
            ErrorKind::TooDeep => "STRUCTURE-TOO-DEEP"@,
            ErrorKind::Type => "TYPE"@,
            ErrorKind::State => "STATE"@,
        }
    }

    /// The tag under which scripts test for this kind.
    pub fn tag(self) -> (text: &'static str)
        ensures
            text@ == self.tag_text(),
    {
        match self {
            ErrorKind::Connect => "CONNECT",
            ErrorKind::Bind => "BIND",
            ErrorKind::Accept => "ACCEPT",
            ErrorKind::Io => "IO",
            ErrorKind::Timeout => "TIMEOUT",
            ErrorKind::Decode => "DECODE",
            ErrorKind::TooDeep => "STRUCTURE-TOO-DEEP",
            ErrorKind::Type => "TYPE",
            ErrorKind::State => "STATE",
        }
    }
}

impl Failure {
    /// A failure of the given kind with the given message.
    pub fn new(kind: ErrorKind, message: &str) -> (failure: Failure)
        ensures
            failure@ == (FailureModel { kind, message: message@ }),
    {
        Failure { kind, message: message.to_owned() }
    }

    /// The text shown to the script: the kind's tag, a colon and the message.
    pub open spec fn rendered(&self) -> Seq<char> {
        self.kind.tag_text() + ": "@ + self.message@
    }

    /// Renders the failure as the kind's tag, a colon and the message.
    pub fn render(&self) -> (text: String)
        ensures
            text@ == self.rendered(),
    {
        let mut text = self.kind.tag().to_owned();
        text.append(": ");
        text.append(self.message.as_str());
        text
    }
}

} // verus!
