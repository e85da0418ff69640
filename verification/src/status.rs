//! Failure reports handed back to callers of the service operations.

use vstd::prelude::*;

verus! {

/// The class of a failure, as a caller has to tell them apart.
#[derive(Clone, Copy, Debug, PartialEq, Eq, Structural)]
pub enum Code {
    /// The request itself is unacceptable; retrying it unchanged cannot help.
    InvalidArgument,
    /// The operation belongs to a collaborator that does not exist yet.
    Unimplemented,
    /// The operation was cut short; the caller may start it afresh.
    Unavailable,
}

/// A failure: its class and a message for people.
#[derive(Clone, Debug, PartialEq, Eq)]
pub struct Status {
    pub code: Code,
    pub message: String,
}

/// What a `Status` says, with the message as a sequence of characters.
pub struct StatusView {
    pub code: Code,
    pub message: Seq<char>,
}

impl View for Status {
    type V = StatusView;

    open spec fn view(&self) -> StatusView {
        StatusView { code: self.code, message: self.message@ }
    }
}

impl Status {
    /// A failure of class `InvalidArgument` with the given message.
    pub fn invalid_argument(message: &str) -> (status: Status)
        ensures
            status@ == (StatusView { code: Code::InvalidArgument, message: message@ }),
    {
        Status { code: Code::InvalidArgument, message: message.to_owned() }
    }

    /// A failure of class `Unimplemented` with the given message.
    pub fn unimplemented(message: &str) -> (status: Status)
        ensures
            status@ == (StatusView { code: Code::Unimplemented, message: message@ }),
    {
        Status { code: Code::Unimplemented, message: message.to_owned() }
    }

    /// A failure of class `Unavailable` with the given message.
    pub fn unavailable(message: &str) -> (status: Status)
        ensures
            status@ == (StatusView { code: Code::Unavailable, message: message@ }),
    {
        Status { code: Code::Unavailable, message: message.to_owned() }
    }
}

} // verus!
