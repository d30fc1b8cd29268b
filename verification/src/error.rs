//! The error that the affinity operations report.

use vstd::prelude::*;

verus! {

/// What went wrong.
#[derive(Clone, Copy, Debug, PartialEq, Eq, Structural)]
pub enum ErrorKind {
    /// A status outside the documented ones came back, or an identifier has no bit in the mask.
    Unexpected,
    /// The system call failed and left an error number.
    SystemCall,
}

/// A failure with its kind and a message for people.
#[derive(Clone, Debug)]
pub struct Error {
    kind: ErrorKind,
    message: String,
}

/// The error number of the operating system, as the `errno` crate holds it.
#[verifier::external_type_specification]
#[verifier::external_body]
pub struct ExErrno(errno::Errno);

/// `errno::errno` reads the calling thread's current error number. It depends on what the
/// thread did last, so nothing is claimed of the value.
pub assume_specification[ errno::errno ]() -> (last: errno::Errno);

/// Whether `message` is a text that displaying the error number `code` can give. What text
/// that is depends on the system and its language; that it is the text of this number is
/// what the library can say.
pub open spec fn describes(code: errno::Errno, message: Seq<char>) -> bool {
    exists|text: String| #[trigger]
        vstd::string::to_string_from_display_ensures::<errno::Errno>(&code, text) && text@
            == message
}

impl View for Error {
    type V = (ErrorKind, Seq<char>);

    /// The kind, and the message as characters.
    closed spec fn view(&self) -> (ErrorKind, Seq<char>) {
        (self.kind, self.message@)
    }
}

impl Error {
    /// An error of the given kind with a copy of `message`.
    pub fn new(kind: ErrorKind, message: &str) -> (error: Error)
        ensures
            error@ == (kind, message@),
    {
        Error { kind, message: message.to_owned() }
    }

    /// The kind of failure.
    pub fn kind(&self) -> (kind: ErrorKind)
        ensures
            kind == self@.0,
    {
        self.kind
    }

    /// The message.
    pub fn message(&self) -> (message: &str)
        ensures
            message@ == self@.1,
    {
        self.message.as_str()
    }

    /// The error for a failed system call. Its message is the text that `code` displays as:
    /// the description of the error number that the `errno` crate gets from the system.
    pub fn from_errno(code: errno::Errno) -> (error: Error)
        ensures
            error@.0 == ErrorKind::SystemCall,
            describes(code, error@.1),
    {
        let text: String = code.to_string();
        Error::new(ErrorKind::SystemCall, text.as_str())
    }
}

} // verus!
