//! The error of the blocking request path: what went wrong, and the tag of
//! the command that it went wrong for.
use vstd::prelude::*;
use vstd::string::StringExecFns;
use vstd::utf8::{decode_utf8, valid_utf8};
use crate::text::utf8;

verus! {

/// The kinds of failure that the server tells apart.
#[derive(Debug, Clone, Copy, PartialEq, Eq, Structural)]
pub enum ErrorKind {
    InvalidInput,
    InvalidData,
    ConnectionAborted,
    WouldBlock,
    TimedOut,
    Other,
}

/// Why something failed: the kind of failure and a message.
#[derive(Debug)]
pub struct Cause {
    kind: ErrorKind,
    message: String,
}

impl Cause {
    /// The message.
    pub closed spec fn message(&self) -> Seq<char> {
        self.message@
    }

    /// The kind of failure.
    pub closed spec fn kind_spec(&self) -> ErrorKind {
        self.kind
    }

    /// A cause from its kind and a message.
    pub fn new(kind: ErrorKind, message: &str) -> (r: Cause)
        ensures
            r.kind_spec() == kind,
            r.message() == message@,
    {
        Cause { kind, message: message.to_owned() }
    }

    /// The kind of failure.
    pub fn kind(&self) -> (r: ErrorKind)
        ensures
            r == self.kind_spec(),
    {
        self.kind
    }

    /// The message.
    pub fn to_string(&self) -> (r: String)
        ensures
            r@ == self.message(),
    {
        self.message.clone()
    }
}

/// What a request failed with. The tag is that of the command, as far as
/// it was read; it is empty where no tag was read.
#[derive(Debug)]
pub struct IMAPError {
    pub tag: Vec<u8>,
    pub cause: Cause,
}

impl IMAPError {
    /// The text of the error, for a tag that is text.
    pub open spec fn text(&self) -> Seq<char> {
        "IMAPError (tag: "@ + decode_utf8(self.tag@) + ", cause: "@ + self.cause.message() + ")"@
    }

    /// An error from a tag and a cause.
    pub fn new(tag: Vec<u8>, cause: Cause) -> (r: IMAPError)
        ensures
            r.tag == tag,
            r.cause == cause,
    {
        return IMAPError { tag: tag, cause: cause }
    }

    /// Whether the connection is lost, so that serving it must end.
    pub fn should_panic(&self) -> (r: bool)
        ensures
            r == (self.cause.kind_spec() == ErrorKind::ConnectionAborted),
    {
        return self.cause.kind() == ErrorKind::ConnectionAborted;
    }

    /// Whether the failure is one to retry after: nothing was there to read
    /// yet.
    pub fn can_ignore(&self) -> (r: bool)
        ensures
            r == (self.cause.kind_spec() == ErrorKind::WouldBlock || self.cause.kind_spec()
                == ErrorKind::TimedOut),
    {
        return self.cause.kind() == ErrorKind::WouldBlock || self.cause.kind()
            == ErrorKind::TimedOut;
    }

    /// The error as text. The tag must be text.
    pub fn to_string(&self) -> (r: String)
        requires
            valid_utf8(self.tag@),
        ensures
            r@ == self.text(),
    {
        let mut out = String::from_str("IMAPError (tag: ");
        match utf8(self.tag.as_slice()) {
            Some(tag) => {
                out.append(tag);
            },
            None => {},
        }
        out.append(", cause: ");
        out.append(self.cause.to_string().as_str());
        out.append(")");
        out
    }
}

} // verus!
