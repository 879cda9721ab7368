//! The requests that travel between the keeper of the mailboxes and the
//! index behind it.
use vstd::prelude::*;
use crate::index::Mailbox;

verus! {

/// What the index can be asked for: a mailbox by its name, or a message by
/// three names.
#[derive(Debug)]
pub enum IndexRequest {
    Mailbox(String),
    Message(String, String, String),
}

/// What the keeper of the mailboxes can be asked to do.
#[derive(Debug)]
pub enum MailboxRequest {
    Get(String),
    Add(Mailbox),
}

/// The keeper of the mailboxes. It stands in front of the index and turns
/// what it is asked into what the index is asked.
pub struct Mailboxes {}

impl Mailboxes {
    /// What the index is asked for a request: the mailbox of the same name
    /// for a `Get`, nothing for any other.
    pub open spec fn forwards(data: MailboxRequest) -> Option<IndexRequest> {
        match data {
            MailboxRequest::Get(mailbox) => Some(IndexRequest::Mailbox(mailbox)),
            MailboxRequest::Add(_) => None,
        }
    }

    /// A keeper.
    pub fn new() -> Self {
        Mailboxes {  }
    }

    /// Handles one request: says what to ask the index, if anything.
    pub fn handle(&mut self, data: MailboxRequest) -> (r: Option<IndexRequest>)
        ensures
            r == Mailboxes::forwards(data),
    {
        match data {
            MailboxRequest::Get(mailbox) => Some(IndexRequest::Mailbox(mailbox)),
            _ => None,
        }
    }
}

} // verus!
