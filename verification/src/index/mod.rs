//! Mailboxes and the index that resolves their names.
pub mod inmemory;

use vstd::prelude::*;
use vstd::string::StringExecFns;

verus! {

/// What a session may do with a mailbox.
#[derive(Debug, Clone, Copy, PartialEq, Eq, Structural)]
pub enum Permission {
    ReadOnly,
    ReadWrite,
}

/// What a flag holds.
pub struct FlagView {
    pub value: Seq<char>,
    pub permanent: bool,
}

/// A flag that messages of a mailbox can carry.
#[derive(Debug)]
pub struct Flag {
    pub value: String,
    pub permanent: bool,
}

impl View for Flag {
    type V = FlagView;

    open spec fn view(&self) -> FlagView {
        FlagView { value: self.value@, permanent: self.permanent }
    }
}

impl Clone for Flag {
    fn clone(&self) -> (r: Self)
        ensures
            r@ == self@,
    {
        Flag { value: self.value.clone(), permanent: self.permanent }
    }
}

/// The views of a sequence of flags, in order.
pub open spec fn flag_views(flags: Seq<Flag>) -> Seq<FlagView> {
    Seq::new(flags.len(), |i: int| flags[i]@)
}

/// What a mailbox descriptor holds.
pub struct MailboxView {
    pub name: Seq<char>,
    pub count: u64,
    pub flags: Seq<FlagView>,
    pub permission: Permission,
}

/// A mailbox as an index describes it to one session. The permission is
/// what that session was granted, not a property of the mailbox.
#[derive(Debug)]
pub struct Mailbox {
    pub name: String,
    pub count: u64,
    pub flags: Vec<Flag>,
    pub permission: Permission,
}

impl View for Mailbox {
    type V = MailboxView;

    open spec fn view(&self) -> MailboxView {
        MailboxView {
            name: self.name@,
            count: self.count,
            flags: flag_views(self.flags@),
            permission: self.permission,
        }
    }
}

impl Clone for Mailbox {
    fn clone(&self) -> (r: Self)
        ensures
            r@ == self@,
    {
        let mut flags: Vec<Flag> = Vec::new();
        let mut i: usize = 0;
        while i < self.flags.len()
            invariant
                i <= self.flags.len(),
                flag_views(flags@) == flag_views(self.flags@).take(i as int),
            decreases self.flags.len() - i,
        {
            let flag = self.flags[i].clone();
            proof {
                assert(flag_views(flags@.push(flag)) =~= flag_views(flags@).push(flag@));
                assert(flag_views(self.flags@).take(i + 1) =~= flag_views(self.flags@).take(
                    i as int,
                ).push(self.flags@[i as int]@));
            }
            flags.push(flag);
            i += 1;
        }
        assert(flag_views(self.flags@).take(i as int) =~= flag_views(self.flags@));
        Mailbox { name: self.name.clone(), count: self.count, flags, permission: self.permission }
    }
}

impl Mailbox {
    /// A descriptor from its parts.
    pub fn new(name: &str, count: u64, flags: Vec<Flag>, permission: Permission) -> (r: Self)
        ensures
            r@ == (MailboxView { name: name@, count, flags: flag_views(flags@), permission }),
    {
        Self { name: name.to_owned(), count, flags, permission }
    }
}

/// A request to an index for one mailbox.
#[derive(Debug)]
pub struct GetMailboxRequest {
    pub name: String,
    pub permission: Permission,
}

/// Why an index refused. `Exists` and `DoesNotExist` name the mailbox;
/// `InsufficientPermissions` names the mailbox, the user and what was asked.
#[derive(Debug)]
pub enum MailboxError {
    Exists(String),
    DoesNotExist(String),
    InsufficientPermissions(String, String, String),
}

impl MailboxError {
    /// The text of the error.
    pub open spec fn text(self) -> Seq<char> {
        match self {
            MailboxError::Exists(name) => "Mailbox "@ + name@ + " already exists"@,
            MailboxError::DoesNotExist(name) => "Mailbox "@ + name@ + " does not exist"@,
            MailboxError::InsufficientPermissions(name, username, requested) => "User "@
                + username@ + " does not have sufficient permissions to "@ + requested@
                + " on mailbox "@ + name@,
        }
    }

    /// The error as text.
    pub fn to_string(&self) -> (r: String)
        ensures
            r@ == self.text(),
    {
        match self {
            MailboxError::Exists(name) => {
                let mut out = String::from_str("Mailbox ");
                out.append(name.as_str());
                out.append(" already exists");
                out
            },
            MailboxError::DoesNotExist(name) => {
                let mut out = String::from_str("Mailbox ");
                out.append(name.as_str());
                out.append(" does not exist");
                out
            },
            MailboxError::InsufficientPermissions(name, username, requested) => {
                let mut out = String::from_str("User ");
                out.append(username.as_str());
                out.append(" does not have sufficient permissions to ");
                out.append(requested.as_str());
                out.append(" on mailbox ");
                out.append(name.as_str());
                out
            },
        }
    }
}

/// What a request is answered, given what the lookup gave: the mailbox, or
/// nothing for a failure, whatever the failure was.
pub fn answer_of(outcome: Result<Mailbox, MailboxError>) -> (r: Option<Mailbox>)
    ensures
        r == match outcome {
            Ok(mailbox) => Some(mailbox),
            Err(_) => None,
        },
{
    match outcome {
        Ok(mailbox) => Some(mailbox),
        Err(_) => None,
    }
}

/// Resolves mailbox names for sessions.
pub trait Index {
    /// Takes a mailbox in.
    fn add_mailbox(&mut self, mailbox: Mailbox) -> Result<(), MailboxError>;

    /// The mailbox of a name, with the permission that the session is granted.
    fn get_mailbox(&mut self, name: &str, permission: Permission) -> Result<Mailbox, MailboxError>;

    /// Answers requests in the order in which they came: each gets the
    /// mailbox that `get_mailbox` finds for it, or nothing where that fails.
    fn start(&mut self, requests: Vec<GetMailboxRequest>) -> (r: Vec<Option<Mailbox>>)
        ensures
            r.len() == requests.len(),
    {
        let mut answers: Vec<Option<Mailbox>> = Vec::new();
        let mut i: usize = 0;
        while i < requests.len()
            invariant
                i <= requests.len(),
                answers.len() == i,
            decreases requests.len() - i,
        {
            let outcome = self.get_mailbox(requests[i].name.as_str(), requests[i].permission);
            answers.push(answer_of(outcome));
            i += 1;
        }
        answers
    }
}

} // verus!
