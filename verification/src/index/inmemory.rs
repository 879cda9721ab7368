//! An index that lives in memory.
use vstd::prelude::*;
use vstd::string::StringExecFns;
use crate::index::{Index, Mailbox, MailboxError, MailboxView, Permission};
use crate::lookup::{distinct, find, first_at, lemma_first_at_push, names, Named};
use crate::text::{same_text, to_upper, upper};

verus! {

/// The names of a sequence of mailboxes, in order.
pub open spec fn mailbox_names(boxes: Seq<MailboxView>) -> Seq<Seq<char>> {
    Seq::new(boxes.len(), |i: int| boxes[i].name)
}

/// The first mailbox of a name in a sequence of mailboxes, if there is one.
pub open spec fn first_mailbox(boxes: Seq<MailboxView>, name: Seq<char>) -> Option<MailboxView> {
    match first_at(mailbox_names(boxes), name) {
        Some(i) => Some(boxes[i]),
        None => None,
    }
}

/// The views of a sequence of mailboxes, in order.
pub open spec fn mailbox_views(boxes: Seq<Mailbox>) -> Seq<MailboxView> {
    Seq::new(boxes.len(), |i: int| boxes[i]@)
}

/// A mailbox as the index first holds it: empty, without flags, read-only.
pub open spec fn fresh(name: Seq<char>) -> MailboxView {
    MailboxView { name, count: 0, flags: Seq::empty(), permission: Permission::ReadOnly }
}

/// Whether a name is that of the inbox, whatever the case of its letters.
pub open spec fn is_inbox(name: Seq<char>) -> bool {
    upper(name) == "INBOX"@
}

impl Named for Mailbox {
    open spec fn named(&self) -> Seq<char> {
        self@.name
    }

    fn has_name(&self, name: &str) -> (r: bool) {
        same_text(self.name.as_str(), name)
    }
}

/// No mailbox of that name is in the index.
#[derive(Debug)]
pub struct MailboxDoesNotExist {
    name: String,
}

impl MailboxDoesNotExist {
    /// The name of the mailbox.
    pub closed spec fn name(&self) -> Seq<char> {
        self.name@
    }

    /// The error for a mailbox name.
    pub fn new(name: &str) -> (r: Self)
        ensures
            r.name() == name@,
    {
        MailboxDoesNotExist { name: name.to_owned() }
    }

    /// The error as text.
    pub fn to_string(&self) -> (r: String)
        ensures
            r@ == "Mailbox "@ + self.name() + " does not exist"@,
    {
        let mut out = String::from_str("Mailbox ");
        out.append(self.name.as_str());
        out.append(" does not exist");
        out
    }
}

/// Mailboxes in memory, in the order in which they came; no two share a name.
pub struct InMemoryIndex {
    mailboxes: Vec<Mailbox>,
}

impl View for InMemoryIndex {
    type V = Seq<MailboxView>;

    closed spec fn view(&self) -> Seq<MailboxView> {
        mailbox_views(self.mailboxes@)
    }
}

impl InMemoryIndex {
    /// No two mailboxes of the index share a name. A new index is so, and
    /// both operations keep it so.
    pub open spec fn well_formed(&self) -> bool {
        distinct(mailbox_names(self@))
    }

    /// What a lookup answers, given the mailboxes that the index holds: the
    /// mailbox of that very name with the permission asked for; else, for a
    /// name of the inbox, the inbox as it is held, or as it is first made;
    /// else nothing.
    pub open spec fn lookup(boxes: Seq<MailboxView>, name: Seq<char>, permission: Permission)
        -> Option<MailboxView> {
        match first_mailbox(boxes, name) {
            Some(found) => Some(MailboxView { permission, ..found }),
            None => if is_inbox(name) {
                match first_mailbox(boxes, "INBOX"@) {
                    Some(inbox) => Some(inbox),
                    None => Some(fresh("INBOX"@)),
                }
            } else {
                None
            },
        }
    }

    /// What a lookup leaves in the index: one more mailbox, the inbox, where
    /// it was asked for under one of its names and was not there.
    pub open spec fn after_lookup(boxes: Seq<MailboxView>, name: Seq<char>) -> Seq<MailboxView> {
        if first_mailbox(boxes, name) is None && is_inbox(name) && first_mailbox(
            boxes,
            "INBOX"@,
        ) is None {
            boxes.push(fresh("INBOX"@))
        } else {
            boxes
        }
    }

    /// The position of the first mailbox of a name.
    fn position(&self, name: &str) -> (r: Option<usize>)
        ensures
            match r {
                Some(i) => i < self.mailboxes.len() && first_mailbox(self@, name@) == Some(
                    self.mailboxes[i as int]@,
                ),
                None => first_mailbox(self@, name@) is None,
            },
    {
        assert(names(self.mailboxes@) =~= mailbox_names(self@));
        find(&self.mailboxes, name)
    }

    /// An index without mailboxes.
    pub fn new() -> (r: Self)
        ensures
            r@ == Seq::<MailboxView>::empty(),
            r.well_formed(),
    {
        let r = Self { mailboxes: Vec::new() };
        assert(r@ =~= Seq::<MailboxView>::empty());
        r
    }
}

impl Index for InMemoryIndex {
    /// Takes in an empty read-only mailbox of the given mailbox's name, at
    /// the end, unless one of that name is held already; then the index stays
    /// as it was.
    fn add_mailbox(&mut self, mailbox: Mailbox) -> (r: Result<(), MailboxError>)
        ensures
            match r {
                Ok(()) => first_mailbox(old(self)@, mailbox@.name) is None && final(self)@ == old(
                    self,
                )@.push(fresh(mailbox@.name)),
                Err(MailboxError::Exists(name)) => first_mailbox(old(self)@, mailbox@.name)
                    is Some && name@ == mailbox@.name && final(self)@ == old(self)@,
                Err(_) => false,
            },
            old(self).well_formed() ==> final(self).well_formed(),
    {
        match self.position(mailbox.name.as_str()) {
            Some(_) => Err(MailboxError::Exists(mailbox.name.clone())),
            None => {
                let held = Mailbox::new(mailbox.name.as_str(), 0, Vec::new(), Permission::ReadOnly);
                proof {
                    assert(held@.flags =~= fresh(mailbox@.name).flags);
                    lemma_first_at_push(mailbox_names(self@), held@.name, held@.name);
                    assert(mailbox_views(self.mailboxes@.push(held)) =~= mailbox_views(
                        self.mailboxes@,
                    ).push(held@));
                    assert(mailbox_names(self@.push(held@)) =~= mailbox_names(self@).push(
                        held@.name,
                    ));
                }
                self.mailboxes.push(held);
                Ok(())
            },
        }
    }

    /// The mailbox of a name, with the permission asked for. The inbox is
    /// made on its first lookup, under any spelling of its name, and is then
    /// handed out as it is held: read-only.
    fn get_mailbox(&mut self, name: &str, permission: Permission) -> (r: Result<
        Mailbox,
        MailboxError,
    >)
        ensures
            match r {
                Ok(mailbox) => InMemoryIndex::lookup(old(self)@, name@, permission) == Some(
                    mailbox@,
                ),
                Err(MailboxError::DoesNotExist(missing)) => InMemoryIndex::lookup(
                    old(self)@,
                    name@,
                    permission,
                ) is None && missing@ == name@,
                Err(_) => false,
            },
            final(self)@ == InMemoryIndex::after_lookup(old(self)@, name@),
            old(self).well_formed() ==> final(self).well_formed(),
    {
        match self.position(name) {
            Some(i) => {
                let found = self.mailboxes[i].clone();
                Ok(Mailbox { permission, ..found })
            },
            None => {
                if same_text(to_upper(name).as_str(), "INBOX") {
                    match self.position("INBOX") {
                        Some(i) => Ok(self.mailboxes[i].clone()),
                        None => {
                            let inbox = Mailbox::new(
                                "INBOX",
                                0,
                                Vec::new(),
                                Permission::ReadOnly,
                            );
                            let handed = inbox.clone();
                            proof {
                                assert(inbox@.flags =~= fresh("INBOX"@).flags);
                                lemma_first_at_push(
                                    mailbox_names(self@),
                                    inbox@.name,
                                    inbox@.name,
                                );
                                assert(mailbox_views(self.mailboxes@.push(inbox))
                                    =~= mailbox_views(self.mailboxes@).push(inbox@));
                                assert(mailbox_names(self@.push(inbox@)) =~= mailbox_names(
                                    self@,
                                ).push(inbox@.name));
                            }
                            self.mailboxes.push(inbox);
                            Ok(handed)
                        },
                    }
                } else {
                    Err(MailboxError::DoesNotExist(name.to_owned()))
                }
            },
        }
    }
}

} // verus!
