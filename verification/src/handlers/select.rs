//! The worker for `SELECT`.
use vstd::prelude::*;
use vstd::string::StringExecFns;
use crate::connection::{Event, EventView, Request, RequestView};
use crate::handlers::{
    answer_with, answers, check, closes, event_views, one_status, refusal, refuse, single, validation, Handle,
    HandleCommand, Reply, ReplyView, ValidationError,
};
use crate::index::{Index, Mailbox, MailboxError, MailboxView, Permission};
use crate::server::{
    lemma_data_line_reads_back, lemma_info_line_reads_back, lemma_status_line_reads_back,
    response_views, Command, CommandView, Response, ResponseStatus, ResponseView,
};
use crate::text::{decimal, lemma_decimal_digits, u64_to_decimal};

verus! {

/// The verb that the worker serves.
pub const SELECT: &'static str = "SELECT";

/// The message for a session in which nobody is logged in.
pub const SELECT_UNAUTHENTICATED: &'static str =
    "cannot SELECT when un-authenticated. Please authenticate using LOGIN or AUTHENTICATE.";

/// The message for a mailbox that the index does not hand out, whatever its
/// reason.
pub const NO_SUCH_MAILBOX: &'static str = "No such mailbox";

/// The message of the line on the validity of the identifiers.
pub const UIDVALIDITY: &'static str = "[UIDVALIDITY 3857529045] UIDs valid";

/// The message of the line on the next identifier.
pub const UIDNEXT: &'static str = "[UIDNEXT 4392] Predicted next UID";

/// The message of the line on the flags that the mailbox knows.
pub const FLAGS: &'static str = "FLAGS (\\Answered \\Flagged \\Deleted \\Seen \\Draft)";

/// The message of the line on the flags that the client may set for good.
pub const PERMANENTFLAGS: &'static str = "[PERMANENTFLAGS (\\Deleted \\Seen \\*)] Limited";

/// The message of the line that ends the answer.
pub const SELECT_COMPLETED: &'static str = "[READ-WRITE] SELECT completed.";

/// The number of messages that the answer shows when nothing is known of
/// the mailbox.
pub const SAMPLE_COUNT: u64 = 172;

/// The name that the answer shows when nothing is known of the mailbox.
pub const SAMPLE_NAME: &'static str = "INBOX";

/// The message of the line on the number of messages.
pub open spec fn exists_line(count: u64) -> Seq<char> {
    decimal(count as nat) + " EXISTS"@
}

/// The message of the line that lists the mailbox.
pub open spec fn list_line(name: Seq<char>) -> Seq<char> {
    "LIST () \"/\" "@ + name
}

/// The batch that answers a `SELECT`, in the order that the protocol asks
/// for: six untagged lines, then the `OK` line.
pub open spec fn select_batch(tag: Seq<char>, count: u64, name: Seq<char>) -> Seq<ResponseView> {
    seq![
        ResponseView::data(exists_line(count)),
        ResponseView::info(ResponseStatus::OK, UIDVALIDITY@),
        ResponseView::info(ResponseStatus::OK, UIDNEXT@),
        ResponseView::data(FLAGS@),
        ResponseView::info(ResponseStatus::OK, PERMANENTFLAGS@),
        ResponseView::data(list_line(name)),
        ResponseView::tagged(tag, ResponseStatus::OK, SELECT_COMPLETED@),
    ]
}

/// What the worker does with a request before the index is asked: it
/// replies at once, or it has a mailbox to look up.
pub enum SelectPlanView {
    Reply(ReplyView),
    Lookup { name: Seq<char>, permission: Permission },
}

/// What the worker does with a request before the index is asked.
pub enum SelectPlan {
    Reply(Reply),
    Lookup { name: String, permission: Permission },
}

impl View for SelectPlan {
    type V = SelectPlanView;

    open spec fn view(&self) -> SelectPlanView {
        match self {
            SelectPlan::Reply(reply) => SelectPlanView::Reply(reply@),
            SelectPlan::Lookup { name, permission } => SelectPlanView::Lookup {
                name: name@,
                permission: *permission,
            },
        }
    }
}

/// The plan for a request. A command that is not valid is refused. Without
/// a user the answer is `NO`, and the index is not asked. Otherwise the
/// first argument is looked up, for reading and writing.
pub open spec fn select_plan(request: RequestView) -> SelectPlanView {
    match validation(request.command, SELECT@, 1) {
        Err(error) => SelectPlanView::Reply(refusal(request.command.tag, error)),
        Ok(()) => if !request.context.is_authenticated() {
            SelectPlanView::Reply(
                single(request.command.tag, ResponseStatus::NO, SELECT_UNAUTHENTICATED@),
            )
        } else {
            SelectPlanView::Lookup {
                name: request.command.args[0],
                permission: Permission::ReadWrite,
            }
        },
    }
}

/// The reply once the index has answered. For a mailbox: the selection of
/// the folder as the client named it, and the batch with the mailbox's
/// number of messages. For a failure: a `NO` line and no event.
pub open spec fn select_answer(command: CommandView, outcome: Option<MailboxView>) -> ReplyView {
    match outcome {
        Some(mailbox) => ReplyView {
            events: seq![EventView::SELECT(command.arg(0))],
            responses: select_batch(command.tag, mailbox.count, command.arg(0)),
        },
        None => single(command.tag, ResponseStatus::NO, NO_SUCH_MAILBOX@),
    }
}

/// Whether none of the requests leads to a lookup: the plan for each of them
/// is a reply.
pub open spec fn no_lookup(requests: Seq<Request>) -> bool {
    forall|i: int| 0 <= i < requests.len() ==> select_plan((#[trigger] requests[i])@) is Reply
}

/// What a reply to a request for `SELECT` can be: the reply of the plan,
/// where the plan has one; otherwise the answer to one of the outcomes that
/// the index can have.
pub open spec fn select_reply(request: RequestView, reply: ReplyView) -> bool {
    match select_plan(request) {
        SelectPlanView::Reply(planned) => reply == planned,
        SelectPlanView::Lookup { .. } => reply == select_answer(request.command, None) || exists|
            mailbox: MailboxView,
        | reply == select_answer(request.command, Some(mailbox)),
    }
}

/// A `SELECT` in a session without a user is answered `NO`, with the message
/// for it, and leads to no lookup. This holds of every valid command; one
/// without an argument is refused before the session is looked at.
pub proof fn lemma_select_needs_login(request: RequestView)
    requires
        validation(request.command, SELECT@, 1) is Ok,
        !request.context.is_authenticated(),
    ensures
        select_plan(request) == SelectPlanView::Reply(
            single(request.command.tag, ResponseStatus::NO, SELECT_UNAUTHENTICATED@),
        ),
        forall|reply: ReplyView| #[trigger]
            select_reply(request, reply) ==> reply.events.len() == 0 && reply.responses.len() == 1
                && reply.responses[0].status == Some(ResponseStatus::NO),
{
}

/// Every reply to a request for `SELECT` ends with the one line that is
/// under the command's tag, after untagged lines only. Unless it selects a
/// folder, it holds exactly one line with a status. The batch for a selected
/// folder holds three more, untagged, that carry `OK` for information.
pub proof fn lemma_select_one_status(request: RequestView, reply: ReplyView)
    requires
        select_reply(request, reply),
    ensures
        closes(request.command.tag, reply.responses),
        reply.events.len() == 0 ==> one_status(reply.responses),
        reply.events.len() != 0 ==> reply.responses.len() == 7 && reply.responses[1].status
            is Some && reply.responses[1].untagged(),
{
}

/// Every line of the batch for a selected folder is read back as itself
/// from what is written for it, where the command's tag holds no space.
pub proof fn lemma_select_batch_reads_back(tag: Seq<char>, count: u64, name: Seq<char>)
    requires
        !tag.contains(' '),
    ensures
        forall|i: int|
            0 <= i < 7 ==> Response::parse_spec((#[trigger] select_batch(tag, count, name)[i]).line())
                == Some(select_batch(tag, count, name)[i]),
{
    reveal_strlit("OK");
    reveal_strlit("BAD");
    reveal_strlit("NO");
    let lines = select_batch(tag, count, name);
    assert(Response::parse_spec(lines[0].line()) == Some(lines[0])) by {
        reveal_strlit(" EXISTS");
        reveal_strlit("EXISTS");
        let word = decimal(count as nat);
        lemma_decimal_digits(count as nat);
        assert(!word.contains(' ')) by {
            assert forall|k: int| 0 <= k < word.len() implies word[k] != ' ' by {}
        }
        assert(word[0] != 'O' && word[0] != 'B' && word[0] != 'N');
        assert(exists_line(count) =~= word + seq![' '] + "EXISTS"@);
        lemma_data_line_reads_back(word, "EXISTS"@);
    }
    lemma_info_line_reads_back(ResponseStatus::OK, UIDVALIDITY@);
    lemma_info_line_reads_back(ResponseStatus::OK, UIDNEXT@);
    assert(Response::parse_spec(lines[3].line()) == Some(lines[3])) by {
        reveal_strlit("FLAGS (\\Answered \\Flagged \\Deleted \\Seen \\Draft)");
        reveal_strlit("FLAGS");
        reveal_strlit("(\\Answered \\Flagged \\Deleted \\Seen \\Draft)");
        let word = "FLAGS"@;
        let rest = "(\\Answered \\Flagged \\Deleted \\Seen \\Draft)"@;
        assert(!word.contains(' ')) by {
            assert forall|k: int| 0 <= k < word.len() implies word[k] != ' ' by {}
        }
        assert(word.len() == 5);
        assert(FLAGS@ =~= word + seq![' '] + rest);
        lemma_data_line_reads_back(word, rest);
    }
    lemma_info_line_reads_back(ResponseStatus::OK, PERMANENTFLAGS@);
    assert(Response::parse_spec(lines[5].line()) == Some(lines[5])) by {
        reveal_strlit("LIST () \"/\" ");
        reveal_strlit("LIST");
        reveal_strlit("() \"/\" ");
        let word = "LIST"@;
        let rest = "() \"/\" "@ + name;
        assert(!word.contains(' ')) by {
            assert forall|k: int| 0 <= k < word.len() implies word[k] != ' ' by {}
        }
        assert(word.len() == 4);
        assert(list_line(name) =~= word + seq![' '] + rest);
        lemma_data_line_reads_back(word, rest);
    }
    lemma_status_line_reads_back(tag, ResponseStatus::OK, SELECT_COMPLETED@);
}

/// The batch that answers a `SELECT`.
pub fn batch(tag: &str, count: u64, name: &str) -> (r: Vec<Response>)
    ensures
        response_views(r@) == select_batch(tag@, count, name@),
{
    let mut exists = u64_to_decimal(count);
    exists.append(" EXISTS");
    let mut list = String::from_str("LIST () \"/\" ");
    list.append(name);
    let r = vec![
        Response::untagged(exists.as_str()),
        Response::new("*", ResponseStatus::OK, UIDVALIDITY),
        Response::new("*", ResponseStatus::OK, UIDNEXT),
        Response::untagged(FLAGS),
        Response::new("*", ResponseStatus::OK, PERMANENTFLAGS),
        Response::untagged(list.as_str()),
        Response::new(tag, ResponseStatus::OK, SELECT_COMPLETED),
    ];
    assert(response_views(r@) =~= select_batch(tag@, count, name@));
    r
}

/// The worker for `SELECT`, on top of an index.
pub struct SelectHandler<I: Index> {
    index: I,
}

impl<I: Index> SelectHandler<I> {
    /// The index that the worker asks.
    pub closed spec fn index(&self) -> I {
        self.index
    }

    /// A worker on top of an index.
    #[must_use]
    pub fn new(index: I) -> (r: Self)
        ensures
            r.index() == index,
    {
        Self { index }
    }

    /// The plan for a request.
    pub fn plan(&self, request: &Request) -> (r: SelectPlan)
        ensures
            r@ == select_plan(request@),
    {
        match self.validate(&request.command) {
            Err(error) => SelectPlan::Reply(refuse(&request.command, error)),
            Ok(()) => {
                if !request.context.is_authenticated() {
                    SelectPlan::Reply(
                        answer_with(
                            request.command.tag().as_str(),
                            ResponseStatus::NO,
                            SELECT_UNAUTHENTICATED,
                        ),
                    )
                } else {
                    SelectPlan::Lookup {
                        name: request.command.arg(0),
                        permission: Permission::ReadWrite,
                    }
                }
            },
        }
    }

    /// The reply once the index has answered.
    pub fn answer(&self, command: &Command, outcome: Result<Mailbox, MailboxError>) -> (r: Reply)
        ensures
            r@ == select_answer(
                command@,
                match outcome {
                    Ok(mailbox) => Some(mailbox@),
                    Err(_) => None,
                },
            ),
            closes(command@.tag, r@.responses),
    {
        let tag = command.tag();
        match outcome {
            Ok(mailbox) => {
                let folder = command.arg(0);
                let responses = batch(tag.as_str(), mailbox.count, folder.as_str());
                let events = vec![Event::SELECT(folder)];
                proof {
                    assert(event_views(events@) =~= seq![EventView::SELECT(command@.arg(0))]);
                }
                Reply { events, responses }
            },
            Err(_) => answer_with(tag.as_str(), ResponseStatus::NO, NO_SUCH_MAILBOX),
        }
    }

    /// The reply to one request: the plan, the index's answer where the plan
    /// asks for it, and the reply to that answer. Where the plan is a reply,
    /// the index is not asked and stays as it is.
    pub fn reply(&mut self, request: &Request) -> (r: Reply)
        ensures
            select_reply(request@, r@),
            answers(*request, r),
            select_plan(request@) is Reply ==> final(self).index() == old(self).index(),
    {
        match self.plan(request) {
            SelectPlan::Reply(planned) => planned,
            SelectPlan::Lookup { name, permission } => {
                let outcome = self.index.get_mailbox(name.as_str(), permission);
                self.answer(&request.command, outcome)
            },
        }
    }
}

impl<I: Index> HandleCommand for SelectHandler<I> {
    open spec fn verb(&self) -> Seq<char> {
        SELECT@
    }

    open spec fn min_args(&self) -> nat {
        1
    }

    fn name(&self) -> (r: &'static str) {
        SELECT
    }

    fn validate(&self, command: &Command) -> (r: Result<(), ValidationError>) {
        check(command, SELECT, 1)
    }

    open spec fn batch(&self, command: CommandView) -> Seq<ResponseView> {
        select_batch(command.tag, SAMPLE_COUNT, SAMPLE_NAME@)
    }

    fn handle(&self, command: &Command) -> (r: Vec<Response>) {
        batch(command.tag().as_str(), SAMPLE_COUNT, SAMPLE_NAME)
    }
}

impl<I: Index> Handle for SelectHandler<I> {
    fn command(&self) -> (r: &'static str)
        ensures
            r@ == SELECT@,
    {
        SELECT
    }

    /// The index is asked for the requests whose plan is a lookup, and for
    /// no other: where no plan is a lookup, it stays as it is.
    fn start(&mut self, requests: Vec<Request>) -> (replies: Vec<Reply>)
        ensures
            forall|i: int|
                0 <= i < replies.len() ==> select_reply(requests[i]@, (#[trigger] replies[i])@),
            no_lookup(requests@) ==> final(self).index() == old(self).index(),
    {
        let mut replies: Vec<Reply> = Vec::new();
        let mut i: usize = 0;
        while i < requests.len()
            invariant
                i <= requests.len(),
                replies.len() == i,
                forall|k: int| 0 <= k < i ==> answers(#[trigger] requests[k], replies[k]),
                forall|k: int|
                    0 <= k < i ==> select_reply(requests[k]@, (#[trigger] replies[k])@),
                no_lookup(requests@.take(i as int)) ==> self.index() == old(self).index(),
            decreases requests.len() - i,
        {
            proof {
                if no_lookup(requests@.take(i + 1)) {
                    assert(requests@.take(i + 1)[i as int] == requests@[i as int]);
                    assert forall|k: int| 0 <= k < i implies select_plan(
                        (#[trigger] requests@.take(i as int)[k])@,
                    ) is Reply by {
                        assert(requests@.take(i + 1)[k] == requests@.take(i as int)[k]);
                    }
                }
            }
            let reply = self.reply(&requests[i]);
            replies.push(reply);
            i += 1;
        }
        assert(requests@.take(i as int) =~= requests@);
        replies
    }
}

} // verus!
