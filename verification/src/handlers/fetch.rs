//! The worker for `FETCH`.
use vstd::prelude::*;
use vstd::string::StringExecFns;
use vstd::utf8::{encode_utf8, is_ascii_chars, is_ascii_chars_encode_utf8};
use crate::connection::{Event, EventView, Request, RequestView};
use crate::handlers::{
    answer_with, answers, check, closes, event_views, one_status, refusal, refuse, single,
    validation, Handle, HandleCommand, Reply, ReplyView, ValidationError,
};
use crate::server::{
    lemma_data_line_reads_back, lemma_status_line_reads_back, response_views, Command,
    CommandView, Response, ResponseStatus, ResponseView,
};
use crate::text::{decimal, u64_to_decimal};

verus! {

/// The verb that the worker serves.
pub const FETCH: &'static str = "FETCH";

/// The message for a session in which nobody is logged in.
pub const FETCH_UNAUTHENTICATED: &'static str =
    "cannot FETCH when un-authenticated. Please authenticate using LOGIN or AUTHENTICATE.";

/// The message for a session in which no folder is selected.
pub const FETCH_UNSELECTED: &'static str = "cannot FETCH before SELECT. Please SELECT a folder.";

/// The message of the line that ends the answer.
pub const FETCH_COMPLETED: &'static str = "FETCH completed.";

/// The body that every message has for now.
pub const BODY: &'static str = "This is a test email body.";

/// The data line for the text of the first message: the body stands behind
/// a line break, and before the break stands, in braces, the number of bytes
/// that the body takes.
pub open spec fn body_line(body: Seq<char>) -> Seq<char> {
    "1 FETCH (BODY[TEXT] {"@ + decimal(encode_utf8(body).len()) + "}\r\n"@ + body + ")"@
}

/// The batch that answers a `FETCH`: the data line, then the `OK` line.
pub open spec fn fetch_batch(tag: Seq<char>) -> Seq<ResponseView> {
    seq![
        ResponseView::data(body_line(BODY@)),
        ResponseView::tagged(tag, ResponseStatus::OK, FETCH_COMPLETED@),
    ]
}

/// The reply to a request for `FETCH`. A command that is not valid is
/// refused. Without a user the answer is `NO`, and so it is without a
/// selected folder; the message says which. Otherwise the batch follows.
/// No reply holds an event.
pub open spec fn fetch_reply(request: RequestView) -> ReplyView {
    match validation(request.command, FETCH@, 1) {
        Err(error) => refusal(request.command.tag, error),
        Ok(()) => if !request.context.is_authenticated() {
            single(request.command.tag, ResponseStatus::NO, FETCH_UNAUTHENTICATED@)
        } else if !request.context.is_selected() {
            single(request.command.tag, ResponseStatus::NO, FETCH_UNSELECTED@)
        } else {
            ReplyView { events: Seq::empty(), responses: fetch_batch(request.command.tag) }
        },
    }
}

/// Every reply to a request for `FETCH` holds exactly one line with a
/// status: its last, under the command's tag.
pub proof fn lemma_fetch_one_status(request: RequestView)
    ensures
        one_status(fetch_reply(request).responses),
        closes(request.command.tag, fetch_reply(request).responses),
{
}

/// A `FETCH` in a session without a user, or without a selected folder, is
/// answered `NO` in one line, and changes nothing in the session. This holds
/// of every valid command; one without an argument is refused before the
/// session is looked at.
pub proof fn lemma_fetch_needs_session(request: RequestView)
    requires
        validation(request.command, FETCH@, 1) is Ok,
        !request.context.is_authenticated() || !request.context.is_selected(),
    ensures
        fetch_reply(request).events.len() == 0,
        fetch_reply(request).responses == seq![
            ResponseView::tagged(
                request.command.tag,
                ResponseStatus::NO,
                if !request.context.is_authenticated() {
                    FETCH_UNAUTHENTICATED@
                } else {
                    FETCH_UNSELECTED@
                },
            ),
        ],
{
}

/// Both lines of the batch that answers a `FETCH` are read back as
/// themselves from what is written for them, where the command's tag holds
/// no space.
pub proof fn lemma_fetch_batch_reads_back(tag: Seq<char>)
    requires
        !tag.contains(' '),
    ensures
        forall|i: int|
            0 <= i < 2 ==> Response::parse_spec((#[trigger] fetch_batch(tag)[i]).line()) == Some(
                fetch_batch(tag)[i],
            ),
{
    let lines = fetch_batch(tag);
    assert(Response::parse_spec(lines[0].line()) == Some(lines[0])) by {
        reveal_strlit("OK");
        reveal_strlit("BAD");
        reveal_strlit("NO");
        reveal_strlit("1 FETCH (BODY[TEXT] {");
        reveal_strlit("1");
        reveal_strlit("FETCH (BODY[TEXT] {");
        let word = "1"@;
        let rest = "FETCH (BODY[TEXT] {"@ + decimal(encode_utf8(BODY@).len()) + "}\r\n"@ + BODY@
            + ")"@;
        assert(!word.contains(' ')) by {
            assert forall|k: int| 0 <= k < word.len() implies word[k] != ' ' by {}
        }
        assert(word.len() == 1);
        assert(body_line(BODY@) =~= word + seq![' '] + rest);
        lemma_data_line_reads_back(word, rest);
    }
    lemma_status_line_reads_back(tag, ResponseStatus::OK, FETCH_COMPLETED@);
}

/// The data line for a body.
pub fn text_line(body: &str) -> (r: String)
    requires
        encode_utf8(body@).len() <= usize::MAX,
    ensures
        r@ == body_line(body@),
{
    let mut out = String::from_str("1 FETCH (BODY[TEXT] {");
    let size = body.len();
    out.append(u64_to_decimal(size as u64).as_str());
    out.append("}\r\n");
    out.append(body);
    out.append(")");
    out
}

/// The worker for `FETCH`.
pub struct FetchHandler {}

impl FetchHandler {
    /// The reply to one request.
    pub fn reply(&self, request: &Request) -> (r: Reply)
        ensures
            r@ == fetch_reply(request@),
            answers(*request, r),
    {
        match self.validate(&request.command) {
            Err(error) => refuse(&request.command, error),
            Ok(()) => {
                let tag = request.command.tag();
                if !request.context.is_authenticated() {
                    answer_with(tag.as_str(), ResponseStatus::NO, FETCH_UNAUTHENTICATED)
                } else if !request.context.is_selected() {
                    answer_with(tag.as_str(), ResponseStatus::NO, FETCH_UNSELECTED)
                } else {
                    let events: Vec<Event> = Vec::new();
                    let responses = self.handle(&request.command);
                    proof {
                        assert(event_views(events@) =~= Seq::<EventView>::empty());
                    }
                    Reply { events, responses }
                }
            },
        }
    }
}

impl HandleCommand for FetchHandler {
    open spec fn verb(&self) -> Seq<char> {
        FETCH@
    }

    open spec fn min_args(&self) -> nat {
        1
    }

    fn name(&self) -> (r: &'static str) {
        FETCH
    }

    fn validate(&self, command: &Command) -> (r: Result<(), ValidationError>) {
        check(command, FETCH, 1)
    }

    open spec fn batch(&self, command: CommandView) -> Seq<ResponseView> {
        fetch_batch(command.tag)
    }

    fn handle(&self, command: &Command) -> (r: Vec<Response>) {
        proof {
            reveal_strlit("This is a test email body.");
            assert(is_ascii_chars(BODY@));
            is_ascii_chars_encode_utf8(BODY@);
        }
        let line = text_line(BODY);
        let r = vec![
            Response::untagged(line.as_str()),
            Response::new(command.tag().as_str(), ResponseStatus::OK, FETCH_COMPLETED),
        ];
        assert(response_views(r@) =~= fetch_batch(command@.tag));
        r
    }
}

impl Handle for FetchHandler {
    fn command(&self) -> (r: &'static str)
        ensures
            r@ == FETCH@,
    {
        FETCH
    }

    fn start(&mut self, requests: Vec<Request>) -> (replies: Vec<Reply>)
        ensures
            forall|i: int|
                0 <= i < replies.len() ==> (#[trigger] replies[i])@ == fetch_reply(requests[i]@),
    {
        let mut replies: Vec<Reply> = Vec::new();
        let mut i: usize = 0;
        while i < requests.len()
            invariant
                i <= requests.len(),
                replies.len() == i,
                forall|k: int| 0 <= k < i ==> answers(#[trigger] requests[k], replies[k]),
                forall|k: int|
                    0 <= k < i ==> (#[trigger] replies[k])@ == fetch_reply(requests[k]@),
            decreases requests.len() - i,
        {
            let reply = self.reply(&requests[i]);
            replies.push(reply);
            i += 1;
        }
        replies
    }
}

} // verus!
