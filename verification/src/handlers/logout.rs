//! The worker for `LOGOUT`.
use vstd::prelude::*;
use crate::connection::{
    lemma_settle_logout, ConnectionView, ContextView, Event, EventView, Request, RequestView,
};
use crate::handlers::{
    answers, check, closes, event_views, one_status, refusal, refuse, validation, Handle,
    HandleCommand, Reply, ReplyView, ValidationError,
};
use crate::server::{response_views, Command, CommandView, Response, ResponseStatus, ResponseView};

verus! {

/// The verb that the worker serves.
pub const LOGOUT: &'static str = "LOGOUT";

/// The message that ends a session.
pub const GOODBYE: &'static str = "LOGOUT completed. Goodbye!";

/// The batch that ends a session: one `OK` line.
pub open spec fn logout_batch(tag: Seq<char>) -> Seq<ResponseView> {
    seq![ResponseView::tagged(tag, ResponseStatus::OK, GOODBYE@)]
}

/// The reply to a request for `LOGOUT`: the logout event and the `OK` line,
/// whoever is logged in or not. A command of another verb is refused.
pub open spec fn logout_reply(request: RequestView) -> ReplyView {
    match validation(request.command, LOGOUT@, 0) {
        Err(error) => refusal(request.command.tag, error),
        Ok(()) => ReplyView {
            events: seq![EventView::UNAUTH],
            responses: logout_batch(request.command.tag),
        },
    }
}

/// The worker for `LOGOUT`.
pub struct LogoutHandler {}

impl LogoutHandler {
    /// The reply to one request.
    pub fn reply(&self, request: &Request) -> (r: Reply)
        ensures
            r@ == logout_reply(request@),
            answers(*request, r),
    {
        match self.validate(&request.command) {
            Err(error) => refuse(&request.command, error),
            Ok(()) => {
                let events = vec![Event::UNAUTH()];
                let responses = self.handle(&request.command);
                proof {
                    assert(event_views(events@) =~= seq![EventView::UNAUTH]);
                }
                Reply { events, responses }
            },
        }
    }
}

impl HandleCommand for LogoutHandler {
    open spec fn verb(&self) -> Seq<char> {
        LOGOUT@
    }

    open spec fn min_args(&self) -> nat {
        0
    }

    fn name(&self) -> (r: &'static str) {
        LOGOUT
    }

    fn validate(&self, command: &Command) -> (r: Result<(), ValidationError>) {
        check(command, LOGOUT, 0)
    }

    open spec fn batch(&self, command: CommandView) -> Seq<ResponseView> {
        logout_batch(command.tag)
    }

    fn handle(&self, command: &Command) -> (r: Vec<Response>) {
        let r = vec![Response::new(command.tag().as_str(), ResponseStatus::OK, GOODBYE)];
        assert(response_views(r@) =~= logout_batch(command@.tag));
        r
    }
}

impl Handle for LogoutHandler {
    fn command(&self) -> (r: &'static str)
        ensures
            r@ == LOGOUT@,
    {
        LOGOUT
    }

    fn start(&mut self, requests: Vec<Request>) -> (replies: Vec<Reply>)
        ensures
            forall|i: int|
                0 <= i < replies.len() ==> (#[trigger] replies[i])@ == logout_reply(requests[i]@),
    {
        let mut replies: Vec<Reply> = Vec::new();
        let mut i: usize = 0;
        while i < requests.len()
            invariant
                i <= requests.len(),
                replies.len() == i,
                forall|k: int| 0 <= k < i ==> answers(#[trigger] requests[k], replies[k]),
                forall|k: int|
                    0 <= k < i ==> (#[trigger] replies[k])@ == logout_reply(requests[k]@),
            decreases requests.len() - i,
        {
            let reply = self.reply(&requests[i]);
            replies.push(reply);
            i += 1;
        }
        replies
    }
}

/// Every reply to a request for `LOGOUT` holds exactly one line with a
/// status: its last, under the command's tag.
pub proof fn lemma_logout_one_status(request: RequestView)
    ensures
        one_status(logout_reply(request).responses),
        closes(request.command.tag, logout_reply(request).responses),
{
}

/// A logout ends the session. The reply to a `LOGOUT` holds one line: the
/// `OK` under the command's tag. Once the reply has come in and the state
/// manager has had its turn, nobody is logged in, no folder is selected and
/// the connection is shut down: the line waits to be written behind what
/// waited before, and whatever line the client sends after it, the reader
/// forwards nothing and answers nothing.
pub proof fn lemma_logout_ends_session(
    c: ConnectionView,
    request: RequestView,
    line: Seq<char>,
    verbs: Seq<Seq<char>>,
)
    requires
        request.command.command == LOGOUT@,
    ensures
        logout_reply(request).responses == seq![
            ResponseView::tagged(request.command.tag, ResponseStatus::OK, GOODBYE@),
        ],
        ({
            let after = c.deliver(logout_reply(request)).update();
            &&& after.shutdown
            &&& !c.shutdown ==> after.state == ContextView::empty()
            &&& after.batches == c.batches.push(logout_reply(request).responses)
            &&& after.handle(line, verbs) == (after, None::<(int, RequestView)>)
        }),
{
    let reply = logout_reply(request);
    assert(c.events + reply.events =~= c.events.push(EventView::UNAUTH));
    lemma_settle_logout(c.state, c.events);
}

} // verus!
