//! The workers that serve commands, one for each verb, and what they share.
//! A worker takes requests in the order in which they come and gives one
//! reply to each: the events for the state manager first, then one batch of
//! responses, of which the last carries the command's tag and its status.
pub mod fetch;
pub mod login;
pub mod logout;
pub mod select;

use vstd::prelude::*;
use crate::connection::{Event, EventView, Request};
use crate::lookup::{first_at, lemma_first_at_is};
use crate::server::{response_views, Command, CommandView, Response, ResponseStatus, ResponseView};
use crate::text::same_text;

verus! {

/// The message of the reply to a command that reached the wrong worker.
pub const VERB_MISMATCH: &'static str = "verb mismatch";

/// The message of the reply to a command with too few arguments.
pub const INSUFFICIENT_ARGUMENTS: &'static str = "insufficient arguments";

/// Why a worker does not take a command.
#[derive(Debug, Clone, Copy, PartialEq, Eq, Structural)]
pub enum ValidationError {
    VerbMismatch,
    InsufficientArguments,
}

impl ValidationError {
    /// The message that the client is sent.
    pub open spec fn message(self) -> Seq<char> {
        match self {
            ValidationError::VerbMismatch => VERB_MISMATCH@,
            ValidationError::InsufficientArguments => INSUFFICIENT_ARGUMENTS@,
        }
    }

    /// The message that the client is sent.
    pub fn to_string(&self) -> (r: String)
        ensures
            r@ == self.message(),
    {
        match self {
            ValidationError::VerbMismatch => VERB_MISMATCH.to_owned(),
            ValidationError::InsufficientArguments => INSUFFICIENT_ARGUMENTS.to_owned(),
        }
    }
}

/// What a reply holds.
pub struct ReplyView {
    pub events: Seq<EventView>,
    pub responses: Seq<ResponseView>,
}

/// What a worker sends for one request: the events, which go to the state
/// manager before anything is written, and one batch of responses.
#[derive(Debug)]
pub struct Reply {
    pub events: Vec<Event>,
    pub responses: Vec<Response>,
}

/// The views of a sequence of events, in order.
pub open spec fn event_views(events: Seq<Event>) -> Seq<EventView> {
    Seq::new(events.len(), |i: int| events[i]@)
}

impl View for Reply {
    type V = ReplyView;

    open spec fn view(&self) -> ReplyView {
        ReplyView { events: event_views(self.events@), responses: response_views(self.responses@) }
    }
}

/// The shared rule of validation: a command whose verb is not the worker's
/// is a mismatch; one with the right verb and too few arguments has
/// insufficient arguments; any other is taken.
pub open spec fn validation(command: CommandView, verb: Seq<char>, min_args: nat) -> Result<
    (),
    ValidationError,
> {
    if command.command != verb {
        Err(ValidationError::VerbMismatch)
    } else if command.args.len() < min_args {
        Err(ValidationError::InsufficientArguments)
    } else {
        Ok(())
    }
}

/// The reply to a command that a worker does not take: no event, and one
/// `BAD` line with the reason.
pub open spec fn refusal(tag: Seq<char>, error: ValidationError) -> ReplyView {
    ReplyView {
        events: Seq::empty(),
        responses: seq![ResponseView::tagged(tag, ResponseStatus::BAD, error.message())],
    }
}

/// A reply that holds one line and no event.
pub open spec fn single(tag: Seq<char>, status: ResponseStatus, message: Seq<char>) -> ReplyView {
    ReplyView { events: Seq::empty(), responses: seq![ResponseView::tagged(tag, status, message)] }
}

/// Whether a batch answers the command of a tag as the protocol asks: it is
/// not empty, its last line carries the tag and a status, and every line
/// before the last is untagged.
pub open spec fn closes(tag: Seq<char>, responses: Seq<ResponseView>) -> bool {
    &&& responses.len() >= 1
    &&& responses.last().tag == tag
    &&& responses.last().status is Some
    &&& forall|i: int| 0 <= i < responses.len() - 1 ==> (#[trigger] responses[i]).untagged()
}

/// Whether exactly one line of a batch has a status, and that line is the
/// last.
pub open spec fn one_status(responses: Seq<ResponseView>) -> bool {
    &&& responses.len() >= 1
    &&& responses.last().status is Some
    &&& forall|i: int| 0 <= i < responses.len() - 1 ==> (#[trigger] responses[i]).status is None
}

/// A refusal holds one line, which has a status.
pub proof fn lemma_refusal_one_status(tag: Seq<char>, error: ValidationError)
    ensures
        one_status(refusal(tag, error).responses),
        closes(tag, refusal(tag, error).responses),
{
}

/// In a batch that answers the command of a tag other than `*`, exactly one
/// line carries the tag: the last one, which has the status that ends the
/// command.
pub proof fn lemma_one_tagged_line(tag: Seq<char>, responses: Seq<ResponseView>)
    requires
        closes(tag, responses),
        tag != "*"@,
    ensures
        forall|i: int|
            0 <= i < responses.len() ==> ((#[trigger] responses[i]).tag == tag <==> i
                == responses.len() - 1),
        responses.last().status is Some,
{
}

/// Applies the shared rule of validation to a command.
pub fn check(command: &Command, verb: &str, min_args: usize) -> (r: Result<(), ValidationError>)
    ensures
        r == validation(command@, verb@, min_args as nat),
{
    if !same_text(command.command().as_str(), verb) {
        Err(ValidationError::VerbMismatch)
    } else if command.num_args() < min_args {
        Err(ValidationError::InsufficientArguments)
    } else {
        Ok(())
    }
}

/// The reply that holds one line and no event.
pub fn answer_with(tag: &str, status: ResponseStatus, message: &str) -> (r: Reply)
    ensures
        r@ == single(tag@, status, message@),
{
    let responses = vec![Response::new(tag, status, message)];
    let events: Vec<Event> = Vec::new();
    proof {
        assert(response_views(responses@) =~= seq![ResponseView::tagged(tag@, status, message@)]);
        assert(event_views(events@) =~= Seq::<EventView>::empty());
    }
    Reply { events, responses }
}

/// The reply to a command that a worker does not take.
pub fn refuse(command: &Command, error: ValidationError) -> (r: Reply)
    ensures
        r@ == refusal(command@.tag, error),
{
    answer_with(command.tag().as_str(), ResponseStatus::BAD, error.to_string().as_str())
}

/// What serves one verb, command by command.
pub trait HandleCommand {
    /// The verb, in upper case.
    spec fn verb(&self) -> Seq<char>;

    /// The least number of arguments that a command must have.
    spec fn min_args(&self) -> nat;

    /// The verb, in upper case.
    fn name(&self) -> (r: &'static str)
        ensures
            r@ == self.verb(),
    ;

    /// Whether the worker takes a command, by the shared rule.
    fn validate(&self, command: &Command) -> (r: Result<(), ValidationError>)
        ensures
            r == validation(command@, self.verb(), self.min_args()),
    ;

    /// The batch that answers a command when all goes well.
    spec fn batch(&self, command: CommandView) -> Seq<ResponseView>;

    /// The batch that answers a command when all goes well.
    fn handle(&self, command: &Command) -> (r: Vec<Response>)
        ensures
            response_views(r@) == self.batch(command@),
            closes(command@.tag, response_views(r@)),
    ;
}

/// What a reply to a request must be, whatever the worker: a batch that
/// answers the request's command.
pub open spec fn answers(request: Request, reply: Reply) -> bool {
    closes(request@.command.tag, reply@.responses)
}

/// A worker: it serves the requests for one verb for as long as they come.
pub trait Handle {
    /// The verb that the worker serves, in upper case.
    fn command(&self) -> &'static str;

    /// Serves the requests that have come, in their order: the reply at a
    /// position is the reply to the request at that position.
    fn start(&mut self, requests: Vec<Request>) -> (replies: Vec<Reply>)
        ensures
            replies.len() == requests.len(),
            forall|i: int| 0 <= i < replies.len() ==> answers(#[trigger] requests[i], replies[i]),
    ;
}

/// The message for a command that none of the registered handlers serves.
pub const NOT_SERVED: &'static str = "Command unknown";

/// Whether one of the handlers up to a position serves a verb and asks for
/// more arguments than there are.
pub open spec fn some_asks_for_more(
    handlers: Seq<Box<dyn HandleCommand>>,
    command: CommandView,
    upto: int,
) -> bool {
    exists|i: int|
        0 <= i < upto && (#[trigger] handlers[i]).verb() == command.command
            && command.args.len() < handlers[i].min_args()
}

/// The verbs of a sequence of handlers, in order.
pub open spec fn verbs(handlers: Seq<Box<dyn HandleCommand>>) -> Seq<Seq<char>> {
    Seq::new(handlers.len(), |i: int| handlers[i].verb())
}

/// Handlers for single commands, asked in the order in which they were
/// registered.
pub struct DelegatingCommandHandler {
    handlers: Vec<Box<dyn HandleCommand>>,
}

impl DelegatingCommandHandler {
    /// The handlers, in the order in which they were registered.
    pub closed spec fn registered(&self) -> Seq<Box<dyn HandleCommand>> {
        self.handlers@
    }

    /// A delegating handler without handlers.
    pub fn new() -> (r: DelegatingCommandHandler)
        ensures
            r.registered().len() == 0,
    {
        DelegatingCommandHandler { handlers: Vec::new() }
    }

    /// Registers a handler behind those that are there.
    pub fn register_command(&mut self, handler: Box<dyn HandleCommand>)
        ensures
            final(self).registered() == old(self).registered().push(handler),
    {
        self.handlers.push(handler);
    }

    /// The verb of the delegating handler itself: none.
    pub fn name(&self) -> (r: &'static str)
        ensures
            r@.len() == 0,
    {
        let r = "";
        proof {
            reveal_strlit("");
        }
        r
    }

    /// Asks every handler that serves the command's verb whether it takes the
    /// command. The command is refused where one of them asks for more
    /// arguments than it has.
    pub fn validate(&self, command: &Command) -> (r: Result<(), ValidationError>)
        ensures
            r == if some_asks_for_more(
                self.registered(),
                command@,
                self.registered().len() as int,
            ) {
                Err::<(), ValidationError>(ValidationError::InsufficientArguments)
            } else {
                Ok(())
            },
    {
        let verb = command.command();
        let mut i: usize = 0;
        while i < self.handlers.len()
            invariant
                i <= self.handlers.len(),
                verb@ == command@.command,
                !some_asks_for_more(self.registered(), command@, i as int),
            decreases self.handlers.len() - i,
        {
            if same_text(self.handlers[i].name(), verb.as_str()) {
                match self.handlers[i].validate(command) {
                    Ok(()) => {},
                    Err(error) => {
                        assert(some_asks_for_more(
                            self.registered(),
                            command@,
                            self.registered().len() as int,
                        )) by {
                            assert(self.registered()[i as int].verb() == command@.command);
                        }
                        return Err(error);
                    },
                }
            }
            i += 1;
        }
        Ok(())
    }

    /// The batch of the first handler that serves the command's verb. Where
    /// none does, the answer is `NO`.
    pub fn handle(&self, command: &Command) -> (r: Vec<Response>)
        ensures
            closes(command@.tag, response_views(r@)),
            response_views(r@) == match first_at(verbs(self.registered()), command@.command) {
                Some(i) => self.registered()[i].batch(command@),
                None => single(command@.tag, ResponseStatus::NO, NOT_SERVED@).responses,
            },
    {
        let verb = command.command();
        let mut i: usize = 0;
        while i < self.handlers.len()
            invariant
                i <= self.handlers.len(),
                verb@ == command@.command,
                forall|k: int| 0 <= k < i ==> verbs(self.registered())[k] != command@.command,
            decreases self.handlers.len() - i,
        {
            if same_text(self.handlers[i].name(), verb.as_str()) {
                proof {
                    lemma_first_at_is(verbs(self.registered()), command@.command, i as int);
                }
                return self.handlers[i].handle(command);
            }
            i += 1;
        }
        proof {
            lemma_first_at_is(verbs(self.registered()), command@.command, i as int);
        }
        answer_with(command.tag().as_str(), ResponseStatus::NO, NOT_SERVED).responses
    }
}

} // verus!
