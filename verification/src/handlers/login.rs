//! The worker for `LOGIN`.
use vstd::prelude::*;
use vstd::string::StringExecFns;
use crate::auth::error::AuthenticationFailed;
use crate::auth::{Authenticate, BasicAuth, User, UserView};
use crate::connection::{Event, EventView, Request, RequestView};
use crate::handlers::{
    answer_with, answers, check, closes, event_views, one_status, refusal, refuse, single, validation, Handle,
    HandleCommand, Reply, ReplyView, ValidationError,
};
use crate::server::{response_views, Command, CommandView, Response, ResponseStatus, ResponseView};

verus! {

/// The verb that the worker serves.
pub const LOGIN: &'static str = "LOGIN";

/// The message for a principal that was turned away. It says nothing of the
/// reason.
pub const LOGIN_FAILED: &'static str = "LOGIN failed.";

/// The message for a login, when nothing is known of the user.
pub const LOGIN_COMPLETED: &'static str = "LOGIN completed.";

/// The message for a user who has logged in.
pub open spec fn welcome(name: Seq<char>) -> Seq<char> {
    "LOGIN completed. Welcome "@ + name + "."@
}

/// What the worker does with a command before anyone is asked: it refuses
/// the command, or it has a principal to put to the authenticator.
pub enum LoginPlanView {
    Reply(ReplyView),
    Authenticate { username: Seq<char>, password: Seq<char> },
}

/// What the worker does with a command before anyone is asked.
pub enum LoginPlan {
    Reply(Reply),
    Authenticate(BasicAuth),
}

impl View for LoginPlan {
    type V = LoginPlanView;

    open spec fn view(&self) -> LoginPlanView {
        match self {
            LoginPlan::Reply(reply) => LoginPlanView::Reply(reply@),
            LoginPlan::Authenticate(principal) => LoginPlanView::Authenticate {
                username: principal.username(),
                password: principal.password(),
            },
        }
    }
}

/// The plan for a command: a command that is not valid is refused; of any
/// other, the first argument is the user name and the second the password.
pub open spec fn login_plan(command: CommandView) -> LoginPlanView {
    match validation(command, LOGIN@, 2) {
        Err(error) => LoginPlanView::Reply(refusal(command.tag, error)),
        Ok(()) => LoginPlanView::Authenticate { username: command.args[0], password: command.args[1] },
    }
}

/// The reply once the authenticator has answered. For a user: the login
/// event and an `OK` line that greets the user by name. For a failure: a
/// `BAD` line and no event.
pub open spec fn login_answer(command: CommandView, outcome: Option<UserView>) -> ReplyView {
    match outcome {
        Some(user) => ReplyView {
            events: seq![EventView::AUTH(user)],
            responses: seq![
                ResponseView::tagged(command.tag, ResponseStatus::OK, welcome(user.name)),
            ],
        },
        None => single(command.tag, ResponseStatus::BAD, LOGIN_FAILED@),
    }
}

/// What a reply to a request for `LOGIN` can be: the refusal, where the
/// command is not valid; otherwise the answer to one of the outcomes that
/// the authenticator can have.
pub open spec fn login_reply(request: RequestView, reply: ReplyView) -> bool {
    match login_plan(request.command) {
        LoginPlanView::Reply(refused) => reply == refused,
        LoginPlanView::Authenticate { .. } => reply == login_answer(request.command, None) || exists|
            user: UserView,
        | reply == login_answer(request.command, Some(user)),
    }
}

/// Every reply to a request for `LOGIN` holds exactly one line with a
/// status: its last, under the command's tag.
pub proof fn lemma_login_one_status(request: RequestView, reply: ReplyView)
    requires
        login_reply(request, reply),
    ensures
        one_status(reply.responses),
        closes(request.command.tag, reply.responses),
{
}

/// The worker for `LOGIN`, on top of an authenticator.
pub struct LoginHandler<A: Authenticate> {
    authenticator: A,
}

impl<A: Authenticate> LoginHandler<A> {
    /// The authenticator that the worker asks.
    pub closed spec fn authenticator(&self) -> A {
        self.authenticator
    }

    /// A worker on top of an authenticator.
    pub fn new(authenticator: A) -> (r: Self)
        ensures
            r.authenticator() == authenticator,
    {
        LoginHandler { authenticator }
    }

    /// The plan for a command.
    pub fn plan(&self, command: &Command) -> (r: LoginPlan)
        ensures
            r@ == login_plan(command@),
    {
        match self.validate(command) {
            Err(error) => LoginPlan::Reply(refuse(command, error)),
            Ok(()) => {
                let user = command.arg(0);
                let password = command.arg(1);
                LoginPlan::Authenticate(BasicAuth::from(user.as_str(), password.as_str()))
            },
        }
    }

    /// The reply once the authenticator has answered.
    pub fn answer(&self, command: &Command, outcome: Result<User, AuthenticationFailed>) -> (r:
        Reply)
        ensures
            r@ == login_answer(
                command@,
                match outcome {
                    Ok(user) => Some(user@),
                    Err(_) => None,
                },
            ),
            closes(command@.tag, r@.responses),
    {
        let tag = command.tag();
        match outcome {
            Ok(user) => {
                let mut message = String::from_str("LOGIN completed. Welcome ");
                message.append(user.name().as_str());
                message.append(".");
                let responses = vec![
                    Response::new(tag.as_str(), ResponseStatus::OK, message.as_str()),
                ];
                let events = vec![Event::AUTH(user)];
                proof {
                    assert(event_views(events@) =~= seq![EventView::AUTH(user@)]);
                    assert(response_views(responses@) =~= seq![
                        ResponseView::tagged(command@.tag, ResponseStatus::OK, welcome(user@.name)),
                    ]);
                }
                Reply { events, responses }
            },
            Err(_) => answer_with(tag.as_str(), ResponseStatus::BAD, LOGIN_FAILED),
        }
    }

    /// The reply to one request: the plan, the authenticator's answer where
    /// the plan asks for it, and the reply to that answer.
    pub fn reply(&self, request: &Request) -> (r: Reply)
        ensures
            login_reply(request@, r@),
            answers(*request, r),
    {
        match self.plan(&request.command) {
            LoginPlan::Reply(refused) => refused,
            LoginPlan::Authenticate(principal) => {
                let outcome = self.authenticator.authenticate(&principal);
                self.answer(&request.command, outcome)
            },
        }
    }
}

impl<A: Authenticate> HandleCommand for LoginHandler<A> {
    open spec fn verb(&self) -> Seq<char> {
        LOGIN@
    }

    open spec fn min_args(&self) -> nat {
        2
    }

    fn name(&self) -> (r: &'static str) {
        LOGIN
    }

    fn validate(&self, command: &Command) -> (r: Result<(), ValidationError>) {
        check(command, LOGIN, 2)
    }

    open spec fn batch(&self, command: CommandView) -> Seq<ResponseView> {
        seq![ResponseView::tagged(command.tag, ResponseStatus::OK, LOGIN_COMPLETED@)]
    }

    fn handle(&self, command: &Command) -> (r: Vec<Response>) {
        let r = vec![Response::new(command.tag().as_str(), ResponseStatus::OK, LOGIN_COMPLETED)];
        assert(response_views(r@) =~= seq![
            ResponseView::tagged(command@.tag, ResponseStatus::OK, LOGIN_COMPLETED@),
        ]);
        r
    }
}

impl<A: Authenticate> Handle for LoginHandler<A> {
    fn command(&self) -> (r: &'static str)
        ensures
            r@ == LOGIN@,
    {
        LOGIN
    }

    fn start(&mut self, requests: Vec<Request>) -> (replies: Vec<Reply>)
        ensures
            forall|i: int|
                0 <= i < replies.len() ==> login_reply(requests[i]@, (#[trigger] replies[i])@),
    {
        let mut replies: Vec<Reply> = Vec::new();
        let mut i: usize = 0;
        while i < requests.len()
            invariant
                i <= requests.len(),
                replies.len() == i,
                forall|k: int| 0 <= k < i ==> answers(#[trigger] requests[k], replies[k]),
                forall|k: int|
                    0 <= k < i ==> login_reply(requests[k]@, (#[trigger] replies[k])@),
            decreases requests.len() - i,
        {
            let reply = self.reply(&requests[i]);
            replies.push(reply);
            i += 1;
        }
        replies
    }
}

} // verus!
