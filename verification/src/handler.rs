//! The handlers of the blocking request path. A handler answers one command
//! with the responses to write.
use vstd::prelude::*;
use vstd::string::StringExecFns;
use crate::auth::basic::{Authenticator, BasicAuth, BasicAuthenticator, UserStore};
use crate::parser::{Command, CommandView, CompletionStatus, Response, ResponseView};
use crate::text::{string_or_empty, text_or_empty};

verus! {

/// The name of the command that logs a user in.
pub const LOGIN: &'static str = "login";

/// The name of the command that asks what the server can do.
pub const CAPABILITY: &'static str = "capability";

/// The text for a login without a user name or a password.
pub const MISSING_ARGUMENT: &'static str =
    "Missing argument. Command should be '<tag> LOGIN <userid> <password>'";

/// The text for a login that went well.
pub const LOGIN_COMPLETED: &'static str = "LOGIN completed.";

/// The text for a login that was turned away.
pub const LOGIN_FAILED: &'static str = "LOGIN failed.";

/// The text that lists what the server can do.
pub const CAPABILITIES: &'static str = "CAPABILITY IMAP4rev1";

/// The text that ends the list of what the server can do.
pub const CAPABILITY_COMPLETED: &'static str = "CAPABILITY completed";

/// The views of a sequence of responses, in order.
pub open spec fn response_views(responses: Seq<Response>) -> Seq<ResponseView> {
    Seq::new(responses.len(), |i: int| responses[i]@)
}

/// What answers the commands of one name, or of any.
pub trait Handle {
    /// Whether the handler is made for commands of a name.
    spec fn serves(&self, command: Seq<char>) -> bool;

    /// The responses to a command.
    spec fn answer(&self, command: CommandView) -> Seq<ResponseView>;

    /// Answers a command that the handler is made for.
    fn handle(&self, command: Command) -> (r: Vec<Response>)
        requires
            self.serves(command@.command),
        ensures
            response_views(r@) == self.answer(command@),
    ;
}

/// The text of the answer for a command that nothing is done for yet.
pub const NOT_IMPLEMENTED: &'static str = "Not implemented yet";

/// The answer for a command that nothing is done for yet: one `NO` line
/// under the command's tag.
pub fn not_implemented(command: Command) -> (r: Vec<Response>)
    ensures
        response_views(r@) == seq![
            ResponseView {
                status: CompletionStatus::NO,
                tag: text_or_empty(command@.tag),
                response: NOT_IMPLEMENTED@,
            },
        ],
{
    let r = vec![
        Response::new(
            CompletionStatus::NO,
            string_or_empty(command.tag.as_slice()),
            String::from_str(NOT_IMPLEMENTED),
        ),
    ];
    assert(response_views(r@) =~= seq![
        ResponseView {
            status: CompletionStatus::NO,
            tag: text_or_empty(command@.tag),
            response: NOT_IMPLEMENTED@,
        },
    ]);
    r
}

/// The text that says that a command is not known.
pub open spec fn unknown(command: Seq<char>) -> Seq<char> {
    "Command '"@ + command + "' unknown"@
}

/// The handler for commands that no other handler is made for.
pub struct UnknownCommandHandler {}

impl Handle for UnknownCommandHandler {
    open spec fn serves(&self, command: Seq<char>) -> bool {
        true
    }

    /// One `BAD` line that names the command.
    open spec fn answer(&self, command: CommandView) -> Seq<ResponseView> {
        seq![
            ResponseView {
                status: CompletionStatus::BAD,
                tag: text_or_empty(command.tag),
                response: unknown(command.command),
            },
        ]
    }

    fn handle(&self, command: Command) -> (r: Vec<Response>) {
        let tag = string_or_empty(command.tag.as_slice());
        let mut text = String::from_str("Command '");
        text.append(command.command.as_str());
        text.append("' unknown");
        let r = vec![Response::new(CompletionStatus::BAD, tag, text)];
        assert(response_views(r@) =~= self.answer(command@));
        return r;
    }
}

/// The handler for `login`, on top of an authenticator.
pub struct LoginHandler<S: UserStore> {
    pub _authenticator: BasicAuthenticator<S>,
}

impl<S: UserStore> Handle for LoginHandler<S> {
    open spec fn serves(&self, command: Seq<char>) -> bool {
        command == LOGIN@
    }

    /// One line: `BAD` for fewer than two arguments; else `OK` where the
    /// store accepts the first argument as the user name with the second as
    /// the password, and `NO` where it does not.
    open spec fn answer(&self, command: CommandView) -> Seq<ResponseView> {
        let tag = text_or_empty(command.tag);
        if command.args.len() < 2 {
            seq![ResponseView { status: CompletionStatus::BAD, tag, response: MISSING_ARGUMENT@ }]
        } else if self._authenticator.accepts(
            text_or_empty(command.args[0]),
            text_or_empty(command.args[1]),
        ) {
            seq![ResponseView { status: CompletionStatus::OK, tag, response: LOGIN_COMPLETED@ }]
        } else {
            seq![ResponseView { status: CompletionStatus::NO, tag, response: LOGIN_FAILED@ }]
        }
    }

    fn handle(&self, command: Command) -> (r: Vec<Response>) {
        let tag = string_or_empty(command.tag.as_slice());
        if command.args.len() < 2 {
            let r = vec![
                Response::new(CompletionStatus::BAD, tag, String::from_str(MISSING_ARGUMENT)),
            ];
            assert(response_views(r@) =~= self.answer(command@));
            return r;
        }
        let response = match self._authenticator.authenticate(
            BasicAuth::from(command.args[0].as_slice(), command.args[1].as_slice()),
        ) {
            Some(_) => Response::new(CompletionStatus::OK, tag, String::from_str(LOGIN_COMPLETED)),
            None => Response::new(CompletionStatus::NO, tag, String::from_str(LOGIN_FAILED)),
        };
        let r = vec![response];
        assert(response_views(r@) =~= self.answer(command@));
        r
    }
}

/// The handler for `capability`.
pub struct CapabilityHandler {}

impl Handle for CapabilityHandler {
    open spec fn serves(&self, command: Seq<char>) -> bool {
        command == CAPABILITY@
    }

    /// Two `OK` lines: an untagged one with the list, and one under the
    /// command's tag.
    open spec fn answer(&self, command: CommandView) -> Seq<ResponseView> {
        seq![
            ResponseView {
                status: CompletionStatus::OK,
                tag: Seq::empty(),
                response: CAPABILITIES@,
            },
            ResponseView {
                status: CompletionStatus::OK,
                tag: text_or_empty(command.tag),
                response: CAPABILITY_COMPLETED@,
            },
        ]
    }

    fn handle(&self, command: Command) -> (r: Vec<Response>) {
        let r = vec![
            Response::new(CompletionStatus::OK, String::new(), String::from_str(CAPABILITIES)),
            Response::from(CompletionStatus::OK, command.tag.as_slice(), CAPABILITY_COMPLETED),
        ];
        assert(response_views(r@) =~= self.answer(command@));
        r
    }
}

} // verus!
