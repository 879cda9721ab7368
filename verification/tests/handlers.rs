use imaprust::auth::error::AuthenticationFailed;
use imaprust::auth::{Authenticate, AuthenticationPrincipal, User};
use imaprust::connection::{Context, Event, Request};
use imaprust::handlers::fetch::FetchHandler;
use imaprust::handlers::login::{LoginHandler, LoginPlan};
use imaprust::handlers::logout::LogoutHandler;
use imaprust::handlers::select::{SelectHandler, SelectPlan};
use imaprust::handlers::{Handle, HandleCommand, Reply, ValidationError};
use imaprust::index::{Index, Mailbox, MailboxError, Permission};
use imaprust::mailbox::{IndexRequest, MailboxRequest, Mailboxes};
use imaprust::server::{Command, Response, ResponseStatus};

const EMAIL: &str = "my@email.com";
const EXISTING_MAILBOX: &str = "INBOX";

struct TestAuthenticator {}

impl Authenticate for TestAuthenticator {
    fn authenticate<P: AuthenticationPrincipal>(
        &self,
        user: &P,
    ) -> Result<User, AuthenticationFailed> {
        if user.principal() == EMAIL {
            return Ok(User::new(&user.principal(), "password").unwrap());
        }
        Err(AuthenticationFailed {})
    }
}

struct TestIndex {}

impl Index for TestIndex {
    fn add_mailbox(&mut self, _: Mailbox) -> Result<(), MailboxError> {
        panic!("Cannot add new mailboxes")
    }
    fn get_mailbox(&mut self, name: &str, permission: Permission) -> Result<Mailbox, MailboxError> {
        if name == EXISTING_MAILBOX {
            return Ok(Mailbox::new(EXISTING_MAILBOX, 172, vec![], permission));
        }
        Err(MailboxError::DoesNotExist(name.to_string()))
    }
}

fn test_handle<T: Handle>(mut handler: T, command: Command, state: Option<Context>) -> Reply {
    let request = Request {
        command,
        context: state.unwrap_or_default(),
    };
    let mut replies = handler.start(vec![request]);
    assert_eq!(replies.len(), 1);
    replies.remove(0)
}

fn test_login(command: Command, should_auth: bool) -> Vec<Response> {
    let login_handler = LoginHandler::new(TestAuthenticator {});
    let reply = test_handle(login_handler, command, None);
    if should_auth {
        assert_eq!(reply.events.len(), 1);
        match &reply.events[0] {
            Event::AUTH(user) => assert_eq!(user.name(), EMAIL),
            _ => panic!("LoginHandler should only send AUTH events"),
        }
    } else {
        assert!(reply.events.is_empty());
    }
    reply.responses
}

fn login_success(response: Vec<Response>) {
    assert_eq!(response.len(), 1 as usize);
    let reply = &response[0];
    assert_eq!(
        reply,
        &Response::new(
            "a1",
            ResponseStatus::OK,
            "LOGIN completed. Welcome my@email.com."
        )
    );
}

fn login_failed(response: Vec<Response>) {
    assert_eq!(response.len(), 1 as usize);
    let reply = &response[0];
    assert_eq!(
        reply,
        &Response::new("a1", ResponseStatus::BAD, "LOGIN failed.")
    );
}

#[test]
fn login_test_can_login() {
    let login_command = Command::new("a1", "LOGIN", vec![EMAIL, "password"]);
    login_success(test_login(login_command, true));
}

#[test]
fn test_login_success_command_lower_case() {
    let login_command = Command::new("a1", "login", vec![EMAIL, "password"]);
    login_success(test_login(login_command, true));
}

#[test]
fn test_login_success_command_camel_case() {
    let login_command = Command::new("a1", "Login", vec![EMAIL, "password"]);
    login_success(test_login(login_command, true));
}

#[test]
fn test_login_bad_user() {
    let login_command = Command::new("a1", "LOGIN", vec!["not.a.user@domain.com", "password"]);
    login_failed(test_login(login_command, false));
}

#[test]
fn test_login_insufficient_args() {
    let login_command = Command::new("a1", "LOGIN", vec![EMAIL]);
    let response = test_login(login_command, false);
    assert_eq!(response.len(), 1 as usize);
    let reply = &response[0];
    assert_eq!(
        reply,
        &Response::new("a1", ResponseStatus::BAD, "insufficient arguments")
    );
}

#[test]
fn login_plan_hands_the_first_two_arguments_to_the_authenticator() {
    let handler = LoginHandler::new(TestAuthenticator {});
    let command = Command::parse("a7 login \"me@example.com\" 'secret' extra").unwrap();
    match handler.plan(&command) {
        LoginPlan::Authenticate(principal) => {
            assert_eq!(principal.principal(), "me@example.com");
            let user = User::new("me@example.com", "secret").unwrap();
            assert!(principal.authenticate(&user).is_ok());
        }
        LoginPlan::Reply(_) => panic!("a valid LOGIN is put to the authenticator"),
    }
}

#[test]
fn login_of_another_verb_is_a_mismatch() {
    let handler = LoginHandler::new(TestAuthenticator {});
    let command = Command::new("a1", "LOGOUT", vec![EMAIL, "password"]);
    assert_eq!(handler.validate(&command), Err(ValidationError::VerbMismatch));
    let reply = test_handle(handler, command, None);
    assert!(reply.events.is_empty());
    assert_eq!(
        reply.responses,
        vec![Response::new("a1", ResponseStatus::BAD, "verb mismatch")]
    );
}

#[test]
fn login_worker_answers_in_the_order_of_the_requests() {
    let mut handler = LoginHandler::new(TestAuthenticator {});
    let requests = vec![
        Request {
            command: Command::new("a1", "LOGIN", vec![EMAIL, "password"]),
            context: Context::default(),
        },
        Request {
            command: Command::new("a2", "LOGIN", vec!["nobody@x", "password"]),
            context: Context::default(),
        },
        Request {
            command: Command::new("a3", "LOGIN", vec![]),
            context: Context::default(),
        },
    ];
    let replies = handler.start(requests);
    let tags: Vec<String> = replies.iter().map(|r| r.responses[0].tag()).collect();
    assert_eq!(tags, vec!["a1", "a2", "a3"]);
    let statuses: Vec<Option<ResponseStatus>> =
        replies.iter().map(|r| r.responses[0].status()).collect();
    assert_eq!(
        statuses,
        vec![
            Some(ResponseStatus::OK),
            Some(ResponseStatus::BAD),
            Some(ResponseStatus::BAD)
        ]
    );
}

fn select_success(response: Vec<Response>) {
    assert_eq!(
        response,
        vec!(
            Response::from("* 172 EXISTS").unwrap(),
            Response::from("* OK [UIDVALIDITY 3857529045] UIDs valid").unwrap(),
            Response::from("* OK [UIDNEXT 4392] Predicted next UID").unwrap(),
            Response::from("* FLAGS (\\Answered \\Flagged \\Deleted \\Seen \\Draft)").unwrap(),
            Response::from("* OK [PERMANENTFLAGS (\\Deleted \\Seen \\*)] Limited").unwrap(),
            Response::from("* LIST () \"/\" INBOX").unwrap(),
            Response::new("a1", ResponseStatus::OK, "[READ-WRITE] SELECT completed.")
        )
    );
}

#[test]
fn test_can_select() {
    let select_handler = SelectHandler::new(TestIndex {});
    let select_command = Command::new("a1", "SELECT", vec!["INBOX"]);
    let valid = select_handler.validate(&select_command);
    assert_eq!(valid.is_ok(), true);
    let response = select_handler.handle(&select_command);
    select_success(response);
}

#[test]
fn test_select_handle() {
    let command = Command::new("a1", "SELECT", vec!["INBOX"]);
    let ctx = Context::of(Some(User::new("username", "password").unwrap()), None);
    let reply = test_handle(SelectHandler::new(TestIndex {}), command, Some(ctx));
    select_success(reply.responses);
    assert_eq!(reply.events.len(), 1);
    match &reply.events[0] {
        Event::SELECT(folder) => {
            assert_eq!(folder, "INBOX")
        }
        _ => {
            panic!("SELECT command should only send SELECT events");
        }
    }
}

#[test]
fn test_cannot_select_if_unauthenticated() {
    let command = Command::new("a1", "SELECT", vec!["INBOX"]);
    let reply = test_handle(SelectHandler::new(TestIndex {}), command, None);
    assert!(reply.events.is_empty());
    let response = reply.responses;
    assert_eq!(response.len(), 1);
    assert_eq!(response[0], Response::new("a1", ResponseStatus::NO, "cannot SELECT when un-authenticated. Please authenticate using LOGIN or AUTHENTICATE."));
}

#[test]
fn test_select_bad_args() {
    let command = Command::new("a1", "SELECT", vec![]);
    let reply = test_handle(SelectHandler::new(TestIndex {}), command, None);
    assert!(reply.events.is_empty());
    let response = reply.responses;
    assert_eq!(response.len(), 1);
    assert_eq!(
        response[0],
        Response::new("a1", ResponseStatus::BAD, "insufficient arguments")
    );
}

#[test]
fn select_answers_under_the_tag_of_the_request() {
    let command = Command::new("b9", "SELECT", vec!["INBOX"]);
    let reply = test_handle(SelectHandler::new(TestIndex {}), command, None);
    assert_eq!(reply.responses[0].tag(), "b9");
}

#[test]
fn select_without_login_does_not_ask_the_index() {
    struct Untouchable {}
    impl Index for Untouchable {
        fn add_mailbox(&mut self, _: Mailbox) -> Result<(), MailboxError> {
            panic!("the index must not be asked")
        }
        fn get_mailbox(&mut self, _: &str, _: Permission) -> Result<Mailbox, MailboxError> {
            panic!("the index must not be asked")
        }
    }
    let handler = SelectHandler::new(Untouchable {});
    let request = Request {
        command: Command::new("a1", "SELECT", vec!["INBOX"]),
        context: Context::default(),
    };
    match handler.plan(&request) {
        SelectPlan::Reply(reply) => assert_eq!(reply.responses[0].status(), Some(ResponseStatus::NO)),
        SelectPlan::Lookup { .. } => panic!("no lookup without a user"),
    }
    let reply = test_handle(handler, request.command, None);
    assert_eq!(reply.responses.len(), 1);
}

#[test]
fn select_plan_looks_up_the_first_argument_for_reading_and_writing() {
    let handler = SelectHandler::new(TestIndex {});
    let request = Request {
        command: Command::new("a1", "SELECT", vec!["Drafts", "more"]),
        context: Context::of(Some(User::new("username", "password").unwrap()), None),
    };
    match handler.plan(&request) {
        SelectPlan::Lookup { name, permission } => {
            assert_eq!(name, "Drafts");
            assert_eq!(permission, Permission::ReadWrite);
        }
        SelectPlan::Reply(_) => panic!("a valid SELECT of a user is looked up"),
    }
}

#[test]
fn select_of_a_missing_mailbox_is_answered_no() {
    let command = Command::new("a1", "SELECT", vec!["Nowhere"]);
    let ctx = Context::of(Some(User::new("username", "password").unwrap()), None);
    let reply = test_handle(SelectHandler::new(TestIndex {}), command, Some(ctx));
    assert!(reply.events.is_empty());
    assert_eq!(
        reply.responses,
        vec![Response::new("a1", ResponseStatus::NO, "No such mailbox")]
    );
}

#[test]
fn select_shows_the_count_of_the_mailbox_and_the_name_the_client_gave() {
    let handler = SelectHandler::new(TestIndex {});
    let command = Command::new("a1", "SELECT", vec!["Sent"]);
    let reply = handler.answer(&command, Ok(Mailbox::new("ignored", 18446744073709551615, vec![], Permission::ReadOnly)));
    assert_eq!(reply.responses.len(), 7);
    assert_eq!(reply.responses[0].to_string(), "* 18446744073709551615 EXISTS");
    assert_eq!(reply.responses[5].to_string(), "* LIST () \"/\" Sent");
    assert_eq!(reply.responses[6].to_string(), "a1 OK [READ-WRITE] SELECT completed.");
    let empty = handler.answer(&command, Ok(Mailbox::new("Sent", 0, vec![], Permission::ReadOnly)));
    assert_eq!(empty.responses[0].to_string(), "* 0 EXISTS");
}

fn fetch_success(response: Vec<Response>) {
    assert_eq!(
        response,
        vec!(
            Response::from("* 1 FETCH (BODY[TEXT] {26}\r\nThis is a test email body.)").unwrap(),
            Response::new("a1", ResponseStatus::OK, "FETCH completed.")
        )
    );
}

fn in_a_folder() -> Context {
    Context::of(
        Some(User::new("username", "password").unwrap()),
        Some("INBOX".to_string()),
    )
}

#[test]
fn test_fetch_success() {
    let fetch_handler = FetchHandler {};
    let fetch_command = Command::new("a1", "FETCH", vec!["1"]);
    let valid = fetch_handler.validate(&fetch_command);
    assert_eq!(valid.is_ok(), true);
    let response = fetch_handler.handle(&fetch_command);
    fetch_success(response);
}

#[test]
fn test_fetch_handle() {
    let handler = FetchHandler {};
    let command = Command::new("a1", "FETCH", vec!["1"]);
    let reply = test_handle(handler, command, Some(in_a_folder()));
    assert!(reply.events.is_empty());
    fetch_success(reply.responses);
}

#[test]
fn test_cannot_fetch_if_unselected() {
    let handler = FetchHandler {};
    let command = Command::new("a1", "FETCH", vec!["1"]);
    let ctx = Context::of(Some(User::new("username", "password").unwrap()), None);
    let response = test_handle(handler, command, Some(ctx)).responses;
    assert_eq!(response.len(), 1 as usize);
    assert_eq!(response[0], Response::new("a1", ResponseStatus::NO, "cannot FETCH before SELECT. Please SELECT a folder."))
}

#[test]
fn test_cannot_fetch_if_unauthenticated() {
    let handler = FetchHandler {};
    let command = Command::new("a1", "FETCH", vec!["1"]);
    let ctx = Context::of(None, Some("/this/is/a/folder".to_string()));
    let response = test_handle(handler, command, Some(ctx)).responses;
    assert_eq!(response.len(), 1 as usize);
    assert_eq!(response[0], Response::new("a1", ResponseStatus::NO, "cannot FETCH when un-authenticated. Please authenticate using LOGIN or AUTHENTICATE."))
}

#[test]
fn fetch_in_a_new_session_is_answered_no() {
    let reply = test_handle(FetchHandler {}, Command::new("a1", "FETCH", vec!["1"]), None);
    assert_eq!(reply.responses.len(), 1);
    assert_eq!(reply.responses[0].status(), Some(ResponseStatus::NO));
}

#[test]
fn fetch_without_arguments_is_refused() {
    let reply = test_handle(
        FetchHandler {},
        Command::new("a1", "FETCH", vec![]),
        Some(in_a_folder()),
    );
    assert_eq!(
        reply.responses,
        vec![Response::new("a1", ResponseStatus::BAD, "insufficient arguments")]
    );
}

#[test]
fn fetch_literal_counts_the_bytes_of_the_body() {
    assert_eq!(
        imaprust::handlers::fetch::text_line("This is a test email body."),
        "1 FETCH (BODY[TEXT] {26}\r\nThis is a test email body.)"
    );
    assert_eq!(
        imaprust::handlers::fetch::text_line("é"),
        "1 FETCH (BODY[TEXT] {2}\r\né)"
    );
    assert_eq!(imaprust::handlers::fetch::text_line(""), "1 FETCH (BODY[TEXT] {0}\r\n)");
}

fn logout_success(response: Vec<Response>) {
    assert_eq!(response.len(), 1 as usize);
    let reply = &response[0];
    assert_eq!(
        reply,
        &Response::new("a1", ResponseStatus::OK, "LOGOUT completed. Goodbye!")
    );
}

#[test]
fn logout_test_can_login() {
    let logout_handler = LogoutHandler {};
    let logout_command = Command::new("a1", "LOGOUT", vec![]);
    let valid = logout_handler.validate(&logout_command);
    assert_eq!(valid.is_ok(), true);
    let response = logout_handler.handle(&logout_command);
    logout_success(response);
}

#[test]
fn test_can_logout() {
    let handler = LogoutHandler {};
    let command = Command::new("a1", "LOGOUT", vec![]);
    let reply = test_handle(handler, command, None);
    assert_eq!(reply.events.len(), 1);
    match &reply.events[0] {
        Event::UNAUTH() => {}
        _ => panic!("LogoutHandler should only send UNAUTH events"),
    }
    logout_success(reply.responses);
}

#[test]
fn workers_name_their_verbs() {
    assert_eq!(LoginHandler::new(TestAuthenticator {}).command(), "LOGIN");
    assert_eq!(SelectHandler::new(TestIndex {}).command(), "SELECT");
    assert_eq!(FetchHandler {}.command(), "FETCH");
    assert_eq!(LogoutHandler {}.command(), "LOGOUT");
    assert_eq!(LoginHandler::new(TestAuthenticator {}).name(), "LOGIN");
    assert_eq!(SelectHandler::new(TestIndex {}).name(), "SELECT");
    assert_eq!(FetchHandler {}.name(), "FETCH");
    assert_eq!(LogoutHandler {}.name(), "LOGOUT");
}

#[test]
fn every_batch_ends_with_the_one_line_that_carries_the_tag() {
    let user = || Some(User::new("username", "password").unwrap());
    let mut batches: Vec<Vec<Response>> = Vec::new();
    batches.push(test_login(Command::new("t", "LOGIN", vec![EMAIL, "password"]), true));
    batches.push(test_login(Command::new("t", "LOGIN", vec!["x", "y"]), false));
    batches.push(
        test_handle(
            SelectHandler::new(TestIndex {}),
            Command::new("t", "SELECT", vec!["INBOX"]),
            Some(Context::of(user(), None)),
        )
        .responses,
    );
    batches.push(
        test_handle(FetchHandler {}, Command::new("t", "FETCH", vec!["1"]), Some(in_a_folder()))
            .responses,
    );
    batches.push(test_handle(LogoutHandler {}, Command::new("t", "LOGOUT", vec![]), None).responses);
    for batch in batches {
        let last = batch.len() - 1;
        for (i, response) in batch.iter().enumerate() {
            assert_eq!(response.tag() == "t", i == last);
            if i != last {
                assert_eq!(response.tag(), "*");
            }
        }
        assert!(batch[last].status().is_some());
    }
}

#[test]
fn delegating_handler_asks_the_first_handler_of_the_verb() {
    let mut delegating = imaprust::handlers::DelegatingCommandHandler::new();
    assert_eq!(delegating.name(), "");
    let logout = Command::new("a1", "LOGOUT", vec![]);
    assert_eq!(
        delegating.handle(&logout),
        vec![Response::new("a1", ResponseStatus::NO, "Command unknown")]
    );
    assert_eq!(delegating.validate(&logout), Ok(()));
    delegating.register_command(Box::new(LogoutHandler {}));
    delegating.register_command(Box::new(FetchHandler {}));
    delegating.register_command(Box::new(SelectHandler::new(TestIndex {})));
    delegating.register_command(Box::new(FetchHandler {}));
    assert_eq!(
        delegating.handle(&logout),
        vec![Response::new(
            "a1",
            ResponseStatus::OK,
            "LOGOUT completed. Goodbye!"
        )]
    );
    let fetch = Command::new("a2", "FETCH", vec![]);
    assert_eq!(
        delegating.validate(&fetch),
        Err(ValidationError::InsufficientArguments)
    );
    assert_eq!(delegating.handle(&fetch).len(), 2);
    let select = Command::new("a3", "select", vec!["INBOX"]);
    assert_eq!(delegating.validate(&select), Ok(()));
    assert_eq!(delegating.handle(&select).len(), 7);
    let noop = Command::new("a4", "NOOP", vec![]);
    assert_eq!(delegating.validate(&noop), Ok(()));
    assert_eq!(
        delegating.handle(&noop),
        vec![Response::new("a4", ResponseStatus::NO, "Command unknown")]
    );
}

#[test]
fn validation_looks_at_the_verb_before_the_arguments() {
    let command = Command::new("a1", "FETCH", vec![]);
    assert_eq!(
        imaprust::handlers::check(&command, "SELECT", 1),
        Err(ValidationError::VerbMismatch)
    );
    assert_eq!(
        imaprust::handlers::check(&command, "FETCH", 1),
        Err(ValidationError::InsufficientArguments)
    );
    assert_eq!(imaprust::handlers::check(&command, "FETCH", 0), Ok(()));
    assert_eq!(ValidationError::VerbMismatch.to_string(), "verb mismatch");
    assert_eq!(
        ValidationError::InsufficientArguments.to_string(),
        "insufficient arguments"
    );
    let refused = imaprust::handlers::refuse(&command, ValidationError::VerbMismatch);
    assert!(refused.events.is_empty());
    assert_eq!(
        refused.responses,
        vec![Response::new("a1", ResponseStatus::BAD, "verb mismatch")]
    );
}

#[test]
fn keeper_of_the_mailboxes_asks_the_index_for_what_it_is_asked_to_get() {
    let mut keeper = Mailboxes::new();
    match keeper.handle(MailboxRequest::Get("INBOX".to_string())) {
        Some(IndexRequest::Mailbox(name)) => assert_eq!(name, "INBOX"),
        _ => panic!("a mailbox to get is asked of the index"),
    }
    let added = MailboxRequest::Add(Mailbox::new("Sent", 0, vec![], Permission::ReadOnly));
    assert!(keeper.handle(added).is_none());
}
