use imaprust::auth::inmemory::{InMemoryAuthenticator, InMemoryUserStore};
use imaprust::auth::User;
use imaprust::connection::{
    read, serialize, shutdown_requested, Connection, Context, Event, Read,
};
use imaprust::handlers::fetch::FetchHandler;
use imaprust::handlers::login::LoginHandler;
use imaprust::handlers::logout::LogoutHandler;
use imaprust::handlers::select::SelectHandler;
use imaprust::handlers::{Handle, Reply};
use imaprust::index::inmemory::InMemoryIndex;
use imaprust::index::{Index, Mailbox, MailboxError, Permission};
use imaprust::server::{Dispatcher, Response, ResponseStatus};

struct CountingIndex {}

impl Index for CountingIndex {
    fn add_mailbox(&mut self, _: Mailbox) -> Result<(), MailboxError> {
        Ok(())
    }
    fn get_mailbox(&mut self, name: &str, permission: Permission) -> Result<Mailbox, MailboxError> {
        if name == "INBOX" {
            return Ok(Mailbox::new("INBOX", 172, vec![], permission));
        }
        Err(MailboxError::DoesNotExist(name.to_string()))
    }
}

struct Server<I: Index> {
    dispatcher: Dispatcher<()>,
    login: LoginHandler<InMemoryAuthenticator>,
    select: SelectHandler<I>,
    fetch: FetchHandler,
    logout: LogoutHandler,
}

impl<I: Index> Server<I> {
    fn new(index: I) -> Self {
        let store = InMemoryUserStore::new()
            .with_user("me@example.com", "password")
            .unwrap();
        let login = LoginHandler::new(InMemoryAuthenticator::new(store));
        let select = SelectHandler::new(index);
        let fetch = FetchHandler {};
        let logout = LogoutHandler {};
        let mut dispatcher = Dispatcher::new();
        assert_eq!(dispatcher.insert(login.command().to_string(), ()), 0);
        assert_eq!(dispatcher.insert(select.command().to_string(), ()), 1);
        assert_eq!(dispatcher.insert(fetch.command().to_string(), ()), 2);
        assert_eq!(dispatcher.insert(logout.command().to_string(), ()), 3);
        Server {
            dispatcher,
            login,
            select,
            fetch,
            logout,
        }
    }

    fn send(&mut self, connection: &mut Connection, line: &str) -> String {
        if let Some((slot, request)) = connection.handle(line, &self.dispatcher) {
            let mut replies = match slot {
                0 => self.login.start(vec![request]),
                1 => self.select.start(vec![request]),
                2 => self.fetch.start(vec![request]),
                _ => self.logout.start(vec![request]),
            };
            connection.deliver(replies.remove(0));
            connection.update();
        }
        connection.write()
    }
}

#[test]
fn greeting_is_the_first_thing_written() {
    let mut connection = Connection::new();
    assert!(!connection.is_shutdown());
    assert!(!connection.context().is_authenticated());
    assert!(!connection.context().is_selected());
    assert_eq!(connection.write(), "* OK IMAP4rev2 server ready\r\n");
    assert_eq!(connection.write(), "");
}

#[test]
fn successful_login_welcomes_the_user() {
    let mut server = Server::new(CountingIndex {});
    let mut connection = Connection::new();
    connection.write();
    assert_eq!(
        server.send(&mut connection, "a1 LOGIN me@example.com password"),
        "a1 OK LOGIN completed. Welcome me@example.com.\r\n"
    );
    assert!(connection.context().is_authenticated());
}

#[test]
fn login_of_an_unknown_user_fails_without_a_reason() {
    let mut server = Server::new(CountingIndex {});
    let mut connection = Connection::new();
    connection.write();
    assert_eq!(
        server.send(&mut connection, "a1 LOGIN nobody@x password"),
        "a1 BAD LOGIN failed.\r\n"
    );
    assert!(!connection.context().is_authenticated());
}

#[test]
fn login_with_a_wrong_password_fails_like_that_of_an_unknown_user() {
    let mut server = Server::new(CountingIndex {});
    let mut connection = Connection::new();
    connection.write();
    assert_eq!(
        server.send(&mut connection, "a1 LOGIN me@example.com wrong"),
        "a1 BAD LOGIN failed.\r\n"
    );
    assert!(!connection.context().is_authenticated());
}

#[test]
fn select_before_login_is_answered_no() {
    let mut server = Server::new(CountingIndex {});
    let mut connection = Connection::new();
    connection.write();
    assert_eq!(
        server.send(&mut connection, "a1 SELECT INBOX"),
        "a1 NO cannot SELECT when un-authenticated. Please authenticate using LOGIN or AUTHENTICATE.\r\n"
    );
    assert!(!connection.context().is_selected());
}

#[test]
fn session_walks_through_login_select_fetch_and_logout() {
    let mut server = Server::new(CountingIndex {});
    let mut connection = Connection::new();
    assert_eq!(connection.write(), "* OK IMAP4rev2 server ready\r\n");
    assert_eq!(
        server.send(&mut connection, "a1 LOGIN me@example.com password"),
        "a1 OK LOGIN completed. Welcome me@example.com.\r\n"
    );
    assert_eq!(
        server.send(&mut connection, "a2 SELECT INBOX"),
        "* 172 EXISTS\r\n\
         * OK [UIDVALIDITY 3857529045] UIDs valid\r\n\
         * OK [UIDNEXT 4392] Predicted next UID\r\n\
         * FLAGS (\\Answered \\Flagged \\Deleted \\Seen \\Draft)\r\n\
         * OK [PERMANENTFLAGS (\\Deleted \\Seen \\*)] Limited\r\n\
         * LIST () \"/\" INBOX\r\n\
         a2 OK [READ-WRITE] SELECT completed.\r\n"
    );
    assert!(connection.context().is_selected());
    assert_eq!(
        server.send(&mut connection, "a3 FETCH 1 BODY[TEXT]"),
        "* 1 FETCH (BODY[TEXT] {26}\r\nThis is a test email body.)\r\na3 OK FETCH completed.\r\n"
    );
    assert!(!connection.is_shutdown());
    assert_eq!(
        server.send(&mut connection, "a4 LOGOUT"),
        "a4 OK LOGOUT completed. Goodbye!\r\n"
    );
    assert!(connection.is_shutdown());
    assert!(!connection.context().is_authenticated());
    assert!(!connection.context().is_selected());
    assert_eq!(server.send(&mut connection, "a5 FETCH 1 BODY[TEXT]"), "");
    assert_eq!(server.send(&mut connection, "a6 NOOP"), "");
    assert_eq!(server.send(&mut connection, ""), "");
}

#[test]
fn the_inbox_of_a_new_index_is_empty() {
    let mut server = Server::new(InMemoryIndex::new());
    let mut connection = Connection::new();
    connection.write();
    server.send(&mut connection, "a1 LOGIN me@example.com password");
    let answer = server.send(&mut connection, "a2 SELECT inbox");
    assert!(answer.starts_with("* 0 EXISTS\r\n"));
    assert!(answer.contains("* LIST () \"/\" inbox\r\n"));
    assert!(answer.ends_with("a2 OK [READ-WRITE] SELECT completed.\r\n"));
    assert_eq!(
        server.send(&mut connection, "a3 SELECT Drafts"),
        "a3 NO No such mailbox\r\n"
    );
}

#[test]
fn unknown_verbs_and_broken_lines_are_answered_bad() {
    let mut server = Server::new(CountingIndex {});
    let mut connection = Connection::new();
    connection.write();
    assert_eq!(
        server.send(&mut connection, "a1 NOOP"),
        "a1 BAD Command unknown\r\n"
    );
    assert_eq!(
        server.send(&mut connection, "a2"),
        "a2 BAD Command '' unknown\r\n"
    );
    assert_eq!(
        server.send(&mut connection, "   "),
        "* BAD Command '' unknown\r\n"
    );
    assert_eq!(server.send(&mut connection, ""), "* BAD Command '' unknown\r\n");
    assert!(!connection.is_shutdown());
}

#[test]
fn verbs_are_routed_whatever_their_case() {
    let mut server = Server::new(CountingIndex {});
    let mut connection = Connection::new();
    connection.write();
    assert_eq!(
        server.send(&mut connection, "  a1   login   \"me@example.com\"   'password'  "),
        "a1 OK LOGIN completed. Welcome me@example.com.\r\n"
    );
}

#[test]
fn reader_forwards_the_context_as_it_is() {
    let mut dispatcher = Dispatcher::new();
    dispatcher.insert("FETCH".to_string(), ());
    let context = Context::of(
        Some(User::new("me", "password").unwrap()),
        Some("INBOX".to_string()),
    );
    match read("a1 fetch 1", &context, &dispatcher) {
        Read::Forward { slot, request } => {
            assert_eq!(slot, 0);
            assert_eq!(request.command.command(), "FETCH");
            assert!(request.context.is_authenticated());
            assert!(request.context.is_selected());
        }
        Read::Answer(_) => panic!("FETCH has a slot"),
    }
    match read("a1 STORE 1", &context, &dispatcher) {
        Read::Answer(response) => assert_eq!(
            response,
            Response::new("a1", ResponseStatus::BAD, "Command unknown")
        ),
        Read::Forward { .. } => panic!("STORE has no slot"),
    }
}

#[test]
fn batches_are_written_in_the_order_of_arrival() {
    let mut connection = Connection::new();
    connection.write();
    let first = Reply {
        events: vec![],
        responses: vec![
            Response::untagged("1 EXISTS"),
            Response::new("a1", ResponseStatus::OK, "done"),
        ],
    };
    let second = Reply {
        events: vec![],
        responses: vec![Response::new("a2", ResponseStatus::NO, "no")],
    };
    let third = Reply {
        events: vec![],
        responses: vec![],
    };
    connection.deliver(first);
    connection.deliver(second);
    connection.deliver(third);
    assert_eq!(
        connection.write(),
        "* 1 EXISTS\r\na1 OK done\r\na2 NO no\r\n"
    );
}

#[test]
fn writer_ends_every_line_with_crlf() {
    assert_eq!(serialize(&vec![]), "");
    assert_eq!(
        serialize(&vec![
            Response::untagged("FLAGS ()"),
            Response::new("x", ResponseStatus::BAD, "")
        ]),
        "* FLAGS ()\r\nx BAD \r\n"
    );
}

#[test]
fn a_user_stays_logged_in_until_logout() {
    let mut context = Context::default();
    let user = User::new("me", "password").unwrap();
    assert!(!context.apply(Event::AUTH(user)));
    assert!(context.is_authenticated());
    assert!(!context.apply(Event::SELECT("INBOX".to_string())));
    assert!(context.is_authenticated());
    assert!(context.is_selected());
    assert!(!context.apply(Event::SELECT("Drafts".to_string())));
    assert!(context.is_authenticated());
    assert!(context.apply(Event::UNAUTH()));
    assert!(!context.is_authenticated());
    assert!(!context.is_selected());
}

#[test]
fn state_manager_stops_at_the_first_logout() {
    let mut connection = Connection::new();
    let user = User::new("me", "password").unwrap();
    connection.deliver(Reply {
        events: vec![
            Event::SELECT("INBOX".to_string()),
            Event::UNAUTH(),
            Event::AUTH(user),
        ],
        responses: vec![],
    });
    assert!(!connection.is_shutdown());
    assert!(connection.update());
    assert!(connection.is_shutdown());
    assert!(!connection.context().is_authenticated());
    assert!(!connection.context().is_selected());
    let late = User::new("late", "password").unwrap();
    connection.deliver(Reply {
        events: vec![Event::AUTH(late)],
        responses: vec![],
    });
    assert!(connection.update());
    assert!(!connection.context().is_authenticated());
}

#[test]
fn events_wait_until_the_state_manager_has_its_turn() {
    let mut connection = Connection::new();
    let user = User::new("me", "password").unwrap();
    connection.deliver(Reply {
        events: vec![Event::AUTH(user)],
        responses: vec![],
    });
    assert!(!connection.context().is_authenticated());
    assert!(!connection.update());
    assert!(connection.context().is_authenticated());
}

#[test]
fn reader_stops_on_the_signal_and_when_nobody_can_send_it() {
    assert!(shutdown_requested(Ok(Some(()))));
    assert!(!shutdown_requested(Ok(None)));
    assert!(shutdown_requested(Err(())));
}

#[test]
fn test_can_connect() {
    let mut server = Server::new(InMemoryIndex::new());
    let mut connection = Connection::new();
    assert_eq!(connection.write(), "* OK IMAP4rev2 server ready\r\n");

    // the client we have here is unauthenticated.
    // to do anything useful with the e-mails, we need to log in
    let login = server.send(&mut connection, "a1 LOGIN \"me@example.com\" \"password\"");
    assert!(login.starts_with("a1 OK "));

    // we want to fetch the first email in the INBOX mailbox
    let select = server.send(&mut connection, "a2 SELECT \"INBOX\"");
    assert!(select.ends_with("a2 OK [READ-WRITE] SELECT completed.\r\n"));

    // fetch message number 1 in this mailbox, along with its text
    let fetch = server.send(&mut connection, "a3 FETCH 1 BODY[TEXT]");
    let literal = fetch.find("{26}\r\n").unwrap() + "{26}\r\n".len();
    let body = &fetch[literal..literal + 26];

    assert_eq!(body, "This is a test email body.");

    // be nice to the server and log out
    let logout = server.send(&mut connection, "a4 LOGOUT");
    assert!(logout.starts_with("a4 OK "));
    assert!(connection.is_shutdown());
}
