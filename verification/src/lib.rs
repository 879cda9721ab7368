//! The core of a mail-access server that speaks a line-oriented protocol in
//! the style of IMAP: what the server does with the lines of its clients,
//! without the sockets and the tasks that carry them.
//!
//! The session path serves many clients at once. `server` holds the wire
//! codec and the dispatcher, `connection` the state of one session and the
//! steps of its reader, writer and state manager, `handlers` the workers for
//! `LOGIN`, `SELECT`, `FETCH` and `LOGOUT`, `auth` the users and `index` the
//! mailboxes. Every step is a function from values to values, so that it can
//! be stated exactly what a connection does with a line, an event or a
//! reply; the laws of a session are proved from those statements.
//!
//! The blocking path answers one line at a time: `parser` reads a command
//! from bytes, `handler` holds the handlers that answer it, `requests` puts
//! them together, `error` says what went wrong, and `auth::basic` keeps the
//! passwords that its login checks.
pub mod auth;
pub mod connection;
pub mod error;
pub mod handler;
pub mod handlers;
pub mod index;
pub mod lookup;
pub mod mailbox;
pub mod parser;
pub mod requests;
pub mod server;
pub mod text;
