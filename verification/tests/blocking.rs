use imaprust::auth::basic::{
    Authenticator, BasicAuth, BasicAuthenticator, InMemoryUserStore, UserStore,
};
use imaprust::error::{Cause, ErrorKind, IMAPError};
use imaprust::handler::{
    not_implemented, CapabilityHandler, Handle, LoginHandler, UnknownCommandHandler,
};
use imaprust::parser::{hex, normalize, split_words, Command, CompletionStatus, Parser, Response};
use imaprust::requests::{read_line, Delegate, HandleRequest, RequestHandlerBuilder};
use std::str;
use std::str::from_utf8;

#[test]
fn test_can_read_tag() {
    let parser = Parser::new();

    let input = Vec::from(b"tag1 other data" as &[u8]);
    let command = parser.parse(input);

    assert!(command.is_ok());
    let command = command.unwrap();
    assert_eq!(command.tag, b"tag1");
    assert_eq!(command.command, "other");
    assert_eq!(command.args[0], b"data");
}

#[test]
fn test_command_uppercase_is_lowered() {
    let parser = Parser::new();

    let input = Vec::from(b"tag1 OTHER data" as &[u8]);
    let command = parser.parse(input);

    assert!(command.is_ok());
    let command = command.unwrap();
    assert_eq!(command.tag, b"tag1");
    assert_eq!(command.command, "other");
    assert_eq!(command.args[0], b"data");
}

#[test]
fn test_extraneous_whitespace_is_ignored() {
    let parser = Parser::new();

    let input = Vec::from(b"   tag1    OTHER    data     \r\n" as &[u8]);
    let command = parser.parse(input);

    assert!(command.is_ok());
    let command = command.unwrap();
    assert_eq!(command.tag, b"tag1");
    assert_eq!(command.command, "other");
    assert_eq!(command.args.len(), 1);
    assert_eq!(command.args[0], b"data");
}

#[test]
fn test_handle_non_utf8() {
    let parser = Parser::new();
    let data = [
        b'\xC0', b'\xC1', b'\xF5', b'\xF6', b'\xF7', b'\xF8', b'\xF9', b'\xFA', b'\xFB',
        b'\xFC', b'\xFD', b'\xFE', b'\xFF', b' ', b't', b'e', b's', b't',
    ];
    let input = Vec::from(&data as &[u8]);

    let command = parser.parse(input);

    assert_eq!(command.unwrap_err().tag, []);
}

#[test]
fn test_ok_response_can_be_output() {
    let response = Response::new(
        CompletionStatus::OK,
        String::from("tag1"),
        String::from("Your response"),
    );

    let mut output: Vec<u8> = Vec::with_capacity(32);
    response.respond(&mut output);

    assert_eq!(
        str::from_utf8(output.as_ref()).unwrap(),
        "tag1 OK Your response\n"
    );
}

#[test]
fn test_no_response_can_be_output() {
    let response = Response::new(
        CompletionStatus::NO,
        String::from("tag1"),
        String::from("Your response"),
    );

    let mut output: Vec<u8> = Vec::with_capacity(32);
    response.respond(&mut output);

    assert_eq!(
        str::from_utf8(output.as_ref()).unwrap(),
        "tag1 NO Your response\n"
    );
}

#[test]
fn test_bad_response_can_be_output() {
    let response = Response::new(
        CompletionStatus::BAD,
        String::from("tag1"),
        String::from("Your response"),
    );

    let mut output: Vec<u8> = Vec::with_capacity(32);
    response.respond(&mut output);

    assert_eq!(
        str::from_utf8(output.as_ref()).unwrap(),
        "tag1 BAD Your response\n"
    );
}

#[test]
fn test_untagged_response_can_be_output() {
    let response = Response::new(
        CompletionStatus::OK,
        String::from(""),
        String::from("Your response"),
    );

    let mut output: Vec<u8> = Vec::with_capacity(32);
    response.respond(&mut output);

    assert_eq!(
        str::from_utf8(output.as_ref()).unwrap(),
        "* OK Your response\n"
    );
}

#[test]
fn responses_are_written_one_behind_the_other() {
    let mut output: Vec<u8> = Vec::from(b"x" as &[u8]);
    Response::from(CompletionStatus::OK, b"t", "a").respond(&mut output);
    Response::from(CompletionStatus::NO, b"\xff", "b").respond(&mut output);
    assert_eq!(output, b"xt OK a\n* NO b\n");
    assert_eq!(
        Response::new(CompletionStatus::BAD, "é".to_string(), "ü".to_string()).line(),
        "é BAD ü\n"
    );
    assert_eq!(CompletionStatus::OK.to_string(), "OK");
    assert_eq!(CompletionStatus::NO.to_string(), "NO");
    assert_eq!(CompletionStatus::BAD.to_string(), "BAD");
}

#[test]
fn parser_says_what_is_missing_or_broken() {
    let parser = Parser::new();
    let missing_tag = parser.parse(Vec::from(b"    " as &[u8])).unwrap_err();
    assert_eq!(missing_tag.tag, []);
    assert_eq!(missing_tag.cause.kind(), ErrorKind::InvalidInput);
    assert_eq!(
        missing_tag.cause.to_string(),
        "Tag not provided. Expected <tag SPACE command [arguments]>"
    );
    let broken_tag = parser.parse(Vec::from(b"\xff login" as &[u8])).unwrap_err();
    assert_eq!(broken_tag.tag, []);
    assert_eq!(
        broken_tag.cause.to_string(),
        "Tag is not a valid UTF-8 string. Expected <tag SPACE command [arguments]>"
    );
    let missing_command = parser.parse(Vec::from(b" t1 " as &[u8])).unwrap_err();
    assert_eq!(missing_command.tag, b"t1");
    assert_eq!(
        missing_command.cause.to_string(),
        "Command not provided. Expected <tag SPACE command [arguments]>"
    );
    let broken_command = parser.parse(Vec::from(b"t1 \xc0" as &[u8])).unwrap_err();
    assert_eq!(broken_command.tag, b"t1");
    assert_eq!(
        broken_command.cause.to_string(),
        "Provided command is not a valid UTF-8 string"
    );
    let broken_arg = parser
        .parse(Vec::from(b"t1 login ok \xc0\x01 \xff" as &[u8]))
        .unwrap_err();
    assert_eq!(broken_arg.tag, b"t1");
    assert_eq!(broken_arg.cause.kind(), ErrorKind::InvalidInput);
    assert_eq!(
        broken_arg.cause.to_string(),
        format!(
            "Provided arg {:02x?} is not a valid UTF-8 string",
            b"\xc0\x01" as &[u8]
        )
    );
    assert_eq!(
        broken_arg.to_string(),
        "IMAPError (tag: t1, cause: Provided arg [c0, 01] is not a valid UTF-8 string)"
    );
}

#[test]
fn parser_drops_line_ends_but_keeps_what_clings_to_words() {
    let parser = Parser::new();
    let command = parser
        .parse(Vec::from(b"t1 LoGiN\n me \n \r\n you\r\n" as &[u8]))
        .unwrap();
    assert_eq!(command.command, "login");
    assert_eq!(command.args, vec![b"me".to_vec(), b"you\r\n".to_vec()]);
    let other = parser.parse(Vec::from(b"t1 Noop\r\n" as &[u8])).unwrap();
    assert_eq!(other.command, "noop\r");
    assert!(other.args.is_empty());
    let accented = parser.parse("t1 ÉCOLE".as_bytes().to_vec()).unwrap();
    assert_eq!(accented.command, "École");
}

#[test]
fn helpers_of_the_parser_work_on_bytes_and_characters() {
    assert_eq!(split_words(&b"  a  bc ".to_vec()), vec![b"a".to_vec(), b"bc".to_vec()]);
    assert_eq!(split_words(&b"".to_vec()), Vec::<Vec<u8>>::new());
    assert_eq!(normalize("ABC\n"), "abc");
    assert_eq!(normalize("\n"), "");
    assert_eq!(normalize("A\n\n"), "a\n");
    assert_eq!(normalize("Z@[az"), "z@[az");
    assert_eq!(hex(b""), "");
    assert_eq!(hex(b"\x00"), "00");
    assert_eq!(hex(b"\x0f\xa0\xff"), "0f, a0, ff");
    assert_eq!(
        format!("[{}]", hex(b"\x09\x1a\xbc")),
        format!("{:02x?}", b"\x09\x1a\xbc" as &[u8])
    );
}

#[test]
fn errors_tell_lost_connections_from_empty_reads() {
    let lost = IMAPError::new(vec![], Cause::new(ErrorKind::ConnectionAborted, "gone"));
    assert!(lost.should_panic());
    assert!(!lost.can_ignore());
    let later = IMAPError::new(vec![], Cause::new(ErrorKind::WouldBlock, "later"));
    assert!(!later.should_panic());
    assert!(later.can_ignore());
    let late = IMAPError::new(b"t".to_vec(), Cause::new(ErrorKind::TimedOut, "late"));
    assert!(late.can_ignore());
    assert_eq!(late.to_string(), "IMAPError (tag: t, cause: late)");
    let other = IMAPError::new(vec![], Cause::new(ErrorKind::InvalidInput, "bad"));
    assert!(!other.should_panic());
    assert!(!other.can_ignore());
    assert!(!IMAPError::new(vec![], Cause::new(ErrorKind::InvalidData, "")).can_ignore());
    assert!(!IMAPError::new(vec![], Cause::new(ErrorKind::Other, "")).should_panic());
}

fn login_handler() -> LoginHandler<InMemoryUserStore> {
    LoginHandler {
        _authenticator: BasicAuthenticator::new(
            InMemoryUserStore::new().with_user(String::from("test"), String::from("test")),
        ),
    }
}

fn login_with(args: Vec<Vec<u8>>) -> String {
    let handler = login_handler();
    let command = Command {
        tag: Vec::from(b"tag1" as &[u8]),
        command: String::from("login"),
        args,
    };

    let responses = handler.handle(command);

    let mut output: Vec<u8> = Vec::with_capacity(64);
    responses
        .iter()
        .for_each(|response| response.respond(&mut output));
    from_utf8(output.as_ref()).unwrap().to_string()
}

#[test]
fn handler_test_handler_can_login_success() {
    assert_eq!(
        login_with(Vec::from([
            Vec::from(b"test" as &[u8]),
            Vec::from(b"test" as &[u8])
        ])),
        "tag1 OK LOGIN completed.\n"
    );
}

#[test]
fn test_ok_capability_response() {
    let handler = CapabilityHandler {};

    let command = Command {
        tag: Vec::from(b"tag1" as &[u8]),
        command: String::from("capability"),
        args: Vec::new(),
    };

    let responses = handler.handle(command);

    let mut output: Vec<u8> = Vec::with_capacity(64);
    responses
        .iter()
        .for_each(|response| response.respond(&mut output));

    assert_eq!(
        from_utf8(output.as_ref()).unwrap(),
        "* OK CAPABILITY IMAP4rev1\ntag1 OK CAPABILITY completed\n"
    );
}

#[test]
fn handler_test_can_login_successfully() {
    assert_eq!(
        login_with(Vec::from([
            Vec::from(b"test" as &[u8]),
            Vec::from(b"test" as &[u8])
        ])),
        "tag1 OK LOGIN completed.\n"
    );
}

#[test]
fn handler_test_login_no_password_provided_fails() {
    assert_eq!(
        login_with(Vec::from([Vec::from(b"test" as &[u8])])),
        "tag1 BAD Missing argument. Command should be '<tag> LOGIN <userid> <password>'\n"
    );
}

#[test]
fn handler_test_login_authentication_fails() {
    assert_eq!(
        login_with(Vec::from([
            Vec::from(b"test" as &[u8]),
            Vec::from(b"badpassword" as &[u8]),
        ])),
        "tag1 NO LOGIN failed.\n"
    );
}

#[test]
fn login_handler_test_handler_can_login_success() {
    assert_eq!(
        login_with(Vec::from([
            Vec::from(b"test" as &[u8]),
            Vec::from(b"test" as &[u8])
        ])),
        "tag1 OK LOGIN completed.\n"
    );
}

#[test]
fn login_handler_test_can_login_successfully() {
    assert_eq!(
        login_with(Vec::from([
            Vec::from(b"test" as &[u8]),
            Vec::from(b"test" as &[u8])
        ])),
        "tag1 OK LOGIN completed.\n"
    );
}

#[test]
fn login_handler_test_login_no_password_provided_fails() {
    assert_eq!(
        login_with(Vec::from([Vec::from(b"test" as &[u8])])),
        "tag1 BAD Missing argument. Command should be '<tag> LOGIN <userid> <password>'\n"
    );
}

#[test]
fn login_handler_test_login_authentication_fails() {
    assert_eq!(
        login_with(Vec::from([
            Vec::from(b"test" as &[u8]),
            Vec::from(b"badpassword" as &[u8]),
        ])),
        "tag1 NO LOGIN failed.\n"
    );
}

#[test]
fn login_of_an_unknown_user_or_with_bytes_that_are_no_text_fails() {
    assert_eq!(
        login_with(vec![b"nobody".to_vec(), b"test".to_vec()]),
        "tag1 NO LOGIN failed.\n"
    );
    assert_eq!(
        login_with(vec![b"\xff".to_vec(), b"test".to_vec()]),
        "tag1 NO LOGIN failed.\n"
    );
    assert_eq!(
        login_with(vec![b"test".to_vec(), b"test".to_vec(), b"more".to_vec()]),
        "tag1 OK LOGIN completed.\n"
    );
}

#[test]
fn unknown_commands_are_named_in_the_answer() {
    let command = Command {
        tag: b"\xfftag".to_vec(),
        command: String::from("noop"),
        args: Vec::new(),
    };
    let mut output: Vec<u8> = Vec::new();
    for response in (UnknownCommandHandler {}).handle(command) {
        response.respond(&mut output);
    }
    assert_eq!(output, b"* BAD Command 'noop' unknown\n");
    let mut later: Vec<u8> = Vec::new();
    for response in not_implemented(Command {
        tag: b"t9".to_vec(),
        command: String::from("store"),
        args: Vec::new(),
    }) {
        response.respond(&mut later);
    }
    assert_eq!(later, b"t9 NO Not implemented yet\n");
}

#[test]
fn plain_store_keeps_one_password_for_each_name() {
    let mut store = InMemoryUserStore::new();
    assert!(store
        .authenticate("a".to_string(), "1".to_string())
        .is_none());
    store.with_user("a".to_string(), "1".to_string());
    let copy = store.with_user("b".to_string(), "2".to_string());
    let user = store
        .authenticate("a".to_string(), "1".to_string())
        .unwrap();
    assert!(user.is_authenticated());
    assert_eq!(user.name(), "a");
    assert!(store
        .authenticate("a".to_string(), "2".to_string())
        .is_none());
    store.with_user("a".to_string(), "3".to_string());
    assert!(store
        .authenticate("a".to_string(), "1".to_string())
        .is_none());
    assert!(store
        .authenticate("a".to_string(), "3".to_string())
        .is_some());
    assert!(copy.authenticate("a".to_string(), "1".to_string()).is_some());
    assert!(copy.authenticate("b".to_string(), "2".to_string()).is_some());
    assert_eq!(store.delete("a".to_string()), Ok(()));
    assert_eq!(store.delete("a".to_string()), Err(()));
    assert!(store
        .authenticate("a".to_string(), "3".to_string())
        .is_none());
    assert!(store
        .authenticate("b".to_string(), "2".to_string())
        .is_some());
    assert!(store.clone().authenticate("b".to_string(), "2".to_string()).is_some());
    let authenticator = BasicAuthenticator::new(store);
    assert!(authenticator
        .authenticate(BasicAuth::from(b"b", b"2"))
        .is_some());
    assert!(authenticator
        .authenticate(BasicAuth::from(b"b", b"\xff"))
        .is_none());
    let auth = BasicAuth::from(b"\xc0", b"pw");
    assert_eq!(auth.username, "");
    assert_eq!(auth.password, "pw");
}

#[test]
fn test_request_handler_handles_unknown_tag() {
    let handler = RequestHandlerBuilder::new()
        .with_buffer_size(32)
        .with_parser(Parser::new())
        .with_default_handler(Delegate::Unknown(UnknownCommandHandler {}))
        .build();
    let input = b"tag1 command arg1 arg2" as &[u8];
    let mut output: Vec<u8> = Vec::with_capacity(128);

    handler
        .handle(input, &mut output)
        .expect("Input stream was closed unexpectedly");

    assert_eq!(
        String::from_utf8_lossy(&output),
        "tag1 BAD Command 'command' unknown\n"
    );
}

#[test]
fn test_request_handler_no_args() {
    let handler = RequestHandlerBuilder::new()
        .with_buffer_size(32)
        .with_handler(
            "capability".to_string(),
            Delegate::Capability(CapabilityHandler {}),
        )
        .build();

    let input = b"tag1 capability\n" as &[u8];
    let mut output: Vec<u8> = Vec::with_capacity(32);

    handler
        .handle(input, &mut output)
        .expect("Input stream was closed unexpectedly");

    assert_eq!(
        String::from_utf8_lossy(&output),
        "* OK CAPABILITY IMAP4rev1\ntag1 OK CAPABILITY completed\n"
    );
}

#[test]
fn test_handle_buffer_overflow() {
    let handler = RequestHandlerBuilder::new().with_buffer_size(16).build();
    let input = b"thisstringofbytesistoolong" as &[u8];
    let mut output: Vec<u8> = Vec::with_capacity(128);

    handler
        .handle(input, &mut output)
        .expect("Input stream was closed unexpectedly");

    assert_eq!(
        String::from_utf8_lossy(&output),
        "thisstringofbyte BAD Command '' unknown\n"
    );
}

#[test]
fn request_handler_knows_admin_where_no_store_is_given() {
    let handler = RequestHandlerBuilder::new().build();
    let mut output: Vec<u8> = Vec::new();
    handler
        .handle(b"a1 LOGIN admin admin \na2 LOGIN admin nope\n", &mut output)
        .unwrap();
    assert_eq!(output, b"a1 OK LOGIN completed.\n");
    let mut clinging: Vec<u8> = Vec::new();
    handler
        .handle(b"a1 LOGIN admin admin\n", &mut clinging)
        .unwrap();
    assert_eq!(clinging, b"a1 NO LOGIN failed.\n");
    let mut refused: Vec<u8> = Vec::new();
    handler.handle(b"a1 login admin nope", &mut refused).unwrap();
    assert_eq!(refused, b"a1 NO LOGIN failed.\n");
    let mut store = InMemoryUserStore::new();
    let own = RequestHandlerBuilder::new()
        .with_user_store(store.with_user("me".to_string(), "pw".to_string()))
        .build();
    let mut other: Vec<u8> = Vec::new();
    own.handle(b"a1 login admin admin", &mut other).unwrap();
    own.handle(b"a2 login me pw", &mut other).unwrap();
    assert_eq!(other, b"a1 NO LOGIN failed.\na2 OK LOGIN completed.\n");
}

#[test]
fn request_handler_refuses_closed_streams_and_lines_that_are_no_text() {
    let handler = RequestHandlerBuilder::new().build();
    let mut output: Vec<u8> = Vec::from(b"kept" as &[u8]);
    let closed = handler.handle(b"", &mut output).unwrap_err();
    assert!(closed.should_panic());
    assert_eq!(closed.tag, []);
    let broken = handler.handle(b"a1 \xff\n", &mut output).unwrap_err();
    assert_eq!(broken.cause.kind(), ErrorKind::InvalidData);
    assert!(!broken.should_panic());
    assert!(!broken.can_ignore());
    assert_eq!(output, b"kept");
    let mut answered: Vec<u8> = Vec::new();
    handler.handle(b"\n", &mut answered).unwrap();
    assert_eq!(answered, b"\n BAD Command '' unknown\n");
    let mut untagged: Vec<u8> = Vec::new();
    handler.handle(b"   ", &mut untagged).unwrap();
    assert_eq!(untagged, b"* BAD Command '' unknown\n");
}

#[test]
fn request_handler_reads_with_the_parser_that_is_set() {
    let with = RequestHandlerBuilder::new()
        .with_parser(Parser::new())
        .with_parser(Parser::new())
        .build();
    let without = RequestHandlerBuilder::new().build();
    let mut first: Vec<u8> = Vec::new();
    let mut second: Vec<u8> = Vec::new();
    with.handle(b"t1 CAPABILITY", &mut first).unwrap();
    without.handle(b"t1 CAPABILITY", &mut second).unwrap();
    assert_eq!(first, b"* OK CAPABILITY IMAP4rev1\nt1 OK CAPABILITY completed\n");
    assert_eq!(first, second);
}

#[test]
fn lines_end_at_the_line_feed_or_at_the_limit() {
    assert_eq!(read_line(b"ab\ncd\n", 10), b"ab\n");
    assert_eq!(read_line(b"ab\ncd\n", 3), b"ab\n");
    assert_eq!(read_line(b"ab\ncd\n", 2), b"ab");
    assert_eq!(read_line(b"abcd", 10), b"abcd");
    assert_eq!(read_line(b"abcd", 0), b"");
    assert_eq!(read_line(b"", 10), b"");
    assert_eq!(read_line(b"\n\n", 10), b"\n");
}

#[test]
fn later_delegates_take_the_place_of_earlier_ones() {
    let handler = RequestHandlerBuilder::new()
        .with_handler(
            "capability".to_string(),
            Delegate::Unknown(UnknownCommandHandler {}),
        )
        .with_handler(
            "noop".to_string(),
            Delegate::Unknown(UnknownCommandHandler {}),
        )
        .with_handler(
            "noop".to_string(),
            Delegate::Other(Box::new(UnknownCommandHandler {})),
        )
        .with_default_handler(Delegate::Other(Box::new(UnknownCommandHandler {})))
        .build();
    let mut output: Vec<u8> = Vec::new();
    handler.handle(b"t1 NOOP", &mut output).unwrap();
    handler.handle(b"t2 other", &mut output).unwrap();
    handler.handle(b"t3 capability", &mut output).unwrap();
    assert_eq!(
        String::from_utf8_lossy(&output),
        "t1 BAD Command 'noop' unknown\nt2 BAD Command 'other' unknown\n* OK CAPABILITY IMAP4rev1\nt3 OK CAPABILITY completed\n"
    );
}
