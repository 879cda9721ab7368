//! The blocking request path: one line in, the responses to it out.
use vstd::prelude::*;
use vstd::string::StringExecFns;
use vstd::utf8::{encode_utf8, valid_utf8};
use crate::auth::basic::{BasicAuthenticator, InMemoryUserStore};
use crate::error::{Cause, ErrorKind, IMAPError};
use crate::handler::{
    response_views, CapabilityHandler, Handle, LoginHandler, UnknownCommandHandler, CAPABILITY,
    LOGIN,
};
use crate::lookup::{find, first_at, lemma_first_at, lemma_first_at_push, names};
use crate::parser::{parsed, Command, CommandView, Parser, Response, ResponseView};
use crate::text::{first_separator, lemma_first_separator_is, texts};

verus! {

/// The number of bytes of a line that are read where nothing else is set.
pub const DEFAULT_BUFFER_SIZE: u64 = 1024;

/// The message for a stream that has ended.
pub const STREAM_CLOSED: &'static str =
    "Empty read indicates stream has been closed by client. Server side stream must also be closed.";

/// The message for a line that is not text.
pub const NOT_TEXT: &'static str = "stream did not contain valid UTF-8";

/// What serves requests: it takes what a stream holds, and puts what is to
/// be written behind what the output holds.
pub trait HandleRequest {
    /// Serves the next request of the stream.
    fn handle(&self, input: &[u8], output: &mut Vec<u8>) -> Result<(), IMAPError>;
}

/// One of the handlers that a request handler can hold.
pub enum Delegate {
    Unknown(UnknownCommandHandler),
    Capability(CapabilityHandler),
    Login(LoginHandler<InMemoryUserStore>),
    Other(Box<dyn Handle>),
}

impl Handle for Delegate {
    open spec fn serves(&self, command: Seq<char>) -> bool {
        match self {
            Delegate::Unknown(handler) => handler.serves(command),
            Delegate::Capability(handler) => handler.serves(command),
            Delegate::Login(handler) => handler.serves(command),
            Delegate::Other(handler) => handler.serves(command),
        }
    }

    open spec fn answer(&self, command: CommandView) -> Seq<ResponseView> {
        match self {
            Delegate::Unknown(handler) => handler.answer(command),
            Delegate::Capability(handler) => handler.answer(command),
            Delegate::Login(handler) => handler.answer(command),
            Delegate::Other(handler) => handler.answer(command),
        }
    }

    fn handle(&self, command: Command) -> (r: Vec<Response>) {
        match self {
            Delegate::Unknown(handler) => handler.handle(command),
            Delegate::Capability(handler) => handler.handle(command),
            Delegate::Login(handler) => handler.handle(command),
            Delegate::Other(handler) => handler.handle(command),
        }
    }
}

/// The views of a sequence of delegates' names and the delegates, as the
/// table of a request handler.
pub struct TableView {
    pub names: Seq<Seq<char>>,
    pub delegates: Seq<Delegate>,
}

impl TableView {
    /// Each name has its delegate, and the delegate is made for commands of
    /// that name.
    pub open spec fn well_formed(self) -> bool {
        &&& self.names.len() == self.delegates.len()
        &&& forall|i: int|
            0 <= i < self.names.len() ==> (#[trigger] self.delegates[i]).serves(self.names[i])
    }

    /// The table with a delegate for a name: in place of the one that the
    /// name had, or behind all others for a new name.
    pub open spec fn with(self, name: Seq<char>, delegate: Delegate) -> TableView {
        match first_at(self.names, name) {
            Some(i) => TableView { delegates: self.delegates.update(i, delegate), ..self },
            None => TableView {
                names: self.names.push(name),
                delegates: self.delegates.push(delegate),
            },
        }
    }

    /// The delegate for a name, if the name has one.
    pub open spec fn delegate(self, name: Seq<char>) -> Option<Delegate> {
        match first_at(self.names, name) {
            Some(i) => Some(self.delegates[i]),
            None => None,
        }
    }
}

/// The line that is read from what a stream holds: the bytes up to the
/// first line feed, the line feed included, or all bytes where there is
/// none; but no more bytes than the limit.
pub open spec fn first_line(input: Seq<u8>, limit: int) -> Seq<u8> {
    let bounded = if limit < input.len() {
        input.take(limit)
    } else {
        input
    };
    let n = first_separator(bounded, 10u8);
    if 0 <= n < bounded.len() {
        bounded.take(n + 1)
    } else {
        bounded
    }
}

/// The command that is handled for a line: the command that the parser
/// reads, or, where it reads none, a command without a name or arguments
/// under the tag of the failure.
pub open spec fn command_of(line: Seq<u8>) -> CommandView {
    match parsed(line) {
        Ok(command) => command,
        Err(failure) => CommandView {
            tag: failure.tag,
            command: Seq::empty(),
            args: Seq::empty(),
        },
    }
}

/// The bytes of responses as they are written, one line after the other.
pub open spec fn written(responses: Seq<ResponseView>) -> Seq<u8>
    decreases responses.len(),
{
    if responses.len() == 0 {
        Seq::empty()
    } else {
        written(responses.drop_last()) + encode_utf8(responses.last().line())
    }
}

/// The line that is read from what a stream holds.
pub fn read_line(input: &[u8], limit: usize) -> (r: Vec<u8>)
    ensures
        r@ == first_line(input@, limit as int),
{
    let bound = if limit < input.len() {
        limit
    } else {
        input.len()
    };
    let ghost bounded = if (limit as int) < input@.len() {
        input@.take(limit as int)
    } else {
        input@
    };
    let mut line: Vec<u8> = Vec::new();
    let mut i: usize = 0;
    while i < bound
        invariant
            i <= bound <= input.len(),
            bounded.len() == bound,
            bounded == if (limit as int) < input@.len() {
                input@.take(limit as int)
            } else {
                input@
            },
            line@ == bounded.take(i as int),
            forall|k: int| 0 <= k < i ==> bounded[k] != 10u8,
        decreases bound - i,
    {
        let b = input[i];
        line.push(b);
        assert(line@ =~= bounded.take(i + 1));
        if b == 10u8 {
            proof {
                lemma_first_separator_is(bounded, 10u8, i as int);
            }
            return line;
        }
        i += 1;
    }
    proof {
        lemma_first_separator_is(bounded, 10u8, bound as int);
        assert(bounded.take(bound as int) =~= bounded);
    }
    line
}

/// Serves one request at a time from what a stream holds.
pub struct RequestHandler {
    _buffer_size: u64,
    _parser: Parser,
    _names: Vec<String>,
    _delegates: Vec<Delegate>,
    _default_handler: Delegate,
}

impl RequestHandler {
    #[verifier::type_invariant]
    spec fn sound(&self) -> bool {
        &&& self.table().well_formed()
        &&& forall|command: Seq<char>| #[trigger] self._default_handler.serves(command)
        &&& self._buffer_size <= usize::MAX
    }

    /// The delegates by name.
    pub closed spec fn table(&self) -> TableView {
        TableView { names: texts(self._names@), delegates: self._delegates@ }
    }

    /// The handler for commands that have no delegate.
    pub closed spec fn default_handler(&self) -> Delegate {
        self._default_handler
    }

    /// The greatest number of bytes that are read of a line.
    pub closed spec fn buffer_size(&self) -> u64 {
        self._buffer_size
    }

    /// The parser that reads the lines.
    pub closed spec fn parser(&self) -> Parser {
        self._parser
    }

    /// The responses to a line: those of the delegate for the name of the
    /// line's command, or those of the default handler where the name has
    /// no delegate.
    pub open spec fn responses(&self, line: Seq<u8>) -> Seq<ResponseView> {
        let command = command_of(line);
        match self.table().delegate(command.command) {
            Some(delegate) => delegate.answer(command),
            None => self.default_handler().answer(command),
        }
    }
}

impl HandleRequest for RequestHandler {
    /// Reads one line of what the stream holds and answers it. A stream
    /// that holds nothing has been closed, and a line must be text; in both
    /// cases nothing is written. Any other line is answered, also where it
    /// holds no command: then the default handler answers.
    fn handle(&self, input: &[u8], output: &mut Vec<u8>) -> (r: Result<(), IMAPError>)
        ensures
            ({
                let line = first_line(input@, self.buffer_size() as int);
                match r {
                    Ok(()) => line.len() > 0 && valid_utf8(line) && final(output)@ == old(output)@
                        + written(self.responses(line)),
                    Err(error) => final(output)@ == old(output)@ && error.tag@.len() == 0 && (
                    if line.len() == 0 {
                        error.cause.kind_spec() == ErrorKind::ConnectionAborted
                            && error.cause.message() == STREAM_CLOSED@
                    } else {
                        !valid_utf8(line) && error.cause.kind_spec() == ErrorKind::InvalidData
                            && error.cause.message() == NOT_TEXT@
                    }),
                }
            }),
    {
        proof {
            use_type_invariant(self);
        }
        let buf = read_line(input, self._buffer_size as usize);
        if buf.len() == 0 {
            return Err(
                IMAPError::new(Vec::new(), Cause::new(ErrorKind::ConnectionAborted, STREAM_CLOSED)),
            );
        }
        if crate::text::utf8(buf.as_slice()).is_none() {
            return Err(IMAPError::new(Vec::new(), Cause::new(ErrorKind::InvalidData, NOT_TEXT)));
        }
        let ghost line = buf@;
        let command = match self._parser.parse(buf) {
            Ok(cmd) => cmd,
            Err(e) => {
                let IMAPError { tag, cause: _ } = e;
                Command { tag, command: String::new(), args: Vec::new() }
            },
        };
        proof {
            assert(command@.args =~= command_of(line).args);
            assert(command@ == command_of(line));
            assert(names(self._names@) =~= self.table().names);
            lemma_first_at(self.table().names, command@.command);
        }
        let responses = match find(&self._names, command.command.as_str()) {
            Some(i) => self._delegates[i].handle(command),
            None => self._default_handler.handle(command),
        };
        let ghost all = response_views(responses@);
        let ghost before = output@;
        let mut i: usize = 0;
        proof {
            assert(all.take(0) =~= Seq::<ResponseView>::empty());
            assert(before + written(all.take(0)) =~= before);
        }
        while i < responses.len()
            invariant
                i <= responses.len(),
                all == response_views(responses@),
                output@ == before + written(all.take(i as int)),
            decreases responses.len() - i,
        {
            proof {
                let next = all.take(i + 1);
                assert(next.drop_last() =~= all.take(i as int));
                assert(next.last() == responses@[i as int]@);
            }
            responses[i].respond(output);
            i += 1;
            assert(output@ =~= before + written(all.take(i as int)));
        }
        assert(all.take(i as int) =~= all);
        Ok(())
    }
}

/// The name and the password of the one user that a request handler knows
/// where no store was given.
pub const ADMIN: &'static str = "admin";

/// Whether a store knows the one user `admin`, whose password is `admin`.
pub open spec fn knows_admin(store: InMemoryUserStore) -> bool {
    store@.names == seq![ADMIN@] && store@.passwords == seq![ADMIN@]
}

/// The table of the request handler that is built from a table: the same
/// table, with a delegate for `login` that checks against the given store
/// where `login` had none, and then with the delegate for `capability`.
pub open spec fn built(table: TableView, store: InMemoryUserStore) -> TableView {
    (if table.delegate(LOGIN@) is Some {
        table
    } else {
        table.with(
            LOGIN@,
            Delegate::Login(LoginHandler { _authenticator: BasicAuthenticator::over(store) }),
        )
    }).with(CAPABILITY@, Delegate::Capability(CapabilityHandler {  }))
}

/// Puts a request handler together.
pub struct RequestHandlerBuilder {
    _buffer_size: u64,
    _parser: Option<Parser>,
    _names: Vec<String>,
    _handlers: Vec<Delegate>,
    _default: Option<Delegate>,
}

impl RequestHandlerBuilder {
    /// The delegates by name, as far as they are set.
    pub closed spec fn table(&self) -> TableView {
        TableView { names: texts(self._names@), delegates: self._handlers@ }
    }

    /// The default handler, if one is set.
    pub closed spec fn default_handler(&self) -> Option<Delegate> {
        self._default
    }

    /// The buffer size that is set; zero stands for none.
    pub closed spec fn buffer_size(&self) -> u64 {
        self._buffer_size
    }

    /// The parser, if one is set.
    pub closed spec fn parser(&self) -> Option<Parser> {
        self._parser
    }

    /// The table is well formed, and the default handler, if one is set, is
    /// made for every command.
    pub open spec fn well_formed(&self) -> bool {
        &&& self.table().well_formed()
        &&& self.default_handler() matches Some(handler) ==> forall|command: Seq<char>| #[trigger]
            handler.serves(command)
    }

    /// A builder with nothing set.
    pub fn new() -> (r: RequestHandlerBuilder)
        ensures
            r.table().names.len() == 0,
            r.default_handler() is None,
            r.buffer_size() == 0,
            r.parser() is None,
            r.well_formed(),
    {
        RequestHandlerBuilder {
            _names: Vec::new(),
            _handlers: Vec::new(),
            _default: None,
            _buffer_size: 0,
            _parser: None,
        }
    }

    /// Sets the delegate for commands of a name.
    pub fn with_handler(self, command: String, handler: Delegate) -> (r:
        RequestHandlerBuilder)
        requires
            self.well_formed(),
            handler.serves(command@),
        ensures
            r.table() == self.table().with(command@, handler),
            r.default_handler() == self.default_handler(),
            r.buffer_size() == self.buffer_size(),
            r.parser() == self.parser(),
            r.well_formed(),
    {
        let mut builder = self;
        let ghost before = builder.table();
        proof {
            assert(names(builder._names@) =~= before.names);
            lemma_first_at(before.names, command@);
        }
        match find(&builder._names, command.as_str()) {
            Some(i) => {
                builder._handlers.set(i, handler);
            },
            None => {
                proof {
                    assert(texts(builder._names@.push(command)) =~= before.names.push(command@));
                }
                builder._names.push(command);
                builder._handlers.push(handler);
            },
        }
        builder
    }

    /// Sets the handler for commands that have no delegate. It must be made
    /// for every command.
    pub fn with_default_handler(self, handler: Delegate) -> (r: RequestHandlerBuilder)
        requires
            self.well_formed(),
            forall|command: Seq<char>| #[trigger] handler.serves(command),
        ensures
            r.table() == self.table(),
            r.default_handler() == Some(handler),
            r.buffer_size() == self.buffer_size(),
            r.parser() == self.parser(),
            r.well_formed(),
    {
        let mut builder = self;
        builder._default = Some(handler);
        builder
    }

    /// Sets the delegate for `login`: one that checks against the store.
    pub fn with_user_store(self, store: InMemoryUserStore) -> (r: RequestHandlerBuilder)
        requires
            self.well_formed(),
        ensures
            r.table() == self.table().with(
                LOGIN@,
                Delegate::Login(LoginHandler { _authenticator: BasicAuthenticator::over(store) }),
            ),
            r.default_handler() == self.default_handler(),
            r.buffer_size() == self.buffer_size(),
            r.parser() == self.parser(),
            r.well_formed(),
    {
        let handler = Delegate::Login(
            LoginHandler { _authenticator: BasicAuthenticator::new(store) },
        );
        self.with_handler(String::from_str(LOGIN), handler)
    }

    /// Sets the greatest number of bytes that are read of a line; zero
    /// stands for the default.
    pub fn with_buffer_size(self, size: u64) -> (r: RequestHandlerBuilder)
        ensures
            r.table() == self.table(),
            r.default_handler() == self.default_handler(),
            r.buffer_size() == size,
            r.parser() == self.parser(),
    {
        let mut builder = self;
        builder._buffer_size = size;
        builder
    }

    /// Sets the parser, in place of the one that was set, if any.
    pub fn with_parser(self, parser: Parser) -> (r: RequestHandlerBuilder)
        ensures
            r.parser() == Some(parser),
            r.table() == self.table(),
            r.default_handler() == self.default_handler(),
            r.buffer_size() == self.buffer_size(),
    {
        let mut builder = self;
        builder._parser = Some(parser);
        builder
    }

    /// The request handler. It has every delegate that was set. Where
    /// `login` has none it gets one that knows the one user `admin`.
    /// `capability` gets its delegate, whatever it had. The default handler
    /// is the one for unknown commands where none is set, and the buffer
    /// holds 1024 bytes where no size is set.
    /// The parser is the one that is set, or a new one.
    pub fn build(self) -> (r: RequestHandler)
        requires
            self.well_formed(),
            self.buffer_size() <= usize::MAX,
        ensures
            r.parser() == match self.parser() {
                Some(parser) => parser,
                None => Parser {  },
            },
            r.buffer_size() == if self.buffer_size() > 0 {
                self.buffer_size()
            } else {
                DEFAULT_BUFFER_SIZE
            },
            r.default_handler() == match self.default_handler() {
                Some(handler) => handler,
                None => Delegate::Unknown(UnknownCommandHandler {  }),
            },
            exists|store: InMemoryUserStore| #[trigger]
                knows_admin(store) && r.table() == built(self.table(), store),
            r.table().delegate(CAPABILITY@) == Some(Delegate::Capability(CapabilityHandler {  })),
            self.table().delegate(LOGIN@) is Some ==> r.table() == self.table().with(
                CAPABILITY@,
                Delegate::Capability(CapabilityHandler {  }),
            ),
            self.table().delegate(LOGIN@) is None ==> (r.table().delegate(LOGIN@) matches Some(
                Delegate::Login(handler),
            ) && handler._authenticator.store()@.names == seq![ADMIN@]
                && handler._authenticator.store()@.passwords == seq![ADMIN@]),
    {
        let mut builder = self;
        proof {
            reveal_strlit("login");
            reveal_strlit("capability");
            assert(LOGIN@ != CAPABILITY@) by {
                assert(LOGIN@.len() == 5);
                assert(CAPABILITY@.len() == 10);
            }
            assert(names(builder._names@) =~= builder.table().names);
            lemma_first_at(builder.table().names, LOGIN@);
        }
        let mut fresh = InMemoryUserStore::new();
        let store = fresh.with_user(String::from_str(ADMIN), String::from_str(ADMIN));
        let ghost given = builder.table();
        let ghost admin = store;
        proof {
            assert(store@.names =~= seq![ADMIN@]);
            assert(store@.passwords =~= seq![ADMIN@]);
            assert(knows_admin(admin));
        }
        if find(&builder._names, LOGIN).is_none() {
            let ghost before = builder.table();
            builder = builder.with_user_store(store);
            proof {
                BasicAuthenticator::<InMemoryUserStore>::lemma_over(store);
                lemma_first_at_push(before.names, LOGIN@, LOGIN@);
                lemma_first_at_push(before.names, LOGIN@, CAPABILITY@);
            }
        }
        let ghost middle = builder.table();
        builder = builder.with_handler(
            String::from_str(CAPABILITY),
            Delegate::Capability(CapabilityHandler {  }),
        );
        proof {
            lemma_first_at(middle.names, CAPABILITY@);
            lemma_first_at(middle.names, LOGIN@);
            match first_at(middle.names, CAPABILITY@) {
                Some(i) => {},
                None => {
                    lemma_first_at_push(middle.names, CAPABILITY@, CAPABILITY@);
                    lemma_first_at_push(middle.names, CAPABILITY@, LOGIN@);
                },
            }
        }
        assert(builder.table() == built(given, admin));
        let RequestHandlerBuilder { _buffer_size, _parser, _names, _handlers, _default } = builder;
        let default_handler = match _default {
            Some(handler) => handler,
            None => Delegate::Unknown(UnknownCommandHandler {  }),
        };
        RequestHandler {
            _names,
            _delegates: _handlers,
            _default_handler: default_handler,
            _buffer_size: if _buffer_size > 0 {
                _buffer_size
            } else {
                DEFAULT_BUFFER_SIZE
            },
            _parser: match _parser {
                Some(parser) => parser,
                None => Parser::new(),
            },
        }
    }
}

} // verus!
