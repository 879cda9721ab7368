//! The wire codec: commands as clients send them, responses as the server
//! writes them, and the server's settings.
use vstd::prelude::*;
use vstd::string::StringExecFns;
use crate::lookup::{
    distinct, find, first_at, lemma_first_at, lemma_first_at_push, names, Named,
};
use crate::text::{
    fields, is_token, join, join_from, lemma_fields_prepend, lemma_join_fields, lemma_tokens_join,
    clone_strings, same_text, split_fields, split_tokens, strip_quotes, texts, to_upper, tokens, unquote, upper,
};

verus! {

/// What a command holds: the client's tag, the verb in upper case and the
/// arguments in order.
pub struct CommandView {
    pub tag: Seq<char>,
    pub command: Seq<char>,
    pub args: Seq<Seq<char>>,
}

/// One command of a client.
#[derive(Debug, Eq, PartialEq)]
pub struct Command {
    tag: String,
    command: String,
    args: Vec<String>,
}

/// A line that holds no command, or a word that is no status.
#[derive(Debug)]
pub struct ParseError;

/// The views of a sequence of string slices, in order.
pub open spec fn strs(v: Seq<&str>) -> Seq<Seq<char>> {
    Seq::new(v.len(), |i: int| v[i]@)
}

impl View for Command {
    type V = CommandView;

    closed spec fn view(&self) -> CommandView {
        CommandView { tag: self.tag@, command: self.command@, args: texts(self.args@) }
    }
}

impl CommandView {
    /// Tag and verb hold at least one character each, and the verb is in
    /// upper case.
    pub open spec fn well_formed(self) -> bool {
        &&& self.tag.len() > 0
        &&& self.command.len() > 0
        &&& self.command == upper(self.command)
    }

    /// The argument at a position, or the empty text where there is none.
    pub open spec fn arg(self, position: int) -> Seq<char> {
        if 0 <= position < self.args.len() {
            self.args[position]
        } else {
            Seq::empty()
        }
    }
}

impl Clone for Command {
    fn clone(&self) -> (r: Self)
        ensures
            r@ == self@,
    {
        Command {
            tag: self.tag.clone(),
            command: self.command.clone(),
            args: clone_strings(&self.args),
        }
    }
}

impl ParseError {
    /// The name of the error.
    pub fn to_string(&self) -> (r: String)
        ensures
            r@ == "ParseError"@,
    {
        String::from_str("ParseError")
    }
}

impl Command {
    /// The command that a sequence of at least two tokens stands for: the
    /// first is the tag, the second the verb, each of the others an argument
    /// without its outer quotes.
    pub open spec fn of_tokens(t: Seq<Seq<char>>) -> CommandView
        recommends
            t.len() >= 2,
    {
        CommandView {
            tag: t[0],
            command: upper(t[1]),
            args: Seq::new((t.len() - 2) as nat, |i: int| unquote(t[i + 2])),
        }
    }

    /// The command of a line, where the line holds at least a tag and a verb.
    pub open spec fn parse_spec(line: Seq<char>) -> Option<CommandView> {
        let t = tokens(line);
        if t.len() >= 2 {
            Some(Self::of_tokens(t))
        } else {
            None
        }
    }

    /// A command from its parts; the verb is stored in upper case.
    pub fn new(tag: &str, command: &str, args: Vec<&str>) -> (r: Command)
        ensures
            r@ == (CommandView { tag: tag@, command: upper(command@), args: strs(args@) }),
    {
        let mut owned: Vec<String> = Vec::new();
        let mut i: usize = 0;
        while i < args.len()
            invariant
                i <= args.len(),
                texts(owned@) == strs(args@).take(i as int),
            decreases args.len() - i,
        {
            let piece = args[i].to_owned();
            proof {
                assert(texts(owned@.push(piece)) =~= texts(owned@).push(piece@));
                assert(strs(args@).take(i + 1) =~= strs(args@).take(i as int).push(args@[i as int]@));
            }
            owned.push(piece);
            i += 1;
        }
        assert(strs(args@).take(i as int) =~= strs(args@));
        Command { tag: tag.to_owned(), command: to_upper(command), args: owned }
    }

    /// The client's tag.
    pub fn tag(&self) -> (r: String)
        ensures
            r@ == self@.tag,
    {
        self.tag.clone()
    }

    /// The verb, in upper case.
    pub fn command(&self) -> (r: String)
        ensures
            r@ == self@.command,
    {
        self.command.clone()
    }

    /// The argument at a position, or the empty string where there is none.
    pub fn arg(&self, position: usize) -> (r: String)
        ensures
            r@ == self@.arg(position as int),
    {
        if self.args.len() <= position {
            return String::new();
        }
        self.args[position].clone()
    }

    /// The number of arguments.
    pub fn num_args(&self) -> (r: usize)
        ensures
            r == self@.args.len(),
    {
        self.args.len()
    }

    /// Reads one line: the tokens between its spaces are the tag, the verb and
    /// the arguments. A line with fewer than two tokens holds no command.
    pub fn parse(cmd: &str) -> (r: Result<Command, ParseError>)
        ensures
            match r {
                Ok(c) => Command::parse_spec(cmd@) == Some(c@) && c@.well_formed(),
                Err(_) => Command::parse_spec(cmd@) is None,
            },
    {
        let words = split_tokens(cmd);
        if words.len() < 2 {
            return Err(ParseError {  });
        }
        proof {
            lemma_tokens_hold_text(cmd@, 0);
            lemma_tokens_hold_text(cmd@, 1);
        }
        let tag = words[0].clone();
        let command = to_upper(words[1].as_str());
        let mut args: Vec<String> = Vec::new();
        let mut i: usize = 2;
        while i < words.len()
            invariant
                2 <= i <= words.len(),
                texts(words@) == tokens(cmd@),
                texts(args@) == Command::of_tokens(tokens(cmd@)).args.take(i - 2),
            decreases words.len() - i,
        {
            let piece = strip_quotes(words[i].as_str());
            proof {
                let want = Command::of_tokens(tokens(cmd@)).args;
                assert(texts(words@)[i as int] == words@[i as int]@);
                assert(texts(args@.push(piece)) =~= texts(args@).push(piece@));
                assert(want.take(i - 1) =~= want.take(i - 2).push(want[i - 2]));
            }
            args.push(piece);
            i += 1;
        }
        proof {
            let want = Command::of_tokens(tokens(cmd@)).args;
            assert(want.take(i - 2) =~= want);
            assert(texts(words@)[0] == words@[0]@);
            assert(texts(words@)[1] == words@[1]@);
            assert(upper(words@[1]@) =~= upper(upper(words@[1]@)));
        }
        Ok(Command { tag, command, args })
    }
}

/// Every token of a line holds at least one character.
pub proof fn lemma_tokens_hold_text(line: Seq<char>, i: int)
    requires
        0 <= i < tokens(line).len(),
    ensures
        tokens(line)[i].len() > 0,
{
    fields(line).lemma_filter_pred(is_token(), i);
}

/// How a command ended.
#[derive(Debug, Copy, Clone, Eq, PartialEq, Structural)]
pub enum ResponseStatus {
    OK,
    BAD,
    NO,
}

impl ResponseStatus {
    /// The word that stands for a status on the wire.
    pub open spec fn word(self) -> Seq<char> {
        match self {
            ResponseStatus::OK => "OK"@,
            ResponseStatus::BAD => "BAD"@,
            ResponseStatus::NO => "NO"@,
        }
    }

    /// The status that a word stands for, if any. The words are matched
    /// exactly, in upper case.
    pub open spec fn of_word(s: Seq<char>) -> Option<ResponseStatus> {
        if s == "OK"@ {
            Some(ResponseStatus::OK)
        } else if s == "BAD"@ {
            Some(ResponseStatus::BAD)
        } else if s == "NO"@ {
            Some(ResponseStatus::NO)
        } else {
            None
        }
    }

    /// Reads a status word.
    pub fn from(string: String) -> (r: Result<ResponseStatus, ParseError>)
        ensures
            match r {
                Ok(status) => ResponseStatus::of_word(string@) == Some(status),
                Err(_) => ResponseStatus::of_word(string@) is None,
            },
    {
        if same_text(string.as_str(), "OK") {
            Ok(ResponseStatus::OK)
        } else if same_text(string.as_str(), "BAD") {
            Ok(ResponseStatus::BAD)
        } else if same_text(string.as_str(), "NO") {
            Ok(ResponseStatus::NO)
        } else {
            Err(ParseError {  })
        }
    }

    /// The status as its word.
    pub fn to_string(&self) -> (r: String)
        ensures
            r@ == self.word(),
    {
        match self {
            ResponseStatus::OK => String::from_str("OK"),
            ResponseStatus::BAD => String::from_str("BAD"),
            ResponseStatus::NO => String::from_str("NO"),
        }
    }
}

/// The three status words differ, none holds a space, and each is read back
/// as the status it stands for.
pub proof fn lemma_status_words(status: ResponseStatus)
    ensures
        ResponseStatus::of_word(status.word()) == Some(status),
        !status.word().contains(' '),
        status.word().len() > 0,
{
    reveal_strlit("OK");
    reveal_strlit("BAD");
    reveal_strlit("NO");
    let w = status.word();
    assert("OK"@.len() == 2 && "BAD"@.len() == 3 && "NO"@.len() == 2);
    assert("OK"@[0] == 'O' && "NO"@[0] == 'N');
    assert forall|k: int| 0 <= k < w.len() implies w[k] != ' ' by {}
}

/// What a response holds: the tag (`*` where it answers no command), the
/// status if it has one, and the message.
pub struct ResponseView {
    pub tag: Seq<char>,
    pub status: Option<ResponseStatus>,
    pub message: Seq<char>,
}

/// One line that the server sends.
#[derive(Debug, Eq, PartialEq)]
pub struct Response {
    tag: String,
    status: Option<ResponseStatus>,
    message: String,
}

impl View for Response {
    type V = ResponseView;

    closed spec fn view(&self) -> ResponseView {
        ResponseView { tag: self.tag@, status: self.status, message: self.message@ }
    }
}

impl ResponseView {
    /// The line on the wire, without its line ending: tag, status word if
    /// there is a status, and message, with one space between them.
    pub open spec fn line(self) -> Seq<char> {
        match self.status {
            Some(status) => self.tag + seq![' '] + status.word() + seq![' '] + self.message,
            None => self.tag + seq![' '] + self.message,
        }
    }

    /// Whether the response answers no command: its tag is `*`.
    pub open spec fn untagged(self) -> bool {
        self.tag == "*"@
    }

    /// The line that ends the answer to a command: the command's tag, a
    /// status and a message.
    pub open spec fn tagged(tag: Seq<char>, status: ResponseStatus, message: Seq<char>)
        -> ResponseView {
        ResponseView { tag, status: Some(status), message }
    }

    /// An untagged line of data.
    pub open spec fn data(message: Seq<char>) -> ResponseView {
        ResponseView { tag: "*"@, status: None, message }
    }

    /// An untagged line that carries a status for information.
    pub open spec fn info(status: ResponseStatus, message: Seq<char>) -> ResponseView {
        ResponseView { tag: "*"@, status: Some(status), message }
    }
}

/// The views of a sequence of responses, in order.
pub open spec fn response_views(responses: Seq<Response>) -> Seq<ResponseView> {
    Seq::new(responses.len(), |i: int| responses[i]@)
}

impl Clone for Response {
    fn clone(&self) -> (r: Self)
        ensures
            r@ == self@,
    {
        Response { tag: self.tag.clone(), status: self.status, message: self.message.clone() }
    }
}

impl Response {
    /// The response that the fields of a line stand for, where there are at
    /// least two: the first is the tag; the second is the status where it
    /// is a status word, and the message is what follows it; otherwise the
    /// message begins with the second field.
    pub open spec fn of_fields(f: Seq<Seq<char>>) -> ResponseView
        recommends
            f.len() >= 2,
    {
        match ResponseStatus::of_word(f[1]) {
            Some(status) => ResponseView {
                tag: f[0],
                status: Some(status),
                message: join(f.skip(2)),
            },
            None => ResponseView { tag: f[0], status: None, message: join(f.skip(1)) },
        }
    }

    /// The response of a line. A line of three fields or more holds one,
    /// and so does a line of two fields of which the second is no status
    /// word: a tag and a message of one word. A line of one field holds
    /// none, and neither does a tag with a status and nothing behind it.
    pub open spec fn parse_spec(line: Seq<char>) -> Option<ResponseView> {
        let f = fields(line);
        if f.len() >= 3 || (f.len() == 2 && ResponseStatus::of_word(f[1]) is None) {
            Some(Self::of_fields(f))
        } else {
            None
        }
    }

    /// A response with a status.
    pub fn new(tag: &str, status: ResponseStatus, message: &str) -> (r: Response)
        ensures
            r@ == (ResponseView { tag: tag@, status: Some(status), message: message@ }),
    {
        Response { tag: tag.to_owned(), status: Some(status), message: message.to_owned() }
    }

    /// An untagged line of data: the tag is `*`, and there is no status.
    pub fn untagged(message: &str) -> (r: Response)
        ensures
            r@ == ResponseView::data(message@),
    {
        Response { tag: String::from_str("*"), status: None, message: message.to_owned() }
    }

    /// Reads a line back into a response: the tag, the status where the
    /// second field is a status word, and the message. There is none in a
    /// line without a space, nor in a tag with a status and nothing more.
    pub fn from(string: &str) -> (r: Result<Response, ParseError>)
        ensures
            match r {
                Ok(response) => Response::parse_spec(string@) == Some(response@),
                Err(_) => Response::parse_spec(string@) is None,
            },
    {
        let components = split_fields(string);
        if components.len() < 2 {
            return Err(ParseError {  });
        }
        assert(texts(components@)[0] == components@[0]@);
        assert(texts(components@)[1] == components@[1]@);
        let status = match ResponseStatus::from(components[1].clone()) {
            Ok(status) => Some(status),
            Err(_) => None,
        };
        if components.len() == 2 && status.is_some() {
            return Err(ParseError {  });
        }
        let message = match status {
            Some(_) => join_from(&components, 2),
            None => join_from(&components, 1),
        };
        Ok(Response { tag: components[0].clone(), status, message })
    }

    /// The tag.
    pub fn tag(&self) -> (r: String)
        ensures
            r@ == self@.tag,
    {
        self.tag.clone()
    }

    /// The status, if the response has one.
    pub fn status(&self) -> (r: Option<ResponseStatus>)
        ensures
            r == self@.status,
    {
        self.status
    }

    /// The message.
    pub fn message(&self) -> (r: String)
        ensures
            r@ == self@.message,
    {
        self.message.clone()
    }

    /// The line on the wire, without its line ending.
    pub fn to_string(&self) -> (r: String)
        ensures
            r@ == self@.line(),
    {
        let mut out = self.tag.clone();
        out.push(' ');
        match self.status {
            Some(status) => {
                let word = status.to_string();
                out.append(word.as_str());
                out.push(' ');
            },
            None => {},
        }
        out.append(self.message.as_str());
        proof {
            assert(out@ =~= self@.line());
        }
        out
    }
}

/// Reading undoes writing. A response whose tag holds no space is read
/// back from its line as itself; where it has no status, the first word of
/// its message must be no status word, or the word would be read as the
/// status.
pub proof fn lemma_response_round_trip(r: ResponseView)
    requires
        !r.tag.contains(' '),
        r.status is None ==> ResponseStatus::of_word(fields(r.message)[0]) is None,
    ensures
        Response::parse_spec(r.line()) == Some(r),
{
    lemma_join_fields(r.message);
    let m = fields(r.message);
    match r.status {
        Some(status) => {
            lemma_status_words(status);
            let rest = status.word() + seq![' '] + r.message;
            lemma_fields_prepend(status.word(), r.message);
            lemma_fields_prepend(r.tag, rest);
            assert(r.line() =~= r.tag + seq![' '] + rest);
            let f = fields(r.line());
            assert(f =~= seq![r.tag] + (seq![status.word()] + m));
            assert(f.skip(2) =~= m);
        },
        None => {
            lemma_fields_prepend(r.tag, r.message);
            let f = fields(r.line());
            assert(f =~= seq![r.tag] + m);
            assert(f.skip(1) =~= m);
        },
    }
}

/// A line written from its parts is read back as those parts. For a tag, a
/// verb and arguments that each hold a character and no space, the line that
/// has one space between each two of them parses to the tag, the verb in
/// upper case and the arguments, each without its outer quotes.
pub proof fn lemma_parse_written_line(tag: Seq<char>, verb: Seq<char>, args: Seq<Seq<char>>)
    requires
        tag.len() > 0 && !tag.contains(' '),
        verb.len() > 0 && !verb.contains(' '),
        forall|i: int| 0 <= i < args.len() ==> (#[trigger] args[i]).len() > 0 && !args[i].contains(' '),
    ensures
        Command::parse_spec(join(seq![tag, verb] + args)) == Some(
            CommandView {
                tag,
                command: upper(verb),
                args: Seq::new(args.len(), |i: int| unquote(args[i])),
            },
        ),
        Command::parse_spec(join(seq![tag, verb] + args)) matches Some(c) && c.well_formed(),
{
    let words = seq![tag, verb] + args;
    assert forall|i: int| 0 <= i < words.len() implies (#[trigger] words[i]).len() > 0
        && !words[i].contains(' ') by {
        if i >= 2 {
            assert(words[i] == args[i - 2]);
        }
    }
    lemma_tokens_join(words);
    let c = Command::of_tokens(words);
    assert(c.args =~= Seq::new(args.len(), |i: int| unquote(args[i])));
    assert(upper(verb) =~= upper(upper(verb)));
}

/// The settings of the listening socket. The time to wait after a failed
/// accept is held in milliseconds.
pub struct ServerConfiguration {
    address: String,
    max_connections: usize,
    error_timeout: u64,
}

/// The settings of a server.
pub struct Configuration {
    server: ServerConfiguration,
}

impl ServerConfiguration {
    /// The address to bind, as `host:port`.
    pub closed spec fn address_spec(&self) -> Seq<char> {
        self.address@
    }

    /// The greatest number of connections served at one time.
    pub closed spec fn max_connections_spec(&self) -> usize {
        self.max_connections
    }

    /// The milliseconds to wait after a failed accept.
    pub closed spec fn error_timeout_spec(&self) -> u64 {
        self.error_timeout
    }

    /// Settings from their parts. There are none for a server that may serve
    /// no connection at all.
    pub fn new(address: &str, max_connections: usize, error_timeout: u64) -> (r: Option<Self>)
        ensures
            match r {
                Some(settings) => max_connections > 0 && settings.address_spec() == address@
                    && settings.max_connections_spec() == max_connections
                    && settings.error_timeout_spec() == error_timeout,
                None => max_connections == 0,
            },
    {
        if max_connections == 0 {
            None
        } else {
            Some(ServerConfiguration { address: address.to_owned(), max_connections, error_timeout })
        }
    }

    /// The address to bind, as `host:port`.
    pub fn address(&self) -> (r: String)
        ensures
            r@ == self.address_spec(),
    {
        self.address.clone()
    }

    /// The greatest number of connections served at one time.
    pub fn max_connections(&self) -> (r: usize)
        ensures
            r == self.max_connections_spec(),
    {
        self.max_connections
    }

    /// The milliseconds to wait after a failed accept.
    pub fn error_timeout(&self) -> (r: u64)
        ensures
            r == self.error_timeout_spec(),
    {
        self.error_timeout
    }
}

impl Default for ServerConfiguration {
    /// Port 3143 on the local host, a hundred connections, half a second.
    fn default() -> (r: Self)
        ensures
            r.address_spec() == "127.0.0.1:3143"@,
            r.max_connections_spec() == 100,
            r.error_timeout_spec() == 500,
    {
        ServerConfiguration {
            address: String::from_str("127.0.0.1:3143"),
            max_connections: 100,
            error_timeout: 500,
        }
    }
}

impl Configuration {
    /// The settings of the listening socket.
    pub closed spec fn server_spec(&self) -> ServerConfiguration {
        self.server
    }

    /// The settings of a server, from those of its listening socket.
    pub fn new(server: ServerConfiguration) -> (r: Self)
        ensures
            r.server_spec() == server,
    {
        Configuration { server }
    }

    /// The settings of the listening socket.
    pub fn server(&self) -> (r: &ServerConfiguration)
        ensures
            *r == self.server_spec(),
    {
        &self.server
    }
}

impl Default for Configuration {
    fn default() -> (r: Self)
        ensures
            r.server_spec().address_spec() == "127.0.0.1:3143"@,
            r.server_spec().max_connections_spec() == 100,
            r.server_spec().error_timeout_spec() == 500,
    {
        Configuration { server: ServerConfiguration::default() }
    }
}

/// What a dispatcher holds: the verbs in the order in which they were first
/// put in, and the worker of each.
pub struct DispatcherView<T> {
    pub verbs: Seq<Seq<char>>,
    pub workers: Seq<T>,
}

impl<T> DispatcherView<T> {
    /// Each verb has its worker, and no verb stands twice.
    pub open spec fn well_formed(self) -> bool {
        self.verbs.len() == self.workers.len() && distinct(self.verbs)
    }

    /// The slot of a verb: the position at which it stands.
    pub open spec fn slot(self, verb: Seq<char>) -> Option<int> {
        first_at(self.verbs, verb)
    }

    /// The worker that serves a verb, if one does.
    pub open spec fn route(self, verb: Seq<char>) -> Option<T> {
        match first_at(self.verbs, verb) {
            Some(i) => Some(self.workers[i]),
            None => None,
        }
    }

    /// The table with a worker for a verb: in the slot that the verb has,
    /// in place of the worker that was there, or in a new slot at the end.
    pub open spec fn with(self, verb: Seq<char>, worker: T) -> DispatcherView<T> {
        match first_at(self.verbs, verb) {
            Some(i) => DispatcherView { workers: self.workers.update(i, worker), ..self },
            None => DispatcherView {
                verbs: self.verbs.push(verb),
                workers: self.workers.push(worker),
            },
        }
    }
}

/// A verb with the worker that serves it.
pub struct Route<T> {
    pub verb: String,
    pub worker: T,
}

impl<T> Named for Route<T> {
    open spec fn named(&self) -> Seq<char> {
        self.verb@
    }

    fn has_name(&self, name: &str) -> (r: bool) {
        same_text(self.verb.as_str(), name)
    }
}

/// The verbs and the workers of a sequence of routes.
pub open spec fn routes<T>(held: Seq<Route<T>>) -> DispatcherView<T> {
    DispatcherView {
        verbs: Seq::new(held.len(), |i: int| held[i].verb@),
        workers: Seq::new(held.len(), |i: int| held[i].worker),
    }
}

/// The table that routes a verb to the worker that serves it. A worker is
/// whatever takes the requests for a verb: the sending end of a channel, as
/// a rule. It is known by its slot, the position at which its verb was first
/// put in.
pub struct Dispatcher<T> {
    routes: Vec<Route<T>>,
}

impl<T> View for Dispatcher<T> {
    type V = DispatcherView<T>;

    closed spec fn view(&self) -> DispatcherView<T> {
        routes(self.routes@)
    }
}

impl<T> Dispatcher<T> {
    /// A table without verbs.
    pub fn new() -> (r: Self)
        ensures
            r@.verbs.len() == 0,
            r@.workers.len() == 0,
            r@.well_formed(),
    {
        Dispatcher { routes: Vec::new() }
    }

    /// The number of verbs, which is the number of slots.
    pub fn len(&self) -> (r: usize)
        ensures
            r == self@.verbs.len(),
            r == self@.workers.len(),
    {
        self.routes.len()
    }

    /// Puts a worker in for a verb, and says in which slot. A verb that has
    /// a worker keeps its slot and gets the new worker.
    pub fn insert(&mut self, verb: String, worker: T) -> (slot: usize)
        ensures
            final(self)@ == old(self)@.with(verb@, worker),
            final(self)@.slot(verb@) == Some(slot as int),
            old(self)@.well_formed() ==> final(self)@.well_formed(),
    {
        let ghost before = self@;
        proof {
            assert(names(self.routes@) =~= before.verbs);
            lemma_first_at(before.verbs, verb@);
        }
        match find(&self.routes, verb.as_str()) {
            Some(i) => {
                let route = Route { verb, worker };
                proof {
                    let after = routes(self.routes@.update(i as int, route));
                    assert(after.verbs =~= before.verbs);
                    assert(after.workers =~= before.workers.update(i as int, worker));
                }
                self.routes.set(i, route);
                i
            },
            None => {
                let slot = self.routes.len();
                let route = Route { verb, worker };
                proof {
                    lemma_first_at_push(before.verbs, verb@, verb@);
                    let after = routes(self.routes@.push(route));
                    assert(after.verbs =~= before.verbs.push(verb@));
                    assert(after.workers =~= before.workers.push(worker));
                }
                self.routes.push(route);
                slot
            },
        }
    }

    /// The slot of a verb, if the table holds it. Verbs are compared as they
    /// stand; commands hold theirs in upper case.
    pub fn get(&self, verb: &str) -> (r: Option<usize>)
        ensures
            match r {
                Some(slot) => self@.slot(verb@) == Some(slot as int) && slot < self@.verbs.len(),
                None => self@.slot(verb@) is None,
            },
    {
        proof {
            assert(names(self.routes@) =~= self@.verbs);
        }
        find(&self.routes, verb)
    }

    /// The routes of the table, in the order of their slots.
    pub fn into_routes(self) -> (r: Vec<Route<T>>)
        ensures
            routes(r@) == self@,
    {
        self.routes
    }

    /// The worker in a slot, if the slot is one of the table.
    pub fn worker(&self, slot: usize) -> (r: Option<&T>)
        ensures
            match r {
                Some(worker) => slot < self@.workers.len() && *worker == self@.workers[slot as int],
                None => slot >= self@.workers.len(),
            },
    {
        if slot < self.routes.len() {
            Some(&self.routes[slot].worker)
        } else {
            None
        }
    }
}

/// A line with a status is read back as itself, where its tag holds no
/// space.
pub proof fn lemma_status_line_reads_back(
    tag: Seq<char>,
    status: ResponseStatus,
    message: Seq<char>,
)
    requires
        !tag.contains(' '),
    ensures
        Response::parse_spec(ResponseView::tagged(tag, status, message).line()) == Some(
            ResponseView::tagged(tag, status, message),
        ),
{
    lemma_response_round_trip(ResponseView::tagged(tag, status, message));
}

/// An untagged line with a status is read back as itself.
pub proof fn lemma_info_line_reads_back(status: ResponseStatus, message: Seq<char>)
    ensures
        Response::parse_spec(ResponseView::info(status, message).line()) == Some(
            ResponseView::info(status, message),
        ),
{
    reveal_strlit("*");
    assert(!"*"@.contains(' ')) by {
        assert forall|k: int| 0 <= k < "*"@.len() implies "*"@[k] != ' ' by {}
    }
    lemma_response_round_trip(ResponseView::info(status, message));
}

/// An untagged line of data is read back as itself, where its message
/// begins with a word that is no status word and a space.
pub proof fn lemma_data_line_reads_back(word: Seq<char>, rest: Seq<char>)
    requires
        !word.contains(' '),
        ResponseStatus::of_word(word) is None,
    ensures
        Response::parse_spec(ResponseView::data(word + seq![' '] + rest).line()) == Some(
            ResponseView::data(word + seq![' '] + rest),
        ),
{
    reveal_strlit("*");
    assert(!"*"@.contains(' ')) by {
        assert forall|k: int| 0 <= k < "*"@.len() implies "*"@[k] != ' ' by {}
    }
    lemma_fields_prepend(word, rest);
    lemma_join_fields(rest);
    lemma_response_round_trip(ResponseView::data(word + seq![' '] + rest));
}

} // verus!
