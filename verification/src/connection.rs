//! One client's session: its state, the events that change it, and the three
//! parts that a connection is made of. The reader turns lines into requests,
//! the state manager applies events, the writer turns responses into bytes.
//! None of them does any input or output: whoever owns the socket feeds lines
//! in and takes text out.
use vstd::prelude::*;
use vstd::string::StringExecFns;
use crate::auth::{User, UserView};
use crate::handlers::{event_views, Reply, ReplyView};
use crate::lookup::first_at;
use crate::server::{
    response_views, Command, CommandView, Dispatcher, Response, ResponseStatus, ResponseView,
};
use crate::text::{split_tokens, texts, tokens};

verus! {

/// What a session context holds.
pub struct ContextView {
    pub current_folder: Option<Seq<char>>,
    pub user: Option<UserView>,
}

/// The state of one session: who is logged in, and which folder is selected.
#[derive(Debug)]
pub struct Context {
    current_folder: Option<String>,
    user: Option<User>,
}

/// What an event holds.
pub enum EventView {
    AUTH(UserView),
    SELECT(Seq<char>),
    UNAUTH,
}

/// What a worker tells the state manager.
#[derive(Debug)]
pub enum Event {
    AUTH(User),
    SELECT(String),
    UNAUTH(),
}

impl View for Event {
    type V = EventView;

    open spec fn view(&self) -> EventView {
        match self {
            Event::AUTH(user) => EventView::AUTH(user@),
            Event::SELECT(folder) => EventView::SELECT(folder@),
            Event::UNAUTH() => EventView::UNAUTH,
        }
    }
}

impl Clone for Event {
    fn clone(&self) -> (r: Self)
        ensures
            r@ == self@,
    {
        match self {
            Event::AUTH(user) => Event::AUTH(user.clone()),
            Event::SELECT(folder) => Event::SELECT(folder.clone()),
            Event::UNAUTH() => Event::UNAUTH(),
        }
    }
}

impl View for Context {
    type V = ContextView;

    closed spec fn view(&self) -> ContextView {
        ContextView {
            current_folder: match self.current_folder {
                Some(folder) => Some(folder@),
                None => None,
            },
            user: match self.user {
                Some(user) => Some(user@),
                None => None,
            },
        }
    }
}

impl ContextView {
    /// The context of a session that has just begun.
    pub open spec fn empty() -> ContextView {
        ContextView { current_folder: None, user: None }
    }

    /// Whether a user is logged in.
    pub open spec fn is_authenticated(self) -> bool {
        self.user is Some
    }

    /// Whether a folder is selected.
    pub open spec fn is_selected(self) -> bool {
        self.current_folder is Some
    }

    /// The context after one event: a login sets the user, a selection sets
    /// the folder, a logout clears both.
    pub open spec fn apply(self, event: EventView) -> ContextView {
        match event {
            EventView::AUTH(user) => ContextView { user: Some(user), ..self },
            EventView::SELECT(folder) => ContextView { current_folder: Some(folder), ..self },
            EventView::UNAUTH => ContextView::empty(),
        }
    }
}

impl Default for Context {
    fn default() -> (r: Self)
        ensures
            r@ == ContextView::empty(),
    {
        Context { current_folder: None, user: None }
    }
}

impl Clone for Context {
    fn clone(&self) -> (r: Self)
        ensures
            r@ == self@,
    {
        Context {
            current_folder: match &self.current_folder {
                Some(folder) => Some(folder.clone()),
                None => None,
            },
            user: match &self.user {
                Some(user) => Some(user.clone()),
                None => None,
            },
        }
    }
}

impl Context {
    /// Whether a user is logged in.
    pub fn is_authenticated(&self) -> (r: bool)
        ensures
            r == self@.is_authenticated(),
    {
        self.user.is_some()
    }

    /// Whether a folder is selected.
    pub fn is_selected(&self) -> (r: bool)
        ensures
            r == self@.is_selected(),
    {
        self.current_folder.is_some()
    }

    /// A context from its parts.
    pub fn of(user: Option<User>, folder: Option<String>) -> (r: Self)
        ensures
            r@.user == match user {
                Some(u) => Some(u@),
                None => None,
            },
            r@.current_folder == match folder {
                Some(f) => Some(f@),
                None => None,
            },
    {
        Self { current_folder: folder, user }
    }

    /// The state manager's step: applies one event, and says whether it was
    /// a logout, after which the connection is to shut down.
    pub fn apply(&mut self, event: Event) -> (shutdown: bool)
        ensures
            final(self)@ == old(self)@.apply(event@),
            shutdown == (event@ is UNAUTH),
    {
        match event {
            Event::AUTH(user) => {
                self.user = Some(user);
                false
            },
            Event::SELECT(folder) => {
                self.current_folder = Some(folder);
                false
            },
            Event::UNAUTH() => {
                self.current_folder = None;
                self.user = None;
                true
            },
        }
    }
}

/// What a request holds.
pub struct RequestView {
    pub command: CommandView,
    pub context: ContextView,
}

/// A command on its way to a worker, with the session context as it was when
/// the reader took the command in.
#[derive(Debug)]
pub struct Request {
    pub command: Command,
    pub context: Context,
}

impl View for Request {
    type V = RequestView;

    open spec fn view(&self) -> RequestView {
        RequestView { command: self.command@, context: self.context@ }
    }
}

/// The message of the line that greets a client.
pub const GREETING: &'static str = "IMAP4rev2 server ready";

/// The message for a verb that no worker serves.
pub const COMMAND_UNKNOWN: &'static str = "Command unknown";

/// The message for a line that holds no verb.
pub const COMMAND_MISSING: &'static str = "Command '' unknown";

/// The tag of a line that answers no command.
pub const UNTAGGED: &'static str = "*";

/// The end of every line on the wire.
pub const CRLF: &'static str = "\r\n";

/// The line that greets a client.
pub open spec fn greeting() -> ResponseView {
    ResponseView::info(ResponseStatus::OK, GREETING@)
}

/// What the reader makes of one line: a request for the worker in a slot,
/// or an answer of its own.
pub enum ReadView {
    Forward { slot: int, request: RequestView },
    Answer(ResponseView),
}

/// What the reader makes of one line.
#[derive(Debug)]
pub enum Read {
    Forward { slot: usize, request: Request },
    Answer(Response),
}

impl View for Read {
    type V = ReadView;

    open spec fn view(&self) -> ReadView {
        match self {
            Read::Forward { slot, request } => ReadView::Forward {
                slot: *slot as int,
                request: request@,
            },
            Read::Answer(response) => ReadView::Answer(response@),
        }
    }
}

/// The reader's rule. A line that holds a command whose verb has a slot
/// goes to that slot, with the session context as it is. A verb without a
/// slot is answered `BAD`. A line that holds no command is answered `BAD`
/// too, under its tag where it has one token, untagged where it has none.
pub open spec fn read_line(line: Seq<char>, context: ContextView, verbs: Seq<Seq<char>>)
    -> ReadView {
    match Command::parse_spec(line) {
        Some(command) => match first_at(verbs, command.command) {
            Some(slot) => ReadView::Forward { slot, request: RequestView { command, context } },
            None => ReadView::Answer(
                ResponseView::tagged(command.tag, ResponseStatus::BAD, COMMAND_UNKNOWN@),
            ),
        },
        None => ReadView::Answer(
            ResponseView::tagged(
                if tokens(line).len() > 0 {
                    tokens(line)[0]
                } else {
                    UNTAGGED@
                },
                ResponseStatus::BAD,
                COMMAND_MISSING@,
            ),
        ),
    }
}

/// The text that the writer sends for one batch: each line, in order, with
/// its line ending.
pub open spec fn frame(batch: Seq<ResponseView>) -> Seq<char>
    decreases batch.len(),
{
    if batch.len() == 0 {
        Seq::empty()
    } else {
        frame(batch.drop_last()) + batch.last().line() + CRLF@
    }
}

/// The text that the writer sends for batches: the text of each, in order.
pub open spec fn wire(batches: Seq<Seq<ResponseView>>) -> Seq<char>
    decreases batches.len(),
{
    if batches.len() == 0 {
        Seq::empty()
    } else {
        wire(batches.drop_last()) + frame(batches.last())
    }
}

/// Where the state manager ends up after events that come in order: the
/// context, and whether it has stopped. It stops at the first logout, and
/// looks at no event behind it.
pub open spec fn settle(context: ContextView, events: Seq<EventView>) -> (ContextView, bool)
    decreases events.len(),
{
    if events.len() == 0 {
        (context, false)
    } else if events[0] is UNAUTH {
        (ContextView::empty(), true)
    } else {
        settle(context.apply(events[0]), events.skip(1))
    }
}

/// The line that greets a client.
pub fn greet() -> (r: Response)
    ensures
        r@ == greeting(),
{
    Response::new(UNTAGGED, ResponseStatus::OK, GREETING)
}

/// The reader's step.
pub fn read<T>(line: &str, context: &Context, handler: &Dispatcher<T>) -> (r: Read)
    ensures
        r@ == read_line(line@, context@, handler@.verbs),
{
    match Command::parse(line) {
        Ok(command) => {
            let verb = command.command();
            match handler.get(verb.as_str()) {
                Some(slot) => Read::Forward {
                    slot,
                    request: Request { command, context: context.clone() },
                },
                None => Read::Answer(
                    Response::new(command.tag().as_str(), ResponseStatus::BAD, COMMAND_UNKNOWN),
                ),
            }
        },
        Err(_) => {
            let words = split_tokens(line);
            if words.len() > 0 {
                assert(texts(words@)[0] == words@[0]@);
                Read::Answer(Response::new(words[0].as_str(), ResponseStatus::BAD, COMMAND_MISSING))
            } else {
                Read::Answer(Response::new(UNTAGGED, ResponseStatus::BAD, COMMAND_MISSING))
            }
        },
    }
}

/// The writer's step: the text of one batch.
pub fn serialize(batch: &Vec<Response>) -> (r: String)
    ensures
        r@ == frame(response_views(batch@)),
{
    let mut out = String::new();
    let mut i: usize = 0;
    let ghost all = response_views(batch@);
    proof {
        assert(all.take(0) =~= Seq::<ResponseView>::empty());
    }
    while i < batch.len()
        invariant
            i <= batch.len(),
            all == response_views(batch@),
            out@ == frame(all.take(i as int)),
        decreases batch.len() - i,
    {
        let line = batch[i].to_string();
        out.append(line.as_str());
        out.append(CRLF);
        proof {
            let next = all.take(i + 1);
            assert(next.drop_last() =~= all.take(i as int));
            assert(next.last() == batch@[i as int]@);
        }
        i += 1;
    }
    assert(all.take(i as int) =~= all);
    out
}

/// Whether the reader is to stop, given what a look at the shutdown signal
/// showed: the signal, nothing yet, or that nobody is left to send it. It
/// stops in the first case and in the last.
pub fn shutdown_requested(signal: Result<Option<()>, ()>) -> (r: bool)
    ensures
        r == (signal != Ok::<Option<()>, ()>(None)),
{
    match signal {
        Ok(Some(_)) => true,
        Ok(None) => false,
        Err(_) => true,
    }
}

/// The views of a sequence of batches, in order.
pub open spec fn batch_views(batches: Seq<Vec<Response>>) -> Seq<Seq<ResponseView>> {
    Seq::new(batches.len(), |i: int| response_views(batches[i]@))
}

/// What a connection holds.
pub struct ConnectionView {
    /// Whether the state manager has stopped, on a logout.
    pub shutdown: bool,
    /// The session context.
    pub state: ContextView,
    /// The events that workers have sent and the state manager has not seen.
    pub events: Seq<EventView>,
    /// The batches that workers have sent and the writer has not written.
    pub batches: Seq<Seq<ResponseView>>,
}

impl ConnectionView {
    /// A connection that has just been made: nobody is logged in, and the
    /// greeting waits to be written.
    pub open spec fn fresh() -> ConnectionView {
        ConnectionView {
            shutdown: false,
            state: ContextView::empty(),
            events: Seq::empty(),
            batches: seq![seq![greeting()]],
        }
    }

    /// The reader's step on one line. After shutdown the line is not looked
    /// at. Otherwise a request is handed out for its worker, or the
    /// reader's own answer is put behind the batches that wait.
    pub open spec fn handle(self, line: Seq<char>, verbs: Seq<Seq<char>>) -> (
        ConnectionView,
        Option<(int, RequestView)>,
    ) {
        if self.shutdown {
            (self, None)
        } else {
            match read_line(line, self.state, verbs) {
                ReadView::Forward { slot, request } => (self, Some((slot, request))),
                ReadView::Answer(response) => (
                    ConnectionView { batches: self.batches.push(seq![response]), ..self },
                    None,
                ),
            }
        }
    }

    /// A worker's reply comes in: its events go behind the events that
    /// wait, its batch behind the batches that wait.
    pub open spec fn deliver(self, reply: ReplyView) -> ConnectionView {
        ConnectionView {
            events: self.events + reply.events,
            batches: self.batches.push(reply.responses),
            ..self
        }
    }

    /// The replies of workers come in, one after the other.
    pub open spec fn deliver_all(self, replies: Seq<ReplyView>) -> ConnectionView
        decreases replies.len(),
    {
        if replies.len() == 0 {
            self
        } else {
            self.deliver_all(replies.drop_last()).deliver(replies.last())
        }
    }

    /// The state manager's turn: it applies the events that wait, in order,
    /// up to the first logout. Once it has stopped it applies nothing. No
    /// event is left waiting.
    pub open spec fn update(self) -> ConnectionView {
        if self.shutdown {
            ConnectionView { events: Seq::empty(), ..self }
        } else {
            let (state, shutdown) = settle(self.state, self.events);
            ConnectionView { state, shutdown, events: Seq::empty(), ..self }
        }
    }

    /// The writer's turn: all batches that wait are written, in order.
    pub open spec fn write(self) -> (ConnectionView, Seq<char>) {
        (ConnectionView { batches: Seq::empty(), ..self }, wire(self.batches))
    }
}

/// One client's connection: the session context with the state manager's
/// inbox and the writer's inbox, both in the order of arrival.
pub struct Connection {
    shutdown: bool,
    state: Context,
    state_updater: Vec<Event>,
    responder: Vec<Vec<Response>>,
}

impl View for Connection {
    type V = ConnectionView;

    closed spec fn view(&self) -> ConnectionView {
        ConnectionView {
            shutdown: self.shutdown,
            state: self.state@,
            events: event_views(self.state_updater@),
            batches: batch_views(self.responder@),
        }
    }
}

impl Connection {
    /// A connection for a client that has just arrived.
    pub fn new() -> (r: Self)
        ensures
            r@ == ConnectionView::fresh(),
    {
        let hello = vec![greet()];
        let responder = vec![hello];
        let state_updater: Vec<Event> = Vec::new();
        proof {
            assert(response_views(hello@) =~= seq![greeting()]);
            assert(batch_views(responder@) =~= seq![seq![greeting()]]);
            assert(event_views(state_updater@) =~= Seq::<EventView>::empty());
        }
        Connection { shutdown: false, state: Context::default(), state_updater, responder }
    }

    /// Whether the state manager has stopped, so that the connection is to
    /// be closed once the writer has written what waits.
    pub fn is_shutdown(&self) -> (r: bool)
        ensures
            r == self@.shutdown,
    {
        self.shutdown
    }

    /// The session context as it is.
    pub fn context(&self) -> (r: &Context)
        ensures
            r@ == self@.state,
    {
        &self.state
    }

    /// The reader's step on one line: the request to forward and the slot of
    /// its worker, if the line holds a command that a worker serves.
    pub fn handle<T>(&mut self, line: &str, handler: &Dispatcher<T>) -> (r: Option<
        (usize, Request),
    >)
        ensures
            final(self)@ == old(self)@.handle(line@, handler@.verbs).0,
            match r {
                Some((slot, request)) => old(self)@.handle(line@, handler@.verbs).1 == Some(
                    (slot as int, request@),
                ),
                None => old(self)@.handle(line@, handler@.verbs).1 is None,
            },
    {
        if self.shutdown {
            return None;
        }
        match read(line, &self.state, handler) {
            Read::Forward { slot, request } => Some((slot, request)),
            Read::Answer(response) => {
                let batch = vec![response];
                proof {
                    assert(response_views(batch@) =~= seq![response@]);
                    assert(batch_views(self.responder@.push(batch)) =~= batch_views(
                        self.responder@,
                    ).push(response_views(batch@)));
                }
                self.responder.push(batch);
                None
            },
        }
    }

    /// Takes in a worker's reply.
    pub fn deliver(&mut self, reply: Reply)
        ensures
            final(self)@ == old(self)@.deliver(reply@),
    {
        let Reply { events, responses } = reply;
        let mut events = events;
        proof {
            assert(batch_views(self.responder@.push(responses)) =~= batch_views(
                self.responder@,
            ).push(response_views(responses@)));
            assert(event_views(self.state_updater@ + events@) =~= event_views(
                self.state_updater@,
            ) + event_views(events@));
        }
        self.state_updater.append(&mut events);
        self.responder.push(responses);
    }

    /// The state manager's turn. It says whether the connection is shut
    /// down afterwards.
    pub fn update(&mut self) -> (r: bool)
        ensures
            final(self)@ == old(self)@.update(),
            r == final(self)@.shutdown,
    {
        let ghost before = self@;
        let mut pending: Vec<Event> = Vec::new();
        core::mem::swap(&mut pending, &mut self.state_updater);
        proof {
            assert(event_views(self.state_updater@) =~= Seq::<EventView>::empty());
        }
        if self.shutdown {
            return true;
        }
        let ghost all = event_views(pending@);
        let mut i: usize = 0;
        proof {
            assert(all.skip(0) =~= all);
        }
        while i < pending.len()
            invariant
                i <= pending.len(),
                all == event_views(pending@),
                before == old(self)@,
                all == before.events,
                !before.shutdown,
                !self.shutdown,
                self@.events == Seq::<EventView>::empty(),
                self@.batches == before.batches,
                settle(before.state, all) == settle(self@.state, all.skip(i as int)),
            decreases pending.len() - i,
        {
            let event = pending[i].clone();
            let ghost prior = self@.state;
            proof {
                let rest = all.skip(i as int);
                assert(rest[0] == pending@[i as int]@);
                assert(rest.skip(1) =~= all.skip(i + 1));
                assert(settle(prior, rest) == if event@ is UNAUTH {
                    (ContextView::empty(), true)
                } else {
                    settle(prior.apply(event@), all.skip(i + 1))
                });
            }
            if self.state.apply(event) {
                self.shutdown = true;
                assert(self@ =~= before.update());
                return true;
            }
            i += 1;
        }
        assert(self@ =~= before.update());
        false
    }

    /// The writer's turn: the text of all that waits, which then waits no
    /// more.
    pub fn write(&mut self) -> (r: String)
        ensures
            final(self)@ == old(self)@.write().0,
            r@ == old(self)@.write().1,
    {
        let mut pending: Vec<Vec<Response>> = Vec::new();
        core::mem::swap(&mut pending, &mut self.responder);
        proof {
            assert(batch_views(self.responder@) =~= Seq::<Seq<ResponseView>>::empty());
        }
        let mut out = String::new();
        let ghost all = batch_views(pending@);
        let mut i: usize = 0;
        proof {
            assert(all.take(0) =~= Seq::<Seq<ResponseView>>::empty());
        }
        while i < pending.len()
            invariant
                i <= pending.len(),
                all == batch_views(pending@),
                out@ == wire(all.take(i as int)),
            decreases pending.len() - i,
        {
            let text = serialize(&pending[i]);
            out.append(text.as_str());
            proof {
                let next = all.take(i + 1);
                assert(next.drop_last() =~= all.take(i as int));
                assert(next.last() == response_views(pending@[i as int]@));
            }
            i += 1;
        }
        assert(all.take(i as int) =~= all);
        out
    }
}

/// The batches of a sequence of replies, in order.
pub open spec fn batches_of(replies: Seq<ReplyView>) -> Seq<Seq<ResponseView>> {
    Seq::new(replies.len(), |i: int| replies[i].responses)
}

/// The events of a sequence of replies, in order.
pub open spec fn events_of(replies: Seq<ReplyView>) -> Seq<EventView>
    decreases replies.len(),
{
    if replies.len() == 0 {
        Seq::empty()
    } else {
        events_of(replies.drop_last()) + replies.last().events
    }
}

/// The text of batches that follow others is the text of the first, then
/// the text of those that follow.
pub proof fn lemma_wire_append(a: Seq<Seq<ResponseView>>, b: Seq<Seq<ResponseView>>)
    ensures
        wire(a + b) == wire(a) + wire(b),
    decreases b.len(),
{
    if b.len() == 0 {
        assert(a + b =~= a);
        assert(wire(a) + wire(b) =~= wire(a));
    } else {
        lemma_wire_append(a, b.drop_last());
        assert((a + b).drop_last() =~= a + b.drop_last());
        assert((a + b).last() == b.last());
        assert(wire(a + b) =~= wire(a) + wire(b));
    }
}

/// What is written follows the order of arrival. Replies that come in one
/// after the other wait behind what waited before, in the order in which
/// they came, and so does their text when the writer writes; their events
/// wait in the same order.
pub proof fn lemma_written_in_order_of_arrival(c: ConnectionView, replies: Seq<ReplyView>)
    ensures
        c.deliver_all(replies).batches == c.batches + batches_of(replies),
        c.deliver_all(replies).events == c.events + events_of(replies),
        c.deliver_all(replies).write().1 == c.write().1 + wire(batches_of(replies)),
        c.deliver_all(replies).state == c.state,
        c.deliver_all(replies).shutdown == c.shutdown,
    decreases replies.len(),
{
    if replies.len() == 0 {
        assert(c.batches + batches_of(replies) =~= c.batches);
        assert(c.events + events_of(replies) =~= c.events);
    } else {
        let front = replies.drop_last();
        lemma_written_in_order_of_arrival(c, front);
        assert(batches_of(replies) =~= batches_of(front).push(replies.last().responses));
        assert(c.deliver_all(replies).batches =~= c.batches + batches_of(replies));
        assert(c.deliver_all(replies).events =~= c.events + events_of(replies));
    }
    lemma_wire_append(c.batches, batches_of(replies));
}

/// One line served to the end: the reader's step, and, where the line went
/// to a worker, the arrival of the worker's reply and the state manager's
/// turn on its events.
pub open spec fn serve(
    c: ConnectionView,
    line: Seq<char>,
    verbs: Seq<Seq<char>>,
    reply: ReplyView,
) -> ConnectionView {
    let (after, forwarded) = c.handle(line, verbs);
    if forwarded is Some {
        after.deliver(reply).update()
    } else {
        after
    }
}

/// What a line that is served to the end adds to what waits to be written:
/// nothing once the connection is shut down; else one batch, which is the
/// worker's where the line went to a worker, and the reader's own answer
/// where it did not.
pub open spec fn batch_for(
    c: ConnectionView,
    line: Seq<char>,
    verbs: Seq<Seq<char>>,
    reply: ReplyView,
) -> Seq<Seq<ResponseView>> {
    if c.shutdown {
        Seq::empty()
    } else {
        match read_line(line, c.state, verbs) {
            ReadView::Forward { .. } => seq![reply.responses],
            ReadView::Answer(response) => seq![seq![response]],
        }
    }
}

/// The lines of a client that waits for the answer to each line before it
/// sends the next, served one after the other. The reply at a position is
/// what the worker answers to the line at that position, should the line go
/// to a worker.
pub open spec fn serve_all(
    c: ConnectionView,
    lines: Seq<Seq<char>>,
    verbs: Seq<Seq<char>>,
    replies: Seq<ReplyView>,
) -> ConnectionView
    recommends
        replies.len() == lines.len(),
    decreases lines.len(),
{
    if lines.len() == 0 {
        c
    } else {
        serve(
            serve_all(c, lines.drop_last(), verbs, replies.drop_last()),
            lines.last(),
            verbs,
            replies.last(),
        )
    }
}

/// The batches that the lines of such a client add to what waits to be
/// written: the batch for each line, in the order of the lines.
pub open spec fn batches_for(
    c: ConnectionView,
    lines: Seq<Seq<char>>,
    verbs: Seq<Seq<char>>,
    replies: Seq<ReplyView>,
) -> Seq<Seq<ResponseView>>
    recommends
        replies.len() == lines.len(),
    decreases lines.len(),
{
    if lines.len() == 0 {
        Seq::empty()
    } else {
        batches_for(c, lines.drop_last(), verbs, replies.drop_last()) + batch_for(
            serve_all(c, lines.drop_last(), verbs, replies.drop_last()),
            lines.last(),
            verbs,
            replies.last(),
        )
    }
}

/// What is written follows the order of the lines. For a client that waits
/// for the answer to each line before it sends the next, what waits to be
/// written after its lines is what waited before, then the batch for each
/// line in the order of the lines: none is left out, none comes twice, and
/// none stands between the lines of another. The writer's text is the text
/// of these batches in that order.
pub proof fn lemma_written_in_order_of_lines(
    c: ConnectionView,
    lines: Seq<Seq<char>>,
    verbs: Seq<Seq<char>>,
    replies: Seq<ReplyView>,
)
    requires
        replies.len() == lines.len(),
    ensures
        serve_all(c, lines, verbs, replies).batches == c.batches + batches_for(
            c,
            lines,
            verbs,
            replies,
        ),
        serve_all(c, lines, verbs, replies).write().1 == c.write().1 + wire(
            batches_for(c, lines, verbs, replies),
        ),
    decreases lines.len(),
{
    if lines.len() == 0 {
        assert(c.batches + batches_for(c, lines, verbs, replies) =~= c.batches);
    } else {
        let before = serve_all(c, lines.drop_last(), verbs, replies.drop_last());
        lemma_written_in_order_of_lines(c, lines.drop_last(), verbs, replies.drop_last());
        let added = batch_for(before, lines.last(), verbs, replies.last());
        assert(serve(before, lines.last(), verbs, replies.last()).batches =~= before.batches
            + added);
        assert(serve_all(c, lines, verbs, replies).batches =~= c.batches + batches_for(
            c,
            lines,
            verbs,
            replies,
        ));
    }
    lemma_wire_append(c.batches, batches_for(c, lines, verbs, replies));
}

/// Only the state manager changes the session. The reader's step, the arrival
/// of a reply and the writer's turn leave the context as it is, and leave
/// the connection shut down or not as it was.
pub proof fn lemma_only_update_changes_state(
    c: ConnectionView,
    line: Seq<char>,
    verbs: Seq<Seq<char>>,
    reply: ReplyView,
)
    ensures
        c.handle(line, verbs).0.state == c.state,
        c.handle(line, verbs).0.shutdown == c.shutdown,
        c.handle(line, verbs).0.events == c.events,
        c.deliver(reply).state == c.state,
        c.deliver(reply).shutdown == c.shutdown,
        c.write().0.state == c.state,
        c.write().0.shutdown == c.shutdown,
        c.write().0.events == c.events,
{
}

/// Whether each of the events leaves a user logged in: none is a logout,
/// and none is the login of another user.
pub open spec fn keeps_user(events: Seq<EventView>, user: UserView) -> bool {
    forall|i: int|
        0 <= i < events.len() ==> match #[trigger] events[i] {
            EventView::AUTH(other) => other == user,
            EventView::SELECT(_) => true,
            EventView::UNAUTH => false,
        }
}

/// Once a user is logged in, the user stays. After the login of a user the
/// context shows that user, and goes on to show it after every further
/// event, as long as no event is a logout or the login of someone else; the
/// state manager does not stop either.
pub proof fn lemma_user_stays(context: ContextView, user: UserView, events: Seq<EventView>)
    requires
        keeps_user(events, user),
    ensures
        forall|k: int|
            0 <= k <= events.len() ==> {
                let seen = #[trigger] settle(context.apply(EventView::AUTH(user)), events.take(k));
                seen.0.user == Some(user) && !seen.1
            },
{
    assert forall|k: int| 0 <= k <= events.len() implies {
        let seen = #[trigger] settle(context.apply(EventView::AUTH(user)), events.take(k));
        seen.0.user == Some(user) && !seen.1
    } by {
        let some = events.take(k);
        assert forall|i: int| 0 <= i < some.len() implies match #[trigger] some[i] {
            EventView::AUTH(other) => other == user,
            EventView::SELECT(_) => true,
            EventView::UNAUTH => false,
        } by {
            assert(some[i] == events[i]);
        }
        lemma_settle_keeps_user(context.apply(EventView::AUTH(user)), user, some);
    }
}

/// A context that shows a user shows the user after events that keep it.
proof fn lemma_settle_keeps_user(context: ContextView, user: UserView, events: Seq<EventView>)
    requires
        context.user == Some(user),
        keeps_user(events, user),
    ensures
        settle(context, events).0.user == Some(user),
        !settle(context, events).1,
    decreases events.len(),
{
    if events.len() > 0 {
        let rest = events.skip(1);
        assert forall|i: int| 0 <= i < rest.len() implies match #[trigger] rest[i] {
            EventView::AUTH(other) => other == user,
            EventView::SELECT(_) => true,
            EventView::UNAUTH => false,
        } by {
            assert(rest[i] == events[i + 1]);
        }
        assert(events[0] == events[0]);
        lemma_settle_keeps_user(context.apply(events[0]), user, rest);
    }
}

/// Events that end in a logout leave nobody logged in and no folder
/// selected, and stop the state manager.
pub proof fn lemma_settle_logout(context: ContextView, events: Seq<EventView>)
    ensures
        settle(context, events.push(EventView::UNAUTH)) == (ContextView::empty(), true),
    decreases events.len(),
{
    let all = events.push(EventView::UNAUTH);
    if events.len() > 0 && !(events[0] is UNAUTH) {
        assert(all[0] == events[0]);
        assert(all.skip(1) =~= events.skip(1).push(EventView::UNAUTH));
        lemma_settle_logout(context.apply(events[0]), events.skip(1));
    } else {
        assert(all[0] is UNAUTH);
    }
}

} // verus!
