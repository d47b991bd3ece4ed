//! The state of the terminal interface, and how keys and events change it.

use crate::text;
use crate::text::{
    byte_len, chars_of, concat2, contains_text, copy_opt, cut_at, string_of, take_chars,
    trim,
};
use crate::tui::api::{Stats, StreamEvent};
use vstd::prelude::*;
use vstd::utf8::*;

verus! {

/// What is on the screen.
#[derive(Clone, Copy, Debug, PartialEq, Eq, Structural)]
pub enum Screen {
    Chat,
    Settings,
    Help,
}

/// Who says something.
#[derive(Clone, Copy, Debug, PartialEq, Eq, Structural)]
pub enum Role {
    User,
    Assistant,
}

/// Something that was said, and the time as it is shown.
pub struct Message {
    pub role: Role,
    pub content: String,
    pub ts: String,
}

impl View for Message {
    type V = (Role, Seq<char>, Seq<char>);

    open spec fn view(&self) -> (Role, Seq<char>, Seq<char>) {
        (self.role, self.content@, self.ts@)
    }
}

/// The messages of a list.
pub open spec fn said(m: Seq<Message>) -> Seq<(Role, Seq<char>, Seq<char>)> {
    m.map_values(|x: Message| x@)
}

/// The state of the interface. Times are in milliseconds.
pub struct App {
    pub screen: Screen,
    pub messages: Vec<Message>,
    pub input: String,
    /// Where the cursor stands in the input, in bytes.
    pub input_cursor: usize,
    pub session_id: Option<String>,
    pub loading: bool,
    pub stream_buf: String,
    pub engine: String,
    pub mode: String,
    pub stats: Option<Stats>,
    pub stats_loaded: bool,
    pub settings_cursor: usize,
    /// The text of the status, and whether it is an error.
    pub status_msg: Option<(String, bool)>,
    /// When the status is to be cleared.
    pub status_clear_at: Option<u64>,
    pub scroll_offset: u16,
    /// When the state of the service was last asked for.
    pub last_stats_fetch: Option<u64>,
    /// The events of the stream that is open, in the order they arrived.
    pub inbox: Option<Vec<StreamEvent>>,
}

/// The state of the interface as values.
#[verifier::ext_equal]
pub struct AppView {
    pub screen: Screen,
    pub messages: Seq<(Role, Seq<char>, Seq<char>)>,
    pub input: Seq<char>,
    pub cursor: int,
    pub session_id: Option<Seq<char>>,
    pub loading: bool,
    pub stream_buf: Seq<char>,
    pub engine: Seq<char>,
    pub mode: Seq<char>,
    pub stats: Option<Stats>,
    pub stats_loaded: bool,
    pub settings_cursor: int,
    pub status: Option<(Seq<char>, bool)>,
    pub clear_at: Option<int>,
    pub scroll: u16,
    pub last_fetch: Option<int>,
    pub inbox: Option<Seq<StreamEvent>>,
}

/// A time of which nothing is known yet, or the time.
pub open spec fn time(t: Option<u64>) -> Option<int> {
    match t {
        Some(n) => Some(n as int),
        None => None,
    }
}

impl View for App {
    type V = AppView;

    open spec fn view(&self) -> AppView {
        AppView {
            screen: self.screen,
            messages: said(self.messages@),
            input: self.input@,
            cursor: self.input_cursor as int,
            session_id: text::opt_view(self.session_id),
            loading: self.loading,
            stream_buf: self.stream_buf@,
            engine: self.engine@,
            mode: self.mode@,
            stats: self.stats,
            stats_loaded: self.stats_loaded,
            settings_cursor: self.settings_cursor as int,
            status: match self.status_msg {
                Some(s) => Some((s.0@, s.1)),
                None => None,
            },
            clear_at: time(self.status_clear_at),
            scroll: self.scroll_offset,
            last_fetch: time(self.last_stats_fetch),
            inbox: match self.inbox {
                Some(q) => Some(q@),
                None => None,
            },
        }
    }
}

/// How long a status that is no error is shown, in milliseconds.
pub const STATUS_MILLIS: u64 = 4000;

/// How often the state of the service is asked for, in milliseconds.
pub const STATS_MILLIS: u64 = 5000;

/// The scroll position that stands for the end.
pub const SCROLL_END: u16 = 65535;

/// What is said where the language model does not answer.
pub const OLLAMA_DOWN: &'static str =
    "❌ Nie mogę się połączyć z Ollama.\n\nUruchom Ollama w osobnym terminalu:\n  ollama serve\n\nNastępnie pobierz model (jeśli jeszcze nie masz):\n  ollama pull llama2\n\nLub przełącz silnik na OpenAI (Ctrl+S → Ustawienia).";

/// What is said where the service does not answer, before the details.
pub const SERVER_DOWN: &'static str =
    "❌ Serwer API niedostępny.\n\nSprawdź czy hexai --server działa na porcie 8000.\nSzczegóły: ";

/// What is said of an error.
pub open spec fn error_text(err: Seq<char>) -> Seq<char> {
    if text::has_text(err, "Ollama unreachable"@) || text::has_text(
        err,
        "error sending request"@,
    ) {
        OLLAMA_DOWN@
    } else if text::has_text(err, "Connection refused"@) {
        SERVER_DOWN@ + err
    } else {
        "❌ "@ + err
    }
}

impl AppView {
    /// The cursor stands between two characters of the input.
    pub open spec fn on_boundary(self) -> bool {
        is_char_boundary(encode_utf8(self.input), self.cursor)
    }

    /// The input before the cursor.
    pub open spec fn before(self) -> Seq<char> {
        text::head_text(self.input, self.cursor)
    }

    /// The input behind the cursor.
    pub open spec fn after(self) -> Seq<char> {
        text::tail_text(self.input, self.cursor)
    }

    /// With the input and the cursor behind `head`.
    pub open spec fn with_input(self, head: Seq<char>, tail: Seq<char>) -> AppView {
        AppView { input: head + tail, cursor: encode_utf8(head).len() as int, ..self }
    }

    /// With a status. One that is no error goes after four seconds.
    pub open spec fn with_status(self, msg: Seq<char>, is_err: bool, now: int) -> AppView {
        AppView {
            status: Some((msg, is_err)),
            clear_at: if is_err {
                None
            } else {
                Some(now + STATUS_MILLIS)
            },
            ..self
        }
    }

    /// Without a status.
    pub open spec fn without_status(self) -> AppView {
        AppView { status: None, clear_at: None, ..self }
    }

    /// Without a status whose time has come.
    pub open spec fn ticked(self, now: int) -> AppView {
        if self.clear_at is Some && now >= self.clear_at->Some_0 {
            self.without_status()
        } else {
            self
        }
    }

    /// The status is an error.
    pub open spec fn shows_error(self) -> bool {
        self.status is Some && self.status->Some_0.1
    }

    /// Without the stream of a reply.
    pub open spec fn without_stream(self) -> AppView {
        AppView { loading: false, stream_buf: Seq::empty(), inbox: None, ..self }
    }

    /// The last message is one of the assistant.
    pub open spec fn assistant_spoke(self) -> bool {
        self.messages.len() > 0 && self.messages.last().0 == Role::Assistant
    }

    /// With `content` in the place of what the last message says.
    pub open spec fn with_last_content(self, content: Seq<char>) -> AppView {
        let last = self.messages.last();
        AppView { messages: self.messages.drop_last().push((last.0, content, last.2)), ..self }
    }

    /// With one more message.
    pub open spec fn with_message(self, role: Role, content: Seq<char>, ts: Seq<char>) -> AppView {
        AppView { messages: self.messages.push((role, content, ts)), ..self }
    }

    /// Scrolled to the end.
    pub open spec fn at_end(self) -> AppView {
        AppView { scroll: SCROLL_END, ..self }
    }

    /// With what is said of an error, in the place of an empty message of the
    /// assistant where one is last.
    pub open spec fn with_error_bubble(self, err: Seq<char>, ts: Seq<char>) -> AppView {
        if self.assistant_spoke() && self.messages.last().1.len() == 0 {
            self.with_last_content(error_text(err))
        } else {
            self.with_message(Role::Assistant, error_text(err), ts).at_end()
        }
    }

    /// After an event of the stream.
    pub open spec fn after_event(self, ev: StreamEvent, now: int, ts: Seq<char>) -> AppView {
        match ev {
            StreamEvent::Token(t) => {
                let buf = self.stream_buf + t@;
                let grown = AppView { stream_buf: buf, ..self };
                if self.assistant_spoke() {
                    grown.with_last_content(buf).at_end()
                } else {
                    grown.with_message(Role::Assistant, buf, ts).at_end()
                }
            },
            StreamEvent::Done => if self.shows_error() {
                self.without_stream()
            } else {
                self.without_stream().without_status()
            },
            StreamEvent::Error(e) => self.without_stream().with_error_bubble(e@, ts).with_status(
                "Błąd: "@ + text::at_most(e@, 60),
                true,
                now,
            ),
        }
    }
}

/// After the events of the stream, in order.
pub open spec fn after_events(
    v: AppView,
    events: Seq<StreamEvent>,
    now: int,
    ts: Seq<char>,
) -> AppView
    decreases events.len(),
{
    if events.len() == 0 {
        v
    } else {
        after_events(v, events.drop_last(), now, ts).after_event(events.last(), now, ts)
    }
}

fn error_content(err: &str) -> (r: String)
    ensures
        r@ == error_text(err@),
{
    if contains_text(err, "Ollama unreachable") || contains_text(err, "error sending request") {
        OLLAMA_DOWN.to_owned()
    } else if contains_text(err, "Connection refused") {
        concat2(SERVER_DOWN, err)
    } else {
        concat2("❌ ", err)
    }
}

/// The state in which the interface starts.
pub open spec fn start() -> AppView {
    AppView {
        screen: Screen::Chat,
        messages: Seq::empty(),
        input: Seq::empty(),
        cursor: 0,
        session_id: None,
        loading: false,
        stream_buf: Seq::empty(),
        engine: "transformers"@,
        mode: "general"@,
        stats: None,
        stats_loaded: false,
        settings_cursor: 0,
        status: None,
        clear_at: None,
        scroll: 0,
        last_fetch: None,
        inbox: None,
    }
}

impl Default for App {
    /// The state in which the interface starts.
    fn default() -> (a: Self)
        ensures
            a@ == start(),
    {
        let a = App {
            screen: Screen::Chat,
            messages: Vec::new(),
            input: String::new(),
            input_cursor: 0,
            session_id: None,
            loading: false,
            stream_buf: String::new(),
            engine: "transformers".to_owned(),
            mode: "general".to_owned(),
            stats: None,
            stats_loaded: false,
            settings_cursor: 0,
            status_msg: None,
            status_clear_at: None,
            scroll_offset: 0,
            last_stats_fetch: None,
            inbox: None,
        };
        proof {
            assert(a@ =~= start());
        }
        a
    }
}

impl App {
    /// Sets the status. An error stays until something is done; anything else
    /// goes after four seconds.
    pub fn set_status(&mut self, msg: &str, is_err: bool, now: u64)
        requires
            now + STATUS_MILLIS <= u64::MAX,
        ensures
            final(self)@ == old(self)@.with_status(msg@, is_err, now as int),
    {
        self.status_msg = Some((msg.to_owned(), is_err));
        self.status_clear_at = if is_err {
            None
        } else {
            Some(now + STATUS_MILLIS)
        };
    }

    /// Clears the status.
    pub fn clear_status(&mut self)
        ensures
            final(self)@ == old(self)@.without_status(),
    {
        self.status_msg = None;
        self.status_clear_at = None;
    }

    /// Clears the status where its time has come.
    pub fn tick_status(&mut self, now: u64)
        ensures
            final(self)@ == old(self)@.ticked(now as int),
    {
        if let Some(at) = self.status_clear_at {
            if now >= at {
                self.clear_status();
            }
        }
    }

    /// Starts a new conversation.
    pub fn new_session(&mut self, now: u64)
        requires
            now + STATUS_MILLIS <= u64::MAX,
        ensures
            final(self)@ == (AppView {
                messages: Seq::empty(),
                session_id: None,
                scroll: 0,
                ..old(self)@
            }).without_stream().with_status("Nowa rozmowa"@, false, now as int),
    {
        self.messages = Vec::new();
        self.session_id = None;
        self.stream_buf = String::new();
        self.loading = false;
        self.inbox = None;
        self.scroll_offset = 0;
        self.set_status("Nowa rozmowa", false, now);
        proof {
            assert(said(self.messages@) =~= Seq::<(Role, Seq<char>, Seq<char>)>::empty());
        }
    }

    /// Types a character at the cursor, which moves behind it.
    pub fn insert_char(&mut self, c: char)
        requires
            old(self)@.on_boundary(),
        ensures
            final(self)@ == old(self)@.with_input(old(self)@.before().push(c), old(self)@.after()),
            final(self)@.on_boundary(),
            final(self)@.before() == old(self)@.before().push(c),
            final(self)@.after() == old(self)@.after(),
    {
        let (head, tail) = cut_at(self.input.as_str(), self.input_cursor);
        let mut grown: String = head;
        grown.push(c);
        self.input_cursor = byte_len(grown.as_str());
        self.input = concat2(grown.as_str(), tail.as_str());
        proof {
            lemma_cursor_behind(grown@, tail@);
        }
    }

    /// Deletes the character before the cursor, where there is one.
    pub fn delete_char_back(&mut self)
        requires
            old(self)@.cursor > 0 ==> old(self)@.on_boundary(),
        ensures
            final(self)@ == if old(self)@.cursor > 0 {
                old(self)@.with_input(old(self)@.before().drop_last(), old(self)@.after())
            } else {
                old(self)@
            },
            final(self)@.on_boundary(),
    {
        if self.input_cursor == 0 {
            proof {
                encode_utf8_valid_utf8(self.input@);
            }
            return;
        }
        let (head, tail) = cut_at(self.input.as_str(), self.input_cursor);
        let cs: Vec<char> = chars_of(head.as_str());
        proof {
            text::lemma_head_and_tail(self.input@, self.input_cursor as int);
            if head@.len() == 0 {
                assert(encode_utf8(head@) =~= Seq::<u8>::empty());
            }
        }
        let kept: String = string_of(&cs, 0, cs.len() - 1);
        self.input_cursor = byte_len(kept.as_str());
        self.input = concat2(kept.as_str(), tail.as_str());
        proof {
            assert(kept@ =~= head@.drop_last());
            lemma_cursor_behind(kept@, tail@);
        }
    }

    /// Takes in an event that arrived, where a stream is open.
    pub fn deliver(&mut self, ev: StreamEvent)
        ensures
            final(self)@ == (AppView {
                inbox: match old(self)@.inbox {
                    Some(q) => Some(q.push(ev)),
                    None => None,
                },
                ..old(self)@
            }),
    {
        let open: Option<Vec<StreamEvent>> = self.inbox.take();
        match open {
            Some(q) => {
                let mut queue: Vec<StreamEvent> = q;
                queue.push(ev);
                self.inbox = Some(queue);
            },
            None => {},
        }
    }

    /// Hands over the events that arrived, in order, and leaves none.
    pub fn drain_stream_events(&mut self) -> (r: Vec<StreamEvent>)
        ensures
            r@ == match old(self)@.inbox {
                Some(q) => q,
                None => Seq::empty(),
            },
            final(self)@ == (AppView {
                inbox: match old(self)@.inbox {
                    Some(_) => Some(Seq::empty()),
                    None => None,
                },
                ..old(self)@
            }),
    {
        let open: Option<Vec<StreamEvent>> = self.inbox.take();
        match open {
            Some(q) => {
                self.inbox = Some(Vec::new());
                q
            },
            None => Vec::new(),
        }
    }

    /// Puts `content` in the place of what the last message says.
    fn set_last_content(&mut self, content: String)
        requires
            old(self).messages@.len() > 0,
        ensures
            final(self)@ == old(self)@.with_last_content(content@),
    {
        let ghost before = self.messages@;
        let last: Option<Message> = self.messages.pop();
        match last {
            Some(m) => {
                self.messages.push(Message { role: m.role, content, ts: m.ts });
            },
            None => {},
        }
        proof {
            assert(said(self.messages@) =~= said(before).drop_last().push(
                (said(before).last().0, content@, said(before).last().2),
            ));
        }
    }

    /// Adds a message.
    fn add_message(&mut self, role: Role, content: String, ts: &str)
        ensures
            final(self)@ == old(self)@.with_message(role, content@, ts@),
    {
        let ghost before = self.messages@;
        self.messages.push(Message { role, content, ts: ts.to_owned() });
        proof {
            assert(said(self.messages@) =~= said(before).push((role, content@, ts@)));
        }
    }

    fn last_is_assistant(&self) -> (r: bool)
        ensures
            r == self@.assistant_spoke(),
    {
        let n: usize = self.messages.len();
        n > 0 && self.messages[n - 1].role == Role::Assistant
    }

    /// Shows an error among the messages.
    pub fn push_error_bubble(&mut self, err: &str, ts: &str)
        ensures
            final(self)@ == old(self)@.with_error_bubble(err@, ts@),
    {
        let content: String = error_content(err);
        let n: usize = self.messages.len();
        if self.last_is_assistant() && self.messages[n - 1].content.as_str().is_empty() {
            self.set_last_content(content);
            return;
        }
        self.add_message(Role::Assistant, content, ts);
        self.scroll_offset = SCROLL_END;
    }

    /// Takes an event of the stream.
    pub fn apply_stream_event(&mut self, ev: StreamEvent, now: u64, ts: &str)
        requires
            now + STATUS_MILLIS <= u64::MAX,
        ensures
            final(self)@ == old(self)@.after_event(ev, now as int, ts@),
    {
        match ev {
            StreamEvent::Token(t) => {
                self.stream_buf.append(t.as_str());
                let buf: String = self.stream_buf.clone();
                if self.last_is_assistant() {
                    self.set_last_content(buf);
                } else {
                    self.add_message(Role::Assistant, buf, ts);
                }
                self.scroll_offset = SCROLL_END;
            },
            StreamEvent::Done => {
                self.loading = false;
                self.stream_buf = String::new();
                self.inbox = None;
                let keep: bool = match &self.status_msg {
                    Some(s) => s.1,
                    None => false,
                };
                if !keep {
                    self.clear_status();
                }
            },
            StreamEvent::Error(e) => {
                self.loading = false;
                self.stream_buf = String::new();
                self.inbox = None;
                self.push_error_bubble(e.as_str(), ts);
                let short: String = take_chars(e.as_str(), 60);
                let msg: String = concat2("Błąd: ", short.as_str());
                self.set_status(msg.as_str(), true, now);
            },
        }
    }

    /// Takes events of the stream, in order.
    pub fn apply_stream_events(&mut self, events: Vec<StreamEvent>, now: u64, ts: &str)
        requires
            now + STATUS_MILLIS <= u64::MAX,
        ensures
            final(self)@ == after_events(old(self)@, events@, now as int, ts@),
    {
        let ghost all = events@;
        let ghost first = self@;
        proof {
            assert(all.take(0) =~= Seq::<StreamEvent>::empty());
        }
        for ev in it: events
            invariant
                it.seq() == all,
                now + STATUS_MILLIS <= u64::MAX,
                self@ == after_events(first, all.take(it.index() as int), now as int, ts@),
        {
            proof {
                assert(all.take(it.index() + 1).drop_last() =~= all.take(it.index() as int));
            }
            self.apply_stream_event(ev, now, ts);
        }
        proof {
            assert(all.take(all.len() as int) =~= all);
        }
    }

    /// Whether the state of the service is to be asked for again.
    pub fn stats_due(&self, now: u64) -> (r: bool)
        ensures
            r == (self@.last_fetch is None || now - self@.last_fetch->Some_0 >= STATS_MILLIS),
    {
        match self.last_stats_fetch {
            Some(t) => now >= t && now - t >= STATS_MILLIS,
            None => true,
        }
    }

    /// Notes that the state of the service is being asked for.
    pub fn stats_asked(&mut self, now: u64)
        ensures
            final(self)@ == (AppView { last_fetch: Some(now as int), ..old(self)@ }),
    {
        self.last_stats_fetch = Some(now);
    }

    /// Takes the state of the service.
    pub fn apply_stats(&mut self, s: Stats)
        ensures
            final(self)@ == (AppView {
                engine: s.engine@,
                mode: s.mode@,
                stats: Some(s),
                stats_loaded: true,
                ..old(self)@
            }),
    {
        self.engine = s.engine.clone();
        self.mode = s.mode.clone();
        self.stats = Some(s);
        self.stats_loaded = true;
    }
}

/// A cursor behind the head of a text parts it into that head and the rest.
pub proof fn lemma_cursor_behind(head: Seq<char>, tail: Seq<char>)
    ensures
        is_char_boundary(encode_utf8(head + tail), encode_utf8(head).len() as int),
        text::head_text(head + tail, encode_utf8(head).len() as int) == head,
        text::tail_text(head + tail, encode_utf8(head).len() as int) == tail,
{
    text::lemma_boundary_concat(head, tail);
    text::lemma_encode_concat(head, tail);
    let b = encode_utf8(head + tail);
    let n = encode_utf8(head).len() as int;
    assert(b.subrange(0, n) =~= encode_utf8(head));
    assert(b.subrange(n, b.len() as int) =~= encode_utf8(tail));
    encode_utf8_decode_utf8(head);
    encode_utf8_decode_utf8(tail);
}

/// Deleting back undoes typing: what was typed goes, and the cursor stands where
/// it stood.
pub proof fn lemma_delete_undoes_insert(v: AppView, c: char)
    requires
        v.on_boundary(),
    ensures
        ({
            let typed = v.with_input(v.before().push(c), v.after());
            typed.with_input(typed.before().drop_last(), typed.after()) == v
        }),
{
    text::lemma_head_and_tail(v.input, v.cursor);
    lemma_cursor_behind(v.before().push(c), v.after());
    assert(v.before().push(c).drop_last() =~= v.before());
}

/// An error stays however much time goes by; any other status stays for four
/// seconds and then goes.
pub proof fn lemma_errors_stay(v: AppView, msg: Seq<char>, set: int, now: int)
    ensures
        v.with_status(msg, true, set).ticked(now) == v.with_status(msg, true, set),
        now < set + STATUS_MILLIS ==> v.with_status(msg, false, set).ticked(now) == v.with_status(
            msg,
            false,
            set,
        ),
        now >= set + STATUS_MILLIS ==> v.with_status(msg, false, set).ticked(now)
            == v.without_status(),
{
}

/// A stream that is taken token by token leaves the last message saying all of
/// it: one more token makes it say that much more.
pub proof fn lemma_tokens_add_up(v: AppView, a: String, b: String, now: int, ts: Seq<char>)
    ensures
        ({
            let w = v.after_event(StreamEvent::Token(a), now, ts).after_event(
                StreamEvent::Token(b),
                now,
                ts,
            );
            &&& w.messages.last().1 == v.stream_buf + a@ + b@
            &&& w.messages.len() == if v.assistant_spoke() {
                v.messages.len()
            } else {
                v.messages.len() + 1
            }
        }),
{
}

// ── Keys ──

/// A key.
#[derive(Clone, Copy, Debug, PartialEq, Eq, Structural)]
pub enum KeyCode {
    Char(char),
    Enter,
    Backspace,
    Up,
    Down,
    PageUp,
    PageDown,
    Left,
    Right,
    Esc,
    Other,
}

/// The bit of the shift key among the modifiers.
pub const SHIFT: u8 = 1;

/// The bit of the control key among the modifiers.
pub const CONTROL: u8 = 2;

/// A key that was pressed, with the keys that were held.
#[derive(Clone, Copy, Debug, PartialEq, Eq, Structural)]
pub struct KeyPress {
    pub modifiers: u8,
    pub code: KeyCode,
}

/// What is to be done after a key.
pub enum KeyOutcome {
    /// Nothing more.
    Stay,
    /// The interface ends.
    Quit,
    /// The service is to be told of another engine.
    SetEngine(String),
    /// The service is to be told of another mode.
    SetMode(String),
    /// A message is to be sent, and the reply streamed.
    Send { session_id: Option<String>, message: String },
}

/// What is to be done after a key, as values.
pub enum OutcomeView {
    Stay,
    Quit,
    SetEngine(Seq<char>),
    SetMode(Seq<char>),
    Send(Option<Seq<char>>, Seq<char>),
}

impl View for KeyOutcome {
    type V = OutcomeView;

    open spec fn view(&self) -> OutcomeView {
        match *self {
            KeyOutcome::Stay => OutcomeView::Stay,
            KeyOutcome::Quit => OutcomeView::Quit,
            KeyOutcome::SetEngine(e) => OutcomeView::SetEngine(e@),
            KeyOutcome::SetMode(m) => OutcomeView::SetMode(m@),
            KeyOutcome::Send { session_id, message } => OutcomeView::Send(
                text::opt_view(session_id),
                message@,
            ),
        }
    }
}

/// The sum, or the largest number where it is beyond all numbers.
pub open spec fn scrolled_down(scroll: u16, by: int) -> u16 {
    if scroll + by > u16::MAX {
        u16::MAX
    } else {
        (scroll + by) as u16
    }
}

/// The difference, or zero where it is below zero.
pub open spec fn scrolled_up(scroll: u16, by: int) -> u16 {
    if scroll < by {
        0
    } else {
        (scroll - by) as u16
    }
}

impl AppView {
    /// On the chat, with the status of a choice.
    pub open spec fn chosen(self, status: Seq<char>, now: int) -> AppView {
        (AppView { screen: Screen::Chat, ..self }).with_status(status, false, now)
    }

    /// After a key in the settings.
    pub open spec fn after_settings_key(self, key: KeyPress, now: int) -> (AppView, OutcomeView) {
        match key.code {
            KeyCode::Esc => (AppView { screen: Screen::Chat, ..self }, OutcomeView::Stay),
            KeyCode::Enter => self.after_choice(now),
            KeyCode::Up => (self.choice_up(), OutcomeView::Stay),
            KeyCode::Down => (self.choice_down(), OutcomeView::Stay),
            KeyCode::Char(c) => if c == 'k' {
                (self.choice_up(), OutcomeView::Stay)
            } else if c == 'j' {
                (self.choice_down(), OutcomeView::Stay)
            } else if c == ' ' {
                self.after_choice(now)
            } else {
                (self, OutcomeView::Stay)
            },
            _ => (self, OutcomeView::Stay),
        }
    }

    /// With the choice before the marked one marked.
    pub open spec fn choice_up(self) -> AppView {
        if self.settings_cursor > 0 {
            AppView { settings_cursor: self.settings_cursor - 1, ..self }
        } else {
            self
        }
    }

    /// With the choice behind the marked one marked.
    pub open spec fn choice_down(self) -> AppView {
        if self.settings_cursor < 3 {
            AppView { settings_cursor: self.settings_cursor + 1, ..self }
        } else {
            self
        }
    }

    /// After the marked choice is taken.
    pub open spec fn after_choice(self, now: int) -> (AppView, OutcomeView) {
        if self.settings_cursor == 0 {
            (
                (AppView { engine: "transformers"@, ..self }).chosen(
                    "Silnik: GPU (Transformers)"@,
                    now,
                ),
                OutcomeView::SetEngine("transformers"@),
            )
        } else if self.settings_cursor == 1 {
            (
                (AppView { engine: "ollama"@, ..self }).chosen("Silnik: CPU (Ollama)"@, now),
                OutcomeView::SetEngine("ollama"@),
            )
        } else if self.settings_cursor == 2 {
            (
                (AppView { mode: "general"@, ..self }).chosen("Tryb: Ogólny"@, now),
                OutcomeView::SetMode("general"@),
            )
        } else if self.settings_cursor == 3 {
            (
                (AppView { mode: "programista"@, ..self }).chosen("Tryb: Programista"@, now),
                OutcomeView::SetMode("programista"@),
            )
        } else {
            (AppView { screen: Screen::Chat, ..self }, OutcomeView::Stay)
        }
    }

    /// The key asks for the help: a question mark in front of an empty input.
    pub open spec fn asks_help(self, key: KeyPress) -> bool {
        key.code == KeyCode::Char('?') && key.modifiers == 0 && self.input.len() == 0
    }

    /// After a message is sent: it stands among the messages, with an empty one
    /// of the assistant behind it.
    pub open spec fn after_send(self, message: Seq<char>, ts: Seq<char>) -> AppView {
        (AppView {
            input: Seq::empty(),
            cursor: 0,
            loading: true,
            inbox: Some(Seq::empty()),
            ..self
        }).at_end().without_status().with_message(Role::User, message, ts).with_message(
            Role::Assistant,
            Seq::empty(),
            ts,
        )
    }

    /// After a key in the chat.
    pub open spec fn after_chat_key(self, key: KeyPress, ts: Seq<char>) -> (AppView, OutcomeView) {
        match key.code {
            KeyCode::Enter => {
                let message = text::trimmed(self.input);
                if breaks_line(key) {
                    (self.with_input(self.before().push('\n'), self.after()), OutcomeView::Stay)
                } else if message.len() == 0 || self.loading {
                    (self, OutcomeView::Stay)
                } else {
                    (self.after_send(message, ts), OutcomeView::Send(self.session_id, message))
                }
            },
            KeyCode::Char(c) => if self.asks_help(key) {
                (AppView { screen: Screen::Help, ..self }, OutcomeView::Stay)
            } else {
                (self.with_input(self.before().push(c), self.after()), OutcomeView::Stay)
            },
            KeyCode::Backspace => (
                if self.cursor > 0 {
                    self.with_input(self.before().drop_last(), self.after())
                } else {
                    self
                },
                OutcomeView::Stay,
            ),
            KeyCode::Up => (
                AppView { scroll: scrolled_up(self.scroll, 1), ..self },
                OutcomeView::Stay,
            ),
            KeyCode::Down => (
                AppView { scroll: scrolled_down(self.scroll, 1), ..self },
                OutcomeView::Stay,
            ),
            KeyCode::PageUp => (
                AppView { scroll: scrolled_up(self.scroll, 10), ..self },
                OutcomeView::Stay,
            ),
            KeyCode::PageDown => (
                AppView { scroll: scrolled_down(self.scroll, 10), ..self },
                OutcomeView::Stay,
            ),
            KeyCode::Left => (
                if self.cursor > 0 {
                    AppView { cursor: self.cursor - 1, ..self }
                } else {
                    self
                },
                OutcomeView::Stay,
            ),
            KeyCode::Right => (
                if self.cursor < encode_utf8(self.input).len() {
                    AppView { cursor: self.cursor + 1, ..self }
                } else {
                    self
                },
                OutcomeView::Stay,
            ),
            _ => (self, OutcomeView::Stay),
        }
    }

    /// The key changes the input at the cursor.
    pub open spec fn edits(self, key: KeyPress) -> bool {
        match key.code {
            KeyCode::Char(_) => !self.asks_help(key),
            KeyCode::Backspace => self.cursor > 0,
            KeyCode::Enter => breaks_line(key),
            _ => false,
        }
    }

    /// After a key.
    pub open spec fn after_key(self, key: KeyPress, now: int, ts: Seq<char>) -> (
        AppView,
        OutcomeView,
    ) {
        let s = if self.shows_error() {
            self.without_status()
        } else {
            self
        };
        if quits(key) {
            (s, OutcomeView::Quit)
        } else if is_control(key, 'n') {
            (
                (AppView {
                    screen: if s.screen == Screen::Help {
                        Screen::Chat
                    } else {
                        s.screen
                    },
                    messages: Seq::empty(),
                    session_id: None,
                    scroll: 0,
                    ..s
                }).without_stream().with_status("Nowa rozmowa"@, false, now),
                OutcomeView::Stay,
            )
        } else if is_control(key, 's') {
            (
                AppView {
                    screen: if s.screen == Screen::Settings {
                        Screen::Chat
                    } else {
                        Screen::Settings
                    },
                    ..s
                },
                OutcomeView::Stay,
            )
        } else {
            match s.screen {
                Screen::Help => (AppView { screen: Screen::Chat, ..s }, OutcomeView::Stay),
                Screen::Settings => s.after_settings_key(key, now),
                Screen::Chat => s.after_chat_key(key, ts),
            }
        }
    }
}

/// The key is the letter with the control key held, and no other.
pub open spec fn is_control(key: KeyPress, c: char) -> bool {
    key.modifiers == CONTROL && key.code == KeyCode::Char(c)
}

/// The key is Enter with the shift key held, alone or with others: it breaks the
/// line.
pub open spec fn breaks_line(key: KeyPress) -> bool {
    key.code == KeyCode::Enter && key.modifiers % 2 == 1
}

/// The key ends the interface.
pub open spec fn quits(key: KeyPress) -> bool {
    is_control(key, 'c') || is_control(key, 'q')
}

/// The key does the same on every screen.
pub open spec fn is_shortcut(key: KeyPress) -> bool {
    quits(key) || is_control(key, 'n') || is_control(key, 's')
}

fn control(key: &KeyPress, c: char) -> (r: bool)
    ensures
        r == is_control(*key, c),
{
    match key.code {
        KeyCode::Char(d) => key.modifiers == CONTROL && d == c,
        _ => false,
    }
}

impl App {
    /// Takes a key.
    pub fn handle_key(&mut self, key: KeyPress, now: u64, ts: &str) -> (r: KeyOutcome)
        requires
            now + STATUS_MILLIS <= u64::MAX,
            old(self)@.screen == Screen::Chat && !is_shortcut(key) && old(self)@.edits(key)
                ==> old(self)@.on_boundary(),
        ensures
            (final(self)@, r@) == old(self)@.after_key(key, now as int, ts@),
    {
        let error: bool = match &self.status_msg {
            Some(s) => s.1,
            None => false,
        };
        if error {
            self.clear_status();
        }
        if control(&key, 'c') || control(&key, 'q') {
            return KeyOutcome::Quit;
        }
        if control(&key, 'n') {
            if self.screen == Screen::Help {
                self.screen = Screen::Chat;
            }
            self.new_session(now);
            return KeyOutcome::Stay;
        }
        if control(&key, 's') {
            self.screen = if self.screen == Screen::Settings {
                Screen::Chat
            } else {
                Screen::Settings
            };
            return KeyOutcome::Stay;
        }
        match self.screen {
            Screen::Help => {
                self.screen = Screen::Chat;
                KeyOutcome::Stay
            },
            Screen::Settings => self.handle_settings_key(key, now),
            Screen::Chat => self.handle_chat_key(key, ts),
        }
    }

    fn mark_up(&mut self)
        ensures
            final(self)@ == old(self)@.choice_up(),
    {
        if self.settings_cursor > 0 {
            self.settings_cursor = self.settings_cursor - 1;
        }
    }

    fn mark_down(&mut self)
        ensures
            final(self)@ == old(self)@.choice_down(),
    {
        if self.settings_cursor < 3 {
            self.settings_cursor = self.settings_cursor + 1;
        }
    }

    fn take_choice(&mut self, now: u64) -> (r: KeyOutcome)
        requires
            now + STATUS_MILLIS <= u64::MAX,
        ensures
            (final(self)@, r@) == old(self)@.after_choice(now as int),
    {
        self.screen = Screen::Chat;
        if self.settings_cursor == 0 {
            self.engine = "transformers".to_owned();
            self.set_status("Silnik: GPU (Transformers)", false, now);
            KeyOutcome::SetEngine("transformers".to_owned())
        } else if self.settings_cursor == 1 {
            self.engine = "ollama".to_owned();
            self.set_status("Silnik: CPU (Ollama)", false, now);
            KeyOutcome::SetEngine("ollama".to_owned())
        } else if self.settings_cursor == 2 {
            self.mode = "general".to_owned();
            self.set_status("Tryb: Ogólny", false, now);
            KeyOutcome::SetMode("general".to_owned())
        } else if self.settings_cursor == 3 {
            self.mode = "programista".to_owned();
            self.set_status("Tryb: Programista", false, now);
            KeyOutcome::SetMode("programista".to_owned())
        } else {
            KeyOutcome::Stay
        }
    }

    /// Takes a key in the settings.
    pub fn handle_settings_key(&mut self, key: KeyPress, now: u64) -> (r: KeyOutcome)
        requires
            now + STATUS_MILLIS <= u64::MAX,
        ensures
            (final(self)@, r@) == old(self)@.after_settings_key(key, now as int),
    {
        match key.code {
            KeyCode::Esc => {
                self.screen = Screen::Chat;
            },
            KeyCode::Up => {
                self.mark_up();
            },
            KeyCode::Down => {
                self.mark_down();
            },
            KeyCode::Enter => {
                return self.take_choice(now);
            },
            KeyCode::Char(c) => {
                if c == 'k' {
                    self.mark_up();
                } else if c == 'j' {
                    self.mark_down();
                } else if c == ' ' {
                    return self.take_choice(now);
                }
            },
            _ => {},
        }
        KeyOutcome::Stay
    }

    fn scroll_by(&mut self, down: bool, by: u16)
        ensures
            final(self)@ == (AppView {
                scroll: if down {
                    scrolled_down(old(self)@.scroll, by as int)
                } else {
                    scrolled_up(old(self)@.scroll, by as int)
                },
                ..old(self)@
            }),
    {
        self.scroll_offset = if down {
            if self.scroll_offset > u16::MAX - by {
                u16::MAX
            } else {
                self.scroll_offset + by
            }
        } else if self.scroll_offset < by {
            0
        } else {
            self.scroll_offset - by
        };
    }

    fn send(&mut self, ts: &str) -> (r: KeyOutcome)
        ensures
            ({
                let message = text::trimmed(old(self)@.input);
                if message.len() == 0 || old(self)@.loading {
                    final(self)@ == old(self)@ && r@ == OutcomeView::Stay
                } else {
                    final(self)@ == old(self)@.after_send(message, ts@) && r@ == OutcomeView::Send(
                        old(self)@.session_id,
                        message,
                    )
                }
            }),
    {
        let message: String = trim(self.input.as_str());
        if message.as_str().is_empty() || self.loading {
            return KeyOutcome::Stay;
        }
        self.input = String::new();
        self.input_cursor = 0;
        self.loading = true;
        self.scroll_offset = SCROLL_END;
        self.clear_status();
        self.add_message(Role::User, message.clone(), ts);
        self.add_message(Role::Assistant, String::new(), ts);
        self.inbox = Some(Vec::new());
        KeyOutcome::Send { session_id: copy_opt(&self.session_id), message }
    }

    /// Takes a key in the chat.
    pub fn handle_chat_key(&mut self, key: KeyPress, ts: &str) -> (r: KeyOutcome)
        requires
            old(self)@.edits(key) ==> old(self)@.on_boundary(),
        ensures
            (final(self)@, r@) == old(self)@.after_chat_key(key, ts@),
    {
        match key.code {
            KeyCode::Enter => {
                if key.modifiers % 2 == 1 {
                    self.insert_char('\n');
                } else {
                    return self.send(ts);
                }
            },
            KeyCode::Char(c) => {
                if c == '?' && key.modifiers == 0 && self.input.as_str().is_empty() {
                    self.screen = Screen::Help;
                } else {
                    self.insert_char(c);
                }
            },
            KeyCode::Backspace => {
                self.delete_char_back();
            },
            KeyCode::Up => {
                self.scroll_by(false, 1);
            },
            KeyCode::Down => {
                self.scroll_by(true, 1);
            },
            KeyCode::PageUp => {
                self.scroll_by(false, 10);
            },
            KeyCode::PageDown => {
                self.scroll_by(true, 10);
            },
            KeyCode::Left => {
                if self.input_cursor > 0 {
                    self.input_cursor = self.input_cursor - 1;
                }
            },
            KeyCode::Right => {
                if self.input_cursor < byte_len(self.input.as_str()) {
                    self.input_cursor = self.input_cursor + 1;
                }
            },
            _ => {},
        }
        KeyOutcome::Stay
    }
}

/// Only the keys that move the cursor can put it inside a character: any other
/// key leaves it between two characters where it was so before.
pub proof fn lemma_only_moves_leave_boundary(v: AppView, key: KeyPress, now: int, ts: Seq<char>)
    requires
        v.on_boundary(),
        key.code != KeyCode::Left,
        key.code != KeyCode::Right,
    ensures
        v.after_key(key, now, ts).0.on_boundary(),
{
    match key.code {
        KeyCode::Char(c) => {
            lemma_cursor_behind(v.before().push(c), v.after());
        },
        KeyCode::Backspace => {
            lemma_cursor_behind(v.before().drop_last(), v.after());
        },
        KeyCode::Enter => {
            lemma_cursor_behind(v.before().push('\n'), v.after());
        },
        _ => {},
    }
    encode_utf8_valid_utf8(Seq::<char>::empty());
}

/// Any key but those that end the interface closes the help. One that is no
/// shortcut leads back to the chat, where the input and the messages are as they
/// were.
pub proof fn lemma_any_key_closes_help(v: AppView, key: KeyPress, now: int, ts: Seq<char>)
    requires
        v.screen == Screen::Help,
        !quits(key),
    ensures
        v.after_key(key, now, ts).0.screen != Screen::Help,
        !is_control(key, 's') ==> v.after_key(key, now, ts).0.screen == Screen::Chat,
        !is_shortcut(key) ==> v.after_key(key, now, ts).0.input == v.input && v.after_key(
            key,
            now,
            ts,
        ).0.messages == v.messages,
{
}

/// Enter with the shift key held breaks the line at the cursor and sends nothing.
pub proof fn lemma_shift_enter_breaks_line(v: AppView, key: KeyPress, ts: Seq<char>)
    requires
        v.on_boundary(),
        breaks_line(key),
    ensures
        ({
            let (w, outcome) = v.after_chat_key(key, ts);
            &&& outcome == OutcomeView::Stay
            &&& w.input == v.before() + seq!['\n'] + v.after()
            &&& w.messages == v.messages
            &&& w.on_boundary()
            &&& w.before() == v.before().push('\n')
            &&& w.after() == v.after()
        }),
{
    lemma_cursor_behind(v.before().push('\n'), v.after());
    assert(v.before().push('\n') + v.after() =~= v.before() + seq!['\n'] + v.after());
}

/// In the settings the mark stays on one of the four choices, only Esc, Enter and
/// the space bar lead back to the chat, and only the latter two choose: the
/// engine or the mode, by where the mark is, and never both.
pub proof fn lemma_settings_choose_one(v: AppView, key: KeyPress, now: int)
    requires
        v.screen == Screen::Settings,
        0 <= v.settings_cursor <= 3,
    ensures
        ({
            let (w, outcome) = v.after_settings_key(key, now);
            let takes = key.code == KeyCode::Enter || key.code == KeyCode::Char(' ');
            &&& 0 <= w.settings_cursor <= 3
            &&& w.screen == (if takes || key.code == KeyCode::Esc {
                Screen::Chat
            } else {
                Screen::Settings
            })
            &&& !takes ==> w.engine == v.engine && w.mode == v.mode && outcome == OutcomeView::Stay
            &&& takes && v.settings_cursor <= 1 ==> w.mode == v.mode && outcome
                == OutcomeView::SetEngine(w.engine)
            &&& takes && v.settings_cursor > 1 ==> w.engine == v.engine && outcome
                == OutcomeView::SetMode(w.mode)
            &&& takes && v.settings_cursor == 0 ==> w.engine == "transformers"@
            &&& takes && v.settings_cursor == 1 ==> w.engine == "ollama"@
            &&& takes && v.settings_cursor == 2 ==> w.mode == "general"@
            &&& takes && v.settings_cursor == 3 ==> w.mode == "programista"@
        }),
{
}

/// While a reply is being made, no key sends another message.
pub proof fn lemma_one_message_at_a_time(v: AppView, key: KeyPress, now: int, ts: Seq<char>)
    requires
        v.loading,
    ensures
        !(v.after_key(key, now, ts).1 is Send),
{
}

/// The mark in the settings stays on one of the four choices.
pub proof fn lemma_mark_stays_on_choices(v: AppView, key: KeyPress, now: int, ts: Seq<char>)
    requires
        0 <= v.settings_cursor <= 3,
    ensures
        0 <= v.after_key(key, now, ts).0.settings_cursor <= 3,
{
}

} // verus!
