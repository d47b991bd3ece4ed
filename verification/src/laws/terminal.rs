//! Laws of the terminal interface.

use crate::text;
use crate::text::trim;
use crate::tui::api::{Stats, StreamEvent};
use crate::tui::app;
use crate::tui::app::{App, KeyCode, KeyOutcome, KeyPress, Message, Role, Screen};
use vstd::prelude::*;
use vstd::utf8::*;

verus! {

/// The two lists hold the same messages in the same order.
pub open spec fn same_messages(a: Seq<Message>, b: Seq<Message>) -> bool {
    &&& a.len() == b.len()
    &&& forall|i: int| 0 <= i < a.len() ==> #[trigger] same_message(a[i], b[i])
}

/// The two messages say the same, from the same side and at the same time.
pub open spec fn same_message(a: Message, b: Message) -> bool {
    a.role == b.role && a.content@ == b.content@ && a.ts@ == b.ts@
}

proof fn lemma_same_messages(a: Seq<Message>, b: Seq<Message>)
    requires
        app::said(a) == app::said(b),
    ensures
        same_messages(a, b),
{
    assert(app::said(a).len() == a.len());
    assert(app::said(b).len() == b.len());
    assert forall|i: int| 0 <= i < a.len() implies #[trigger] same_message(a[i], b[i]) by {
        assert(app::said(a)[i] == a[i]@);
        assert(app::said(b)[i] == b[i]@);
    }
}

proof fn lemma_more_messages(
    a: Seq<Message>,
    b: Seq<Message>,
    m: Seq<(Role, Seq<char>, Seq<char>)>,
)
    requires
        app::said(b) == app::said(a) + m,
    ensures
        b.len() == a.len() + m.len(),
        same_messages(a, b.take(a.len() as int)),
        forall|i: int|
            0 <= i < m.len() ==> (#[trigger] m[i]) == (
                b[a.len() + i].role,
                b[a.len() + i].content@,
                b[a.len() + i].ts@,
            ),
{
    assert(app::said(a).len() == a.len());
    assert(app::said(b).len() == b.len());
    let t = b.take(a.len() as int);
    assert forall|i: int| 0 <= i < a.len() implies #[trigger] same_message(a[i], t[i]) by {
        assert(app::said(a)[i] == a[i]@);
        assert(app::said(b)[i] == b[i]@);
    }
    assert forall|i: int| 0 <= i < m.len() implies (#[trigger] m[i]) == (
        b[a.len() + i].role,
        b[a.len() + i].content@,
        b[a.len() + i].ts@,
    ) by {
        assert(app::said(b)[a.len() + i] == b[a.len() + i]@);
    }
}

// ── Sending ──

/// Where a message is sent, every message from before is still there, unchanged
/// and in its place, and exactly two follow: the text of the user, and an empty
/// one of the assistant for the reply. What is sent is that text, in the session
/// that is open. Then the input is empty, and a reply is waited for.
pub proof fn law_send(
    a: &mut App,
    key: KeyPress,
    now: u64,
    ts: &str,
    r: KeyOutcome,
    typed: &str,
    message: String,
)
    requires
        now + app::STATUS_MILLIS <= u64::MAX,
        call_ensures(App::handle_key, (a, key, now, ts), r),
        typed@ == old(a).input@,
        call_ensures(trim, (typed,), message),
        r is Send,
    ensures
        final(a).messages@.len() == old(a).messages@.len() + 2,
        same_messages(old(a).messages@, final(a).messages@.take(old(a).messages@.len() as int)),
        ({
            let n = old(a).messages@.len() as int;
            let asked = final(a).messages@[n];
            let reply = final(a).messages@[n + 1];
            &&& asked.role == Role::User
            &&& asked.content@ == message@
            &&& asked.ts@ == ts@
            &&& reply.role == Role::Assistant
            &&& reply.content@.len() == 0
            &&& reply.ts@ == ts@
        }),
        r->session_id is Some <==> old(a).session_id is Some,
        r->session_id matches Some(s) ==> s@ == old(a).session_id->0@,
        r->message@ == message@,
        message@.len() > 0,
        key.code == KeyCode::Enter,
        old(a).screen == Screen::Chat,
        !old(a).loading,
        final(a).loading,
        final(a).inbox is Some && final(a).inbox->0@.len() == 0,
        final(a).input@.len() == 0,
        final(a).input_cursor == 0,
        final(a).scroll_offset == 65535,
        final(a).status_msg is None,
        final(a).session_id is Some <==> old(a).session_id is Some,
        final(a).session_id matches Some(s) ==> s@ == old(a).session_id->0@,
        final(a).screen == Screen::Chat,
{
    let v = old(a)@;
    let w = final(a)@;
    let two = seq![
        (Role::User, message@, ts@),
        (Role::Assistant, Seq::<char>::empty(), ts@),
    ];
    assert(r@ is Send);
    assert(w.messages =~= v.messages + two);
    lemma_more_messages(old(a).messages@, final(a).messages@, two);
    assert(two[0] == (Role::User, message@, ts@));
    assert(two[1].1.len() == 0);
}

/// Enter in the chat, without the shift key, sends whatever text there is unless a
/// reply is still waited for; without any text, and while one is waited for,
/// nothing is sent and nothing changes but that an error is cleared.
pub proof fn law_enter_sends(
    a: &mut App,
    key: KeyPress,
    now: u64,
    ts: &str,
    r: KeyOutcome,
    typed: &str,
    message: String,
)
    requires
        now + app::STATUS_MILLIS <= u64::MAX,
        call_ensures(App::handle_key, (a, key, now, ts), r),
        typed@ == old(a).input@,
        call_ensures(trim, (typed,), message),
        key.code == KeyCode::Enter,
        key.modifiers % 2 == 0,
        old(a).screen == Screen::Chat,
    ensures
        r is Send <==> message@.len() > 0 && !old(a).loading,
        !(r is Send) ==> r is Stay && same_messages(old(a).messages@, final(a).messages@)
            && final(a).input@ == old(a).input@ && final(a).loading == old(a).loading,
{
    assert(r@ is Send <==> r is Send);
    assert(r@ is Stay <==> r is Stay);
    if !(r is Send) {
        lemma_same_messages(old(a).messages@, final(a).messages@);
    }
}

/// No key takes back what was said: it leaves the messages as they are, or sends
/// one, or begins a new conversation, which Ctrl+N does and nothing else.
pub proof fn law_keys_keep_messages(a: &mut App, key: KeyPress, now: u64, ts: &str, r: KeyOutcome)
    requires
        now + app::STATUS_MILLIS <= u64::MAX,
        call_ensures(App::handle_key, (a, key, now, ts), r),
    ensures
        !(r is Send) && !(key.modifiers == 2 && key.code == KeyCode::Char('n')) ==> {
            &&& same_messages(old(a).messages@, final(a).messages@)
            &&& final(a).loading == old(a).loading
            &&& final(a).stream_buf@ == old(a).stream_buf@
            &&& final(a)@.inbox == old(a)@.inbox
            &&& final(a)@.session_id == old(a)@.session_id
        },
        key.modifiers == 2 && key.code == KeyCode::Char('n') ==> {
            &&& final(a).messages@.len() == 0
            &&& final(a).session_id is None
            &&& !final(a).loading
            &&& final(a).stream_buf@.len() == 0
            &&& final(a).inbox is None
            &&& final(a).scroll_offset == 0
            &&& final(a)@.status == Some(("Nowa rozmowa"@, false))
            &&& final(a).input@ == old(a).input@
            &&& final(a).input_cursor == old(a).input_cursor
            &&& r is Stay
        },
        final(a).stats == old(a).stats,
        final(a).stats_loaded == old(a).stats_loaded,
        final(a)@.last_fetch == old(a)@.last_fetch,
        !(r is SetEngine) ==> final(a).engine@ == old(a).engine@,
        !(r is SetMode) ==> final(a).mode@ == old(a).mode@,
{
    assert(r@ is Send <==> r is Send);
    assert(r@ is SetEngine <==> r is SetEngine);
    assert(r@ is SetMode <==> r is SetMode);
    assert(r@ is Stay <==> r is Stay);
    if !(r is Send) && !(key.modifiers == 2 && key.code == KeyCode::Char('n')) {
        assert(final(a)@.messages == old(a)@.messages);
        lemma_same_messages(old(a).messages@, final(a).messages@);
    }
    if key.modifiers == 2 && key.code == KeyCode::Char('n') {
        assert(app::said(final(a).messages@).len() == final(a).messages@.len());
    }
}

// ── Typing ──

/// A character that is typed in the chat stands where the cursor was, which moves
/// behind it; what stood before the cursor and behind it stays. Backspace takes
/// away the character before the cursor and nothing else. The other screens leave
/// the input as it is.
pub proof fn law_typing(
    a: &mut App,
    key: KeyPress,
    now: u64,
    ts: &str,
    r: KeyOutcome,
    head: Seq<char>,
    tail: Seq<char>,
)
    requires
        now + app::STATUS_MILLIS <= u64::MAX,
        call_ensures(App::handle_key, (a, key, now, ts), r),
        old(a).input@ == head + tail,
        old(a).input_cursor == encode_utf8(head).len(),
    ensures
        old(a).screen == Screen::Chat ==> (match key.code {
            KeyCode::Char(c) if key.modifiers == 0 && (c != '?' || head.len() + tail.len() > 0) => {
                &&& final(a).input@ == head.push(c) + tail
                &&& final(a).input_cursor == encode_utf8(head.push(c)).len()
                &&& final(a).screen == Screen::Chat
                &&& r is Stay
            },
            KeyCode::Enter if key.modifiers % 2 == 1 => {
                &&& final(a).input@ == head.push('\n') + tail
                &&& final(a).input_cursor == encode_utf8(head.push('\n')).len()
                &&& r is Stay
            },
            KeyCode::Backspace => {
                &&& head.len() > 0 ==> final(a).input@ == head.drop_last() + tail
                &&& head.len() > 0 ==> final(a).input_cursor == encode_utf8(head.drop_last()).len()
                &&& head.len() == 0 ==> final(a).input@ == tail && final(a).input_cursor == 0
                &&& r is Stay
            },
            _ => true,
        }),
        key.code == KeyCode::Char('?') && key.modifiers == 0 && old(a).input@.len() == 0
            && old(a).screen == Screen::Chat ==> final(a).screen == Screen::Help
            && final(a).input@.len() == 0,
        old(a).screen != Screen::Chat ==> final(a).input@ == old(a).input@ && final(a).input_cursor
            == old(a).input_cursor,
        key.code == KeyCode::Up || key.code == KeyCode::Down || key.code == KeyCode::PageUp
            || key.code == KeyCode::PageDown || key.code == KeyCode::Left || key.code
            == KeyCode::Right || key.code == KeyCode::Esc || key.code == KeyCode::Other
                ==> final(a).input@ == old(a).input@,
{
    app::lemma_cursor_behind(head, tail);
    assert(r@ is Stay <==> r is Stay);
    if head.len() == 0 {
        assert(encode_utf8(head) =~= Seq::<u8>::empty());
        assert(head + tail =~= tail);
    } else {
        let d = head.drop_last();
        assert(head =~= d + seq![head.last()]);
        text::lemma_encode_concat(d, seq![head.last()]);
        lemma_some_bytes(head);
    }
}

proof fn lemma_some_bytes(s: Seq<char>)
    requires
        s.len() > 0,
    ensures
        encode_utf8(s).len() > 0,
{
    if encode_utf8(s).len() == 0 {
        encode_utf8_decode_utf8(s);
        let none = Seq::<char>::empty();
        encode_utf8_decode_utf8(none);
        assert(encode_utf8(s) =~= encode_utf8(none)) by {
            assert(encode_utf8(none) =~= Seq::<u8>::empty());
        }
    }
}

/// The arrows move the cursor by one byte and never out of the input, and the
/// scroll keys move the messages by a line or by ten, and never beyond the ends.
pub proof fn law_moving(a: &mut App, key: KeyPress, now: u64, ts: &str, r: KeyOutcome)
    requires
        now + app::STATUS_MILLIS <= u64::MAX,
        call_ensures(App::handle_key, (a, key, now, ts), r),
        old(a).screen == Screen::Chat,
        old(a).input_cursor <= encode_utf8(old(a).input@).len(),
    ensures
        final(a).input_cursor <= encode_utf8(final(a).input@).len() || !(key.code == KeyCode::Left
            || key.code == KeyCode::Right),
        key.code == KeyCode::Left && old(a).input_cursor > 0
            ==> final(a).input_cursor + 1 == old(a).input_cursor,
        key.code == KeyCode::Left && old(a).input_cursor == 0 ==> final(a).input_cursor == 0,
        key.code == KeyCode::Right && old(a).input_cursor < encode_utf8(old(a).input@).len()
            ==> final(a).input_cursor == old(a).input_cursor + 1,
        key.code == KeyCode::Up ==> final(a).scroll_offset == (if old(a).scroll_offset > 0 {
            old(a).scroll_offset - 1
        } else {
            0
        }),
        key.code == KeyCode::PageUp ==> final(a).scroll_offset == (if old(a).scroll_offset > 10 {
            old(a).scroll_offset - 10
        } else {
            0
        }),
        key.code == KeyCode::Down ==> final(a).scroll_offset == (if old(a).scroll_offset < 65535 {
            old(a).scroll_offset + 1
        } else {
            65535
        }),
        key.code == KeyCode::PageDown ==> final(a).scroll_offset == (if old(a).scroll_offset
            < 65525 {
            old(a).scroll_offset + 10
        } else {
            65535
        }),
        key.code == KeyCode::Left || key.code == KeyCode::Right
            ==> final(a).scroll_offset == old(a).scroll_offset,
{
}

// ── Screens and settings ──

/// Ctrl+C and Ctrl+Q end the interface, and no other key does. Ctrl+S opens the
/// settings from wherever one is, and closes them. Esc leaves the settings.
pub proof fn law_screens(a: &mut App, key: KeyPress, now: u64, ts: &str, r: KeyOutcome)
    requires
        now + app::STATUS_MILLIS <= u64::MAX,
        call_ensures(App::handle_key, (a, key, now, ts), r),
    ensures
        r is Quit <==> key.modifiers == 2 && (key.code == KeyCode::Char('c') || key.code
            == KeyCode::Char('q')),
        key.modifiers == 2 && key.code == KeyCode::Char('s')
            ==> final(a).screen == (if old(a).screen == Screen::Settings {
            Screen::Chat
        } else {
            Screen::Settings
        }),
        old(a).screen == Screen::Settings && key.code == KeyCode::Esc ==> final(a).screen
            == Screen::Chat && r is Stay,
        old(a).screen == Screen::Help && !(r is Quit) && !(key.modifiers == 2 && key.code
            == KeyCode::Char('s')) ==> final(a).screen == Screen::Chat,
        old(a).screen == Screen::Chat && final(a).screen == Screen::Help ==> key.code
            == KeyCode::Char('?') && key.modifiers == 0 && old(a).input@.len() == 0,
        old(a).screen == Screen::Chat && final(a).screen == Screen::Settings ==> key.modifiers == 2
            && key.code == KeyCode::Char('s'),
        old(a)@.status is Some && (old(a)@.status->0).1 ==> final(a)@.status is None
            || !(final(a)@.status->0).1,
        old(a)@.status is Some && !(old(a)@.status->0).1 && !(r is Send) && !(r is SetEngine) && !(
        r is SetMode) && !(key.modifiers == 2 && key.code == KeyCode::Char('n'))
            ==> final(a)@.status == old(a)@.status,
{
    assert(r@ is Quit <==> r is Quit);
    assert(r@ is Stay <==> r is Stay);
    assert(r@ is Send <==> r is Send);
    assert(r@ is SetEngine <==> r is SetEngine);
    assert(r@ is SetMode <==> r is SetMode);
}

/// In the settings the mark goes up and down over four choices. Enter and the
/// space take the marked one: the first two are the engines, the others the modes.
/// The service is told the same name that the interface then shows.
pub proof fn law_settings(a: &mut App, key: KeyPress, now: u64, ts: &str, r: KeyOutcome)
    requires
        now + app::STATUS_MILLIS <= u64::MAX,
        call_ensures(App::handle_key, (a, key, now, ts), r),
        old(a).screen == Screen::Settings,
        old(a).settings_cursor <= 3,
    ensures
        final(a).settings_cursor <= 3,
        key.code == KeyCode::Up || (key.modifiers != 2 && key.code == KeyCode::Char('k'))
            ==> final(a).settings_cursor == (if old(a).settings_cursor > 0 {
            old(a).settings_cursor - 1
        } else {
            0
        }),
        key.code == KeyCode::Down || (key.modifiers != 2 && key.code == KeyCode::Char('j'))
            ==> final(a).settings_cursor == (if old(a).settings_cursor < 3 {
            old(a).settings_cursor + 1
        } else {
            3
        }),
        key.code == KeyCode::Enter || key.code == KeyCode::Char(' ') ==> {
            &&& final(a).screen == Screen::Chat
            &&& final(a).settings_cursor == old(a).settings_cursor
            &&& final(a)@.status is Some && !(final(a)@.status->0).1
            &&& old(a).settings_cursor == 0 ==> (r matches KeyOutcome::SetEngine(e) && e@
                == "transformers"@)
            &&& old(a).settings_cursor == 1 ==> (r matches KeyOutcome::SetEngine(e) && e@
                == "ollama"@)
            &&& old(a).settings_cursor == 2 ==> (r matches KeyOutcome::SetMode(m) && m@
                == "general"@)
            &&& old(a).settings_cursor == 3 ==> (r matches KeyOutcome::SetMode(m) && m@
                == "programista"@)
        },
        r matches KeyOutcome::SetEngine(e) ==> final(a).engine@ == e@
            && final(a).mode@ == old(a).mode@,
        r matches KeyOutcome::SetMode(m) ==> final(a).mode@ == m@
            && final(a).engine@ == old(a).engine@,
        r is SetEngine || r is SetMode ==> key.code == KeyCode::Enter || key.code == KeyCode::Char(
            ' ',
        ),
{
    assert(r@ is SetEngine <==> r is SetEngine);
    assert(r@ is SetMode <==> r is SetMode);
}

// ── The stream ──

/// A token is added to what the assistant is saying, and changes no other message.
/// Where the assistant has not begun, its message begins with what came.
pub proof fn law_token(a: &mut App, t: String, now: u64, ts: &str)
    requires
        now + app::STATUS_MILLIS <= u64::MAX,
        call_ensures(App::apply_stream_event, (a, StreamEvent::Token(t), now, ts), ()),
    ensures
        final(a).stream_buf@ == old(a).stream_buf@ + t@,
        final(a).messages@.len() > 0,
        final(a).messages@.last().role == Role::Assistant,
        final(a).messages@.last().content@ == old(a).stream_buf@ + t@,
        old(a).messages@.len() > 0 && old(a).messages@.last().role == Role::Assistant ==> {
            &&& final(a).messages@.len() == old(a).messages@.len()
            &&& same_messages(
                old(a).messages@.take(old(a).messages@.len() - 1),
                final(a).messages@.take(old(a).messages@.len() - 1),
            )
            &&& final(a).messages@.last().ts@ == old(a).messages@.last().ts@
        },
        old(a).messages@.len() == 0 || old(a).messages@.last().role == Role::User ==> {
            &&& final(a).messages@.len() == old(a).messages@.len() + 1
            &&& same_messages(old(a).messages@, final(a).messages@.take(old(a).messages@.len() as int))
            &&& final(a).messages@.last().ts@ == ts@
        },
        final(a).loading == old(a).loading,
        final(a).scroll_offset == 65535,
        final(a).input@ == old(a).input@,
        final(a).input_cursor == old(a).input_cursor,
        final(a)@.status == old(a)@.status,
        final(a)@.inbox == old(a)@.inbox,
        final(a)@.session_id == old(a)@.session_id,
{
    let x = old(a).messages@;
    let y = final(a).messages@;
    assert(app::said(x).len() == x.len());
    assert(app::said(y).len() == y.len());
    if x.len() > 0 {
        assert(app::said(x).last() == x.last()@);
    }
    assert(app::said(y).last() == y.last()@);
    let n = if old(a)@.assistant_spoke() {
        x.len() - 1
    } else {
        x.len() as int
    };
    let p = x.take(n);
    let q = y.take(n);
    assert forall|i: int| 0 <= i < n implies #[trigger] same_message(p[i], q[i]) by {
        assert(app::said(x)[i] == x[i]@);
        assert(app::said(y)[i] == y[i]@);
    }
    if n == x.len() {
        assert(p =~= x);
    }
}

/// The end of the stream leaves what was said, and an error that is shown; nothing
/// is waited for any more.
pub proof fn law_done(a: &mut App, now: u64, ts: &str)
    requires
        now + app::STATUS_MILLIS <= u64::MAX,
        call_ensures(App::apply_stream_event, (a, StreamEvent::Done, now, ts), ()),
    ensures
        same_messages(old(a).messages@, final(a).messages@),
        !final(a).loading,
        final(a).inbox is None,
        final(a).stream_buf@.len() == 0,
        old(a)@.status is Some && (old(a)@.status->0).1 ==> final(a)@.status == old(a)@.status,
        !(old(a)@.status is Some && (old(a)@.status->0).1) ==> final(a)@.status is None,
        final(a).input@ == old(a).input@,
        final(a)@.session_id == old(a)@.session_id,
        final(a).scroll_offset == old(a).scroll_offset,
{
    lemma_same_messages(old(a).messages@, final(a).messages@);
}

/// An error ends the stream and is told among the messages, of which none but an
/// empty one at the end gives way to it, and in the status with its first sixty
/// characters. It is no longer waited for a reply, so that another message can be
/// sent.
pub proof fn law_error(a: &mut App, e: String, now: u64, ts: &str)
    requires
        now + app::STATUS_MILLIS <= u64::MAX,
        call_ensures(App::apply_stream_event, (a, StreamEvent::Error(e), now, ts), ()),
    ensures
        !final(a).loading,
        final(a).inbox is None,
        final(a).stream_buf@.len() == 0,
        final(a)@.status is Some && (final(a)@.status->0).1,
        e@.len() <= 60 ==> (final(a)@.status->0).0 == "Błąd: "@ + e@,
        e@.len() > 60 ==> (final(a)@.status->0).0 == "Błąd: "@ + e@.take(60),
        final(a).status_clear_at is None,
        final(a).messages@.len() > 0,
        final(a).messages@.last().role == Role::Assistant,
        ({
            let n = if old(a).messages@.len() > 0 && old(a).messages@.last().role == Role::Assistant
                && old(a).messages@.last().content@.len() == 0 {
                old(a).messages@.len() - 1
            } else {
                old(a).messages@.len() as int
            };
            &&& final(a).messages@.len() == n + 1
            &&& same_messages(old(a).messages@.take(n), final(a).messages@.take(n))
        }),
        text::has_text(e@, "Connection refused"@) && !text::has_text(e@, "Ollama unreachable"@)
            && !text::has_text(e@, "error sending request"@)
            ==> final(a).messages@.last().content@
            == "❌ Serwer API niedostępny.\n\nSprawdź czy hexai --server działa na porcie 8000.\nSzczegóły: "@
            + e@,
        !text::has_text(e@, "Connection refused"@) && !text::has_text(e@, "Ollama unreachable"@)
            && !text::has_text(e@, "error sending request"@)
            ==> final(a).messages@.last().content@ == "❌ "@ + e@,
        text::has_text(e@, "Ollama unreachable"@) || text::has_text(e@, "error sending request"@)
            ==> final(a).messages@.last().content@ == app::OLLAMA_DOWN@,
        final(a).input@ == old(a).input@,
        final(a)@.session_id == old(a)@.session_id,
{
    let x = old(a).messages@;
    let y = final(a).messages@;
    assert(app::said(x).len() == x.len());
    assert(app::said(y).len() == y.len());
    if x.len() > 0 {
        assert(app::said(x).last() == x.last()@);
    }
    assert(app::said(y).last() == y.last()@);
    let n = if x.len() > 0 && x.last().role == Role::Assistant && x.last().content@.len() == 0 {
        x.len() - 1
    } else {
        x.len() as int
    };
    let p = x.take(n);
    let q = y.take(n);
    assert forall|i: int| 0 <= i < n implies #[trigger] same_message(p[i], q[i]) by {
        assert(app::said(x)[i] == x[i]@);
        assert(app::said(y)[i] == y[i]@);
    }
}

/// Events are taken one after the other: those of a list and then those of
/// another are those of both.
pub proof fn law_events_in_order(
    v: app::AppView,
    a: Seq<StreamEvent>,
    b: Seq<StreamEvent>,
    now: int,
    ts: Seq<char>,
)
    ensures
        app::after_events(v, a + b, now, ts) == app::after_events(
            app::after_events(v, a, now, ts),
            b,
            now,
            ts,
        ),
        a.len() == 0 ==> app::after_events(v, a, now, ts) == v,
        a.len() == 1 ==> app::after_events(v, a, now, ts) == v.after_event(a[0], now, ts),
    decreases b.len(),
{
    if a.len() == 1 {
        assert(a.drop_last() =~= Seq::<StreamEvent>::empty());
        assert(app::after_events(v, a.drop_last(), now, ts) == v);
    }
    if b.len() == 0 {
        assert(a + b =~= a);
    } else {
        law_events_in_order(v, a, b.drop_last(), now, ts);
        assert((a + b).drop_last() =~= a + b.drop_last());
        assert((a + b).last() == b.last());
    }
}

/// The events of a list come into effect as they would one by one.
pub proof fn law_events_applied(a: &mut App, events: Vec<StreamEvent>, now: u64, ts: &str)
    requires
        now + app::STATUS_MILLIS <= u64::MAX,
        call_ensures(App::apply_stream_events, (a, events, now, ts), ()),
    ensures
        final(a)@ == app::after_events(old(a)@, events@, now as int, ts@),
        events@.len() == 0 ==> final(a)@ == old(a)@,
        events@.len() == 1 ==> final(a)@ == old(a)@.after_event(events@[0], now as int, ts@),
{
    law_events_in_order(old(a)@, events@, events@, now as int, ts@);
}

/// An event that arrives waits behind those that arrived before, where a stream is
/// open, and is lost where none is. Handing over gives all of them, in order, and
/// the stream stays open.
pub proof fn law_inbox(a: &mut App, b: &mut App, ev: StreamEvent, r: Vec<StreamEvent>)
    requires
        call_ensures(App::deliver, (a, ev), ()),
        call_ensures(App::drain_stream_events, (b,), r),
        *old(b) == *final(a),
    ensures
        old(a).inbox matches Some(q) ==> r@ == q@.push(ev) && final(b).inbox is Some
            && final(b).inbox->0@.len() == 0,
        old(a).inbox is None ==> r@.len() == 0 && final(b).inbox is None,
        same_messages(old(a).messages@, final(b).messages@),
        final(b).loading == old(a).loading,
        final(b).stream_buf@ == old(a).stream_buf@,
        final(b).input@ == old(a).input@,
{
    lemma_same_messages(old(a).messages@, final(b).messages@);
    let i = old(a).inbox;
    let j = final(a).inbox;
    let k = final(b).inbox;
    assert(final(a)@.inbox is Some <==> j is Some);
    assert(final(b)@.inbox is Some <==> k is Some);
}

// ── The status and the state of the service ──

/// A status is shown as it was set. An error stays; anything else is there for
/// four seconds and gone from then on.
pub proof fn law_status(a: &mut App, b: &mut App, msg: &str, is_err: bool, set: u64, now: u64)
    requires
        set + app::STATUS_MILLIS <= u64::MAX,
        call_ensures(App::set_status, (a, msg, is_err, set), ()),
        call_ensures(App::tick_status, (b, now), ()),
        *old(b) == *final(a),
    ensures
        final(a)@.status == Some((msg@, is_err)),
        is_err || now < set + 4000 ==> final(b)@.status == Some((msg@, is_err)),
        !is_err && now >= set + 4000 ==> final(b)@.status is None,
        same_messages(old(a).messages@, final(b).messages@),
        final(b).input@ == old(a).input@,
        final(b).loading == old(a).loading,
        final(b).screen == old(a).screen,
{
    lemma_same_messages(old(a).messages@, final(b).messages@);
}

/// The state of the service is asked for at once, and then after every five
/// seconds.
pub proof fn law_stats(a: &mut App, asked: u64, now: u64, due: bool, first: bool, fresh: &App)
    requires
        call_ensures(App::stats_asked, (a, asked), ()),
        call_ensures(App::stats_due, (&*final(a), now), due),
        call_ensures(App::stats_due, (fresh, now), first),
        fresh.last_stats_fetch is None,
    ensures
        first,
        due <==> now >= asked + 5000,
        same_messages(old(a).messages@, final(a).messages@),
        final(a).input@ == old(a).input@,
{
    lemma_same_messages(old(a).messages@, final(a).messages@);
}

/// The interface shows the engine and the mode that the service reports, and
/// nothing of what was said changes.
pub proof fn law_stats_taken(a: &mut App, s: Stats)
    requires
        call_ensures(App::apply_stats, (a, s), ()),
    ensures
        final(a).engine@ == s.engine@,
        final(a).mode@ == s.mode@,
        final(a).stats == Some(s),
        final(a).stats_loaded,
        same_messages(old(a).messages@, final(a).messages@),
        final(a).input@ == old(a).input@,
        final(a).loading == old(a).loading,
        final(a)@.status == old(a)@.status,
{
    lemma_same_messages(old(a).messages@, final(a).messages@);
}

/// The interface starts on the chat, with nothing said and nothing typed.
pub proof fn law_start(a: App)
    requires
        call_ensures(App::default, (), a),
    ensures
        a.screen == Screen::Chat,
        a.messages@.len() == 0,
        a.input@.len() == 0,
        a.input_cursor == 0,
        a.session_id is None,
        !a.loading,
        a.inbox is None,
        a.status_msg is None,
        a.mode@ == "general"@,
        a.engine@ == "transformers"@,
        a.last_stats_fetch is None,
        !a.stats_loaded,
{
    assert(app::said(a.messages@).len() == a.messages@.len());
}

// ── The parts of the interface by themselves ──

/// Deleting takes back what was typed, wherever the cursor stands.
pub proof fn law_delete_undoes_insert(a: &mut App, b: &mut App, c: char)
    requires
        old(a)@.on_boundary(),
        call_ensures(App::insert_char, (a, c), ()),
        *old(b) == *final(a),
        call_ensures(App::delete_char_back, (b,), ()),
    ensures
        final(b).input@ == old(a).input@,
        final(b).input_cursor == old(a).input_cursor,
        final(a).input@.len() == old(a).input@.len() + 1,
        same_messages(old(a).messages@, final(b).messages@),
        final(b).screen == old(a).screen,
        final(b).loading == old(a).loading,
{
    app::lemma_delete_undoes_insert(old(a)@, c);
    lemma_same_messages(old(a).messages@, final(b).messages@);
    let v = old(a)@;
    text::lemma_head_and_tail(v.input, v.cursor);
    app::lemma_cursor_behind(v.before().push(c), v.after());
    lemma_some_bytes(v.before().push(c));
    assert(v.before().push(c).drop_last() =~= v.before());
}

/// An error that is shown by itself gives way to no message that says something.
pub proof fn law_error_bubble(a: &mut App, err: &str, ts: &str)
    requires
        call_ensures(App::push_error_bubble, (a, err, ts), ()),
    ensures
        final(a).messages@.len() > 0,
        final(a).messages@.last().role == Role::Assistant,
        final(a).messages@.last().content@.len() > 0,
        old(a).messages@.len() == 0 || old(a).messages@.last().role == Role::User
            || old(a).messages@.last().content@.len() > 0 ==> {
            &&& final(a).messages@.len() == old(a).messages@.len() + 1
            &&& same_messages(
                old(a).messages@,
                final(a).messages@.take(old(a).messages@.len() as int),
            )
            &&& final(a).messages@.last().ts@ == ts@
        },
        old(a).messages@.len() > 0 && old(a).messages@.last().role == Role::Assistant
            && old(a).messages@.last().content@.len() == 0 ==> {
            let n = old(a).messages@.len() - 1;
            &&& final(a).messages@.len() == n + 1
            &&& same_messages(old(a).messages@.take(n), final(a).messages@.take(n))
        },
        final(a).input@ == old(a).input@,
        final(a).loading == old(a).loading,
        final(a)@.status == old(a)@.status,
{
    let x = old(a).messages@;
    let y = final(a).messages@;
    assert(app::said(x).len() == x.len());
    assert(app::said(y).len() == y.len());
    if x.len() > 0 {
        assert(app::said(x).last() == x.last()@);
    }
    assert(app::said(y).last() == y.last()@);
    let n = if x.len() > 0 && x.last().role == Role::Assistant && x.last().content@.len() == 0 {
        x.len() - 1
    } else {
        x.len() as int
    };
    let p = x.take(n);
    let q = y.take(n);
    assert forall|i: int| 0 <= i < n implies #[trigger] same_message(p[i], q[i]) by {
        assert(app::said(x)[i] == x[i]@);
        assert(app::said(y)[i] == y[i]@);
    }
    if n == x.len() {
        assert(p =~= x);
    }
    reveal_strlit("❌ ");
    reveal_strlit(
        "❌ Serwer API niedostępny.\n\nSprawdź czy hexai --server działa na porcie 8000.\nSzczegóły: ",
    );
    reveal_strlit(
        "❌ Nie mogę się połączyć z Ollama.\n\nUruchom Ollama w osobnym terminalu:\n  ollama serve\n\nNastępnie pobierz model (jeśli jeszcze nie masz):\n  ollama pull llama2\n\nLub przełącz silnik na OpenAI (Ctrl+S → Ustawienia).",
    );
}

/// A new conversation begins with nothing said, in no session and with no stream,
/// and keeps what was typed.
pub proof fn law_new_session(a: &mut App, b: &mut App, now: u64)
    requires
        now + app::STATUS_MILLIS <= u64::MAX,
        call_ensures(App::new_session, (a, now), ()),
        call_ensures(App::clear_status, (b,), ()),
    ensures
        final(a).messages@.len() == 0,
        final(a).session_id is None,
        final(a).inbox is None,
        !final(a).loading,
        final(a).stream_buf@.len() == 0,
        final(a).scroll_offset == 0,
        final(a).input@ == old(a).input@,
        final(a).input_cursor == old(a).input_cursor,
        final(a).engine@ == old(a).engine@,
        final(a).mode@ == old(a).mode@,
        final(b).status_msg is None,
        final(b).status_clear_at is None,
        same_messages(old(b).messages@, final(b).messages@),
        final(b).input@ == old(b).input@,
{
    assert(app::said(final(a).messages@).len() == final(a).messages@.len());
    lemma_same_messages(old(b).messages@, final(b).messages@);
}

/// A key does in the settings and in the chat what it does on those screens.
pub proof fn law_screens_by_themselves(
    a: &mut App,
    b: &mut App,
    c: &mut App,
    key: KeyPress,
    now: u64,
    ts: &str,
    r: KeyOutcome,
    s: KeyOutcome,
    t: KeyOutcome,
)
    requires
        now + app::STATUS_MILLIS <= u64::MAX,
        *old(b) == *old(a),
        *old(c) == *old(a),
        key.modifiers != 2,
        !old(a)@.shows_error(),
        call_ensures(App::handle_key, (a, key, now, ts), r),
        call_ensures(App::handle_settings_key, (b, key, now), s),
        call_ensures(App::handle_chat_key, (c, key, ts), t),
    ensures
        old(a).screen == Screen::Settings ==> final(b)@ == final(a)@ && s@ == r@,
        old(a).screen == Screen::Chat ==> final(c)@ == final(a)@ && t@ == r@,
{
}

/// Each part of the interface is changed by its own keys alone: the mark only in
/// the settings, the scroll position only by the keys that scroll, by sending and
/// by a new conversation, and what is typed only by keys in the chat.
pub proof fn law_keys_keep_apart(a: &mut App, key: KeyPress, now: u64, ts: &str, r: KeyOutcome)
    requires
        now + app::STATUS_MILLIS <= u64::MAX,
        call_ensures(App::handle_key, (a, key, now, ts), r),
    ensures
        old(a).screen != Screen::Settings ==> final(a).settings_cursor == old(a).settings_cursor,
        key.code != KeyCode::Up && key.code != KeyCode::Down && key.code != KeyCode::PageUp
            && key.code != KeyCode::PageDown && !(r is Send) && !(key.modifiers == 2 && key.code
            == KeyCode::Char('n')) ==> final(a).scroll_offset == old(a).scroll_offset,
        old(a).screen != Screen::Chat && !(key.modifiers == 2 && key.code == KeyCode::Char('n'))
            ==> final(a).scroll_offset == old(a).scroll_offset,
        key.code == KeyCode::Esc || key.code == KeyCode::Other ==> final(a).input@ == old(a).input@
            && final(a).input_cursor == old(a).input_cursor && r is Stay,
        key.modifiers == 2 && (key.code == KeyCode::Char('c') || key.code == KeyCode::Char('q')
            || key.code == KeyCode::Char('n') || key.code == KeyCode::Char('s')) ==> final(a).input@
            == old(a).input@ && final(a).input_cursor == old(a).input_cursor,
{
    assert(r@ is Send <==> r is Send);
    assert(r@ is Stay <==> r is Stay);
}

} // verus!
