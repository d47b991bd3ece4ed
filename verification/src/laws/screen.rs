//! Laws of what the terminal interface shows.

use crate::engine;
use crate::outside;
use crate::text;
use crate::text::number;
use crate::tui::api::{endpoint, stream_event, stream_step, Arrival, StreamEvent, Vram};
use crate::tui::app::{App, Role, Screen};
use crate::tui::ui;
use crate::tui::ui::{
    draw, draw_chat_bg, draw_help_overlay, draw_settings_overlay, modal, render_ai_line,
    render_divider, render_header, render_input, render_messages, render_statusbar, speech_lines,
    Areas, ChatScene, Modal, Paint, Scene, Span, Style,
};
use vstd::prelude::*;
use vstd::utf8::*;

verus! {

proof fn lemma_line(l: Seq<Span>, v: Seq<(Seq<char>, Style)>)
    requires
        ui::line(l) == v,
    ensures
        l.len() == v.len(),
        forall|i: int|
            0 <= i < l.len() ==> (#[trigger] l[i]).content@ == v[i].0 && l[i].style == v[i].1,
{
    assert(ui::line(l).len() == l.len());
    assert forall|i: int| 0 <= i < l.len() implies (#[trigger] l[i]).content@ == v[i].0
        && l[i].style == v[i].1 by {
        assert(ui::line(l)[i] == l[i]@);
    }
}

proof fn lemma_lines(l: Seq<Vec<Span>>, v: Seq<Seq<(Seq<char>, Style)>>)
    requires
        ui::lines(l) == v,
    ensures
        l.len() == v.len(),
        forall|i: int| 0 <= i < l.len() ==> ui::line((#[trigger] l[i])@) == v[i],
{
    assert(ui::lines(l).len() == l.len());
    assert forall|i: int| 0 <= i < l.len() implies ui::line((#[trigger] l[i])@) == v[i] by {
        assert(ui::lines(l)[i] == ui::line(l[i]@));
    }
}

// ── Messages ──

/// Messages are drawn one below the other, in their order and none left out: first
/// who speaks and when, then each line of what is said, and then a blank line.
pub proof fn law_messages_drawn(
    a: Seq<(Role, Seq<char>, Seq<char>)>,
    b: Seq<(Role, Seq<char>, Seq<char>)>,
    width: nat,
)
    ensures
        ui::all_message_lines(a + b, width) == ui::all_message_lines(a, width)
            + ui::all_message_lines(b, width),
        a.len() == 0 ==> ui::all_message_lines(a, width).len() == 0,
        a.len() == 1 ==> ({
            let l = ui::all_message_lines(a, width);
            let said = outside::wrapped_lines(a[0].1, width);
            &&& l.len() == said.len() + 2
            &&& l[0].len() == 2
            &&& l[0][0].0 == if a[0].0 == Role::User {
                "  Ty"@
            } else {
                "  HexAi"@
            }
            &&& l[0][1].0 == "  "@ + a[0].2
            &&& l[0][0].1.bold && l[0][0].1.fg == Some(
                if a[0].0 == Role::User {
                    Paint::Accent
                } else {
                    Paint::Amber
                },
            )
            &&& l[0][1].1.fg == Some(Paint::Muted) && !l[0][1].1.bold
            &&& l.last().len() == 0
            &&& forall|i: int|
                0 <= i < said.len() && a[0].0 == Role::User ==> (#[trigger] l[i + 1]).len() == 1
                    && l[i + 1][0].0 == "  "@ + said[i]
            &&& forall|i: int|
                0 <= i < said.len() && a[0].0 == Role::Assistant ==> #[trigger] l[i + 1]
                    == ui::ai_line(said[i])
        }),
    decreases b.len(),
{
    if a.len() == 1 {
        assert(a.drop_last() =~= Seq::<(Role, Seq<char>, Seq<char>)>::empty());
        let l = ui::all_message_lines(a, width);
        assert(ui::all_message_lines(a.drop_last(), width) =~= Seq::empty());
        assert(l =~= ui::message_lines(a[0], width));
    }
    if b.len() == 0 {
        assert(a + b =~= a);
        assert(ui::all_message_lines(a, width) + ui::all_message_lines(b, width)
            =~= ui::all_message_lines(a, width));
    } else {
        law_messages_drawn(a, b.drop_last(), width);
        assert((a + b).drop_last() =~= a + b.drop_last());
        assert((a + b).last() == b.last());
        assert(ui::all_message_lines(a + b, width) =~= ui::all_message_lines(a, width)
            + ui::all_message_lines(b, width));
    }
}

/// The lines greet the user and tell how to begin.
pub open spec fn shows_welcome(r: Seq<Vec<Span>>) -> bool {
    &&& r.len() == 7
    &&& r[0]@.len() == 0 && r[2]@.len() == 0 && r[4]@.len() == 0
    &&& r[1]@.len() == 1 && r[1]@[0].content@ == "        ⬡  HexAi"@
    &&& r[3]@.len() == 1 && r[3]@[0].content@ == "        Jak mogę Ci dziś pomóc?"@
    &&& r[5]@.len() == 1 && r[5]@[0].content@ == "        Wpisz wiadomość i naciśnij Enter."@
    &&& r[6]@.len() == 1 && r[6]@[0].content@
        == "        Użyj ? aby zobaczyć skróty klawiszowe."@
}

/// The conversation is drawn whole, eight columns narrower than its area; while
/// nothing of a reply has come, three lines more tell of it. Before anything was
/// said there is a welcome. Drawing changes nothing but the scroll position, which
/// never goes beyond the end and stays where it was short of it.
pub proof fn law_render_messages(
    a: &mut App,
    width: u16,
    height: u16,
    r: Vec<Vec<Span>>,
)
    requires
        call_ensures(render_messages, (a, width, height), r),
    ensures
        old(a).messages@.len() == 0 ==> final(a)@ == old(a)@ && shows_welcome(r@),
        old(a).messages@.len() > 0 && !(old(a).loading && old(a).stream_buf@.len() == 0)
            ==> ui::lines(r@) == ui::all_message_lines(
            old(a)@.messages,
            if width >= 8 {
                (width - 8) as nat
            } else {
                0
            },
        ),
        old(a).messages@.len() > 0 && old(a).loading && old(a).stream_buf@.len() == 0 ==> {
            let said = ui::all_message_lines(
                old(a)@.messages,
                if width >= 8 {
                    (width - 8) as nat
                } else {
                    0
                },
            );
            &&& r@.len() == said.len() + 3
            &&& ui::lines(r@).take(said.len() as int) == said
            &&& ui::lines(r@)[said.len() as int][0].0 == "  HexAi"@
            &&& ui::lines(r@)[said.len() as int + 1][0].0 == "  ⣾ myślę…"@
            &&& ui::lines(r@).last().len() == 0
        },
        final(a)@.messages == old(a)@.messages,
        final(a).input@ == old(a).input@,
        final(a).input_cursor == old(a).input_cursor,
        final(a).loading == old(a).loading,
        final(a).stream_buf@ == old(a).stream_buf@,
        final(a)@.inbox == old(a)@.inbox,
        final(a)@.status == old(a)@.status,
        final(a).screen == old(a).screen,
        old(a).messages@.len() > 0 && r@.len() < 65536 ==> {
            let end = if r@.len() >= height {
                r@.len() - height
            } else {
                0
            };
            &&& final(a).scroll_offset <= end
            &&& old(a).scroll_offset <= end && old(a).scroll_offset < 65535
                ==> final(a).scroll_offset == old(a).scroll_offset
            &&& old(a).scroll_offset > end || old(a).scroll_offset == 65535
                ==> final(a).scroll_offset == end
        },
{
    let v = old(a)@;
    assert(v.messages.len() == old(a).messages@.len());
    assert(ui::lines(r@).len() == r@.len());
    if v.messages.len() == 0 {
        let all = ui::welcome();
        lemma_lines(r@, all);
        lemma_line(r@[0]@, all[0]);
        lemma_line(r@[1]@, all[1]);
        lemma_line(r@[2]@, all[2]);
        lemma_line(r@[3]@, all[3]);
        lemma_line(r@[4]@, all[4]);
        lemma_line(r@[5]@, all[5]);
        lemma_line(r@[6]@, all[6]);
    }
    if v.messages.len() > 0 {
        let said = ui::all_message_lines(v.messages, ui::text_width(width));
        assert(said + Seq::<Seq<(Seq<char>, Style)>>::empty() =~= said);
        assert((said + ui::thinking()).take(said.len() as int) =~= said);
        if r@.len() < 65536 {
            assert(r@.len() as int % 65536 == r@.len());
        }
    }
}

/// What a message says is shown line by line, each indented.
pub proof fn law_speech_lines(
    role: Role,
    broken: &Vec<String>,
    r: Vec<Vec<Span>>,
    i: int,
    l: Vec<Span>,
    s: &str,
)
    requires
        call_ensures(speech_lines, (role, broken), r),
        0 <= i < broken@.len() ==> s@ == broken@[i]@,
        call_ensures(render_ai_line, (s,), l),
    ensures
        r@.len() == broken@.len(),
        0 <= i < r@.len() && role == Role::User ==> r@[i]@.len() == 1
            && r@[i]@[0].content@ == "  "@ + broken@[i]@
            && r@[i]@[0].style.fg == Some(Paint::UserText),
        0 <= i < r@.len() && role == Role::Assistant ==> ui::line(r@[i]@) == ui::line(l@),
{
    let b = text::views(broken@);
    lemma_lines(r@, ui::speech(role, b));
    if 0 <= i < r@.len() {
        assert(b[i] == broken@[i]@);
        assert(ui::line(r@[i]@) == ui::speech_line(role, b[i]));
        if role == Role::User {
            lemma_line(r@[i]@, ui::speech_line(role, b[i]));
        }
    }
}

/// What stands between two backticks is set apart as code, and what stands before
/// them and behind them is not; the backticks themselves are not shown. A backtick
/// without a second one is shown as it is.
pub proof fn law_code_set_apart(a: Seq<char>, b: Seq<char>, rest: Seq<char>)
    requires
        forall|i: int| 0 <= i < a.len() ==> #[trigger] a[i] != '`',
        forall|i: int| 0 <= i < b.len() ==> #[trigger] b[i] != '`',
    ensures
        ui::ai_pieces(a.push('`') + b.push('`') + rest) == ui::ai_pieces(a) + seq![
            (b, (Style { fg: Some(Paint::Amber), bg: None, bold: true })),
        ] + ui::ai_pieces(rest),
        ui::ai_pieces(a.push('`') + b) == ui::ai_pieces(a) + seq![
            ("`"@, (Style { fg: Some(Paint::Primary), bg: None, bold: false })),
        ] + ui::ai_pieces(b),
        a.len() > 0 ==> ui::ai_pieces(a) == seq![
            (a, (Style { fg: Some(Paint::Primary), bg: None, bold: false })),
        ],
        a.len() == 0 ==> ui::ai_pieces(a).len() == 0,
{
    let n = a.len() as int;
    let m = b.len() as int;
    engine::lemma_first_index_is(a, '`', n);
    engine::lemma_first_index_is(b, '`', m);
    let s = a.push('`') + b.push('`') + rest;
    engine::lemma_first_index_is(s, '`', n);
    assert(s.take(n) =~= a);
    let t = s.skip(n + 1);
    assert(t =~= b.push('`') + rest);
    engine::lemma_first_index_is(t, '`', m);
    assert(t.take(m) =~= b);
    assert(t.skip(m + 1) =~= rest);
    let u = a.push('`') + b;
    engine::lemma_first_index_is(u, '`', n);
    assert(u.take(n) =~= a);
    assert(u.skip(n + 1) =~= b);
}

/// A line of the assistant is its pieces behind an indent of two spaces.
pub proof fn law_ai_line(s: &str, r: Vec<Span>)
    requires
        call_ensures(render_ai_line, (s,), r),
    ensures
        r@.len() > 0 && r@[0].content@ == "  "@,
        ui::line(r@).skip(1) == ui::ai_pieces(s@),
        (forall|i: int| 0 <= i < s@.len() ==> #[trigger] s@[i] != '`') && s@.len() > 0 ==> r@.len()
            == 2 && r@[1].content@ == s@,
{
    let p = ui::ai_pieces(s@);
    lemma_line(r@, ui::ai_line(s@));
    assert(ui::ai_line(s@).skip(1) =~= p);
    if (forall|i: int| 0 <= i < s@.len() ==> #[trigger] s@[i] != '`') && s@.len() > 0 {
        law_code_set_apart(s@, s@, s@);
        assert(ui::ai_line(s@)[1] == p[0]);
    }
}

// ── Header, input and status ──

/// The header tells the engine, the mode, and whether the service has a model.
pub proof fn law_header(a: &App, r: (Vec<Span>, Vec<Span>))
    requires
        call_ensures(render_header, (a,), r),
    ensures
        r.0@.len() == 2 && r.0@[0].content@ == "⬡ HexAi"@ && r.0@[1].content@ == "  v2.0.0"@,
        r.1@.len() == 5,
        r.0@[0].style == ui::in_bold(Paint::Accent) && r.0@[1].style == ui::in_color(Paint::Muted),
        r.1@[0].style.fg == Some(Paint::Accent) && r.1@[0].style.bg == Some(Paint::Badge)
            && r.1@[0].style.bold,
        r.1@[1].content@ == "  "@ && r.1@[3].content@ == "  "@,
        r.1@[2].style.fg == Some(Paint::Secondary),
        r.1@[4].style.fg == Some(Paint::Green) <==> a.stats is Some && a.stats->0.model_loaded,
        a.engine@ == "ollama"@ ==> r.1@[0].content@ == " "@ + "CPU"@ + " "@,
        a.engine@ != "ollama"@ ==> r.1@[0].content@ == " "@ + "GPU"@ + " "@,
        a.mode@ == "programista"@ ==> r.1@[2].content@ == "Dev"@,
        a.mode@ != "programista"@ ==> r.1@[2].content@ == "Ogólny"@,
        a.stats is Some && a.stats->0.model_loaded ==> r.1@[4].content@ == "● model"@,
        a.stats is None || !a.stats->0.model_loaded ==> r.1@[4].content@ == "○ offline"@,
{
    lemma_line(r.0@, ui::header_left());
    lemma_line(r.1@, ui::header_right(a@));
}

/// The rule goes over the whole width.
pub proof fn law_divider(width: u16, r: String, i: int)
    requires
        call_ensures(render_divider, (width,), r),
    ensures
        r@.len() == width,
        0 <= i < width ==> r@[i] == '─',
{
    reveal_strlit("─");
    lemma_repeated_char("─"@, width as nat);
}

proof fn lemma_repeated_char(s: Seq<char>, n: nat)
    requires
        s.len() == 1,
    ensures
        ui::repeated(s, n).len() == n,
        forall|i: int| 0 <= i < n ==> #[trigger] ui::repeated(s, n)[i] == s[0],
    decreases n,
{
    if n > 0 {
        lemma_repeated_char(s, (n - 1) as nat);
    }
}

/// The input is shown with the cursor where it stands: what was typed before it,
/// the character under it, or a space at the end, and what was typed behind. While
/// a reply is waited for, the line below it says so.
pub proof fn law_input(a: &App, millis: u64, r: Vec<Vec<Span>>, head: Seq<char>, tail: Seq<char>)
    requires
        a.input@ == head + tail,
        a.input_cursor == encode_utf8(head).len(),
        call_ensures(render_input, (a, millis), r),
    ensures
        r@.len() == 2,
        r@[0]@.len() == 3,
        r@[0]@[0].content@ == head,
        tail.len() == 0 ==> r@[0]@[1].content@ == " "@ && r@[0]@[2].content@.len() == 0,
        tail.len() > 0 ==> r@[0]@[1].content@ == seq![tail[0]]
            && r@[0]@[2].content@ == tail.skip(1),
        r@[0]@[1].style.bg == Some(Paint::Accent),
        r@[0]@[0].style.fg == Some(Paint::Primary) && r@[0]@[2].style.fg == Some(Paint::Primary),
        r@[0]@[0].style.bg is None && r@[0]@[2].style.bg is None,
        r@[1]@.len() == 1,
        !a.loading ==> r@[1]@[0].content@
            == " Enter wyślij · Shift+Enter nowa linia · Ctrl+N nowa · ? pomoc"@,
        a.loading ==> r@[1]@[0].content@ == " "@ + ui::spinner(millis as int) + " Generowanie…"@,
{
    crate::tui::app::lemma_cursor_behind(head, tail);
    let v = a@;
    let all = seq![
        ui::input_line(v),
        seq![(ui::input_hint(v, millis as int), ui::in_color(Paint::Muted))],
    ];
    lemma_lines(r@, all);
    lemma_line(r@[0]@, ui::input_line(v));
    lemma_line(r@[1]@, all[1]);
    if tail.len() > 0 {
        assert(tail.take(1) =~= seq![tail[0]]);
    }
}

/// The spinner turns: it stands still for a hundred and twenty milliseconds, moves
/// on with the next, and is where it was after eight of them.
pub proof fn law_spinner(millis: int)
    requires
        0 <= millis,
    ensures
        ui::spinner(millis + 960) == ui::spinner(millis),
        ui::spinner(millis - millis % 120) == ui::spinner(millis),
        ui::spinner(millis + 120) != ui::spinner(millis),
        ui::spinner(millis).len() == 1,
{
    reveal_strlit("⣾");
    reveal_strlit("⣽");
    reveal_strlit("⣻");
    reveal_strlit("⢿");
    reveal_strlit("⡿");
    reveal_strlit("⣟");
    reveal_strlit("⣯");
    reveal_strlit("⣷");
    assert((millis + 960) / 120 == millis / 120 + 8);
    assert((millis + 120) / 120 == millis / 120 + 1);
    assert((millis - millis % 120) / 120 == millis / 120);
    assert("⣾"@[0] == '⣾' && "⣽"@[0] == '⣽' && "⣻"@[0] == '⣻' && "⢿"@[0] == '⢿' && "⡿"@[0] == '⡿'
        && "⣟"@[0] == '⣟' && "⣯"@[0] == '⣯' && "⣷"@[0] == '⣷');
}

/// The status bar tells of the four keys, and then of the status, an error in red,
/// or else of the memory and the sessions of the service.
pub proof fn law_statusbar(a: &App, r: Vec<Span>, percent: String, sessions: String)
    requires
        call_ensures(render_statusbar, (a,), r),
        a.stats is Some && a.stats->0.vram is Some ==> call_ensures(
            number,
            (a.stats->0.vram->0.percent,),
            percent,
        ) && call_ensures(number, (a.stats->0.active_sessions as u64,), sessions),
    ensures
        r@.len() >= 8,
        r@[0].content@ == " "@ + "Ctrl+N"@ + " "@ && r@[1].content@ == " "@ + "Nowa"@ + "  "@,
        r@[2].content@ == " "@ + "Ctrl+S"@ + " "@ && r@[3].content@ == " "@ + "Ustawienia"@ + "  "@,
        r@[4].content@ == " "@ + "?"@ + " "@ && r@[5].content@ == " "@ + "Pomoc"@ + "  "@,
        r@[6].content@ == " "@ + "Ctrl+C"@ + " "@ && r@[7].content@ == " "@ + "Wyjście"@ + "  "@,
        a.status_msg matches Some(s) ==> {
            &&& r@.len() == 9
            &&& r@[8].content@ == " "@ + s.0@ + " "@
            &&& r@[8].style.fg == Some(Paint::Red) <==> s.1
            &&& r@[8].style.fg == Some(Paint::Accent) <==> !s.1
        },
        a.status_msg is None && a.stats is Some && a.stats->0.vram is Some ==> r@.len() == 9
            && r@[8].content@ == " VRAM "@ + percent@ + "% · "@ + sessions@ + " sesji "@,
        a.status_msg is None && (a.stats is None || a.stats->0.vram is None) ==> r@.len() == 8,
{
    lemma_line(r@, ui::key_hints() + ui::status_piece(a@));
}

// ── Overlays ──

/// A window is in the middle of its area and within it, as large as it is meant to
/// be as far as there is room.
pub proof fn law_modal(width: u16, height: u16, w: u16, h: u16, m: Modal)
    requires
        call_ensures(modal, (width, height, w, h), m),
    ensures
        m.x + m.width <= width,
        m.y + m.height <= height,
        w <= width ==> m.width == w && 0 <= (width - w) - 2 * m.x <= 1,
        h <= height ==> m.height == h && 0 <= (height - h) - 2 * m.y <= 1,
        w > width ==> m.width == width && m.x == 0,
        h > height ==> m.height == height && m.y == 0,
{
}

/// The bar of the memory is filled by one part in twenty for every five percent,
/// and full from a hundred percent on.
pub proof fn law_bar(percent: int)
    requires
        0 <= percent,
    ensures
        ui::filled(percent) <= 20,
        percent < 100 ==> 5 * ui::filled(percent) <= percent < 5 * ui::filled(percent) + 5,
        percent >= 100 ==> ui::filled(percent) == 20,
{
    if percent < 100 {
        assert(percent * 20 / 100 == percent / 5) by (nonlinear_arith);
    }
}

/// The memory is shown by a bar of twenty parts and by its numbers, in red where
/// it runs short.
pub proof fn law_vram(v: Vram, n: String, i: int)
    requires
        call_ensures(
            number,
            (if v.percent <= 65535 {
                v.percent
            } else {
                65535
            },),
            n,
        ),
        0 <= i < 20,
    ensures
        ({
            let l = ui::vram_lines(v)[2];
            &&& l.len() == 2
            &&& l[0].0.len() == 22
            &&& (l[0].0[i + 2] == '█' <==> 5 * i + 5 <= v.percent)
            &&& (l[0].0[i + 2] == '░' <==> 5 * i + 5 > v.percent)
            &&& l[1].0 == " "@ + n@ + "% ("@ + v.used@ + "/"@ + v.total@ + "GB)"@
            &&& (l[0].1.fg == Some(Paint::Red) <==> v.percent > 80)
            &&& (l[0].1.fg == Some(Paint::Green) <==> v.percent <= 60)
        }),
{
    law_bar(ui::shown_percent(v));
    reveal_strlit("█");
    reveal_strlit("░");
    reveal_strlit("  ");
    let k = ui::filled(ui::shown_percent(v));
    lemma_repeated_char("█"@, k);
    lemma_repeated_char("░"@, (20 - k) as nat);
    let bar = "  "@ + ui::repeated("█"@, k) + ui::repeated("░"@, (20 - k) as nat);
    assert(ui::vram_lines(v)[2][0].0 == bar);
    if i < k {
        assert(bar[i + 2] == ui::repeated("█"@, k)[i]);
    } else {
        assert(bar[i + 2] == ui::repeated("░"@, (20 - k) as nat)[i - k]);
    }
}

/// The settings show the four choices; the dot is filled of the engine and of the
/// mode that are in use, whichever choice is marked.
pub proof fn law_settings_shown(a: &App, r: Vec<Vec<Span>>)
    requires
        call_ensures(draw_settings_overlay, (a,), r),
    ensures
        r@.len() == 9 + (if a.stats is Some && a.stats->0.vram is Some {
            3int
        } else {
            0
        }),
        r@[2]@.len() == 1 && r@[3]@.len() == 1 && r@[5]@.len() == 1 && r@[6]@.len() == 1,
        r@[2]@[0].content@ == (if a.engine@ == "transformers"@ {
            "  ● "@
        } else {
            "  ○ "@
        }) + "⚡ Transformers (GPU)"@,
        r@[3]@[0].content@ == (if a.engine@ == "ollama"@ {
            "  ● "@
        } else {
            "  ○ "@
        }) + "🖥  Ollama (CPU)"@,
        r@[5]@[0].content@ == (if a.mode@ == "general"@ {
            "  ● "@
        } else {
            "  ○ "@
        }) + "💬 Ogólny"@,
        r@[6]@[0].content@ == (if a.mode@ == "programista"@ {
            "  ● "@
        } else {
            "  ○ "@
        }) + "💻 Programista (Dev)"@,
        r@[1]@.len() == 1 && r@[1]@[0].content@ == "SILNIK"@,
        r@[4]@.len() == 1 && r@[4]@[0].content@ == "TRYB"@,
        r@[2]@[0].style.bold <==> a.engine@ == "transformers"@,
        r@[3]@[0].style.bold <==> a.engine@ == "ollama"@,
        r@[5]@[0].style.bold <==> a.mode@ == "general"@,
        r@[6]@[0].style.bold <==> a.mode@ == "programista"@,
        r@[2]@[0].style.bg is Some <==> a.engine@ != "transformers"@ && a.settings_cursor == 0,
        r@[3]@[0].style.bg is Some <==> a.engine@ != "ollama"@ && a.settings_cursor == 1,
        r@[5]@[0].style.bg is Some <==> a.mode@ != "general"@ && a.settings_cursor == 2,
        r@[6]@[0].style.bg is Some <==> a.mode@ != "programista"@ && a.settings_cursor == 3,
        r@.last()@.len() == 1 && r@.last()@[0].content@
            == "  ↑↓/jk Nawiguj · Enter Wybierz · Esc Zamknij"@,
        a.stats is Some && a.stats->0.vram is Some ==> ui::line(r@[9]@) == ui::vram_lines(
            a.stats->0.vram->0,
        )[2],
{
    let all = ui::settings_lines(a@);
    lemma_lines(r@, all);
    lemma_line(r@[1]@, all[1]);
    lemma_line(r@[4]@, all[4]);
    lemma_line(r@[2]@, all[2]);
    lemma_line(r@[3]@, all[3]);
    lemma_line(r@[5]@, all[5]);
    lemma_line(r@[6]@, all[6]);
    lemma_line(r@.last()@, all.last());
}

/// The help names each key and what it does, the keys in a column of their own.
pub proof fn law_help_shown(r: Vec<Vec<Span>>, i: int)
    requires
        call_ensures(draw_help_overlay, (), r),
        1 <= i <= 7,
    ensures
        r@.len() == 13,
        r@[i]@.len() == 2,
        r@[i]@[0].content@.len() == 20,
        r@[0]@.len() == 0 && r@[8]@.len() == 0 && r@[11]@.len() == 0,
        r@[9]@.len() == 1 && r@[9]@[0].content@ == "  API: http://localhost:8000"@,
        r@[10]@.len() == 1 && r@[10]@[0].content@ == "  HexAi for HackerOS · GPL-3.0"@,
        r@[12]@.len() == 1 && r@[12]@[0].content@ == "  Naciśnij dowolny klawisz aby zamknąć"@,
        r@[1]@[1].content@ == "Wyślij wiadomość"@,
        r@[2]@[1].content@ == "Nowa linia"@,
        r@[3]@[1].content@ == "Nowa rozmowa"@,
        r@[4]@[1].content@ == "Ustawienia"@,
        r@[5]@[1].content@ == "Przewijaj historię"@,
        r@[6]@[1].content@ == "Ta pomoc"@,
        r@[7]@[1].content@ == "Wyjście"@,
        text::has_prefix(r@[1]@[0].content@.skip(2), "Enter"@),
        text::has_prefix(r@[2]@[0].content@.skip(2), "Shift+Enter"@),
        text::has_prefix(r@[3]@[0].content@.skip(2), "Ctrl+N"@),
        text::has_prefix(r@[4]@[0].content@.skip(2), "Ctrl+S"@),
        text::has_prefix(r@[5]@[0].content@.skip(2), "↑↓ / PgUp/PgDn"@),
        text::has_prefix(r@[6]@[0].content@.skip(2), "?"@),
        text::has_prefix(r@[7]@[0].content@.skip(2), "Ctrl+C / Ctrl+Q"@),
{
    reveal_strlit("Enter");
    reveal_strlit("Shift+Enter");
    reveal_strlit("Ctrl+N");
    reveal_strlit("Ctrl+S");
    reveal_strlit("↑↓ / PgUp/PgDn");
    reveal_strlit("?");
    reveal_strlit("Ctrl+C / Ctrl+Q");
    reveal_strlit("  ");
    let all = ui::help_lines();
    lemma_lines(r@, all);
    lemma_line(r@[0]@, all[0]);
    lemma_line(r@[8]@, all[8]);
    lemma_line(r@[9]@, all[9]);
    lemma_line(r@[10]@, all[10]);
    lemma_line(r@[11]@, all[11]);
    lemma_line(r@[12]@, all[12]);
    lemma_help_line(r@[1]@, "Enter"@, "Wyślij wiadomość"@);
    lemma_help_line(r@[2]@, "Shift+Enter"@, "Nowa linia"@);
    lemma_help_line(r@[3]@, "Ctrl+N"@, "Nowa rozmowa"@);
    lemma_help_line(r@[4]@, "Ctrl+S"@, "Ustawienia"@);
    lemma_help_line(r@[5]@, "↑↓ / PgUp/PgDn"@, "Przewijaj historię"@);
    lemma_help_line(r@[6]@, "?"@, "Ta pomoc"@);
    lemma_help_line(r@[7]@, "Ctrl+C / Ctrl+Q"@, "Wyjście"@);
}

proof fn lemma_help_line(l: Seq<Span>, key: Seq<char>, what: Seq<char>)
    requires
        ui::line(l) == ui::help_line(key, what),
        key.len() <= 18,
    ensures
        l.len() == 2,
        l[0].content@.len() == 20,
        l[1].content@ == what,
        text::has_prefix(l[0].content@.skip(2), key),
{
    lemma_line(l, ui::help_line(key, what));
    reveal_strlit("  ");
    reveal_strlit(" ");
    lemma_repeated_char(" "@, (18 - key.len()) as nat);
    let p = ui::padded(key, 18);
    assert(l[0].content@ == "  "@ + p);
    assert(l[0].content@.skip(2) =~= p);
    assert(p.take(key.len() as int) =~= key);
}

/// The chat is behind everything. The settings and the help have a window over it,
/// each on its own screen, and the chat alone has none.
pub proof fn law_draw(
    a: &mut App,
    areas: &Areas,
    millis: u64,
    s: Scene,
    settings: Vec<Vec<Span>>,
    help: Vec<Vec<Span>>,
    head: (Vec<Span>, Vec<Span>),
    bar: Vec<Span>,
    rule: String,
    input: Vec<Vec<Span>>,
    messages: Vec<Vec<Span>>,
    b: &mut App,
)
    requires
        old(a)@.on_boundary(),
        call_ensures(draw, (a, areas, millis), s),
        call_ensures(draw_settings_overlay, (&*old(a),), settings),
        call_ensures(draw_help_overlay, (), help),
        call_ensures(render_header, (&*old(a),), head),
        call_ensures(render_statusbar, (&*old(a),), bar),
        call_ensures(render_divider, (areas.divider_width,), rule),
        call_ensures(render_input, (&*old(a), millis), input),
        *old(b) == *old(a),
        call_ensures(render_messages, (b, areas.view_width, areas.view_height), messages),
    ensures
        ui::lines(s.chat.input@) == ui::lines(input@),
        ui::lines(s.chat.messages@) == ui::lines(messages@),
        final(a)@ == final(b)@,
        old(a).screen == Screen::Settings && areas.width >= 44 && areas.height >= 18
            ==> s.overlay->0.area.width == 44 && s.overlay->0.area.height == 18 && 0
            <= areas.width - 44 - 2 * s.overlay->0.area.x <= 1 && 0 <= areas.height - 18 - 2
            * s.overlay->0.area.y <= 1,
        old(a).screen == Screen::Help && areas.width >= 50 && areas.height >= 16
            ==> s.overlay->0.area.width == 50 && s.overlay->0.area.height == 16 && 0
            <= areas.width - 50 - 2 * s.overlay->0.area.x <= 1 && 0 <= areas.height - 16 - 2
            * s.overlay->0.area.y <= 1,
        s.overlay is None <==> old(a).screen == Screen::Chat,
        old(a).screen == Screen::Settings ==> s.overlay->0.title@ == " ⚙  Ustawienia "@
            && ui::lines(
            s.overlay->0.lines@,
        ) == ui::lines(settings@),
        old(a).screen == Screen::Help ==> s.overlay->0.title@ == " ⬡  HexAi – Pomoc "@ && ui::lines(
            s.overlay->0.lines@,
        ) == ui::lines(help@),
        s.overlay matches Some(o) ==> o.area.x + o.area.width <= areas.width && o.area.y
            + o.area.height <= areas.height,
        ui::line(s.chat.header_left@) == ui::line(head.0@),
        ui::line(s.chat.header_right@) == ui::line(head.1@),
        ui::line(s.chat.status@) == ui::line(bar@),
        s.chat.divider@ == rule@,
        final(a)@.messages == old(a)@.messages,
        final(a).input@ == old(a).input@,
        final(a).screen == old(a).screen,
        final(a).loading == old(a).loading,
{
}

/// No two colours are the same.
pub proof fn law_colours(p: Paint, q: Paint, x: Option<(u8, u8, u8)>, y: Option<(u8, u8, u8)>)
    requires
        call_ensures(Paint::rgb, (&p,), x),
        call_ensures(Paint::rgb, (&q,), y),
    ensures
        x == y ==> p == q,
        x is None <==> p == Paint::Black,
        x == (match p {
            Paint::Accent => Some((217u8, 119u8, 6u8)),
            Paint::AccentDim => Some((146u8, 64u8, 14u8)),
            Paint::Primary => Some((245u8, 240u8, 232u8)),
            Paint::Secondary => Some((168u8, 152u8, 128u8)),
            Paint::Muted => Some((107u8, 96u8, 87u8)),
            Paint::Amber => Some((245u8, 158u8, 11u8)),
            Paint::Surface => Some((33u8, 31u8, 28u8)),
            Paint::Elevated => Some((42u8, 40u8, 37u8)),
            Paint::Green => Some((74u8, 222u8, 128u8)),
            Paint::Red => Some((248u8, 113u8, 113u8)),
            Paint::Background => Some((26u8, 25u8, 22u8)),
            Paint::Badge => Some((45u8, 21u8, 0u8)),
            Paint::Rule => Some((45u8, 43u8, 40u8)),
            Paint::UserText => Some((254u8, 243u8, 199u8)),
            Paint::Marked => Some((49u8, 47u8, 43u8)),
            Paint::Black => None,
        }),
{
}

// ── What arrives ──

/// Bytes that are a text are a token of that text, and bytes that are none make no
/// event. The end and a failure are the last events, and a failure says why.
pub proof fn law_arrivals(
    a: Arrival,
    r: (Option<StreamEvent>, bool),
    chunk: Result<Vec<u8>, String>,
    e: Option<StreamEvent>,
    t: Seq<char>,
    path: &str,
    address: String,
)
    requires
        call_ensures(stream_step, (a,), r),
        call_ensures(stream_event, (chunk,), e),
        call_ensures(endpoint, (path,), address),
    ensures
        a matches Arrival::Chunk(b) ==> (b@ == encode_utf8(t) ==> (
        r.0 matches Some(StreamEvent::Token(u)) && u@ == t)),
        a matches Arrival::Chunk(b) ==> (!valid_utf8(b@) ==> r.0 is None),
        a is End ==> r.0 == Some(StreamEvent::Done),
        a matches Arrival::Failure(c) ==> r.0 == Some(StreamEvent::Error(c)),
        r.1 <==> !(a is Chunk),
        chunk matches Ok(b) ==> (b@ == encode_utf8(t) ==> (
        e matches Some(StreamEvent::Token(u)) && u@ == t)),
        chunk matches Err(c) ==> e == Some(StreamEvent::Error(c)),
        address@ == "http://localhost:8000"@ + path@,
{
    encode_utf8_decode_utf8(t);
    encode_utf8_valid_utf8(t);
}

/// The chat is the same whether it stands alone or behind a window.
pub proof fn law_chat_behind(
    a: &mut App,
    b: &mut App,
    areas: &Areas,
    millis: u64,
    s: Scene,
    c: ChatScene,
)
    requires
        old(a)@.on_boundary(),
        *old(b) == *old(a),
        call_ensures(draw, (a, areas, millis), s),
        call_ensures(draw_chat_bg, (b, areas, millis), c),
    ensures
        ui::line(c.header_left@) == ui::line(s.chat.header_left@),
        ui::line(c.header_right@) == ui::line(s.chat.header_right@),
        c.divider@ == s.chat.divider@,
        ui::lines(c.messages@) == ui::lines(s.chat.messages@),
        ui::lines(c.input@) == ui::lines(s.chat.input@),
        ui::line(c.status@) == ui::line(s.chat.status@),
        final(a)@ == final(b)@,
{
}

} // verus!
