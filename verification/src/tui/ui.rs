//! What the terminal interface shows.

use crate::engine;
use crate::outside;
use crate::outside::wrap_text;
use crate::text;
use crate::text::{chars_of, concat2, concat3, cut_at, number, same_text, string_of};
use crate::tui::api::Vram;
use crate::tui::app::{App, AppView, Message, Role, Screen, SCROLL_END};
use vstd::prelude::*;

verus! {

// ── Colours and styles ──

/// The colours of the interface.
#[derive(Clone, Copy, Debug, PartialEq, Eq, Structural)]
pub enum Paint {
    Accent,
    AccentDim,
    Primary,
    Secondary,
    Muted,
    Amber,
    Surface,
    Elevated,
    Green,
    Red,
    Background,
    Badge,
    Rule,
    UserText,
    Marked,
    /// The black of the terminal.
    Black,
}

impl Paint {
    /// The shares of red, green and blue, where the terminal is told of them.
    pub open spec fn shares(self) -> Option<(u8, u8, u8)> {
        match self {
            Paint::Accent => Some((217, 119, 6)),
            Paint::AccentDim => Some((146, 64, 14)),
            Paint::Primary => Some((245, 240, 232)),
            Paint::Secondary => Some((168, 152, 128)),
            Paint::Muted => Some((107, 96, 87)),
            Paint::Amber => Some((245, 158, 11)),
            Paint::Surface => Some((33, 31, 28)),
            Paint::Elevated => Some((42, 40, 37)),
            Paint::Green => Some((74, 222, 128)),
            Paint::Red => Some((248, 113, 113)),
            Paint::Background => Some((26, 25, 22)),
            Paint::Badge => Some((45, 21, 0)),
            Paint::Rule => Some((45, 43, 40)),
            Paint::UserText => Some((254, 243, 199)),
            Paint::Marked => Some((49, 47, 43)),
            Paint::Black => None,
        }
    }

    /// The shares of red, green and blue, where the terminal is told of them.
    pub fn rgb(&self) -> (c: Option<(u8, u8, u8)>)
        ensures
            c == self.shares(),
    {
        match self {
            Paint::Accent => Some((217, 119, 6)),
            Paint::AccentDim => Some((146, 64, 14)),
            Paint::Primary => Some((245, 240, 232)),
            Paint::Secondary => Some((168, 152, 128)),
            Paint::Muted => Some((107, 96, 87)),
            Paint::Amber => Some((245, 158, 11)),
            Paint::Surface => Some((33, 31, 28)),
            Paint::Elevated => Some((42, 40, 37)),
            Paint::Green => Some((74, 222, 128)),
            Paint::Red => Some((248, 113, 113)),
            Paint::Background => Some((26, 25, 22)),
            Paint::Badge => Some((45, 21, 0)),
            Paint::Rule => Some((45, 43, 40)),
            Paint::UserText => Some((254, 243, 199)),
            Paint::Marked => Some((49, 47, 43)),
            Paint::Black => None,
        }
    }
}

/// How a piece of text looks.
#[derive(Clone, Copy, Debug, PartialEq, Eq, Structural)]
pub struct Style {
    pub fg: Option<Paint>,
    pub bg: Option<Paint>,
    pub bold: bool,
}

/// As the terminal shows text by itself.
pub open spec fn raw() -> Style {
    Style { fg: None, bg: None, bold: false }
}

/// In a colour.
pub open spec fn in_color(p: Paint) -> Style {
    Style { fg: Some(p), bg: None, bold: false }
}

/// In a colour and bold.
pub open spec fn in_bold(p: Paint) -> Style {
    Style { fg: Some(p), bg: None, bold: true }
}

/// In a colour on a colour.
pub open spec fn in_color_on(p: Paint, q: Paint) -> Style {
    Style { fg: Some(p), bg: Some(q), bold: false }
}

/// A piece of text and how it looks.
pub struct Span {
    pub content: String,
    pub style: Style,
}

impl View for Span {
    type V = (Seq<char>, Style);

    open spec fn view(&self) -> (Seq<char>, Style) {
        (self.content@, self.style)
    }
}

/// The pieces of a line.
pub open spec fn line(l: Seq<Span>) -> Seq<(Seq<char>, Style)> {
    l.map_values(|s: Span| s@)
}

/// The pieces of each line.
pub open spec fn lines(l: Seq<Vec<Span>>) -> Seq<Seq<(Seq<char>, Style)>> {
    l.map_values(|x: Vec<Span>| line(x@))
}

fn add_span(l: &mut Vec<Span>, content: String, style: Style)
    ensures
        line(final(l)@) == line(old(l)@).push((content@, style)),
{
    let ghost before = l@;
    l.push(Span { content, style });
    proof {
        assert(line(l@) =~= line(before).push((content@, style)));
    }
}

fn plain(fg: Paint) -> (s: Style)
    ensures
        s == in_color(fg),
{
    Style { fg: Some(fg), bg: None, bold: false }
}

fn bold(fg: Paint) -> (s: Style)
    ensures
        s == in_bold(fg),
{
    Style { fg: Some(fg), bg: None, bold: true }
}

fn on(fg: Paint, bg: Paint) -> (s: Style)
    ensures
        s == in_color_on(fg, bg),
{
    Style { fg: Some(fg), bg: Some(bg), bold: false }
}

fn one_span(content: &str, style: Style) -> (r: Vec<Span>)
    ensures
        line(r@) == seq![(content@, style)],
{
    let mut r: Vec<Span> = Vec::new();
    add_span(&mut r, content.to_owned(), style);
    proof {
        assert(line(r@) =~= seq![(content@, style)]);
    }
    r
}

fn add_line(all: &mut Vec<Vec<Span>>, l: Vec<Span>)
    ensures
        lines(final(all)@) == lines(old(all)@).push(line(l@)),
{
    let ghost before = all@;
    all.push(l);
    proof {
        assert(lines(all@) =~= lines(before).push(line(l@)));
    }
}

/// A line with nothing on it.
pub open spec fn blank() -> Seq<(Seq<char>, Style)> {
    Seq::empty()
}

fn add_blank(all: &mut Vec<Vec<Span>>)
    ensures
        lines(final(all)@) == lines(old(all)@).push(blank()),
{
    let l: Vec<Span> = Vec::new();
    proof {
        assert(line(l@) =~= blank());
    }
    add_line(all, l);
}

/// A text, `n` times over.
pub open spec fn repeated(s: Seq<char>, n: nat) -> Seq<char>
    decreases n,
{
    if n == 0 {
        Seq::empty()
    } else {
        repeated(s, (n - 1) as nat) + s
    }
}

fn repeat(s: &str, n: usize) -> (r: String)
    ensures
        r@ == repeated(s@, n as nat),
{
    let mut out: String = String::new();
    let mut i: usize = 0;
    proof {
        assert(out@ =~= Seq::<char>::empty());
    }
    while i < n
        invariant
            i <= n,
            out@ == repeated(s@, i as nat),
        decreases n - i,
    {
        out.append(s);
        i = i + 1;
    }
    out
}

// ── Header ──

/// The service said that its model is loaded.
pub open spec fn model_ready(v: AppView) -> bool {
    v.stats is Some && v.stats->Some_0.model_loaded
}

/// The left side of the header.
pub open spec fn header_left() -> Seq<(Seq<char>, Style)> {
    seq![("⬡ HexAi"@, in_bold(Paint::Accent)), ("  v2.0.0"@, in_color(Paint::Muted))]
}

/// The right side of the header: the engine, the mode, and whether there is a
/// model.
pub open spec fn header_right(v: AppView) -> Seq<(Seq<char>, Style)> {
    let engine = if v.engine == "ollama"@ {
        "CPU"@
    } else {
        "GPU"@
    };
    let mode = if v.mode == "programista"@ {
        "Dev"@
    } else {
        "Ogólny"@
    };
    seq![
        (
            " "@ + engine + " "@,
            (Style { fg: Some(Paint::Accent), bg: Some(Paint::Badge), bold: true }),
        ),
        ("  "@, raw()),
        (mode, in_color(Paint::Secondary)),
        ("  "@, raw()),
        if model_ready(v) {
            ("● model"@, in_color(Paint::Green))
        } else {
            ("○ offline"@, in_color(Paint::Muted))
        },
    ]
}

/// The two sides of the header.
pub fn render_header(app: &App) -> (r: (Vec<Span>, Vec<Span>))
    ensures
        line(r.0@) == header_left(),
        line(r.1@) == header_right(app@),
{
    let mut left: Vec<Span> = Vec::new();
    add_span(&mut left, "⬡ HexAi".to_owned(), bold(Paint::Accent));
    add_span(&mut left, "  v2.0.0".to_owned(), plain(Paint::Muted));
    let engine: &str = if same_text(app.engine.as_str(), "ollama") {
        "CPU"
    } else {
        "GPU"
    };
    let mode: &str = if same_text(app.mode.as_str(), "programista") {
        "Dev"
    } else {
        "Ogólny"
    };
    let ready: bool = match &app.stats {
        Some(s) => s.model_loaded,
        None => false,
    };
    let raw_style = Style { fg: None, bg: None, bold: false };
    let mut right: Vec<Span> = Vec::new();
    add_span(
        &mut right,
        concat3(" ", engine, " "),
        Style { fg: Some(Paint::Accent), bg: Some(Paint::Badge), bold: true },
    );
    add_span(&mut right, "  ".to_owned(), raw_style);
    add_span(&mut right, mode.to_owned(), plain(Paint::Secondary));
    add_span(&mut right, "  ".to_owned(), raw_style);
    if ready {
        add_span(&mut right, "● model".to_owned(), plain(Paint::Green));
    } else {
        add_span(&mut right, "○ offline".to_owned(), plain(Paint::Muted));
    }
    proof {
        assert(line(left@) =~= header_left());
        assert(line(right@) =~= header_right(app@));
    }
    (left, right)
}

/// The rule below the header.
pub fn render_divider(width: u16) -> (r: String)
    ensures
        r@ == repeated("─"@, width as nat),
{
    repeat("─", width as usize)
}

// ── Messages ──

/// What is shown before anything was said.
pub open spec fn welcome() -> Seq<Seq<(Seq<char>, Style)>> {
    seq![
        blank(),
        seq![("        ⬡  HexAi"@, in_bold(Paint::Accent))],
        blank(),
        seq![("        Jak mogę Ci dziś pomóc?"@, in_bold(Paint::Primary))],
        blank(),
        seq![("        Wpisz wiadomość i naciśnij Enter."@, in_color(Paint::Muted))],
        seq![("        Użyj ? aby zobaczyć skróty klawiszowe."@, in_color(Paint::Muted))],
    ]
}

fn welcome_lines() -> (r: Vec<Vec<Span>>)
    ensures
        lines(r@) == welcome(),
{
    let mut r: Vec<Vec<Span>> = Vec::new();
    add_blank(&mut r);
    add_line(&mut r, one_span("        ⬡  HexAi", bold(Paint::Accent)));
    add_blank(&mut r);
    add_line(&mut r, one_span("        Jak mogę Ci dziś pomóc?", bold(Paint::Primary)));
    add_blank(&mut r);
    add_line(&mut r, one_span("        Wpisz wiadomość i naciśnij Enter.", plain(Paint::Muted)));
    add_line(
        &mut r,
        one_span("        Użyj ? aby zobaczyć skróty klawiszowe.", plain(Paint::Muted)),
    );
    proof {
        assert(lines(r@) =~= welcome());
    }
    r
}

/// A piece of plain text of the assistant.
pub open spec fn prose(s: Seq<char>) -> Seq<(Seq<char>, Style)> {
    if s.len() == 0 {
        Seq::empty()
    } else {
        seq![(s, in_color(Paint::Primary))]
    }
}

/// The pieces of a line of the assistant. What stands between two backticks is
/// code; a backtick without a second one stands for itself.
pub open spec fn ai_pieces(s: Seq<char>) -> Seq<(Seq<char>, Style)>
    decreases s.len(),
{
    let i = engine::first_index(s, '`') as int;
    if i >= s.len() {
        prose(s)
    } else {
        let rest = s.skip(i + 1);
        let j = engine::first_index(rest, '`') as int;
        if j >= rest.len() {
            prose(s.take(i)) + seq![("`"@, in_color(Paint::Primary))] + prose(rest)
        } else {
            prose(s.take(i)) + seq![(rest.take(j), in_bold(Paint::Amber))] + ai_pieces(
                rest.skip(j + 1),
            )
        }
    }
}

/// A line of the assistant.
pub open spec fn ai_line(s: Seq<char>) -> Seq<(Seq<char>, Style)> {
    seq![("  "@, raw())] + ai_pieces(s)
}

/// The texts of the pieces of a line, one after the other.
pub open spec fn shown(l: Seq<(Seq<char>, Style)>) -> Seq<char>
    decreases l.len(),
{
    if l.len() == 0 {
        Seq::empty()
    } else {
        shown(l.drop_last()) + l.last().0
    }
}

/// The characters of a text that are no backticks.
pub open spec fn without_backticks(s: Seq<char>) -> Seq<char> {
    s.filter(|c: char| c != '`')
}

proof fn lemma_shown_concat(a: Seq<(Seq<char>, Style)>, b: Seq<(Seq<char>, Style)>)
    ensures
        shown(a + b) == shown(a) + shown(b),
    decreases b.len(),
{
    if b.len() == 0 {
        assert(a + b =~= a);
        assert(shown(a) + shown(b) =~= shown(a));
    } else {
        lemma_shown_concat(a, b.drop_last());
        assert((a + b).drop_last() =~= a + b.drop_last());
        assert(shown(a) + shown(b) =~= shown(a) + shown(b.drop_last()) + b.last().0);
    }
}

proof fn lemma_shown_one(p: (Seq<char>, Style))
    ensures
        shown(seq![p]) == p.0,
{
    assert(seq![p].drop_last() =~= Seq::<(Seq<char>, Style)>::empty());
    assert(shown(seq![p].drop_last()) + p.0 =~= p.0);
}

proof fn lemma_shown_prose(s: Seq<char>)
    ensures
        shown(prose(s)) == s,
{
    if s.len() == 0 {
        assert(s =~= Seq::<char>::empty());
    } else {
        lemma_shown_one((s, in_color(Paint::Primary)));
    }
}

proof fn lemma_backtick_goes(a: Seq<char>, b: Seq<char>)
    ensures
        without_backticks(a + (seq!['`'] + b)) == without_backticks(a) + without_backticks(b),
{
    let keep = |c: char| c != '`';
    let tick = seq!['`'];
    Seq::filter_distributes_over_add(a, tick + b, keep);
    Seq::filter_distributes_over_add(tick, b, keep);
    assert(tick.drop_last() =~= Seq::<char>::empty());
    assert(tick.filter(keep) =~= Seq::<char>::empty()) by {
        reveal_with_fuel(Seq::filter, 2);
    }
    assert(tick.filter(keep) + b.filter(keep) =~= b.filter(keep));
}

/// Nothing of a line of the assistant is lost but backticks: the texts of its
/// pieces, put together, have the same other characters in the same order.
pub proof fn lemma_only_backticks_go(s: Seq<char>)
    ensures
        without_backticks(shown(ai_pieces(s))) == without_backticks(s),
    decreases s.len(),
{
    let keep = |c: char| c != '`';
    let i = engine::first_index(s, '`') as int;
    engine::lemma_first_index(s, '`');
    if i >= s.len() {
        lemma_shown_prose(s);
    } else {
        let rest = s.skip(i + 1);
        let tick = seq!['`'];
        let j = engine::first_index(rest, '`') as int;
        engine::lemma_first_index(rest, '`');
        lemma_shown_prose(s.take(i));
        assert(s =~= s.take(i) + (tick + rest));
        if j >= rest.len() {
            let mark = seq![("`"@, in_color(Paint::Primary))];
            reveal_strlit("`");
            assert("`"@ =~= tick);
            lemma_shown_one(("`"@, in_color(Paint::Primary)));
            lemma_shown_prose(rest);
            lemma_shown_concat(prose(s.take(i)) + mark, prose(rest));
            lemma_shown_concat(prose(s.take(i)), mark);
            assert(shown(ai_pieces(s)) =~= s);
        } else {
            let code = seq![(rest.take(j), in_bold(Paint::Amber))];
            let tail = rest.skip(j + 1);
            lemma_shown_one((rest.take(j), in_bold(Paint::Amber)));
            lemma_shown_concat(prose(s.take(i)) + code, ai_pieces(tail));
            lemma_shown_concat(prose(s.take(i)), code);
            lemma_only_backticks_go(tail);
            lemma_backtick_goes(s.take(i), rest);
            assert(rest =~= rest.take(j) + (tick + tail));
            lemma_backtick_goes(rest.take(j), tail);
            Seq::filter_distributes_over_add(
                s.take(i) + rest.take(j),
                shown(ai_pieces(tail)),
                keep,
            );
            Seq::filter_distributes_over_add(s.take(i), rest.take(j), keep);
            assert(without_backticks(s) =~= without_backticks(s.take(i)) + without_backticks(
                rest.take(j),
            ) + without_backticks(tail));
        }
    }
}

/// Adds plain text of the assistant, where there is any.
fn add_prose(l: &mut Vec<Span>, content: String)
    ensures
        line(final(l)@) == line(old(l)@) + prose(content@),
{
    let ghost before = line(l@);
    if !content.as_str().is_empty() {
        add_span(l, content, plain(Paint::Primary));
        proof {
            assert(line(l@) =~= before + prose(content@));
        }
    } else {
        proof {
            assert(line(l@) =~= before + prose(content@));
        }
    }
}

/// Where a character first stands in a text from `from` on, or the length.
fn find_char(cs: &Vec<char>, from: usize, c: char) -> (r: usize)
    requires
        from <= cs@.len(),
    ensures
        r == from + engine::first_index(cs@.skip(from as int), c),
        from <= r <= cs@.len(),
        r < cs@.len() ==> cs@[r as int] == c,
{
    let mut i: usize = from;
    while i < cs.len() && cs[i] != c
        invariant
            from <= i <= cs@.len(),
            forall|k: int| from <= k < i ==> cs@[k] != c,
        decreases cs@.len() - i,
    {
        i = i + 1;
    }
    proof {
        let rest = cs@.skip(from as int);
        assert forall|k: int| 0 <= k < i - from implies rest[k] != c by {
            assert(rest[k] == cs@[from + k]);
        }
        engine::lemma_first_index_is(rest, c, i - from);
    }
    i
}

/// The pieces of a line of the assistant, with the code set apart.
pub fn render_ai_line(s: &str) -> (r: Vec<Span>)
    ensures
        line(r@) == ai_line(s@),
{
    let cs: Vec<char> = chars_of(s);
    let n: usize = cs.len();
    let mut r: Vec<Span> = one_span("  ", Style { fg: None, bg: None, bold: false });
    let mut from: usize = 0;
    let ghost goal = ai_line(s@);
    proof {
        assert(s@.skip(0) =~= s@);
    }
    loop
        invariant
            cs@ == s@,
            n == cs@.len(),
            from <= n,
            goal == ai_line(s@),
            goal == line(r@) + ai_pieces(s@.skip(from as int)),
        decreases n - from,
    {
        let ghost here = s@.skip(from as int);
        let start: usize = find_char(&cs, from, '`');
        let ghost so_far = line(r@);
        let head: String = string_of(&cs, from, start);
        proof {
            assert(head@ =~= here.take(start - from));
        }
        add_prose(&mut r, head);
        if start == n {
            proof {
                assert(here.take(start - from) =~= here);
            }
            return r;
        }
        let end: usize = find_char(&cs, start + 1, '`');
        let piece: String = string_of(&cs, start + 1, end);
        proof {
            assert(here.skip(start - from + 1) =~= s@.skip(start + 1));
            assert(piece@ =~= s@.skip(start + 1).take(end - start - 1));
        }
        if end == n {
            add_span(&mut r, "`".to_owned(), plain(Paint::Primary));
            add_prose(&mut r, piece);
            proof {
                let rest = s@.skip(start + 1);
                assert(rest.take(end - start - 1) =~= rest);
                assert(line(r@) =~= so_far + (prose(here.take(start - from)) + seq![
                    ("`"@, in_color(Paint::Primary)),
                ] + prose(rest)));
            }
            return r;
        }
        add_span(&mut r, piece, bold(Paint::Amber));
        proof {
            let rest = s@.skip(start + 1);
            assert(rest.skip(end - start) =~= s@.skip(end + 1));
            assert(goal =~= line(r@) + ai_pieces(s@.skip(end + 1)));
        }
        from = end + 1;
    }
}

/// The line that says who speaks, and when.
pub open spec fn speaker_line(role: Role, ts: Seq<char>) -> Seq<(Seq<char>, Style)> {
    match role {
        Role::User => seq![
            ("  Ty"@, in_bold(Paint::Accent)),
            ("  "@ + ts, in_color(Paint::Muted)),
        ],
        Role::Assistant => seq![
            ("  HexAi"@, in_bold(Paint::Amber)),
            ("  "@ + ts, in_color(Paint::Muted)),
        ],
    }
}

/// A line of what is said.
pub open spec fn speech_line(role: Role, l: Seq<char>) -> Seq<(Seq<char>, Style)> {
    match role {
        Role::User => seq![("  "@ + l, in_color(Paint::UserText))],
        Role::Assistant => ai_line(l),
    }
}

/// The lines of what is said.
pub open spec fn speech(role: Role, broken: Seq<Seq<char>>) -> Seq<Seq<(Seq<char>, Style)>> {
    broken.map_values(|l: Seq<char>| speech_line(role, l))
}

/// The lines of a message: who speaks, what is said, and a blank line.
pub open spec fn message_lines(m: (Role, Seq<char>, Seq<char>), width: nat) -> Seq<
    Seq<(Seq<char>, Style)>,
> {
    seq![speaker_line(m.0, m.2)] + speech(m.0, outside::wrapped_lines(m.1, width)) + seq![blank()]
}

/// The lines of all messages.
pub open spec fn all_message_lines(m: Seq<(Role, Seq<char>, Seq<char>)>, width: nat) -> Seq<
    Seq<(Seq<char>, Style)>,
>
    decreases m.len(),
{
    if m.len() == 0 {
        Seq::empty()
    } else {
        all_message_lines(m.drop_last(), width) + message_lines(m.last(), width)
    }
}

/// What is shown while nothing of a reply has arrived.
pub open spec fn thinking() -> Seq<Seq<(Seq<char>, Style)>> {
    seq![
        seq![("  HexAi"@, in_bold(Paint::Amber))],
        seq![("  ⣾ myślę…"@, in_color(Paint::Accent))],
        blank(),
    ]
}

/// The width of the text in an area.
pub open spec fn text_width(width: u16) -> nat {
    if width < 8 {
        0
    } else {
        (width - 8) as nat
    }
}

/// The lines of the conversation.
pub open spec fn conversation_lines(v: AppView, width: u16) -> Seq<Seq<(Seq<char>, Style)>> {
    if v.messages.len() == 0 {
        welcome()
    } else {
        all_message_lines(v.messages, text_width(width)) + if v.loading && v.stream_buf.len() == 0 {
            thinking()
        } else {
            Seq::empty()
        }
    }
}

/// The scroll position that is shown: never beyond the end.
pub open spec fn clamped_scroll(scroll: u16, total: int, visible: u16) -> u16 {
    let count = total % 65536;
    let max = if count < visible {
        0u16
    } else {
        (count - visible) as u16
    };
    if scroll == SCROLL_END || scroll > max {
        max
    } else {
        scroll
    }
}

/// The lines of what a message says, given how it is broken into lines.
pub fn speech_lines(role: Role, broken: &Vec<String>) -> (r: Vec<Vec<Span>>)
    ensures
        lines(r@) == speech(role, text::views(broken@)),
{
    let ghost all = text::views(broken@);
    let mut r: Vec<Vec<Span>> = Vec::new();
    let mut i: usize = 0;
    while i < broken.len()
        invariant
            all == text::views(broken@),
            i <= broken@.len(),
            lines(r@) == speech(role, all.take(i as int)),
        decreases broken@.len() - i,
    {
        let l: Vec<Span> = match role {
            Role::User => {
                let t: String = concat2("  ", broken[i].as_str());
                one_span(t.as_str(), plain(Paint::UserText))
            },
            Role::Assistant => render_ai_line(broken[i].as_str()),
        };
        add_line(&mut r, l);
        proof {
            assert(line(l@) == speech_line(role, all[i as int]));
            assert(lines(r@) =~= speech(role, all.take(i + 1)));
        }
        i = i + 1;
    }
    proof {
        assert(all.take(all.len() as int) =~= all);
    }
    r
}

fn add_message_lines(all: &mut Vec<Vec<Span>>, m: &Message, width: usize)
    requires
        width <= 65535,
    ensures
        lines(final(all)@) == lines(old(all)@) + message_lines(m@, width as nat),
{
    let ghost before = lines(all@);
    let stamp: String = concat2("  ", m.ts.as_str());
    let mut head: Vec<Span> = Vec::new();
    match m.role {
        Role::User => {
            add_span(&mut head, "  Ty".to_owned(), bold(Paint::Accent));
        },
        Role::Assistant => {
            add_span(&mut head, "  HexAi".to_owned(), bold(Paint::Amber));
        },
    }
    add_span(&mut head, stamp, plain(Paint::Muted));
    proof {
        assert(line(head@) =~= speaker_line(m.role, m.ts@));
    }
    add_line(all, head);
    let broken: Vec<String> = wrap_text(m.content.as_str(), width);
    let mut body: Vec<Vec<Span>> = speech_lines(m.role, &broken);
    let ghost a = all@;
    let ghost bs = body@;
    all.append(&mut body);
    proof {
        assert(all@ == a + bs);
        assert(lines(all@) =~= lines(a) + lines(bs));
    }
    add_blank(all);
    proof {
        assert(lines(all@) =~= before + message_lines(m@, width as nat));
    }
}

/// The lines of the conversation, and the scroll position, which goes no further
/// than the end.
pub fn render_messages(app: &mut App, width: u16, height: u16) -> (r: Vec<Vec<Span>>)
    ensures
        lines(r@) == conversation_lines(old(app)@, width),
        final(app)@ == (AppView {
            scroll: if old(app)@.messages.len() == 0 {
                old(app)@.scroll
            } else {
                clamped_scroll(
                    old(app)@.scroll,
                    conversation_lines(old(app)@, width).len() as int,
                    height,
                )
            },
            ..old(app)@
        }),
{
    if app.messages.len() == 0 {
        return welcome_lines();
    }
    let wrap_width: usize = if width < 8 {
        0
    } else {
        (width - 8) as usize
    };
    let ghost v = app@;
    let mut r: Vec<Vec<Span>> = Vec::new();
    let mut i: usize = 0;
    proof {
        assert(v.messages.take(0) =~= Seq::<(Role, Seq<char>, Seq<char>)>::empty());
        assert(lines(r@) =~= Seq::<Seq<(Seq<char>, Style)>>::empty());
    }
    while i < app.messages.len()
        invariant
            v == app@,
            wrap_width == text_width(width),
            wrap_width <= 65535,
            i <= v.messages.len(),
            lines(r@) == all_message_lines(v.messages.take(i as int), wrap_width as nat),
        decreases v.messages.len() - i,
    {
        proof {
            assert(v.messages.take(i + 1).drop_last() =~= v.messages.take(i as int));
            assert(v.messages.take(i + 1).last() == app.messages@[i as int]@);
        }
        add_message_lines(&mut r, &app.messages[i], wrap_width);
        i = i + 1;
    }
    proof {
        assert(v.messages.take(v.messages.len() as int) =~= v.messages);
    }
    let ghost spoken = lines(r@);
    if app.loading && app.stream_buf.as_str().is_empty() {
        add_line(&mut r, one_span("  HexAi", bold(Paint::Amber)));
        add_line(&mut r, one_span("  ⣾ myślę…", plain(Paint::Accent)));
        add_blank(&mut r);
        proof {
            assert(lines(r@) =~= spoken + thinking());
        }
    } else {
        proof {
            assert(spoken + Seq::<Seq<(Seq<char>, Style)>>::empty() =~= spoken);
        }
    }
    proof {
        assert(lines(r@).len() == r@.len());
    }
    let total: u16 = (r.len() % 65536) as u16;
    let max_scroll: u16 = if total < height {
        0
    } else {
        total - height
    };
    if app.scroll_offset == SCROLL_END || app.scroll_offset > max_scroll {
        app.scroll_offset = max_scroll;
    }
    r
}

/// What is shown of the scroll position does not change when it is shown again,
/// and the last line is never scrolled out of sight.
pub proof fn lemma_scroll_settles(scroll: u16, total: int, visible: u16)
    requires
        0 <= total < 65536,
    ensures
        clamped_scroll(clamped_scroll(scroll, total, visible), total, visible) == clamped_scroll(
            scroll,
            total,
            visible,
        ),
        clamped_scroll(scroll, total, visible) + visible <= total || clamped_scroll(
            scroll,
            total,
            visible,
        ) == 0,
{
}

// ── Input ──

/// The frame of the spinner at a time.
pub open spec fn spinner(millis: int) -> Seq<char> {
    let i = (millis / 120) % 8;
    if i == 0 {
        "⣾"@
    } else if i == 1 {
        "⣽"@
    } else if i == 2 {
        "⣻"@
    } else if i == 3 {
        "⢿"@
    } else if i == 4 {
        "⡿"@
    } else if i == 5 {
        "⣟"@
    } else if i == 6 {
        "⣯"@
    } else {
        "⣷"@
    }
}

fn spinner_frame(millis: u64) -> (r: &'static str)
    ensures
        r@ == spinner(millis as int),
{
    let i: u64 = (millis / 120) % 8;
    if i == 0 {
        "⣾"
    } else if i == 1 {
        "⣽"
    } else if i == 2 {
        "⣻"
    } else if i == 3 {
        "⢿"
    } else if i == 4 {
        "⡿"
    } else if i == 5 {
        "⣟"
    } else if i == 6 {
        "⣯"
    } else {
        "⣷"
    }
}

/// What is said below the input while nothing is going on.
pub const INPUT_HINT: &'static str =
    " Enter wyślij · Shift+Enter nowa linia · Ctrl+N nowa · ? pomoc";

/// The input with the cursor in it: what stands before it, the character under
/// it, and what stands behind that.
pub open spec fn input_line(v: AppView) -> Seq<(Seq<char>, Style)> {
    let after = v.after();
    seq![
        (v.before(), in_color(Paint::Primary)),
        (
            if after.len() == 0 {
                " "@
            } else {
                after.take(1)
            },
            in_color_on(Paint::Black, Paint::Accent),
        ),
        (
            if after.len() == 0 {
                after
            } else {
                after.skip(1)
            },
            in_color(Paint::Primary),
        ),
    ]
}

/// What is said below the input.
pub open spec fn input_hint(v: AppView, millis: int) -> Seq<char> {
    if v.loading {
        " "@ + spinner(millis) + " Generowanie…"@
    } else {
        INPUT_HINT@
    }
}

/// The lines of the input.
pub fn render_input(app: &App, millis: u64) -> (r: Vec<Vec<Span>>)
    requires
        app@.on_boundary(),
    ensures
        lines(r@) == seq![
            input_line(app@),
            seq![(input_hint(app@, millis as int), in_color(Paint::Muted))],
        ],
{
    let (before, after) = cut_at(app.input.as_str(), app.input_cursor);
    let cs: Vec<char> = chars_of(after.as_str());
    let n: usize = cs.len();
    let mut l: Vec<Span> = Vec::new();
    add_span(&mut l, before, plain(Paint::Primary));
    if n == 0 {
        add_span(&mut l, " ".to_owned(), on(Paint::Black, Paint::Accent));
        add_span(&mut l, after, plain(Paint::Primary));
    } else {
        let under: String = string_of(&cs, 0, 1);
        let rest: String = string_of(&cs, 1, n);
        proof {
            assert(under@ =~= after@.take(1));
            assert(rest@ =~= after@.skip(1));
        }
        add_span(&mut l, under, on(Paint::Black, Paint::Accent));
        add_span(&mut l, rest, plain(Paint::Primary));
    }
    proof {
        assert(line(l@) =~= input_line(app@));
    }
    let hint: String = if app.loading {
        concat3(" ", spinner_frame(millis), " Generowanie…")
    } else {
        INPUT_HINT.to_owned()
    };
    let mut r: Vec<Vec<Span>> = Vec::new();
    add_line(&mut r, l);
    add_line(&mut r, one_span(hint.as_str(), plain(Paint::Muted)));
    proof {
        assert(lines(r@) =~= seq![
            input_line(app@),
            seq![(input_hint(app@, millis as int), in_color(Paint::Muted))],
        ]);
    }
    r
}

/// The input is shown as it was typed: the pieces before, under and behind the
/// cursor make it up, with a space where the cursor stands at the end.
pub proof fn lemma_input_shown_whole(v: AppView)
    requires
        v.on_boundary(),
    ensures
        shown(input_line(v)) == if v.after().len() == 0 {
            v.input + " "@
        } else {
            v.input
        },
{
    text::lemma_head_and_tail(v.input, v.cursor);
    let l = input_line(v);
    let one = seq![l[0]];
    let two = seq![l[0], l[1]];
    lemma_shown_one(l[0]);
    assert(two.drop_last() =~= one);
    assert(shown(two) == l[0].0 + l[1].0);
    assert(l.drop_last() =~= two);
    assert(shown(l) == l[0].0 + l[1].0 + l[2].0);
    if v.after().len() == 0 {
        assert(l[0].0 + l[1].0 + l[2].0 =~= v.input + " "@);
    } else {
        assert(v.after().take(1) + v.after().skip(1) =~= v.after());
        assert(l[0].0 + l[1].0 + l[2].0 =~= v.input);
    }
}

// ── Status bar ──

/// A key and what it does.
pub open spec fn key_hint(key: Seq<char>, what: Seq<char>) -> Seq<(Seq<char>, Style)> {
    seq![
        (" "@ + key + " "@, in_color_on(Paint::Secondary, Paint::Elevated)),
        (" "@ + what + "  "@, in_color_on(Paint::Muted, Paint::Surface)),
    ]
}

/// The keys that the status bar tells of.
pub open spec fn key_hints() -> Seq<(Seq<char>, Style)> {
    key_hint("Ctrl+N"@, "Nowa"@) + key_hint("Ctrl+S"@, "Ustawienia"@) + key_hint("?"@, "Pomoc"@)
        + key_hint("Ctrl+C"@, "Wyjście"@)
}

/// The end of the status bar: the status, or else the state of the service.
pub open spec fn status_piece(v: AppView) -> Seq<(Seq<char>, Style)> {
    match v.status {
        Some(s) => seq![
            (
                " "@ + s.0 + " "@,
                in_color(
                    if s.1 {
                        Paint::Red
                    } else {
                        Paint::Accent
                    },
                ),
            ),
        ],
        None => if v.stats is Some && v.stats->Some_0.vram is Some {
            let s = v.stats->Some_0;
            seq![
                (
                    " VRAM "@ + text::decimal(s.vram->Some_0.percent as nat) + "% · "@
                        + text::decimal(s.active_sessions as nat) + " sesji "@,
                    in_color(Paint::Muted),
                ),
            ]
        } else {
            Seq::empty()
        },
    }
}

fn add_key_hint(l: &mut Vec<Span>, key: &str, what: &str)
    ensures
        line(final(l)@) == line(old(l)@) + key_hint(key@, what@),
{
    let ghost before = line(l@);
    add_span(l, concat3(" ", key, " "), on(Paint::Secondary, Paint::Elevated));
    add_span(l, concat3(" ", what, "  "), on(Paint::Muted, Paint::Surface));
    proof {
        assert(line(l@) =~= before + key_hint(key@, what@));
    }
}

/// The pieces of the status bar.
pub fn render_statusbar(app: &App) -> (r: Vec<Span>)
    ensures
        line(r@) == key_hints() + status_piece(app@),
{
    let mut l: Vec<Span> = Vec::new();
    add_key_hint(&mut l, "Ctrl+N", "Nowa");
    add_key_hint(&mut l, "Ctrl+S", "Ustawienia");
    add_key_hint(&mut l, "?", "Pomoc");
    add_key_hint(&mut l, "Ctrl+C", "Wyjście");
    proof {
        assert(line(l@) =~= key_hints());
    }
    match &app.status_msg {
        Some(s) => {
            let paint: Paint = if s.1 {
                Paint::Red
            } else {
                Paint::Accent
            };
            add_span(&mut l, concat3(" ", s.0.as_str(), " "), plain(paint));
        },
        None => {
            if let Some(st) = &app.stats {
                if let Some(v) = &st.vram {
                    let pct: String = number(v.percent);
                    let sessions: String = number(st.active_sessions as u64);
                    let head: String = concat3(" VRAM ", pct.as_str(), "% · ");
                    let t: String = concat3(head.as_str(), sessions.as_str(), " sesji ");
                    add_span(&mut l, t, plain(Paint::Muted));
                }
            }
        },
    }
    proof {
        assert(line(l@) =~= key_hints() + status_piece(app@));
    }
    l
}

// ── Overlays ──

/// A window in the middle of an area, as far as it fits.
#[derive(Clone, Copy, Debug, PartialEq, Eq, Structural)]
pub struct Modal {
    pub x: u16,
    pub y: u16,
    pub width: u16,
    pub height: u16,
}

/// The start of a window of length `len` in the middle of `whole`.
pub open spec fn centered(whole: u16, len: u16) -> int {
    if whole < len {
        0
    } else {
        (whole - len) / 2
    }
}

/// The lesser of two lengths.
pub open spec fn lesser(a: u16, b: u16) -> u16 {
    if a < b {
        a
    } else {
        b
    }
}

/// A window in the middle of an area, as far as it fits.
pub fn modal(width: u16, height: u16, w: u16, h: u16) -> (m: Modal)
    ensures
        m.x == centered(width, w),
        m.y == centered(height, h),
        m.width == lesser(w, width),
        m.height == lesser(h, height),
{
    Modal {
        x: if width < w {
            0
        } else {
            (width - w) / 2
        },
        y: if height < h {
            0
        } else {
            (height - h) / 2
        },
        width: if w < width {
            w
        } else {
            width
        },
        height: if h < height {
            h
        } else {
            height
        },
    }
}

/// A window never reaches out of its area.
pub proof fn lemma_modal_fits(whole: u16, len: u16)
    ensures
        centered(whole, len) + lesser(len, whole) <= whole,
{
}

/// A choice in the settings.
pub open spec fn choice_line(label: Seq<char>, current: bool, marked: bool) -> Seq<
    (Seq<char>, Style),
> {
    seq![
        (
            (if current {
                "  ● "@
            } else {
                "  ○ "@
            }) + label,
            if current {
                in_bold(Paint::Accent)
            } else if marked {
                in_color_on(Paint::Primary, Paint::Marked)
            } else {
                in_color(Paint::Secondary)
            },
        ),
    ]
}

fn choice(label: &str, current: bool, marked: bool) -> (r: Vec<Span>)
    ensures
        line(r@) == choice_line(label@, current, marked),
{
    let prefix: &str = if current {
        "  ● "
    } else {
        "  ○ "
    };
    let style: Style = if current {
        bold(Paint::Accent)
    } else if marked {
        on(Paint::Primary, Paint::Marked)
    } else {
        plain(Paint::Secondary)
    };
    let t: String = concat2(prefix, label);
    one_span(t.as_str(), style)
}

/// The length of the bar that shows how much memory is in use.
pub const BAR_LENGTH: usize = 20;

/// How much of the bar is filled.
pub open spec fn filled(percent: int) -> nat {
    if percent >= 100 {
        BAR_LENGTH as nat
    } else {
        (percent * BAR_LENGTH / 100) as nat
    }
}

/// The percentage as it is shown beside the bar.
pub open spec fn shown_percent(v: Vram) -> int {
    if v.percent > 65535 {
        65535
    } else {
        v.percent as int
    }
}

/// The lines on the memory of the graphics card.
pub open spec fn vram_lines(v: Vram) -> Seq<Seq<(Seq<char>, Style)>> {
    let pct = shown_percent(v);
    let paint = if pct > 80 {
        Paint::Red
    } else if pct > 60 {
        Paint::Accent
    } else {
        Paint::Green
    };
    seq![
        blank(),
        seq![("  VRAM"@, in_color(Paint::Muted))],
        seq![
            (
                "  "@ + repeated("█"@, filled(pct)) + repeated(
                    "░"@,
                    (BAR_LENGTH - filled(pct)) as nat,
                ),
                in_color(paint),
            ),
            (
                " "@ + text::decimal(pct as nat) + "% ("@ + v.used@ + "/"@ + v.total@ + "GB)"@,
                in_color(Paint::Muted),
            ),
        ],
    ]
}

/// The last line of the settings.
pub const SETTINGS_HINT: &'static str = "  ↑↓/jk Nawiguj · Enter Wybierz · Esc Zamknij";

/// The lines of the settings.
pub open spec fn settings_lines(v: AppView) -> Seq<Seq<(Seq<char>, Style)>> {
    seq![
        blank(),
        seq![("SILNIK"@, in_color(Paint::Muted))],
        choice_line(
            "⚡ Transformers (GPU)"@,
            v.engine == "transformers"@,
            v.settings_cursor == 0,
        ),
        choice_line("🖥  Ollama (CPU)"@, v.engine == "ollama"@, v.settings_cursor == 1),
        seq![("TRYB"@, in_color(Paint::Muted))],
        choice_line("💬 Ogólny"@, v.mode == "general"@, v.settings_cursor == 2),
        choice_line(
            "💻 Programista (Dev)"@,
            v.mode == "programista"@,
            v.settings_cursor == 3,
        ),
    ] + (if v.stats is Some && v.stats->Some_0.vram is Some {
        vram_lines(v.stats->Some_0.vram->Some_0)
    } else {
        Seq::empty()
    }) + seq![blank(), seq![(SETTINGS_HINT@, in_color(Paint::Muted))]]
}

fn add_vram_lines(all: &mut Vec<Vec<Span>>, v: &Vram)
    ensures
        lines(final(all)@) == lines(old(all)@) + vram_lines(*v),
{
    let ghost before = lines(all@);
    let pct: u64 = if v.percent > 65535 {
        65535
    } else {
        v.percent
    };
    add_blank(all);
    add_line(all, one_span("  VRAM", plain(Paint::Muted)));
    let full: usize = if pct >= 100 {
        BAR_LENGTH
    } else {
        (pct as usize) * BAR_LENGTH / 100
    };
    let paint: Paint = if pct > 80 {
        Paint::Red
    } else if pct > 60 {
        Paint::Accent
    } else {
        Paint::Green
    };
    let done: String = repeat("█", full);
    let left: String = repeat("░", BAR_LENGTH - full);
    let n: String = number(pct);
    let mut l: Vec<Span> = Vec::new();
    add_span(&mut l, concat3("  ", done.as_str(), left.as_str()), plain(paint));
    let head: String = concat3(" ", n.as_str(), "% (");
    let used: String = concat3(head.as_str(), v.used.as_str(), "/");
    add_span(&mut l, concat3(used.as_str(), v.total.as_str(), "GB)"), plain(Paint::Muted));
    proof {
        assert(line(l@) =~= vram_lines(*v)[2]);
    }
    add_line(all, l);
    proof {
        assert(lines(all@) =~= before + vram_lines(*v));
    }
}

/// The lines of the settings.
pub fn draw_settings_overlay(app: &App) -> (r: Vec<Vec<Span>>)
    ensures
        lines(r@) == settings_lines(app@),
{
    let mut r: Vec<Vec<Span>> = Vec::new();
    add_blank(&mut r);
    add_line(&mut r, one_span("SILNIK", plain(Paint::Muted)));
    add_line(
        &mut r,
        choice(
            "⚡ Transformers (GPU)",
            same_text(app.engine.as_str(), "transformers"),
            app.settings_cursor == 0,
        ),
    );
    add_line(
        &mut r,
        choice(
            "🖥  Ollama (CPU)",
            same_text(app.engine.as_str(), "ollama"),
            app.settings_cursor == 1,
        ),
    );
    add_line(&mut r, one_span("TRYB", plain(Paint::Muted)));
    add_line(
        &mut r,
        choice(
            "💬 Ogólny",
            same_text(app.mode.as_str(), "general"),
            app.settings_cursor == 2,
        ),
    );
    add_line(
        &mut r,
        choice(
            "💻 Programista (Dev)",
            same_text(app.mode.as_str(), "programista"),
            app.settings_cursor == 3,
        ),
    );
    if let Some(s) = &app.stats {
        if let Some(v) = &s.vram {
            add_vram_lines(&mut r, v);
        }
    }
    add_blank(&mut r);
    add_line(&mut r, one_span(SETTINGS_HINT, plain(Paint::Muted)));
    proof {
        assert(lines(r@) =~= settings_lines(app@));
    }
    r
}

/// A text with spaces behind it that make it at least `n` characters long.
pub open spec fn padded(s: Seq<char>, n: nat) -> Seq<char> {
    if s.len() >= n {
        s
    } else {
        s + repeated(" "@, (n - s.len()) as nat)
    }
}

/// A key and what it does, in the help.
pub open spec fn help_line(key: Seq<char>, what: Seq<char>) -> Seq<(Seq<char>, Style)> {
    seq![("  "@ + padded(key, 18), in_bold(Paint::Accent)), (what, in_color(Paint::Primary))]
}

/// The lines of the help.
pub open spec fn help_lines() -> Seq<Seq<(Seq<char>, Style)>> {
    seq![
        blank(),
        help_line("Enter"@, "Wyślij wiadomość"@),
        help_line("Shift+Enter"@, "Nowa linia"@),
        help_line("Ctrl+N"@, "Nowa rozmowa"@),
        help_line("Ctrl+S"@, "Ustawienia"@),
        help_line("↑↓ / PgUp/PgDn"@, "Przewijaj historię"@),
        help_line("?"@, "Ta pomoc"@),
        help_line("Ctrl+C / Ctrl+Q"@, "Wyjście"@),
        blank(),
        seq![("  API: http://localhost:8000"@, in_color(Paint::Muted))],
        seq![("  HexAi for HackerOS · GPL-3.0"@, in_color(Paint::Muted))],
        blank(),
        seq![("  Naciśnij dowolny klawisz aby zamknąć"@, in_color(Paint::Muted))],
    ]
}

fn add_help_line(all: &mut Vec<Vec<Span>>, key: &str, what: &str)
    ensures
        lines(final(all)@) == lines(old(all)@).push(help_line(key@, what@)),
{
    let cs: Vec<char> = chars_of(key);
    let n: usize = cs.len();
    let shown_key: String = if n >= 18 {
        key.to_owned()
    } else {
        let spaces: String = repeat(" ", 18 - n);
        concat2(key, spaces.as_str())
    };
    let mut l: Vec<Span> = Vec::new();
    add_span(&mut l, concat2("  ", shown_key.as_str()), bold(Paint::Accent));
    add_span(&mut l, what.to_owned(), plain(Paint::Primary));
    proof {
        assert(line(l@) =~= help_line(key@, what@));
    }
    add_line(all, l);
}

/// The lines of the help.
pub fn draw_help_overlay() -> (r: Vec<Vec<Span>>)
    ensures
        lines(r@) == help_lines(),
{
    let mut r: Vec<Vec<Span>> = Vec::new();
    add_blank(&mut r);
    add_help_line(&mut r, "Enter", "Wyślij wiadomość");
    add_help_line(&mut r, "Shift+Enter", "Nowa linia");
    add_help_line(&mut r, "Ctrl+N", "Nowa rozmowa");
    add_help_line(&mut r, "Ctrl+S", "Ustawienia");
    add_help_line(&mut r, "↑↓ / PgUp/PgDn", "Przewijaj historię");
    add_help_line(&mut r, "?", "Ta pomoc");
    add_help_line(&mut r, "Ctrl+C / Ctrl+Q", "Wyjście");
    add_blank(&mut r);
    add_line(&mut r, one_span("  API: http://localhost:8000", plain(Paint::Muted)));
    add_line(&mut r, one_span("  HexAi for HackerOS · GPL-3.0", plain(Paint::Muted)));
    add_blank(&mut r);
    add_line(&mut r, one_span("  Naciśnij dowolny klawisz aby zamknąć", plain(Paint::Muted)));
    proof {
        assert(lines(r@) =~= help_lines());
    }
    r
}

// ── The whole screen ──

/// The chat, which is behind every overlay.
pub struct ChatScene {
    pub header_left: Vec<Span>,
    pub header_right: Vec<Span>,
    pub divider: String,
    pub messages: Vec<Vec<Span>>,
    pub input: Vec<Vec<Span>>,
    pub status: Vec<Span>,
}

/// A window over the chat.
pub struct Overlay {
    pub title: String,
    pub area: Modal,
    pub lines: Vec<Vec<Span>>,
}

/// What is on the screen.
pub struct Scene {
    pub chat: ChatScene,
    pub overlay: Option<Overlay>,
}

/// The areas of the screen, as far as what is shown depends on them.
pub struct Areas {
    pub width: u16,
    pub height: u16,
    pub divider_width: u16,
    pub view_width: u16,
    pub view_height: u16,
}

/// The title of the settings.
pub const SETTINGS_TITLE: &'static str = " ⚙  Ustawienia ";

/// The title of the help.
pub const HELP_TITLE: &'static str = " ⬡  HexAi – Pomoc ";

/// The scene is the chat in this state.
pub open spec fn shows_chat(c: ChatScene, v: AppView, areas: Areas, millis: int) -> bool {
    &&& line(c.header_left@) == header_left()
    &&& line(c.header_right@) == header_right(v)
    &&& c.divider@ == repeated("─"@, areas.divider_width as nat)
    &&& lines(c.messages@) == conversation_lines(v, areas.view_width)
    &&& lines(c.input@) == seq![
        input_line(v),
        seq![(input_hint(v, millis), in_color(Paint::Muted))],
    ]
    &&& line(c.status@) == key_hints() + status_piece(v)
}

/// The state after it was shown: the scroll position goes no further than the
/// end of the conversation.
pub open spec fn after_draw(v: AppView, areas: Areas) -> AppView {
    AppView {
        scroll: if v.messages.len() == 0 {
            v.scroll
        } else {
            clamped_scroll(
                v.scroll,
                conversation_lines(v, areas.view_width).len() as int,
                areas.view_height,
            )
        },
        ..v
    }
}

/// The chat in its state.
pub fn draw_chat_bg(app: &mut App, areas: &Areas, millis: u64) -> (c: ChatScene)
    requires
        old(app)@.on_boundary(),
    ensures
        shows_chat(c, old(app)@, *areas, millis as int),
        final(app)@ == after_draw(old(app)@, *areas),
{
    let (header_left, header_right) = render_header(app);
    let divider: String = render_divider(areas.divider_width);
    let messages: Vec<Vec<Span>> = render_messages(app, areas.view_width, areas.view_height);
    let input: Vec<Vec<Span>> = render_input(app, millis);
    let status: Vec<Span> = render_statusbar(app);
    ChatScene { header_left, header_right, divider, messages, input, status }
}

/// What is on the screen: the chat, and the settings or the help over it.
pub fn draw(app: &mut App, areas: &Areas, millis: u64) -> (s: Scene)
    requires
        old(app)@.on_boundary(),
    ensures
        shows_chat(s.chat, old(app)@, *areas, millis as int),
        final(app)@ == after_draw(old(app)@, *areas),
        match old(app)@.screen {
            Screen::Chat => s.overlay is None,
            Screen::Settings => s.overlay matches Some(o) && o.title@ == SETTINGS_TITLE@ && lines(
                o.lines@,
            ) == settings_lines(old(app)@) && o.area.x == centered(areas.width, 44) && o.area.y
                == centered(areas.height, 18) && o.area.width == lesser(44, areas.width)
                && o.area.height == lesser(18, areas.height),
            Screen::Help => s.overlay matches Some(o) && o.title@ == HELP_TITLE@ && lines(o.lines@)
                == help_lines() && o.area.x == centered(areas.width, 50) && o.area.y == centered(
                areas.height,
                16,
            ) && o.area.width == lesser(50, areas.width) && o.area.height == lesser(
                16,
                areas.height,
            ),
        },
{
    let chat: ChatScene = draw_chat_bg(app, areas, millis);
    let overlay: Option<Overlay> = match app.screen {
        Screen::Chat => None,
        Screen::Settings => Some(
            Overlay {
                title: SETTINGS_TITLE.to_owned(),
                area: modal(areas.width, areas.height, 44, 18),
                lines: draw_settings_overlay(app),
            },
        ),
        Screen::Help => Some(
            Overlay {
                title: HELP_TITLE.to_owned(),
                area: modal(areas.width, areas.height, 50, 16),
                lines: draw_help_overlay(),
            },
        ),
    };
    Scene { chat, overlay }
}

} // verus!
