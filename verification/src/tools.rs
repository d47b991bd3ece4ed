//! The tools that a reply can call, and the loop that feeds their results back
//! to the model.

use crate::engine;
use crate::outside;
use crate::outside::{
    eval_arithmetic, html_select, local_time, regex_captures, regex_replace_all, url_encode, Found,
    SNIPPET, TOOL_ARG, TOOL_CALL,
};
use crate::text;
use crate::text::{chars_of, concat2, concat3, join, same_text, trim};
use vstd::prelude::*;
use vstd::utf8::*;

verus! {

/// How often the model may call tools in one answer.
pub const MAX_ITERATIONS: usize = 4;

// ── Calls in a reply ──

/// A call of a tool: its name and its arguments as they were written. Where an
/// argument is written twice, the later one counts.
#[derive(Debug)]
pub struct ToolCall {
    pub name: String,
    pub args: Vec<(String, String)>,
}

impl View for ToolCall {
    type V = (Seq<char>, Seq<(Seq<char>, Seq<char>)>);

    open spec fn view(&self) -> (Seq<char>, Seq<(Seq<char>, Seq<char>)>) {
        (self.name@, engine::turns(self.args@))
    }
}

/// The calls of a list.
pub open spec fn call_views(c: Seq<ToolCall>) -> Seq<(Seq<char>, Seq<(Seq<char>, Seq<char>)>)> {
    c.map_values(|x: ToolCall| x@)
}

/// The text of a group of a match; nothing where the group took no part.
pub open spec fn group(m: (int, int, Seq<Option<Seq<char>>>), i: int) -> Seq<char> {
    if 0 <= i < m.2.len() && m.2[i] is Some {
        m.2[i]->0
    } else {
        Seq::empty()
    }
}

/// The arguments that matches of the argument pattern stand for.
pub open spec fn args_of(m: Seq<(int, int, Seq<Option<Seq<char>>>)>) -> Seq<
    (Seq<char>, Seq<char>),
> {
    m.map_values(|a: (int, int, Seq<Option<Seq<char>>>)| (group(a, 1), group(a, 2)))
}

/// The call that a match of the call pattern stands for.
pub open spec fn call_of(m: (int, int, Seq<Option<Seq<char>>>)) -> (
    Seq<char>,
    Seq<(Seq<char>, Seq<char>)>,
) {
    (group(m, 1), args_of(outside::regex_matches(TOOL_ARG@, group(m, 2))))
}

/// The calls in a reply, in order.
pub open spec fn calls_in(reply: Seq<char>) -> Seq<(Seq<char>, Seq<(Seq<char>, Seq<char>)>)> {
    outside::regex_matches(TOOL_CALL@, reply).map_values(
        |m: (int, int, Seq<Option<Seq<char>>>)| call_of(m),
    )
}

/// A text with `rep` in the place of each match of a pattern.
pub open spec fn replaced_text(pattern: Seq<char>, s: Seq<char>, rep: Seq<char>) -> Seq<char> {
    decode_utf8(
        outside::replaced(encode_utf8(s), outside::regex_matches(pattern, s), encode_utf8(rep)),
    )
}

/// A text in which a pattern has no match is not changed by replacing.
pub proof fn lemma_no_match_unchanged(pattern: Seq<char>, s: Seq<char>, rep: Seq<char>)
    requires
        outside::regex_matches(pattern, s).len() == 0,
    ensures
        replaced_text(pattern, s, rep) == s,
{
    let b = encode_utf8(s);
    assert(b.subrange(0, b.len() as int) =~= b);
    assert(outside::replaced(b, outside::regex_matches(pattern, s), encode_utf8(rep)) =~= b);
    encode_utf8_decode_utf8(s);
}

/// Replaces each match of a pattern.
pub(crate) fn replace_matches(pattern: &str, s: &str, rep: &str) -> (r: String)
    requires
        outside::is_pattern(pattern@),
        !rep@.contains('$'),
    ensures
        r@ == replaced_text(pattern@, s@, rep@),
{
    let r: String = regex_replace_all(pattern, s, rep);
    proof {
        encode_utf8_decode_utf8(r@);
    }
    r
}

/// A reply without calls is only trimmed when its calls are stripped.
pub proof fn lemma_strip_without_calls(reply: Seq<char>)
    requires
        calls_in(reply).len() == 0,
    ensures
        text::trimmed(replaced_text(TOOL_CALL@, reply, Seq::empty())) == text::trimmed(reply),
{
    lemma_no_match_unchanged(TOOL_CALL@, reply, Seq::empty());
}

fn group_text(f: &Found, i: usize) -> (r: String)
    ensures
        r@ == group(f@, i as int),
{
    if i < f.groups.len() {
        match &f.groups[i] {
            Some(t) => t.clone(),
            None => String::new(),
        }
    } else {
        String::new()
    }
}

/// The call that a match and the matches in its argument list stand for.
pub fn tool_call_from(call: &Found, args: &Vec<Found>) -> (r: ToolCall)
    ensures
        r@ == (group(call@, 1), args_of(outside::found_views(args@))),
{
    let mut list: Vec<(String, String)> = Vec::new();
    let mut i: usize = 0;
    let ghost all = args_of(outside::found_views(args@));
    while i < args.len()
        invariant
            all == args_of(outside::found_views(args@)),
            i <= args@.len(),
            list@.len() == i,
            forall|j: int| 0 <= j < i ==> ((#[trigger] list@[j]).0@, list@[j].1@) == all[j],
        decreases args@.len() - i,
    {
        list.push((group_text(&args[i], 1), group_text(&args[i], 2)));
        i = i + 1;
    }
    proof {
        assert(engine::turns(list@) =~= all);
    }
    ToolCall { name: group_text(call, 1), args: list }
}

/// The tool calls in a reply, in order.
pub fn parse_tool_calls(reply: &str) -> (r: Vec<ToolCall>)
    ensures
        call_views(r@) == calls_in(reply@),
{
    let found: Vec<Found> = regex_captures(TOOL_CALL, reply);
    let mut calls: Vec<ToolCall> = Vec::new();
    let mut i: usize = 0;
    let ghost ms = outside::regex_matches(TOOL_CALL@, reply@);
    while i < found.len()
        invariant
            ms == outside::found_views(found@),
            i <= found@.len(),
            calls@.len() == i,
            forall|j: int| 0 <= j < i ==> (#[trigger] calls@[j])@ == call_of(ms[j]),
        decreases found@.len() - i,
    {
        let list: String = group_text(&found[i], 2);
        let args: Vec<Found> = regex_captures(TOOL_ARG, list.as_str());
        calls.push(tool_call_from(&found[i], &args));
        i = i + 1;
    }
    proof {
        assert(call_views(calls@) =~= calls_in(reply@));
    }
    calls
}

/// The reply without its tool calls and without the space around what is left.
pub fn strip_tool_calls(reply: &str) -> (r: String)
    ensures
        r@ == text::trimmed(replaced_text(TOOL_CALL@, reply@, Seq::empty())),
{
    proof {
        reveal_strlit("");
        assert(""@ =~= Seq::<char>::empty());
    }
    let rest: String = replace_matches(TOOL_CALL, reply, "");
    trim(rest.as_str())
}

// ── Arguments ──

/// The value of the last argument with the given name.
pub open spec fn lookup(args: Seq<(Seq<char>, Seq<char>)>, name: Seq<char>) -> Option<Seq<char>>
    decreases args.len(),
{
    if args.len() == 0 {
        None
    } else if args.last().0 == name {
        Some(args.last().1)
    } else {
        lookup(args.drop_last(), name)
    }
}

/// The value of an argument, or else `default`.
pub open spec fn lookup_or(
    args: Seq<(Seq<char>, Seq<char>)>,
    name: Seq<char>,
    default: Seq<char>,
) -> Seq<char> {
    match lookup(args, name) {
        Some(v) => v,
        None => default,
    }
}

/// The value of the argument with the given name, where the call has one.
pub fn argument(args: &Vec<(String, String)>, name: &str) -> (r: Option<String>)
    ensures
        text::opt_view(r) == lookup(engine::turns(args@), name@),
{
    let mut i: usize = args.len();
    let ghost all = engine::turns(args@);
    proof {
        assert(all.take(all.len() as int) =~= all);
    }
    while i > 0
        invariant
            all == engine::turns(args@),
            i <= args@.len(),
            lookup(all.take(i as int), name@) == lookup(all, name@),
        decreases i,
    {
        i = i - 1;
        proof {
            assert(all.take(i + 1).drop_last() =~= all.take(i as int));
            assert(all.take(i + 1).last() == all[i as int]);
        }
        if same_text(args[i].0.as_str(), name) {
            return Some(args[i].1.clone());
        }
    }
    None
}

// ── Weather ──

/// The answer of the weather tool.
pub fn tool_weather(args: &Vec<(String, String)>) -> (r: String)
    ensures
        r@ == "Pogoda w "@ + lookup_or(engine::turns(args@), "city"@, "Warsaw"@)
            + ": słonecznie, 22°C, wilgotność 45%."@,
{
    let city: String = match argument(args, "city") {
        Some(c) => c,
        None => "Warsaw".to_owned(),
    };
    concat3("Pogoda w ", city.as_str(), ": słonecznie, 22°C, wilgotność 45%.")
}

// ── Arithmetic ──

/// The expression of a calculation.
pub open spec fn expression(args: Seq<(Seq<char>, Seq<char>)>) -> Seq<char> {
    match lookup(args, "expr"@) {
        Some(v) => v,
        None => lookup_or(args, "expression"@, Seq::empty()),
    }
}

/// The characters of a text that belong to plain arithmetic.
pub open spec fn arithmetic_part(s: Seq<char>) -> Seq<char> {
    s.filter(|c: char| outside::is_arithmetic(c))
}

/// What a calculation is answered, given what it comes to.
pub open spec fn calculated(expr: Seq<char>, value: Result<Seq<char>, Seq<char>>) -> Seq<char> {
    match value {
        Ok(v) => expr + " = "@ + v,
        Err(e) => "Błąd obliczenia: "@ + e,
    }
}

fn expression_of(args: &Vec<(String, String)>) -> (r: String)
    ensures
        r@ == expression(engine::turns(args@)),
{
    match argument(args, "expr") {
        Some(e) => e,
        None => match argument(args, "expression") {
            Some(e) => e,
            None => String::new(),
        },
    }
}

fn keep_arithmetic(s: &str) -> (r: String)
    ensures
        r@ == arithmetic_part(s@),
        forall|i: int| 0 <= i < r@.len() ==> outside::is_arithmetic(#[trigger] r@[i]),
{
    let cs: Vec<char> = chars_of(s);
    let mut out: String = String::new();
    let mut i: usize = 0;
    let ghost keep = |c: char| outside::is_arithmetic(c);
    proof {
        reveal(Seq::filter);
        assert(s@.take(0) =~= Seq::<char>::empty());
        assert(out@ =~= s@.take(0).filter(keep));
    }
    while i < cs.len()
        invariant
            cs@ == s@,
            i <= cs@.len(),
            keep == (|c: char| outside::is_arithmetic(c)),
            out@ == s@.take(i as int).filter(keep),
            forall|j: int| 0 <= j < out@.len() ==> outside::is_arithmetic(#[trigger] out@[j]),
        decreases cs@.len() - i,
    {
        let c: char = cs[i];
        proof {
            reveal(Seq::filter);
            assert(s@.take(i + 1).drop_last() =~= s@.take(i as int));
        }
        if ('0' <= c && c <= '9') || c == '.' || c == '+' || c == '-' || c == '*' || c == '/' || c
            == '(' || c == ')' || c == ' ' {
            out.push(c);
        }
        i = i + 1;
    }
    proof {
        assert(s@.take(s@.len() as int) =~= s@);
    }
    out
}

fn blank(s: &str) -> (r: bool)
    ensures
        r == outside::is_blank(s@),
{
    let cs: Vec<char> = chars_of(s);
    let mut i: usize = 0;
    while i < cs.len()
        invariant
            cs@ == s@,
            i <= cs@.len(),
            forall|j: int| 0 <= j < i ==> #[trigger] s@[j] == ' ',
        decreases cs@.len() - i,
    {
        if cs[i] != ' ' {
            return false;
        }
        i = i + 1;
    }
    cs.len() > 0
}

/// What a calculation is answered, given what it comes to.
pub fn calculation_answer(expr: &str, value: &Result<String, String>) -> (r: String)
    ensures
        r@ == calculated(expr@, outside::result_view(*value)),
{
    match value {
        Ok(v) => concat3(expr, " = ", v.as_str()),
        Err(e) => concat2("Błąd obliczenia: ", e.as_str()),
    }
}

/// The answer of the calculator. A calculation of nothing but spaces has none.
pub fn tool_calculate(args: &Vec<(String, String)>) -> (r: String)
    requires
        !outside::is_blank(arithmetic_part(expression(engine::turns(args@)))),
    ensures
        r@ == calculated(
            expression(engine::turns(args@)),
            outside::arithmetic_value(arithmetic_part(expression(engine::turns(args@)))),
        ),
{
    let expr: String = expression_of(args);
    let clean: String = keep_arithmetic(expr.as_str());
    let value: Result<String, String> = eval_arithmetic(clean.as_str());
    calculation_answer(expr.as_str(), &value)
}

// ── Date and time ──

/// What the question for the date is answered, given the clock's text.
pub fn datetime_answer(stamp: &str) -> (r: String)
    ensures
        r@ == "Aktualna data i czas: "@ + stamp@,
{
    concat2("Aktualna data i czas: ", stamp)
}

/// The answer of the date tool: a fixed text and the date, the time and the offset
/// of the call.
pub fn tool_datetime() -> (r: String)
    ensures
        exists|stamp: Seq<char>| #[trigger]
            outside::is_stamp(stamp) && r@ == "Aktualna data i czas: "@ + stamp,
{
    let stamp: String = local_time();
    datetime_answer(stamp.as_str())
}

// ── Web search ──

/// What a web search does next.
pub enum SearchStep {
    /// Ask Serper.
    AskSerper,
    /// Ask DuckDuckGo.
    AskDuckDuckGo,
    /// Answer with this text.
    Answer(String),
}

/// The first step: Serper where there is a key for it, DuckDuckGo otherwise.
pub fn search_web(serper_key: &Option<String>) -> (s: SearchStep)
    ensures
        serper_key is Some ==> s is AskSerper,
        serper_key is None ==> s is AskDuckDuckGo,
{
    match serper_key {
        Some(_) => SearchStep::AskSerper,
        None => SearchStep::AskDuckDuckGo,
    }
}

/// The step after Serper: its answer, or DuckDuckGo where it failed.
pub fn after_serper(answer: Option<String>) -> (s: SearchStep)
    ensures
        match answer {
            Some(a) => s == SearchStep::Answer(a),
            None => s is AskDuckDuckGo,
        },
{
    match answer {
        Some(a) => SearchStep::Answer(a),
        None => SearchStep::AskDuckDuckGo,
    }
}

/// The answer after DuckDuckGo: what it found, or why it failed.
pub fn after_duckduckgo(answer: Result<String, String>) -> (r: String)
    ensures
        r@ == (match answer {
            Ok(a) => a@,
            Err(e) => "Błąd wyszukiwania: "@ + e@,
        }),
{
    match answer {
        Ok(a) => a,
        Err(e) => concat2("Błąd wyszukiwania: ", e.as_str()),
    }
}

/// A result of Serper on a line of its own.
pub open spec fn serper_line(item: (Seq<char>, Seq<char>)) -> Seq<char> {
    "• "@ + item.0 + ": "@ + item.1
}

/// The titles and snippets that Serper found, one result a line.
pub fn serper_text(items: &Vec<(String, String)>) -> (r: String)
    ensures
        r@ == text::joined(
            engine::turns(items@).map_values(|t: (Seq<char>, Seq<char>)| serper_line(t)),
            "\n"@,
        ),
{
    let mut lines: Vec<String> = Vec::new();
    let mut i: usize = 0;
    let ghost all = engine::turns(items@).map_values(|t: (Seq<char>, Seq<char>)| serper_line(t));
    while i < items.len()
        invariant
            all == engine::turns(items@).map_values(|t: (Seq<char>, Seq<char>)| serper_line(t)),
            i <= items@.len(),
            lines@.len() == i,
            forall|j: int| 0 <= j < i ==> (#[trigger] lines@[j])@ == all[j],
        decreases items@.len() - i,
    {
        let mut line: String = concat3("• ", items[i].0.as_str(), ": ");
        line.append(items[i].1.as_str());
        lines.push(line);
        i = i + 1;
    }
    proof {
        assert(text::views(lines@) =~= all);
    }
    join(&lines, "\n")
}

/// The page that DuckDuckGo answers a query with.
pub fn duckduckgo_url(query: &str) -> (r: String)
    ensures
        r@ == "https://lite.duckduckgo.com/lite/?q="@ + outside::percent_encoded(
            encode_utf8(query@),
        ),
{
    let q: String = url_encode(query);
    concat2("https://lite.duckduckgo.com/lite/?q=", q.as_str())
}

/// The text of an element: its pieces one after the other, trimmed.
pub open spec fn element_text(pieces: Seq<Seq<char>>) -> Seq<char> {
    text::trimmed(text::joined(pieces, Seq::empty()))
}

/// The texts of the first five elements that have any.
pub open spec fn snippets(found: Seq<Seq<Seq<char>>>) -> Seq<Seq<char>> {
    engine::nonempty(
        found.take(if found.len() < 5 {
            found.len() as int
        } else {
            5
        }).map_values(|e: Seq<Seq<char>>| element_text(e)),
    )
}

/// What a search is answered, given the snippets on the page.
pub open spec fn search_text(query: Seq<char>, found: Seq<Seq<Seq<char>>>) -> Seq<char> {
    if snippets(found).len() == 0 {
        "Brak wyników dla: "@ + query
    } else {
        text::joined(snippets(found), "\n"@)
    }
}

/// What a search is answered, given the pieces of the snippets on the page.
pub fn search_answer(query: &str, found: &Vec<Vec<String>>) -> (r: String)
    ensures
        r@ == search_text(query@, outside::nested_views(found@)),
{
    let n: usize = if found.len() < 5 {
        found.len()
    } else {
        5
    };
    let mut texts: Vec<String> = Vec::new();
    let mut i: usize = 0;
    let ghost first = outside::nested_views(found@).take(n as int).map_values(
        |e: Seq<Seq<char>>| element_text(e),
    );
    proof {
        reveal_strlit("");
        assert(""@ =~= Seq::<char>::empty());
    }
    while i < n
        invariant
            n <= found@.len(),
            i <= n,
            first == outside::nested_views(found@).take(n as int).map_values(
                |e: Seq<Seq<char>>| element_text(e),
            ),
            ""@ == Seq::<char>::empty(),
            texts@.len() == i,
            forall|j: int| 0 <= j < i ==> (#[trigger] texts@[j])@ == first[j],
        decreases n - i,
    {
        let whole: String = join(&found[i], "");
        texts.push(trim(whole.as_str()));
        proof {
            assert(first[i as int] == element_text(text::views(found@[i as int]@)));
        }
        i = i + 1;
    }
    proof {
        assert(text::views(texts@) =~= first);
    }
    let kept: Vec<String> = engine::spoken_parts(&texts);
    proof {
        assert(text::views(kept@).len() == kept@.len());
    }
    if kept.len() == 0 {
        concat2("Brak wyników dla: ", query)
    } else {
        join(&kept, "\n")
    }
}

/// What a search is answered, given the page of results.
pub fn duckduckgo_text(query: &str, html: &str) -> (r: String)
    ensures
        r@ == search_text(query@, outside::selected_text(html@, SNIPPET@)),
{
    let found: Vec<Vec<String>> = html_select(html, SNIPPET);
    search_answer(query, &found)
}

// ── Dispatch ──

/// What a tool call comes to.
pub enum Dispatched {
    /// The answer of the tool.
    Answer(String),
    /// The web is to be searched for this.
    Search(String),
}

/// The call asks for the weather.
pub open spec fn is_weather(name: Seq<char>) -> bool {
    name == "get_weather"@ || name == "weather"@
}

/// The call asks for a web search.
pub open spec fn is_search(name: Seq<char>) -> bool {
    !is_weather(name) && (name == "search_web"@ || name == "search"@)
}

/// The call asks for a calculation.
pub open spec fn is_calculation(name: Seq<char>) -> bool {
    !is_weather(name) && !is_search(name) && (name == "calculate"@ || name == "calc"@)
}

/// The call asks for the date and the time.
pub open spec fn is_datetime(name: Seq<char>) -> bool {
    !is_weather(name) && !is_search(name) && !is_calculation(name) && (name == "datetime"@ || name
        == "now"@)
}

/// The call is a calculation of nothing but spaces, which has no answer.
pub open spec fn unanswerable(call: (Seq<char>, Seq<(Seq<char>, Seq<char>)>)) -> bool {
    is_calculation(call.0) && outside::is_blank(arithmetic_part(expression(call.1)))
}

/// Whether the call is a calculation of nothing but spaces.
pub fn has_no_answer(call: &ToolCall) -> (r: bool)
    ensures
        r == unanswerable(call@),
{
    let name: &str = call.name.as_str();
    if same_text(name, "get_weather") || same_text(name, "weather") || same_text(name, "search_web")
        || same_text(name, "search") {
        return false;
    }
    if !(same_text(name, "calculate") || same_text(name, "calc")) {
        return false;
    }
    let expr: String = expression_of(&call.args);
    let clean: String = keep_arithmetic(expr.as_str());
    blank(clean.as_str())
}

/// Carries a tool call out, as far as it needs nothing from the web.
pub fn dispatch(call: &ToolCall) -> (r: Dispatched)
    requires
        !unanswerable(call@),
    ensures
        is_weather(call@.0) ==> (r matches Dispatched::Answer(t) && t@ == "Pogoda w "@ + lookup_or(
            call@.1,
            "city"@,
            "Warsaw"@,
        ) + ": słonecznie, 22°C, wilgotność 45%."@),
        is_search(call@.0) ==> if lookup_or(call@.1, "query"@, Seq::empty()).len() == 0 {
            r matches Dispatched::Answer(t) && t@ == "Brak zapytania."@
        } else {
            r matches Dispatched::Search(q) && q@ == lookup_or(call@.1, "query"@, Seq::empty())
        },
        is_calculation(call@.0) ==> (r matches Dispatched::Answer(t) && t@ == calculated(
            expression(call@.1),
            outside::arithmetic_value(arithmetic_part(expression(call@.1))),
        )),
        is_datetime(call@.0) ==> (r matches Dispatched::Answer(t) && exists|stamp: Seq<char>|
             #[trigger] outside::is_stamp(stamp) && t@ == "Aktualna data i czas: "@ + stamp),
        !is_weather(call@.0) && !is_search(call@.0) && !is_calculation(call@.0) && !is_datetime(
            call@.0,
        ) ==> (r matches Dispatched::Answer(t) && t@ == "Nieznane narzędzie: '"@ + call@.0
            + "'. Dostępne: weather, search_web, calculate, datetime"@),
{
    let name: &str = call.name.as_str();
    if same_text(name, "get_weather") || same_text(name, "weather") {
        Dispatched::Answer(tool_weather(&call.args))
    } else if same_text(name, "search_web") || same_text(name, "search") {
        match argument(&call.args, "query") {
            Some(q) => if q.as_str().is_empty() {
                Dispatched::Answer("Brak zapytania.".to_owned())
            } else {
                Dispatched::Search(q)
            },
            None => Dispatched::Answer("Brak zapytania.".to_owned()),
        }
    } else if same_text(name, "calculate") || same_text(name, "calc") {
        Dispatched::Answer(tool_calculate(&call.args))
    } else if same_text(name, "datetime") || same_text(name, "now") {
        Dispatched::Answer(tool_datetime())
    } else {
        Dispatched::Answer(
            concat3(
                "Nieznane narzędzie: '",
                name,
                "'. Dostępne: weather, search_web, calculate, datetime",
            ),
        )
    }
}

// ── The loop ──

/// What the loop does with a reply of the model.
pub enum LoopStep {
    /// The reply is the answer.
    Finished,
    /// These tools are to be run.
    Run(Vec<ToolCall>),
}

/// The state of an answer that may call tools: the prompt and the conversation
/// for the next request to the model, and how often tools ran so far. An answer
/// is either streamed to the user as it comes or given whole at the end.
pub struct ToolLoop {
    pub prompt: String,
    pub history: Vec<(String, String)>,
    pub round: usize,
    pub streaming: bool,
}

/// What precedes the results of the tools in a prompt.
pub const RESULTS_HEAD: &'static str = "Wyniki narzędzi:\n";

/// What follows the results of the tools in a prompt for a whole answer.
pub const RESULTS_TAIL: &'static str =
    "\n\nProszę kontynuuj odpowiedź uwzględniając powyższe wyniki.";

/// What follows the results of the tools in a prompt for a streamed answer.
pub const STREAM_TAIL: &'static str = "\n\nProszę kontynuuj odpowiedź.";

/// What the user sees while tools run.
pub const RUNNING_TOOLS: &'static str = "\n\n🔧 Wykonuję narzędzia…\n";

/// The line that reports the result of a tool.
pub open spec fn report_text(name: Seq<char>, result: Seq<char>, streaming: bool) -> Seq<char> {
    let line = "["@ + name + "] → "@ + result;
    if streaming {
        line + "\n"@
    } else {
        line
    }
}

/// The prompt that gives the model the results of its tools.
pub open spec fn results_prompt(reports: Seq<Seq<char>>, streaming: bool) -> Seq<char> {
    if streaming {
        RESULTS_HEAD@ + text::joined(reports, Seq::empty()) + STREAM_TAIL@
    } else {
        RESULTS_HEAD@ + text::joined(reports, "\n"@) + RESULTS_TAIL@
    }
}

/// How many replies of the model an answer takes, from a round on, where
/// `replies` are the replies that the model would give one after the other.
pub open spec fn replies_taken(round: nat, streaming: bool, replies: Seq<Seq<char>>) -> nat
    decreases replies.len(),
{
    if replies.len() == 0 || (streaming && round >= MAX_ITERATIONS) {
        0
    } else if round >= MAX_ITERATIONS || calls_in(replies[0]).len() == 0 {
        1
    } else {
        1 + replies_taken(round + 1, streaming, replies.skip(1))
    }
}

/// Whatever the model replies, an answer comes to an end: after at most four
/// replies where it is streamed, and five where it is given whole.
pub proof fn lemma_loop_is_bounded(round: nat, streaming: bool, replies: Seq<Seq<char>>)
    requires
        round <= MAX_ITERATIONS,
    ensures
        replies_taken(round, streaming, replies) + round <= MAX_ITERATIONS + if streaming {
            0int
        } else {
            1int
        },
    decreases replies.len(),
{
    if replies.len() > 0 && round < MAX_ITERATIONS && calls_in(replies[0]).len() > 0 {
        lemma_loop_is_bounded(round + 1, streaming, replies.skip(1));
    }
}

impl ToolLoop {
    /// Tools have run at most as often as they may.
    pub open spec fn wf(self) -> bool {
        self.round <= MAX_ITERATIONS
    }

    /// The start of an answer.
    pub fn new(prompt: &str, history: &Vec<(String, String)>, streaming: bool) -> (l: Self)
        ensures
            l.wf(),
            l.prompt@ == prompt@,
            engine::turns(l.history@) == engine::turns(history@),
            l.round == 0,
            l.streaming == streaming,
    {
        let mut copy: Vec<(String, String)> = Vec::new();
        let mut i: usize = 0;
        while i < history.len()
            invariant
                i <= history@.len(),
                copy@.len() == i,
                forall|j: int|
                    0 <= j < i ==> (#[trigger] copy@[j]).0@ == history@[j].0@ && copy@[j].1@
                        == history@[j].1@,
            decreases history@.len() - i,
        {
            copy.push((history[i].0.clone(), history[i].1.clone()));
            i = i + 1;
        }
        proof {
            assert(engine::turns(copy@) =~= engine::turns(history@));
        }
        ToolLoop { prompt: prompt.to_owned(), history: copy, round: 0, streaming }
    }

    /// Whether the model is to be asked again: always for a whole answer, and
    /// as long as tools may run for a streamed one.
    pub fn asks(&self) -> (r: bool)
        ensures
            r == (!self.streaming || self.round < MAX_ITERATIONS),
    {
        !self.streaming || self.round < MAX_ITERATIONS
    }

    /// Takes a reply. It is the answer where it calls no tools, or where tools
    /// have run as often as they may.
    pub fn take_reply(&self, reply: &str) -> (s: LoopStep)
        requires
            self.wf(),
        ensures
            if self.round >= MAX_ITERATIONS || calls_in(reply@).len() == 0 {
                s is Finished
            } else {
                s matches LoopStep::Run(calls) && call_views(calls@) == calls_in(reply@)
            },
    {
        if self.round >= MAX_ITERATIONS {
            return LoopStep::Finished;
        }
        let calls: Vec<ToolCall> = parse_tool_calls(reply);
        proof {
            assert(call_views(calls@).len() == calls@.len());
        }
        if calls.len() == 0 {
            LoopStep::Finished
        } else {
            LoopStep::Run(calls)
        }
    }

    /// The line that reports the result of a tool.
    pub fn report(&self, name: &str, result: &str) -> (r: String)
        ensures
            r@ == report_text(name@, result@, self.streaming),
    {
        let mut line: String = concat3("[", name, "] → ");
        line.append(result);
        if self.streaming {
            line.append("\n");
        }
        line
    }

    /// Takes the reports of the tools that a reply called: the prompt and the
    /// reply without its calls join the conversation, and the reports become
    /// the next prompt.
    pub fn take_results(&mut self, reply: &str, reports: &Vec<String>)
        requires
            old(self).wf(),
            old(self).round < MAX_ITERATIONS,
        ensures
            final(self).wf(),
            final(self).round == old(self).round + 1,
            final(self).streaming == old(self).streaming,
            engine::turns(final(self).history@) == engine::turns(old(self).history@).push(
                (
                    old(self).prompt@,
                    text::trimmed(replaced_text(TOOL_CALL@, reply@, Seq::empty())),
                ),
            ),
            final(self).prompt@ == results_prompt(text::views(reports@), old(self).streaming),
    {
        let ghost before = self.history@;
        let clean: String = strip_tool_calls(reply);
        let asked: String = self.prompt.clone();
        self.history.push((asked, clean));
        proof {
            assert(engine::turns(self.history@) =~= engine::turns(before).push((asked@, clean@)));
            reveal_strlit("");
            assert(""@ =~= Seq::<char>::empty());
        }
        if self.streaming {
            let all: String = join(reports, "");
            self.prompt = concat3(RESULTS_HEAD, all.as_str(), STREAM_TAIL);
        } else {
            let all: String = join(reports, "\n");
            self.prompt = concat3(RESULTS_HEAD, all.as_str(), RESULTS_TAIL);
        }
        self.round = self.round + 1;
    }
}

/// What the user sees of a failure in a streamed answer.
pub fn failure_text(message: &str) -> (r: String)
    ensures
        r@ == "❌ "@ + message@,
{
    concat2("❌ ", message)
}

// ── A streamed answer ──

/// What happens while an answer is streamed.
pub enum AnswerEvent {
    /// The model says this much more.
    Token(String),
    /// The model could not be asked, or its reply broke off.
    Failure(String),
    /// The reply of the model is complete.
    End,
    /// The tool that was to be run gave this.
    Ran(String),
}

/// What happens while an answer is streamed, as values.
pub enum EventView {
    Token(Seq<char>),
    Failure(Seq<char>),
    End,
    Ran(Seq<char>),
}

impl View for AnswerEvent {
    type V = EventView;

    open spec fn view(&self) -> EventView {
        match *self {
            AnswerEvent::Token(t) => EventView::Token(t@),
            AnswerEvent::Failure(e) => EventView::Failure(e@),
            AnswerEvent::End => EventView::End,
            AnswerEvent::Ran(t) => EventView::Ran(t@),
        }
    }
}

/// What a streamed answer needs next.
#[derive(Clone, Copy, PartialEq, Eq, Structural, Debug)]
pub enum AnswerStep {
    /// More of the reply.
    Read,
    /// The result of the call in this place.
    Run(usize),
    /// Another reply of the model.
    Ask,
    /// Nothing: the answer is complete.
    Stop,
}

/// An answer that is streamed: the rounds so far, how much of the reply of this
/// round has come, the calls in it once it is complete, and the reports of those
/// that have run.
pub struct AnswerStream {
    pub rounds: ToolLoop,
    pub reply: String,
    pub calls: Vec<ToolCall>,
    pub reports: Vec<String>,
}

/// A streamed answer as values.
#[verifier::ext_equal]
pub struct AnswerView {
    pub round: int,
    pub prompt: Seq<char>,
    pub history: Seq<(Seq<char>, Seq<char>)>,
    pub reply: Seq<char>,
    pub calls: Seq<(Seq<char>, Seq<(Seq<char>, Seq<char>)>)>,
    pub reports: Seq<Seq<char>>,
}

impl View for AnswerStream {
    type V = AnswerView;

    open spec fn view(&self) -> AnswerView {
        AnswerView {
            round: self.rounds.round as int,
            prompt: self.rounds.prompt@,
            history: engine::turns(self.rounds.history@),
            reply: self.reply@,
            calls: call_views(self.calls@),
            reports: text::views(self.reports@),
        }
    }
}

impl AnswerView {
    /// Nothing of the reply of this round has come yet.
    pub open spec fn is_fresh(self) -> bool {
        &&& 0 <= self.round < MAX_ITERATIONS
        &&& self.reply.len() == 0
        &&& self.calls.len() == 0
        &&& self.reports.len() == 0
    }

    /// The answer waits for such an event: for the result of a call where calls
    /// are left to run, and for the reply of the model otherwise.
    pub open spec fn awaits(self, ev: EventView) -> bool {
        &&& 0 <= self.round < MAX_ITERATIONS
        &&& ev is Ran ==> self.reports.len() < self.calls.len()
        &&& ev is Token || ev is End ==> self.calls.len() == 0 && self.reports.len() == 0
    }

    /// With one more report; after the last one, at the start of the next round.
    pub open spec fn reported(self, report: Seq<char>) -> AnswerView {
        let reports = self.reports.push(report);
        if reports.len() < self.calls.len() {
            AnswerView { reports, ..self }
        } else {
            AnswerView {
                round: self.round + 1,
                prompt: results_prompt(reports, true),
                history: self.history.push(
                    (
                        self.prompt,
                        text::trimmed(replaced_text(TOOL_CALL@, self.reply, Seq::empty())),
                    ),
                ),
                reply: Seq::empty(),
                calls: Seq::empty(),
                reports: Seq::empty(),
            }
        }
    }

    /// The answer after an event, what is sent to the user, and what is needed
    /// next. A token is sent as it comes. A complete reply without calls ends the
    /// answer; one with calls makes a notice, and then each result a report. A
    /// failure is sent and ends the answer.
    pub open spec fn after(self, ev: EventView) -> (AnswerView, Option<Seq<char>>, AnswerStep) {
        match ev {
            EventView::Token(t) => (
                AnswerView { reply: self.reply + t, ..self },
                Some(t),
                AnswerStep::Read,
            ),
            EventView::Failure(e) => (self, Some("❌ "@ + e), AnswerStep::Stop),
            EventView::End => if calls_in(self.reply).len() == 0 {
                (self, None, AnswerStep::Stop)
            } else {
                (
                    AnswerView { calls: calls_in(self.reply), ..self },
                    Some(RUNNING_TOOLS@),
                    AnswerStep::Run(0),
                )
            },
            EventView::Ran(result) => {
                let n = self.reports.len() as int;
                let report = report_text(self.calls[n].0, result, true);
                (
                    self.reported(report),
                    Some(report),
                    if n + 1 < self.calls.len() {
                        AnswerStep::Run((n + 1) as usize)
                    } else if self.round + 1 < MAX_ITERATIONS {
                        AnswerStep::Ask
                    } else {
                        AnswerStep::Stop
                    },
                )
            },
        }
    }
}

impl AnswerStream {
    /// The rounds are those of a streamed answer.
    pub open spec fn wf(self) -> bool {
        self.rounds.wf() && self.rounds.streaming
    }

    /// The start of a streamed answer. The model is to be asked first.
    pub fn new(prompt: &str, history: &Vec<(String, String)>) -> (a: Self)
        ensures
            a.wf(),
            a@.is_fresh(),
            a@.round == 0,
            a@.prompt == prompt@,
            a@.history == engine::turns(history@),
    {
        AnswerStream {
            rounds: ToolLoop::new(prompt, history, true),
            reply: String::new(),
            calls: Vec::new(),
            reports: Vec::new(),
        }
    }

    /// Takes an event: what is to be sent to the user, and what is needed next.
    pub fn take(&mut self, ev: AnswerEvent) -> (r: (Option<String>, AnswerStep))
        requires
            old(self).wf(),
            old(self)@.awaits(ev@),
        ensures
            final(self).wf(),
            (final(self)@, text::opt_view(r.0), r.1) == old(self)@.after(ev@),
    {
        let ghost before = self@;
        match ev {
            AnswerEvent::Token(t) => {
                self.reply.append(t.as_str());
                (Some(t), AnswerStep::Read)
            },
            AnswerEvent::Failure(e) => (Some(failure_text(e.as_str())), AnswerStep::Stop),
            AnswerEvent::End => match self.rounds.take_reply(self.reply.as_str()) {
                LoopStep::Finished => (None, AnswerStep::Stop),
                LoopStep::Run(calls) => {
                    self.calls = calls;
                    (Some(RUNNING_TOOLS.to_owned()), AnswerStep::Run(0))
                },
            },
            AnswerEvent::Ran(result) => {
                let n: usize = self.reports.len();
                let total: usize = self.calls.len();
                proof {
                    assert(before.calls.len() == total);
                    assert(before.calls[n as int] == self.calls@[n as int]@);
                }
                let report: String = self.rounds.report(
                    self.calls[n].name.as_str(),
                    result.as_str(),
                );
                let ghost had = self.reports@;
                self.reports.push(report.clone());
                proof {
                    assert(text::views(self.reports@) =~= text::views(had).push(report@));
                }
                if n + 1 < total {
                    return (Some(report), AnswerStep::Run(n + 1));
                }
                self.rounds.take_results(self.reply.as_str(), &self.reports);
                self.reply = String::new();
                self.calls = Vec::new();
                self.reports = Vec::new();
                proof {
                    assert(self@.calls =~= before.reported(report@).calls);
                    assert(self@.reports =~= before.reported(report@).reports);
                    assert(self@.reply =~= before.reported(report@).reply);
                }
                if self.rounds.asks() {
                    (Some(report), AnswerStep::Ask)
                } else {
                    (Some(report), AnswerStep::Stop)
                }
            },
        }
    }
}

/// What is sent while these events happen one after the other, up to the end of
/// the answer.
pub open spec fn sent(v: AnswerView, events: Seq<EventView>) -> Seq<Seq<char>>
    decreases events.len(),
{
    if events.len() == 0 {
        Seq::empty()
    } else {
        let (w, text, next) = v.after(events[0]);
        let now = match text {
            Some(t) => seq![t],
            None => Seq::empty(),
        };
        if next == AnswerStep::Stop {
            now
        } else {
            now + sent(w, events.skip(1))
        }
    }
}

/// The reply that tokens make.
pub open spec fn spoken(tokens: Seq<Seq<char>>) -> Seq<char>
    decreases tokens.len(),
{
    if tokens.len() == 0 {
        Seq::empty()
    } else {
        tokens[0] + spoken(tokens.skip(1))
    }
}

/// The events of a reply that comes in these tokens.
pub open spec fn tokens_come(tokens: Seq<Seq<char>>) -> Seq<EventView> {
    tokens.map_values(|t: Seq<char>| EventView::Token(t))
}

/// The events of calls that give these results.
pub open spec fn tools_run(results: Seq<Seq<char>>) -> Seq<EventView> {
    results.map_values(|t: Seq<char>| EventView::Ran(t))
}

/// The reports of calls that give these results.
pub open spec fn all_reports(
    calls: Seq<(Seq<char>, Seq<(Seq<char>, Seq<char>)>)>,
    results: Seq<Seq<char>>,
) -> Seq<Seq<char>> {
    Seq::new(results.len(), |i: int| report_text(calls[i].0, results[i], true))
}

proof fn lemma_tokens_are_sent(v: AnswerView, tokens: Seq<Seq<char>>, rest: Seq<EventView>)
    ensures
        sent(v, tokens_come(tokens) + rest) == tokens + sent(
            AnswerView { reply: v.reply + spoken(tokens), ..v },
            rest,
        ),
    decreases tokens.len(),
{
    let events = tokens_come(tokens) + rest;
    if tokens.len() == 0 {
        assert(events =~= rest);
        assert(v.reply + spoken(tokens) =~= v.reply);
        assert(tokens + sent(v, rest) =~= sent(v, rest));
    } else {
        let w = AnswerView { reply: v.reply + tokens[0], ..v };
        assert(events[0] == EventView::Token(tokens[0]));
        assert(events.skip(1) =~= tokens_come(tokens.skip(1)) + rest);
        lemma_tokens_are_sent(w, tokens.skip(1), rest);
        assert(w.reply + spoken(tokens.skip(1)) =~= v.reply + spoken(tokens));
        let end = sent(AnswerView { reply: v.reply + spoken(tokens), ..v }, rest);
        assert(seq![tokens[0]] + (tokens.skip(1) + end) =~= tokens + end);
    }
}

proof fn lemma_reports_are_sent(v: AnswerView, results: Seq<Seq<char>>, from: int)
    requires
        0 <= from <= results.len() == v.calls.len(),
        v.reports.len() == from,
        from < results.len(),
    ensures
        sent(v, tools_run(results).skip(from)) == all_reports(v.calls, results).skip(from),
    decreases results.len() - from,
{
    let events = tools_run(results).skip(from);
    let reports = all_reports(v.calls, results);
    let w = v.after(events[0]).0;
    assert(events[0] == EventView::Ran(results[from]));
    assert(events.skip(1) =~= tools_run(results).skip(from + 1));
    if from + 1 < results.len() {
        lemma_reports_are_sent(w, results, from + 1);
    } else {
        assert(events.skip(1).len() == 0);
        assert(sent(w, events.skip(1)) =~= Seq::<Seq<char>>::empty());
    }
    assert(seq![reports[from]] + reports.skip(from + 1) =~= reports.skip(from));
    assert(sent(v, events) =~= seq![reports[from]] + reports.skip(from + 1));
}

/// What a round with calls sends: its tokens as they come, the notice, and one
/// report for each call, in order.
pub proof fn lemma_round_in_order(
    v: AnswerView,
    tokens: Seq<Seq<char>>,
    results: Seq<Seq<char>>,
)
    requires
        v.is_fresh(),
        0 < calls_in(spoken(tokens)).len() == results.len(),
        results.len() <= usize::MAX,
    ensures
        sent(v, tokens_come(tokens) + (seq![EventView::End] + tools_run(results))) == tokens + (seq![
            RUNNING_TOOLS@,
        ] + all_reports(calls_in(spoken(tokens)), results)),
{
    let rest = seq![EventView::End] + tools_run(results);
    lemma_tokens_are_sent(v, tokens, rest);
    let w = AnswerView { reply: v.reply + spoken(tokens), ..v };
    assert(w.reply =~= spoken(tokens));
    assert(rest.skip(1) =~= tools_run(results));
    assert(tools_run(results).skip(0) =~= tools_run(results));
    let x = w.after(EventView::End).0;
    lemma_reports_are_sent(x, results, 0);
    let reports = all_reports(calls_in(spoken(tokens)), results);
    assert(reports.skip(0) =~= reports);
    assert(sent(w, rest) =~= seq![RUNNING_TOOLS@] + reports);
}

/// A round without calls is the last: its tokens are sent and nothing more,
/// whatever might come.
pub proof fn lemma_round_without_calls_is_last(
    v: AnswerView,
    tokens: Seq<Seq<char>>,
    more: Seq<EventView>,
)
    requires
        v.is_fresh(),
        calls_in(spoken(tokens)).len() == 0,
    ensures
        sent(v, tokens_come(tokens) + (seq![EventView::End] + more)) == tokens,
{
    let rest = seq![EventView::End] + more;
    lemma_tokens_are_sent(v, tokens, rest);
    let w = AnswerView { reply: v.reply + spoken(tokens), ..v };
    assert(w.reply =~= spoken(tokens));
    assert(sent(w, rest) =~= Seq::<Seq<char>>::empty());
    assert(tokens + sent(w, rest) =~= tokens);
}

/// A failure, of the request or inside the reply, is the last that is sent,
/// behind the tokens that came before it and whatever might come after.
pub proof fn lemma_failure_is_last(
    v: AnswerView,
    tokens: Seq<Seq<char>>,
    failure: Seq<char>,
    more: Seq<EventView>,
)
    requires
        v.is_fresh(),
    ensures
        sent(v, tokens_come(tokens) + (seq![EventView::Failure(failure)] + more)) == tokens.push(
            "❌ "@ + failure,
        ),
{
    let rest = seq![EventView::Failure(failure)] + more;
    lemma_tokens_are_sent(v, tokens, rest);
    let w = AnswerView { reply: v.reply + spoken(tokens), ..v };
    assert(sent(w, rest) =~= seq!["❌ "@ + failure]);
    assert(tokens + sent(w, rest) =~= tokens.push("❌ "@ + failure));
}

/// The model is asked again only at the start of a later round, and no later than
/// for the fourth: an answer takes at most four replies.
pub proof fn lemma_four_replies_at_most(v: AnswerView, ev: EventView)
    requires
        v.awaits(ev),
    ensures
        v.after(ev).2 == AnswerStep::Ask ==> v.after(ev).0.is_fresh() && v.after(ev).0.round
            == v.round + 1,
        v.after(ev).2 != AnswerStep::Ask && v.after(ev).2 != AnswerStep::Stop ==> v.after(ev).0.round
            == v.round,
        v.after(ev).0.round <= MAX_ITERATIONS,
{
}

} // verus!
