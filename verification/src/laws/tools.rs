//! Laws of the tools.

use crate::engine;
use crate::laws;
use crate::outside;
use crate::text;
use crate::tools;
use crate::tools::{
    after_duckduckgo, after_serper, argument, calculation_answer, datetime_answer, dispatch,
    duckduckgo_text, duckduckgo_url, failure_text, has_no_answer, parse_tool_calls, search_answer,
    search_web, serper_text, strip_tool_calls, tool_calculate, tool_call_from, tool_datetime,
    tool_weather, AnswerEvent, AnswerStep, AnswerStream, Dispatched, LoopStep, SearchStep, ToolCall,
    ToolLoop,
};
use crate::outside::{Found, TOOL_ARG, TOOL_CALL};
use vstd::prelude::*;
use vstd::utf8::*;

verus! {

// ── Arithmetic ──

/// What stands on paper in arithmetic: a digit, the decimal point, an operator, a
/// parenthesis or a space.
pub open spec fn written_in_arithmetic(c: char) -> bool {
    "0123456789.+-*/() "@.contains(c)
}

/// What is evaluated is read off character by character: each one of arithmetic
/// comes through in its place, and no other does.
pub proof fn law_arithmetic_comes_through(a: Seq<char>, c: char, b: Seq<char>)
    ensures
        tools::arithmetic_part(a + b) == tools::arithmetic_part(a) + tools::arithmetic_part(b),
        written_in_arithmetic(c) ==> tools::arithmetic_part(seq![c]) == seq![c],
        !written_in_arithmetic(c) ==> tools::arithmetic_part(seq![c]) == Seq::<char>::empty(),
{
    lemma_arithmetic_additive(a, b);
    lemma_arithmetic_set(c);
    reveal(Seq::filter);
    let s = seq![c];
    assert(s.drop_last() =~= Seq::<char>::empty());
    assert(tools::arithmetic_part(s.drop_last()) =~= Seq::<char>::empty());
    assert(Seq::<char>::empty().push(c) =~= s);
}

proof fn lemma_arithmetic_set(c: char)
    ensures
        written_in_arithmetic(c) <==> outside::is_arithmetic(c),
{
    let all = "0123456789.+-*/() "@;
    reveal_strlit("0123456789.+-*/() ");
    if outside::is_arithmetic(c) {
        assert(all[0] == '0' && all[1] == '1' && all[2] == '2' && all[3] == '3' && all[4] == '4'
            && all[5] == '5' && all[6] == '6' && all[7] == '7' && all[8] == '8' && all[9] == '9');
        assert(all[10] == '.' && all[11] == '+' && all[12] == '-' && all[13] == '*' && all[14]
            == '/' && all[15] == '(' && all[16] == ')' && all[17] == ' ');
    }
}

proof fn lemma_arithmetic_additive(a: Seq<char>, b: Seq<char>)
    ensures
        tools::arithmetic_part(a + b) == tools::arithmetic_part(a) + tools::arithmetic_part(b),
    decreases b.len(),
{
    reveal(Seq::filter);
    if b.len() == 0 {
        assert(a + b =~= a);
        assert(tools::arithmetic_part(a) + tools::arithmetic_part(b) =~= tools::arithmetic_part(a));
    } else {
        lemma_arithmetic_additive(a, b.drop_last());
        assert((a + b).drop_last() =~= a + b.drop_last());
        assert((a + b).last() == b.last());
        assert(tools::arithmetic_part(a + b) =~= tools::arithmetic_part(a)
            + tools::arithmetic_part(b));
    }
}

/// An expression in nothing but arithmetic is evaluated exactly as written.
pub proof fn law_plain_arithmetic_as_written(e: Seq<char>)
    requires
        forall|i: int| 0 <= i < e.len() ==> written_in_arithmetic(#[trigger] e[i]),
    ensures
        tools::arithmetic_part(e) == e,
    decreases e.len(),
{
    reveal(Seq::filter);
    if e.len() > 0 {
        let d = e.drop_last();
        assert forall|i: int| 0 <= i < d.len() implies written_in_arithmetic(#[trigger] d[i]) by {
            assert(d[i] == e[i]);
        }
        law_plain_arithmetic_as_written(d);
        lemma_arithmetic_set(e[e.len() - 1]);
        assert(e[e.len() - 1] == e.last());
        assert(d.push(e.last()) =~= e);
    } else {
        assert(tools::arithmetic_part(e) =~= e);
    }
}

/// A plain expression is answered with itself, an equals sign and its value, or
/// with what is wrong with it. It is the argument `expr`, and the argument
/// `expression` where there is no `expr`.
pub proof fn law_calculation(
    args: &Vec<(String, String)>,
    expr: Option<String>,
    expression: Option<String>,
    r: String,
    e: Seq<char>,
)
    requires
        call_ensures(tool_calculate, (args,), r),
        call_ensures(argument, (args, "expr"), expr),
        call_ensures(argument, (args, "expression"), expression),
        match expr {
            Some(x) => e == x@,
            None => match expression {
                Some(x) => e == x@,
                None => e == Seq::<char>::empty(),
            },
        },
    ensures
        (forall|i: int| 0 <= i < e.len() ==> written_in_arithmetic(#[trigger] e[i])) ==> (
        match outside::arithmetic_value(e) {
            Ok(v) => r@ == e + " = "@ + v,
            Err(m) => r@ == "Błąd obliczenia: "@ + m,
        }),
        match outside::arithmetic_value(tools::arithmetic_part(e)) {
            Ok(v) => r@ == e + " = "@ + v,
            Err(m) => r@ == "Błąd obliczenia: "@ + m,
        },
{
    if forall|i: int| 0 <= i < e.len() ==> written_in_arithmetic(#[trigger] e[i]) {
        law_plain_arithmetic_as_written(e);
    }
}

// ── Arguments ──

/// The value of an argument is the one that was written last under its name.
/// There is none exactly where the name does not occur.
pub proof fn law_argument(args: &Vec<(String, String)>, name: &str, r: Option<String>, i: int)
    requires
        call_ensures(argument, (args, name), r),
    ensures
        0 <= i < args@.len() && args@[i].0@ == name@ && (forall|j: int|
            i < j < args@.len() ==> (#[trigger] args@[j]).0@ != name@) ==> (r matches Some(v) && v@
            == args@[i].1@),
        r is None <==> forall|j: int| 0 <= j < args@.len() ==> (#[trigger] args@[j]).0@ != name@,
{
    let t = engine::turns(args@);
    lemma_lookup(t, name@, i);
    assert forall|j: int| 0 <= j < args@.len() implies (#[trigger] args@[j]).0@ == t[j].0
        && args@[j].1@ == t[j].1 by {}
    if forall|j: int| 0 <= j < args@.len() ==> (#[trigger] args@[j]).0@ != name@ {
        assert forall|j: int| 0 <= j < t.len() implies (#[trigger] t[j]).0 != name@ by {
            assert(args@[j].0@ == t[j].0);
        }
    }
    if forall|j: int| 0 <= j < t.len() ==> (#[trigger] t[j]).0 != name@ {
        assert forall|j: int| 0 <= j < args@.len() implies (#[trigger] args@[j]).0@ != name@ by {
            assert(args@[j].0@ == t[j].0);
        }
    }
    if 0 <= i < args@.len() && args@[i].0@ == name@ && (forall|j: int|
        i < j < args@.len() ==> (#[trigger] args@[j]).0@ != name@) {
        assert forall|j: int| i < j < t.len() implies (#[trigger] t[j]).0 != name@ by {
            assert(args@[j].0@ == t[j].0);
        }
    }
}

proof fn lemma_lookup(t: Seq<(Seq<char>, Seq<char>)>, name: Seq<char>, i: int)
    ensures
        0 <= i < t.len() && t[i].0 == name && (forall|j: int|
            i < j < t.len() ==> (#[trigger] t[j]).0 != name) ==> tools::lookup(t, name) == Some(
            t[i].1,
        ),
        tools::lookup(t, name) is None <==> forall|j: int|
            0 <= j < t.len() ==> (#[trigger] t[j]).0 != name,
    decreases t.len(),
{
    if t.len() > 0 {
        let d = t.drop_last();
        let last = t.len() - 1;
        assert(t[last] == t.last());
        if t.last().0 != name {
            lemma_lookup(d, name, i);
            assert forall|j: int| 0 <= j < d.len() implies #[trigger] d[j] == t[j] by {}
            if forall|j: int| 0 <= j < d.len() ==> (#[trigger] d[j]).0 != name {
                assert forall|j: int| 0 <= j < t.len() implies (#[trigger] t[j]).0 != name by {
                    if j < d.len() {
                        assert(d[j] == t[j]);
                    }
                }
            }
            if 0 <= i < t.len() && t[i].0 == name && (forall|j: int|
                i < j < t.len() ==> (#[trigger] t[j]).0 != name) {
                assert(i < d.len());
            }
        } else {
            if 0 <= i < last {
                assert(t[last].0 == name);
            }
        }
    }
}

/// The weather is told for the city of the call, and for Warsaw without one.
pub proof fn law_weather(args: &Vec<(String, String)>, city: Option<String>, r: String)
    requires
        call_ensures(tool_weather, (args,), r),
        call_ensures(argument, (args, "city"), city),
    ensures
        city matches Some(c) ==> r@ == "Pogoda w "@ + c@ + ": słonecznie, 22°C, wilgotność 45%."@,
        city is None ==> r@ == "Pogoda w Warsaw: słonecznie, 22°C, wilgotność 45%."@,
{
    reveal_strlit("Pogoda w ");
    reveal_strlit("Warsaw");
    reveal_strlit(": słonecznie, 22°C, wilgotność 45%.");
    reveal_strlit("Pogoda w Warsaw: słonecznie, 22°C, wilgotność 45%.");
    if city is None {
        assert(r@ =~= "Pogoda w Warsaw: słonecznie, 22°C, wilgotność 45%."@);
    }
}

// ── Which tool answers ──

proof fn lemma_tool_names()
    ensures
        "get_weather"@ != "search_web"@,
        "get_weather"@ != "search"@,
        "get_weather"@ != "calculate"@,
        "get_weather"@ != "calc"@,
        "get_weather"@ != "datetime"@,
        "get_weather"@ != "now"@,
        "weather"@ != "search_web"@,
        "weather"@ != "search"@,
        "weather"@ != "calculate"@,
        "weather"@ != "calc"@,
        "weather"@ != "datetime"@,
        "weather"@ != "now"@,
        "search_web"@ != "calculate"@,
        "search_web"@ != "calc"@,
        "search_web"@ != "datetime"@,
        "search_web"@ != "now"@,
        "search"@ != "calculate"@,
        "search"@ != "calc"@,
        "search"@ != "datetime"@,
        "search"@ != "now"@,
        "calculate"@ != "datetime"@,
        "calculate"@ != "now"@,
        "calc"@ != "datetime"@,
        "calc"@ != "now"@,
{
    reveal_strlit("get_weather");
    reveal_strlit("weather");
    reveal_strlit("search_web");
    reveal_strlit("search");
    reveal_strlit("calculate");
    reveal_strlit("calc");
    reveal_strlit("datetime");
    reveal_strlit("now");
    assert("get_weather"@[0] == 'g');
    assert("weather"@[0] == 'w');
    assert("search_web"@[0] == 's');
    assert("search"@[0] == 's');
    assert("calculate"@[0] == 'c');
    assert("calc"@[0] == 'c');
    assert("datetime"@[0] == 'd');
    assert("now"@[0] == 'n');
}

/// Each tool answers to both of its names, with the answer that it gives to the
/// arguments of the call, and to no other.
pub proof fn law_dispatch(
    call: &ToolCall,
    r: Dispatched,
    weather: String,
    value: String,
    query: Option<String>,
)
    requires
        call_ensures(dispatch, (call,), r),
        call_ensures(tool_weather, (&call.args,), weather),
        call_ensures(argument, (&call.args, "query"), query),
        call_ensures(tool_calculate, (&call.args,), value),
    ensures
        call.name@ == "get_weather"@ || call.name@ == "weather"@
            ==> (r matches Dispatched::Answer(t)
            && t@ == weather@),
        call.name@ == "calculate"@ || call.name@ == "calc"@ ==> (r matches Dispatched::Answer(t)
            && t@ == value@),
        call.name@ == "search_web"@ || call.name@ == "search"@ ==> (match query {
            Some(q) if q@.len() > 0 => r matches Dispatched::Search(s) && s@ == q@,
            _ => r matches Dispatched::Answer(t) && t@ == "Brak zapytania."@,
        }),
        r is Search ==> call.name@ == "search_web"@ || call.name@ == "search"@,
        call.name@ == "datetime"@ || call.name@ == "now"@ ==> (r matches Dispatched::Answer(t)
            && exists|stamp: Seq<char>| #[trigger]
            outside::is_stamp(stamp) && t@ == "Aktualna data i czas: "@ + stamp),
        call.name@ != "get_weather"@ && call.name@ != "weather"@ && call.name@ != "calculate"@
            && call.name@ != "calc"@ && call.name@ != "search_web"@ && call.name@ != "search"@
            && call.name@ != "datetime"@ && call.name@ != "now"@ ==> (r matches Dispatched::Answer(
            t,
        ) && t@ == "Nieznane narzędzie: '"@ + call.name@
            + "'. Dostępne: weather, search_web, calculate, datetime"@),
{
    lemma_tool_names();
}

// ── Web search ──

/// Each result of Serper has a line, in the order in which they came.
pub proof fn law_serper_lines(
    items: &Vec<(String, String)>,
    more: &Vec<(String, String)>,
    x: (String, String),
    r: String,
    s: String,
)
    requires
        call_ensures(serper_text, (items,), r),
        call_ensures(serper_text, (more,), s),
        more@ == items@.push(x),
    ensures
        items@.len() == 0 ==> r@.len() == 0 && s@ == "• "@ + x.0@ + ": "@ + x.1@,
        items@.len() > 0 ==> s@ == r@ + "\n"@ + ("• "@ + x.0@ + ": "@ + x.1@),
{
    let f = |t: (Seq<char>, Seq<char>)| tools::serper_line(t);
    let a = engine::turns(items@).map_values(f);
    let b = engine::turns(more@).map_values(f);
    let one = seq!["• "@ + x.0@ + ": "@ + x.1@];
    assert(b =~= a + one);
    laws::text::law_joined(a, one, "\n"@);
    laws::text::law_joined(one, a, "\n"@);
    if items@.len() == 0 {
        assert(a =~= Seq::empty());
        assert(b =~= one);
    }
}

/// Of the elements on a page the first five count: one more of them adds its text
/// behind the others where it has any, and one behind the fifth adds nothing.
pub proof fn law_snippets(found: Seq<Seq<Seq<char>>>, x: Seq<Seq<char>>)
    ensures
        found.len() == 0 ==> tools::snippets(found).len() == 0,
        found.len() < 5
            ==> tools::snippets(found.push(x)) == tools::snippets(found) + (if text::trimmed(
            text::joined(x, Seq::empty()),
        ).len() > 0 {
            seq![text::trimmed(text::joined(x, Seq::empty()))]
        } else {
            Seq::empty()
        }),
        found.len() >= 5 ==> tools::snippets(found.push(x)) == tools::snippets(found),
{
    let f = |e: Seq<Seq<char>>| tools::element_text(e);
    let one = seq![text::trimmed(text::joined(x, Seq::empty()))];
    if found.len() < 5 {
        let a = found.take(found.len() as int).map_values(f);
        let b = found.push(x).take(found.len() as int + 1).map_values(f);
        assert(b =~= a + one);
        laws::engine::law_nonempty(a, one);
        laws::engine::law_nonempty(one, a);
    } else {
        assert(found.push(x).take(5) =~= found.take(5));
    }
    if found.len() == 0 {
        let a = found.take(0).map_values(f);
        assert(a =~= Seq::empty());
        laws::engine::law_nonempty(a, a);
    }
}

/// A search is answered with the snippets on the page, one a line, and where
/// there are none with words that name what was searched for.
pub proof fn law_search_answer(
    query: &str,
    html: &str,
    found: &Vec<Vec<String>>,
    r: String,
    s: String,
)
    requires
        call_ensures(search_answer, (query, found), r),
        call_ensures(duckduckgo_text, (query, html), s),
    ensures
        tools::snippets(outside::nested_views(found@)).len() == 0 ==> r@ == "Brak wyników dla: "@
            + query@,
        tools::snippets(outside::nested_views(found@)).len() > 0 ==> r@ == text::joined(
            tools::snippets(outside::nested_views(found@)),
            "\n"@,
        ),
        found@.len() == 1 && text::joined(text::views(found@[0]@), Seq::empty()).len() > 0
            && !text::is_white_space(text::joined(text::views(found@[0]@), Seq::empty())[0])
            && !text::is_white_space(text::joined(text::views(found@[0]@), Seq::empty()).last())
            ==> r@ == text::joined(text::views(found@[0]@), Seq::empty()),
        outside::selected_text(html@, outside::SNIPPET@) == outside::nested_views(found@) ==> s@
            == r@,
{
    let v = outside::nested_views(found@);
    if found@.len() == 1 && text::joined(text::views(found@[0]@), Seq::empty()).len() > 0
        && !text::is_white_space(text::joined(text::views(found@[0]@), Seq::empty())[0])
        && !text::is_white_space(text::joined(text::views(found@[0]@), Seq::empty()).last()) {
        let x = text::views(found@[0]@);
        let t = text::joined(x, Seq::empty());
        let none = Seq::<Seq<Seq<char>>>::empty();
        assert(v[0] == x);
        assert(v =~= none.push(x));
        law_snippets(none, x);
        lemma_trimmed_already(t);
        let s1 = tools::snippets(v);
        assert(s1 =~= seq![t]);
        laws::text::law_joined(s1, s1, "\n"@);
    }
}

proof fn lemma_trimmed_already(t: Seq<char>)
    requires
        t.len() > 0,
        !text::is_white_space(t[0]),
        !text::is_white_space(t.last()),
    ensures
        text::trimmed(t) == t,
{
}

// ── Calls in a reply ──

/// Every call that stands in a reply is found, in order, with its name, and with
/// its arguments in order.
pub proof fn law_calls(reply: &str, r: Vec<ToolCall>, i: int, j: int)
    requires
        call_ensures(parse_tool_calls, (reply,), r),
    ensures
        r@.len() == outside::regex_matches(TOOL_CALL@, reply@).len(),
        0 <= i < r@.len() ==> r@[i].name@ == tools::group(
            outside::regex_matches(TOOL_CALL@, reply@)[i],
            1,
        ),
        0 <= i < r@.len() ==> ({
            let args = outside::regex_matches(
                TOOL_ARG@,
                tools::group(outside::regex_matches(TOOL_CALL@, reply@)[i], 2),
            );
            &&& r@[i].args@.len() == args.len()
            &&& 0 <= j < args.len() ==> r@[i].args@[j].0@ == tools::group(args[j], 1)
                && r@[i].args@[j].1@ == tools::group(args[j], 2)
        }),
{
    let ms = outside::regex_matches(TOOL_CALL@, reply@);
    let v = tools::call_views(r@);
    assert(v.len() == r@.len());
    if 0 <= i < r@.len() {
        lemma_call(reply, r, i, j);
    }
}

proof fn lemma_call(reply: &str, r: Vec<ToolCall>, i: int, j: int)
    requires
        tools::call_views(r@) == tools::calls_in(reply@),
        0 <= i < r@.len(),
    ensures
        r@[i].name@ == tools::group(outside::regex_matches(TOOL_CALL@, reply@)[i], 1),
        ({
            let args = outside::regex_matches(
                TOOL_ARG@,
                tools::group(outside::regex_matches(TOOL_CALL@, reply@)[i], 2),
            );
            &&& r@[i].args@.len() == args.len()
            &&& 0 <= j < args.len() ==> r@[i].args@[j].0@ == tools::group(args[j], 1)
                && r@[i].args@[j].1@ == tools::group(args[j], 2)
        }),
{
    let ms = outside::regex_matches(TOOL_CALL@, reply@);
    let v = tools::call_views(r@);
    assert(v.len() == r@.len());
    assert(v[i] == r@[i]@);
    let args = outside::regex_matches(TOOL_ARG@, tools::group(ms[i], 2));
    assert(engine::turns(r@[i].args@) == tools::args_of(args));
    assert(engine::turns(r@[i].args@).len() == r@[i].args@.len());
    if 0 <= j < args.len() {
        assert(engine::turns(r@[i].args@)[j] == (r@[i].args@[j].0@, r@[i].args@[j].1@));
    }
}

/// A group holds what it matched, and nothing where it took no part.
pub proof fn law_group(call: &Found, args: &Vec<Found>, r: ToolCall, j: int)
    requires
        call_ensures(tool_call_from, (call, args), r),
    ensures
        call.groups@.len() > 1 && call.groups@[1] is Some ==> r.name@ == call.groups@[1]->0@,
        call.groups@.len() <= 1 || call.groups@[1] is None ==> r.name@.len() == 0,
        r.args@.len() == args@.len(),
        0 <= j < args@.len() && args@[j].groups@.len() > 2 && args@[j].groups@[1] is Some
            && args@[j].groups@[2] is Some
            ==> r.args@[j].0@ == args@[j].groups@[1]->0@ && r.args@[j].1@
            == args@[j].groups@[2]->0@,
{
    let t = engine::turns(r.args@);
    assert(t.len() == r.args@.len());
    if 0 <= j < args@.len() {
        assert(t[j] == (r.args@[j].0@, r.args@[j].1@));
        assert(outside::found_views(args@)[j] == args@[j]@);
    }
}

/// What is left of a reply where its calls are stripped: a reply without calls as
/// it stands, one with a single call what stands before it and what stands behind
/// it, and in both cases without the space around.
pub proof fn law_stripped(
    reply: &str,
    r: String,
    before: Seq<char>,
    call: Seq<char>,
    after: Seq<char>,
)
    requires
        call_ensures(strip_tool_calls, (reply,), r),
        reply@ == before + call + after,
    ensures
        outside::regex_matches(TOOL_CALL@, reply@).len() == 0 ==> r@ == text::trimmed(reply@),
        outside::regex_matches(TOOL_CALL@, reply@).len() == 1 && outside::regex_matches(
            TOOL_CALL@,
            reply@,
        )[0].0 == encode_utf8(before).len() && outside::regex_matches(TOOL_CALL@, reply@)[0].1
            == encode_utf8(before + call).len() ==> r@ == text::trimmed(before + after),
{
    let ms = outside::regex_matches(TOOL_CALL@, reply@);
    if ms.len() == 0 {
        tools::lemma_no_match_unchanged(TOOL_CALL@, reply@, Seq::empty());
    }
    if ms.len() == 1 && ms[0].0 == encode_utf8(before).len() && ms[0].1 == encode_utf8(
        before + call,
    ).len() {
        let b = encode_utf8(reply@);
        let none = encode_utf8(Seq::<char>::empty());
        text::lemma_encode_concat(before + call, after);
        text::lemma_encode_concat(before, call);
        text::lemma_encode_concat(before, after);
        assert(none =~= Seq::<u8>::empty());
        assert(outside::replaced_until(b, ms, none, 0) =~= Seq::<u8>::empty());
        assert(outside::replaced_until(b, ms, none, 1) =~= b.subrange(0, ms[0].0));
        assert(b.subrange(0, ms[0].0) =~= encode_utf8(before));
        assert(b.subrange(ms[0].1, b.len() as int) =~= encode_utf8(after));
        assert(outside::replaced(b, ms, none) =~= encode_utf8(before + after));
        encode_utf8_decode_utf8(before + after);
    }
}

/// Each match gives way to the replacement, wherever it stands: with one match more,
/// what stands before it is replaced as by itself, and what stands behind it stays.
pub proof fn law_each_match_replaced(
    bytes: Seq<u8>,
    m: Seq<(int, int, Seq<Option<Seq<char>>>)>,
    last: (int, int, Seq<Option<Seq<char>>>),
    rep: Seq<u8>,
)
    requires
        forall|i: int| 0 <= i < m.len() ==> 0 <= (#[trigger] m[i]).0 <= m[i].1 <= last.0,
        forall|i: int, j: int| 0 <= i < j < m.len() ==> (#[trigger] m[i]).1 <= (#[trigger] m[j]).0,
        0 <= last.0 <= last.1 <= bytes.len(),
    ensures
        outside::replaced(bytes, m.push(last), rep) == outside::replaced(
            bytes.take(last.0),
            m,
            rep,
        ) + rep + bytes.skip(last.1),
        outside::replaced(bytes, Seq::empty(), rep) == bytes,
{
    let all = m.push(last);
    let front = bytes.take(last.0);
    let k = m.len() as int;
    lemma_front_replaced(bytes, m, last, rep, k);
    let from = if k == 0 {
        0
    } else {
        m.last().1
    };
    assert(front.subrange(from, front.len() as int) =~= bytes.subrange(from, last.0));
    assert(outside::replaced_until(bytes, all, rep, k + 1) == outside::replaced_until(
        bytes,
        all,
        rep,
        k,
    ) + bytes.subrange(from, last.0) + rep);
    assert(bytes.subrange(last.1, bytes.len() as int) =~= bytes.skip(last.1));
    assert(outside::replaced(bytes, all, rep) =~= outside::replaced(front, m, rep) + rep
        + bytes.skip(last.1));
    let none = Seq::<(int, int, Seq<Option<Seq<char>>>)>::empty();
    assert(outside::replaced(bytes, none, rep) =~= bytes);
}

proof fn lemma_front_replaced(
    bytes: Seq<u8>,
    m: Seq<(int, int, Seq<Option<Seq<char>>>)>,
    last: (int, int, Seq<Option<Seq<char>>>),
    rep: Seq<u8>,
    k: int,
)
    requires
        0 <= k <= m.len(),
        forall|i: int| 0 <= i < m.len() ==> 0 <= (#[trigger] m[i]).0 <= m[i].1 <= last.0,
        forall|i: int, j: int| 0 <= i < j < m.len() ==> (#[trigger] m[i]).1 <= (#[trigger] m[j]).0,
        0 <= last.0 <= last.1 <= bytes.len(),
    ensures
        outside::replaced_until(bytes, m.push(last), rep, k) == outside::replaced_until(
            bytes.take(last.0),
            m,
            rep,
            k,
        ),
    decreases k,
{
    if k > 0 {
        let all = m.push(last);
        lemma_front_replaced(bytes, m, last, rep, k - 1);
        let from = if k == 1 {
            0
        } else {
            m[k - 2].1
        };
        assert(all[k - 1] == m[k - 1]);
        if k > 1 {
            assert(all[k - 2] == m[k - 2]);
            assert(m[k - 2].1 <= m[k - 1].0);
        }
        assert(bytes.take(last.0).subrange(from, m[k - 1].0) =~= bytes.subrange(from, m[k - 1].0));
    }
}

// ── The loop ──

/// Tools run in the first four rounds, and only where the reply calls some: then
/// all of the calls in it are run. A reply behind the fourth round is the answer
/// whatever it holds.
pub proof fn law_reply_taken(
    l: &ToolLoop,
    reply: &str,
    s: LoopStep,
    calls: Vec<ToolCall>,
    asks: bool,
)
    requires
        l.wf(),
        call_ensures(ToolLoop::take_reply, (l, reply), s),
        call_ensures(parse_tool_calls, (reply,), calls),
        call_ensures(ToolLoop::asks, (l,), asks),
    ensures
        s is Run <==> l.round < 4 && calls@.len() > 0,
        s matches LoopStep::Run(run) ==> tools::call_views(run@) == tools::call_views(calls@),
        l.streaming ==> (asks <==> l.round < 4),
        !l.streaming ==> asks,
{
    assert(tools::call_views(calls@).len() == calls@.len());
}

/// A report names the tool and what it gave. In a streamed answer it ends its
/// line.
pub proof fn law_report(l: &ToolLoop, name: &str, result: &str, r: String)
    requires
        call_ensures(ToolLoop::report, (l, name, result), r),
    ensures
        !l.streaming ==> r@ == "["@ + name@ + "] → "@ + result@,
        l.streaming ==> r@ == "["@ + name@ + "] → "@ + result@ + "\n"@,
{
}

/// After the tools ran, what was asked and what was said stand at the end of the
/// conversation, which keeps all that it held, and every report stands in the next
/// prompt, in order.
pub proof fn law_results_taken(
    l: &mut ToolLoop,
    reply: &str,
    reports: &Vec<String>,
    said: String,
    i: int,
)
    requires
        call_ensures(ToolLoop::take_results, (l, reply, reports), ()),
        call_ensures(strip_tool_calls, (reply,), said),
    ensures
        final(l).round == old(l).round + 1,
        final(l).streaming == old(l).streaming,
        final(l).history@.len() == old(l).history@.len() + 1,
        0 <= i < old(l).history@.len() ==> final(l).history@[i].0@ == old(l).history@[i].0@
            && final(l).history@[i].1@ == old(l).history@[i].1@,
        final(l).history@.last().0@ == old(l).prompt@,
        final(l).history@.last().1@ == said@,
        reports@.len() == 1 && old(l).streaming ==> final(l).prompt@ == "Wyniki narzędzi:\n"@
            + reports@[0]@ + "\n\nProszę kontynuuj odpowiedź."@,
        reports@.len() == 1 && !old(l).streaming ==> final(l).prompt@ == "Wyniki narzędzi:\n"@
            + reports@[0]@
            + "\n\nProszę kontynuuj odpowiedź uwzględniając powyższe wyniki."@,
        old(l).streaming ==> final(l).prompt@ == "Wyniki narzędzi:\n"@ + text::joined(
            text::views(reports@),
            Seq::empty(),
        ) + "\n\nProszę kontynuuj odpowiedź."@,
        !old(l).streaming ==> final(l).prompt@ == "Wyniki narzędzi:\n"@ + text::joined(
            text::views(reports@),
            "\n"@,
        ) + "\n\nProszę kontynuuj odpowiedź uwzględniając powyższe wyniki."@,
{
    let a = engine::turns(old(l).history@);
    let b = engine::turns(final(l).history@);
    assert(a.len() == old(l).history@.len());
    assert(b.len() == final(l).history@.len());
    if 0 <= i < old(l).history@.len() {
        assert(b[i] == a[i]);
    }
    assert(b.last() == (old(l).prompt@, said@));
    assert(b.last() == (final(l).history@.last().0@, final(l).history@.last().1@));
    if reports@.len() == 1 {
        let v = text::views(reports@);
        assert(v[0] == reports@[0]@);
        laws::text::law_joined(v, v, "\n"@);
        laws::text::law_joined(v, v, Seq::empty());
    }
}

/// A streamed answer begins with the prompt and the whole conversation.
pub proof fn law_stream_begins(
    prompt: &str,
    history: &Vec<(String, String)>,
    a: AnswerStream,
    i: int,
)
    requires
        call_ensures(AnswerStream::new, (prompt, history), a),
    ensures
        a.rounds.prompt@ == prompt@,
        a.rounds.history@.len() == history@.len(),
        0 <= i < history@.len() ==> a.rounds.history@[i].0@ == history@[i].0@
            && a.rounds.history@[i].1@ == history@[i].1@,
        a.rounds.round == 0,
        a.reply@.len() == 0,
        a.calls@.len() == 0,
        a.reports@.len() == 0,
{
    let x = engine::turns(a.rounds.history@);
    let y = engine::turns(history@);
    assert(x == y);
    assert(x.len() == a.rounds.history@.len());
    if 0 <= i < history@.len() {
        assert(x[i] == y[i]);
    }
    assert(a@.calls.len() == a.calls@.len());
    assert(a@.reports.len() == a.reports@.len());
}

/// A token is passed on as it comes and is remembered behind the others. A failure
/// is told and ends the answer. Where the reply is complete, its calls are run
/// from the first, and an answer without calls is at its end. The result of a
/// call is reported under its name, and the next call follows. After the last
/// one the model is asked again, in four rounds at most.
pub proof fn law_stream_takes(
    a: &mut AnswerStream,
    ev: AnswerEvent,
    r: (Option<String>, AnswerStep),
    whole: &str,
    calls: Vec<ToolCall>,
)
    requires
        old(a).wf(),
        old(a)@.awaits(ev@),
        call_ensures(AnswerStream::take, (a, ev), r),
        whole@ == old(a).reply@,
        call_ensures(parse_tool_calls, (whole,), calls),
    ensures
        ev matches AnswerEvent::Token(t) ==> r.0 is Some && r.0->0@ == t@ && r.1 == AnswerStep::Read
            && final(a).reply@ == old(a).reply@ + t@,
        ev matches AnswerEvent::Failure(e) ==> r.0 is Some && r.0->0@ == "❌ "@ + e@ && r.1
            == AnswerStep::Stop,
        ev is End && calls@.len() == 0 ==> r.0 is None && r.1 == AnswerStep::Stop,
        ev is End && calls@.len() > 0 ==> {
            &&& r.0 is Some && r.0->0@ == "\n\n🔧 Wykonuję narzędzia…\n"@
            &&& r.1 == AnswerStep::Run(0)
            &&& tools::call_views(final(a).calls@) == tools::call_views(calls@)
        },
        ev matches AnswerEvent::Ran(t) ==> {
            let n = old(a).reports@.len() as int;
            let line = "["@ + old(a).calls@[n].name@ + "] → "@ + t@ + "\n"@;
            &&& r.0 is Some && r.0->0@ == line
            &&& n + 1 < old(a).calls@.len() ==> r.1 == AnswerStep::Run((n + 1) as usize)
                && text::views(final(a).reports@) == text::views(old(a).reports@).push(line)
            &&& n + 1 == old(a).calls@.len() ==> {
                &&& r.1 == if old(a).rounds.round + 1 < 4 {
                    AnswerStep::Ask
                } else {
                    AnswerStep::Stop
                }
                &&& final(a).rounds.round == old(a).rounds.round + 1
                &&& final(a).rounds.history@.len() == old(a).rounds.history@.len() + 1
                &&& final(a).rounds.history@.last().0@ == old(a).rounds.prompt@
                &&& final(a).rounds.prompt@ == "Wyniki narzędzi:\n"@ + (text::joined(
                    text::views(old(a).reports@),
                    Seq::empty(),
                ) + line) + "\n\nProszę kontynuuj odpowiedź."@
                &&& final(a).reply@.len() == 0
            }
        },
        !(ev is Ran) ==> {
            &&& final(a).rounds.prompt@ == old(a).rounds.prompt@
            &&& engine::turns(final(a).rounds.history@) == engine::turns(old(a).rounds.history@)
            &&& final(a).rounds.round == old(a).rounds.round
        },
        !(ev is Ran) && !(ev is Token) ==> final(a).reply@ == old(a).reply@,
{
    assert(tools::call_views(calls@).len() == calls@.len());
    let v = old(a)@;
    let w = final(a)@;
    assert(v.calls.len() == old(a).calls@.len());
    assert(v.reports.len() == old(a).reports@.len());
    assert(v.history.len() == old(a).rounds.history@.len());
    assert(w.history.len() == final(a).rounds.history@.len());
    if let AnswerEvent::Ran(t) = ev {
        let n = old(a).reports@.len() as int;
        let line = "["@ + old(a).calls@[n].name@ + "] → "@ + t@ + "\n"@;
        assert(v.calls[n] == old(a).calls@[n]@);
        assert(tools::report_text(v.calls[n].0, t@, true) == line);
        if n + 1 == old(a).calls@.len() {
            assert(w.history.last() == (
                final(a).rounds.history@.last().0@,
                final(a).rounds.history@.last().1@,
            ));
            let had = text::views(old(a).reports@);
            assert(had.push(line) =~= had + seq![line]);
            laws::text::law_joined(had, seq![line], Seq::empty());
            laws::text::law_joined(seq![line], had, Seq::empty());
            if had.len() == 0 {
                assert(had =~= Seq::empty());
                assert(had + seq![line] =~= seq![line]);
                assert(Seq::<char>::empty() + line =~= line);
            } else {
                assert(text::joined(had, Seq::empty()) + Seq::<char>::empty() =~= text::joined(
                    had,
                    Seq::empty(),
                ));
            }
        }
    }
}

/// Serper is asked first where there is a key, and its answer stands where it gave
/// one. Otherwise DuckDuckGo is asked, whose answer stands, or why it failed.
pub proof fn law_search_steps(
    key: &Option<String>,
    answer: Option<String>,
    page: Result<String, String>,
    query: &str,
    a: SearchStep,
    b: SearchStep,
    c: String,
    url: String,
)
    requires
        call_ensures(search_web, (key,), a),
        call_ensures(after_serper, (answer,), b),
        call_ensures(after_duckduckgo, (page,), c),
        call_ensures(duckduckgo_url, (query,), url),
    ensures
        a is AskSerper <==> key is Some,
        a is AskDuckDuckGo <==> key is None,
        answer matches Some(t) ==> (b matches SearchStep::Answer(u) && u@ == t@),
        answer is None ==> b is AskDuckDuckGo,
        page matches Ok(t) ==> c@ == t@,
        page matches Err(e) ==> c@ == "Błąd wyszukiwania: "@ + e@,
        url@ == "https://lite.duckduckgo.com/lite/?q="@ + outside::percent_encoded(
            encode_utf8(query@),
        ),
{
}

/// What is said of the date ends with the clock's text, of a calculation with its
/// value, and of a failure with its cause.
pub proof fn law_answers(
    stamp: &str,
    expr: &str,
    value: &Result<String, String>,
    a: String,
    b: String,
    c: String,
    now: String,
)
    requires
        call_ensures(datetime_answer, (stamp,), a),
        call_ensures(calculation_answer, (expr, value), b),
        call_ensures(failure_text, (stamp,), c),
        call_ensures(tool_datetime, (), now),
    ensures
        a@ == "Aktualna data i czas: "@ + stamp@,
        value matches Ok(v) ==> b@ == expr@ + " = "@ + v@,
        value matches Err(e) ==> b@ == "Błąd obliczenia: "@ + e@,
        c@ == "❌ "@ + stamp@,
        text::has_prefix(now@, "Aktualna data i czas: "@),
        exists|s: Seq<char>| #[trigger]
            outside::is_stamp(s) && now@ == "Aktualna data i czas: "@ + s,
{
    let p = "Aktualna data i czas: "@;
    let s = choose|s: Seq<char>| #[trigger] outside::is_stamp(s) && now@ == p + s;
    assert(now@.take(p.len() as int) =~= p);
}

/// A call has no answer exactly where it asks for a calculation of nothing but
/// spaces: one in which a digit, a point, an operator or a parenthesis stands has
/// an answer, and so has every call of another tool.
pub proof fn law_no_answer(
    call: &ToolCall,
    expr: Option<String>,
    expression: Option<String>,
    r: bool,
    e: Seq<char>,
    i: int,
)
    requires
        call_ensures(has_no_answer, (call,), r),
        call_ensures(argument, (&call.args, "expr"), expr),
        call_ensures(argument, (&call.args, "expression"), expression),
        match expr {
            Some(x) => e == x@,
            None => match expression {
                Some(x) => e == x@,
                None => e == Seq::<char>::empty(),
            },
        },
    ensures
        call.name@ != "calculate"@ && call.name@ != "calc"@ ==> !r,
        0 <= i < e.len() && written_in_arithmetic(e[i]) && e[i] != ' ' ==> !r,
        (call.name@ == "calculate"@ || call.name@ == "calc"@) && e.len() > 0 && (forall|j: int|
            0 <= j < e.len() ==> #[trigger] e[j] == ' ') ==> r,
        e.len() == 0 ==> !r,
{
    lemma_tool_names();
    if 0 <= i < e.len() && written_in_arithmetic(e[i]) && e[i] != ' ' {
        let a = e.take(i);
        let b = e.skip(i + 1);
        assert(e =~= a + seq![e[i]] + b);
        law_arithmetic_comes_through(a + seq![e[i]], e[i], b);
        law_arithmetic_comes_through(a, e[i], seq![e[i]]);
        let p = tools::arithmetic_part(e);
        assert(p == tools::arithmetic_part(a) + seq![e[i]] + tools::arithmetic_part(b));
        assert(p[tools::arithmetic_part(a).len() as int] == e[i]);
    }
    if forall|j: int| 0 <= j < e.len() ==> #[trigger] e[j] == ' ' {
        reveal_strlit("0123456789.+-*/() ");
        assert("0123456789.+-*/() "@[17] == ' ');
        law_plain_arithmetic_as_written(e);
    }
}

} // verus!
