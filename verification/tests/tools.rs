use hexai::outside::Found;
use hexai::profiler::{fact_from, UserProfiler};
use hexai::tools::{
    after_duckduckgo, after_serper, argument, calculation_answer, datetime_answer, dispatch,
    duckduckgo_text, duckduckgo_url, failure_text, has_no_answer, parse_tool_calls, search_answer,
    search_web, serper_text, strip_tool_calls, tool_call_from, tool_calculate, tool_datetime,
    tool_weather, AnswerEvent, AnswerStep, AnswerStream, Dispatched, LoopStep, SearchStep, ToolCall, ToolLoop, MAX_ITERATIONS,
    RUNNING_TOOLS,
};

fn args(list: &[(&str, &str)]) -> Vec<(String, String)> {
    list.iter().map(|(a, b)| (a.to_string(), b.to_string())).collect()
}

fn call(name: &str, list: &[(&str, &str)]) -> ToolCall {
    ToolCall { name: name.to_string(), args: args(list) }
}

fn answer(d: Dispatched) -> String {
    match d {
        Dispatched::Answer(t) => t,
        Dispatched::Search(q) => format!("search for {q}"),
    }
}

#[test]
fn calls_are_found_in_a_reply() {
    let calls = parse_tool_calls(r#"Już: {tool:weather city="Łódź" unit="C"} i {tool:now} {tool: x}"#);
    assert_eq!(calls.len(), 2);
    assert_eq!(calls[0].name, "weather");
    assert_eq!(calls[0].args, args(&[("city", "Łódź"), ("unit", "C")]));
    assert_eq!(calls[1].name, "now");
    assert!(calls[1].args.is_empty());
    assert!(parse_tool_calls("nic").is_empty());
    assert!(parse_tool_calls(r#"{tool:calc expr=""}"#)[0].args.is_empty());
}

#[test]
fn calls_are_stripped_from_a_reply() {
    assert_eq!(strip_tool_calls(" a {tool:weather city=\"X\"} b {tool:now}"), "a  b");
    assert_eq!(strip_tool_calls("  bez wywołań "), "bez wywołań");
    assert_eq!(strip_tool_calls("{tool:now}"), "");
}

#[test]
fn a_call_is_made_from_its_matches() {
    let g = |list: &[&str]| list.iter().map(|s| Some(s.to_string())).collect::<Vec<_>>();
    let m = Found { start: 0, end: 9, groups: g(&["{tool:a b}", "a", " b"]) };
    let a = Found { start: 0, end: 5, groups: g(&["k=\"v\"", "k", "v"]) };
    let c = tool_call_from(&m, &vec![a]);
    assert_eq!(c.name, "a");
    assert_eq!(c.args, args(&[("k", "v")]));
    let none = Found { start: 0, end: 0, groups: vec![None] };
    assert_eq!(tool_call_from(&none, &vec![]).name, "");
}

#[test]
fn the_last_of_equal_arguments_counts() {
    let list = args(&[("city", "A"), ("x", "B"), ("city", "C")]);
    assert_eq!(argument(&list, "city"), Some("C".to_string()));
    assert_eq!(argument(&list, "y"), None);
}

#[test]
fn weather_of_a_city() {
    assert_eq!(tool_weather(&args(&[])), "Pogoda w Warsaw: słonecznie, 22°C, wilgotność 45%.");
    assert_eq!(
        tool_weather(&args(&[("city", "Gdynia")])),
        "Pogoda w Gdynia: słonecznie, 22°C, wilgotność 45%."
    );
}

#[test]
fn calculations() {
    assert_eq!(tool_calculate(&args(&[("expr", "2+2*3")])), "2+2*3 = 8");
    assert_eq!(tool_calculate(&args(&[("expression", "1/4")])), "1/4 = 0.25");
    assert_eq!(tool_calculate(&args(&[("expr", "2 kg + 3")])), "2 kg + 3 = 5");
    assert!(tool_calculate(&args(&[("expr", "2+")])).starts_with("Błąd obliczenia: "));
    assert!(tool_calculate(&args(&[])).starts_with("Błąd obliczenia: "));
    assert_eq!(calculation_answer("x", &Ok("1".to_string())), "x = 1");
    assert_eq!(calculation_answer("x", &Err("e".to_string())), "Błąd obliczenia: e");
}

#[test]
fn calculation_of_spaces_has_no_answer() {
    assert!(has_no_answer(&call("calc", &[("expr", "a b")])));
    assert!(has_no_answer(&call("calculate", &[("expr", " ")])));
    assert!(!has_no_answer(&call("calc", &[("expr", "")])));
    assert!(!has_no_answer(&call("calc", &[("expr", " 1")])));
    assert!(!has_no_answer(&call("weather", &[("expr", " ")])));
    assert!(!has_no_answer(&call("now", &[("expr", " ")])));
}

#[test]
fn date_and_time() {
    assert_eq!(datetime_answer("x"), "Aktualna data i czas: x");
    let now = tool_datetime();
    let stamp = now.strip_prefix("Aktualna data i czas: ").unwrap();
    assert_eq!(stamp.as_bytes()[4], b'-');
    assert_eq!(stamp.as_bytes()[13], b':');
    let parts: Vec<&str> = stamp.split(' ').collect();
    assert_eq!(parts.len(), 3);
    let digits = |s: &str| s.len() == 2 && s.bytes().all(|b| b.is_ascii_digit());
    let date: Vec<&str> = parts[0].split('-').collect();
    assert_eq!((date.len(), date[0].len()), (3, 4));
    assert!(digits(date[1]) && digits(date[2]));
    assert!(parts[1].split(':').count() == 3 && parts[1].split(':').all(digits));
    assert!(parts[2].starts_with('+') || parts[2].starts_with('-'));
    assert!(parts[2].len() == 6 || parts[2].len() == 9);
    assert!(parts[2][1..].split(':').all(digits));
}

#[test]
fn search_asks_serper_first() {
    assert!(matches!(search_web(&Some("k".to_string())), SearchStep::AskSerper));
    assert!(matches!(search_web(&None), SearchStep::AskDuckDuckGo));
    assert!(matches!(after_serper(Some("r".to_string())), SearchStep::Answer(t) if t == "r"));
    assert!(matches!(after_serper(None), SearchStep::AskDuckDuckGo));
    assert_eq!(after_duckduckgo(Ok("r".to_string())), "r");
    assert_eq!(after_duckduckgo(Err("e".to_string())), "Błąd wyszukiwania: e");
}

#[test]
fn search_results_as_text() {
    assert_eq!(serper_text(&args(&[("T", "s"), ("U", "t")])), "• T: s\n• U: t");
    assert_eq!(serper_text(&vec![]), "");
    assert_eq!(
        duckduckgo_url("żółw i ~kot"),
        "https://lite.duckduckgo.com/lite/?q=%C5%BC%C3%B3%C5%82w%20i%20~kot"
    );
}

#[test]
fn search_page_is_read() {
    let html = "<table><tr><td class=\"result-snippet\"> Jeden <b>dwa</b> </td></tr>\
        <tr><td class=\"other\">nie</td></tr>\
        <tr><td class='result-snippet'>  </td></tr>\
        <tr><td class='result-snippet'>trzy</td></tr></table>";
    assert_eq!(duckduckgo_text("q", html), "Jeden dwa\ntrzy");
    assert_eq!(duckduckgo_text("q", "<p>nic</p>"), "Brak wyników dla: q");
    let many: Vec<Vec<String>> = (0..9).map(|i| vec![format!("{i}"), "x ".to_string()]).collect();
    assert_eq!(search_answer("q", &many), "0x\n1x\n2x\n3x\n4x");
    assert_eq!(search_answer("q", &vec![]), "Brak wyników dla: q");
}

#[test]
fn calls_are_dispatched_by_name() {
    assert!(answer(dispatch(&call("get_weather", &[]))).starts_with("Pogoda w Warsaw"));
    assert_eq!(answer(dispatch(&call("search", &[("query", "rust")]))), "search for rust");
    assert_eq!(answer(dispatch(&call("search_web", &[]))), "Brak zapytania.");
    assert_eq!(answer(dispatch(&call("calculate", &[("expr", "3*3")]))), "3*3 = 9");
    assert!(answer(dispatch(&call("now", &[]))).starts_with("Aktualna data i czas: "));
    assert_eq!(
        answer(dispatch(&call("x", &[]))),
        "Nieznane narzędzie: 'x'. Dostępne: weather, search_web, calculate, datetime"
    );
}

#[test]
fn an_answer_without_tools_is_finished() {
    let l = ToolLoop::new("p", &vec![], false);
    assert!(l.asks());
    assert!(matches!(l.take_reply("gotowe"), LoopStep::Finished));
}

#[test]
fn tools_feed_the_next_prompt() {
    let mut l = ToolLoop::new("p", &args(&[("u", "a")]), false);
    let reply = "Sprawdzam {tool:calc expr=\"1+1\"}";
    match l.take_reply(reply) {
        LoopStep::Run(calls) => assert_eq!(calls.len(), 1),
        LoopStep::Finished => panic!("tools were called"),
    }
    let line = l.report("calc", "1+1 = 2");
    assert_eq!(line, "[calc] → 1+1 = 2");
    l.take_results(reply, &vec![line, "[b] → c".to_string()]);
    assert_eq!(l.round, 1);
    assert_eq!(l.history, args(&[("u", "a"), ("p", "Sprawdzam")]));
    assert_eq!(
        l.prompt,
        "Wyniki narzędzi:\n[calc] → 1+1 = 2\n[b] → c\n\nProszę kontynuuj odpowiedź uwzględniając powyższe wyniki."
    );
}

#[test]
fn streamed_tools_feed_the_next_prompt() {
    let mut l = ToolLoop::new("p", &vec![], true);
    let line = l.report("a", "b");
    assert_eq!(line, "[a] → b\n");
    l.take_results("{tool:a}", &vec![line.clone(), line]);
    assert_eq!(l.prompt, "Wyniki narzędzi:\n[a] → b\n[a] → b\n\n\nProszę kontynuuj odpowiedź.");
    assert_eq!(RUNNING_TOOLS, "\n\n🔧 Wykonuję narzędzia…\n");
    assert_eq!(failure_text("x"), "❌ x");
}

#[test]
fn a_streamed_answer_is_sent_in_order() {
    let mut a = AnswerStream::new("p", &args(&[("u", "a")]));
    let mut sent = vec![];
    let events = vec![
        AnswerEvent::Token("Licz\u{119} {tool:calc".to_string()),
        AnswerEvent::Token(" expr=\"1\"} {tool:now}".to_string()),
        AnswerEvent::End,
        AnswerEvent::Ran("1 = 1".to_string()),
        AnswerEvent::Ran("teraz".to_string()),
    ];
    let mut steps = vec![];
    for e in events {
        let (text, step) = a.take(e);
        sent.extend(text);
        steps.push(step);
    }
    assert_eq!(
        sent,
        vec![
            "Licz\u{119} {tool:calc",
            " expr=\"1\"} {tool:now}",
            RUNNING_TOOLS,
            "[calc] → 1 = 1\n",
            "[now] → teraz\n",
        ]
    );
    assert_eq!(
        steps,
        vec![AnswerStep::Read, AnswerStep::Read, AnswerStep::Run(0), AnswerStep::Run(1), AnswerStep::Ask]
    );
    assert_eq!(a.rounds.history, args(&[("u", "a"), ("p", "Licz\u{119}")]));
    assert_eq!(
        a.rounds.prompt,
        "Wyniki narzędzi:\n[calc] → 1 = 1\n[now] → teraz\n\n\nProszę kontynuuj odpowiedź."
    );
    let (text, step) = a.take(AnswerEvent::Token("Gotowe".to_string()));
    assert_eq!((text.as_deref(), step), (Some("Gotowe"), AnswerStep::Read));
    let (text, step) = a.take(AnswerEvent::End);
    assert_eq!((text, step), (None, AnswerStep::Stop));
}

#[test]
fn a_failure_ends_a_streamed_answer() {
    let mut a = AnswerStream::new("p", &vec![]);
    let (text, step) = a.take(AnswerEvent::Failure("e".to_string()));
    assert_eq!((text.as_deref(), step), (Some("❌ e"), AnswerStep::Stop));
    let mut a = AnswerStream::new("p", &vec![]);
    let mut asked = 1;
    loop {
        a.take(AnswerEvent::Token("{tool:now}".to_string()));
        a.take(AnswerEvent::End);
        match a.take(AnswerEvent::Ran("x".to_string())).1 {
            AnswerStep::Ask => asked += 1,
            step => {
                assert_eq!(step, AnswerStep::Stop);
                break;
            }
        }
    }
    assert_eq!(asked, MAX_ITERATIONS);
}

#[test]
fn the_loop_ends_whatever_the_model_says() {
    for streaming in [false, true] {
        let mut l = ToolLoop::new("p", &vec![], streaming);
        let mut replies = 0;
        while l.asks() {
            replies += 1;
            match l.take_reply("{tool:now}") {
                LoopStep::Finished => break,
                LoopStep::Run(_) => l.take_results("{tool:now}", &vec![]),
            }
        }
        assert_eq!(replies, if streaming { MAX_ITERATIONS } else { MAX_ITERATIONS + 1 });
    }
}

#[test]
fn facts_are_taken_from_messages() {
    let mut p = UserProfiler::new();
    p.update_from_message("u", "Na co dzień preferuję Rusta");
    assert_eq!(p.get_facts("u", 5), vec!["preference: preferuję Rusta"]);
    p.update_from_message("u", "pracuję w domu na Linuksie");
    assert_eq!(p.get_facts("u", 5)[0], "tech_stack: pracuję w domu na Linuksie");
    p.update_from_message("u", "cześć");
    assert_eq!(p.get_facts("u", 5).len(), 2);
    assert_eq!(p.get_facts("u", 1).len(), 1);
    assert!(p.get_facts("v", 5).is_empty());
    assert_eq!(fact_from("żółw wolę", "k", 8), "k: wolę");
    let long = format!("wolę {}", "ż".repeat(100));
    p.update_from_message("w", &long);
    assert_eq!(p.get_facts("w", 1)[0].chars().count(), "preference: ".len() + 60);
}

#[test]
fn at_most_twenty_facts_are_kept() {
    let mut p = UserProfiler::new();
    for i in 0..30 {
        p.add_fact("u", format!("{i}"));
    }
    p.add_fact("v", "x".to_string());
    assert_eq!(p.get_facts("u", 2), vec!["29", "28"]);
    let facts = p.get_facts("u", 100);
    assert_eq!(facts.len(), 20);
    assert_eq!(facts[0], "29");
    assert_eq!(facts[19], "10");
    assert_eq!(p.get_facts("v", 100), vec!["x"]);
}
