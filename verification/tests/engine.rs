use hexai::config::{Config, ConfigEnv};
use hexai::engine::{
    build_messages, collect_reply, format_prompt, http_failure, model_missing, model_unusable,
    ollama_unreachable, reply_lines, reply_parts, split_lines, spoken_parts, Backend, EngineEnv,
    EngineKind, EngineRequest, LlmEngine, LocalEngine, LocalEnv, LocalParams, Mode, SseBuffer, SsePoll,
    MODEL_HINT,
};
use hexai::error::HexError;

fn no_config() -> ConfigEnv {
    ConfigEnv {
        host: None,
        port: None,
        redis_url: None,
        ollama_url: None,
        serper_api_key: None,
        db_path: None,
        jwt_secret: None,
        auth: None,
        rate_limit_rpm: None,
        cors_origins: None,
    }
}

fn engine_env(kind: Option<&str>) -> EngineEnv {
    EngineEnv {
        engine: kind.map(|s| s.to_string()),
        model_path: Some("/m.gguf".to_string()),
        openai_key: Some("k".to_string()),
        openai_base: Some("http://o//".to_string()),
    }
}

fn pair(a: &str, b: &str) -> (String, String) {
    (a.to_string(), b.to_string())
}

#[test]
fn config_defaults() {
    let c = Config::from_env(&no_config());
    assert_eq!(c.host, "0.0.0.0");
    assert_eq!(c.port, 8000);
    assert_eq!(c.redis_url, "redis://127.0.0.1:6379");
    assert_eq!(c.ollama_url, "http://127.0.0.1:11434");
    assert_eq!(c.serper_api_key, None);
    assert_eq!(c.session_ttl_secs, 86400);
    assert_eq!(c.session_max_tokens, 4096);
    assert_eq!(c.db_path, "./hexai.db");
    assert_eq!(c.jwt_secret, "change-me-in-production");
    assert!(!c.auth_enabled);
    assert_eq!(c.rate_limit_rpm, 60);
    assert_eq!(c.cors_origins, vec!["*"]);
}

#[test]
fn config_from_variables() {
    let mut e = no_config();
    e.host = Some("::1".to_string());
    e.port = Some("70000".to_string());
    e.auth = Some("true".to_string());
    e.rate_limit_rpm = Some("4294967295".to_string());
    e.cors_origins = Some(" http://a , http://b".to_string());
    e.serper_api_key = Some("s".to_string());
    let c = Config::from_env(&e);
    assert_eq!(c.host, "::1");
    assert_eq!(c.port, 8000);
    assert!(c.auth_enabled);
    assert_eq!(c.rate_limit_rpm, u32::MAX);
    assert_eq!(c.cors_origins, vec!["http://a", "http://b"]);
    assert_eq!(c.serper_api_key, Some("s".to_string()));
    e.port = Some("8001".to_string());
    e.auth = Some("yes".to_string());
    let c = Config::from_env(&e);
    assert_eq!(c.port, 8001);
    assert!(!c.auth_enabled);
}

#[test]
fn engine_kind_names_round_trip() {
    for k in [EngineKind::Local, EngineKind::Ollama, EngineKind::OpenAI, EngineKind::Candle] {
        assert_eq!(EngineKind::from_name(&k.name()), Some(k));
    }
    assert_eq!(EngineKind::Candle.name(), "candle");
    assert_eq!(EngineKind::from_name("Ollama"), None);
    assert_eq!(EngineKind::default(), EngineKind::Ollama);
}

#[test]
fn mode_texts() {
    assert_eq!(Mode::default(), Mode::General);
    assert_eq!(Mode::General.name(), "general");
    assert_eq!(Mode::Programista.name(), "programista");
    assert_eq!(Mode::General.ollama_model(), "llama2");
    assert_eq!(Mode::Programista.ollama_model(), "codellama:7b-instruct");
    assert_eq!(Mode::General.openai_model(), "gpt-4o-mini");
    assert_eq!(Mode::Programista.openai_model(), "gpt-4o");
    assert_eq!(
        Mode::General.system_prompt(),
        "Jesteś HexAi – inteligentnym, pomocnym asystentem AI. \
         Odpowiadaj precyzyjnie, zwięźle i uprzejmie po polsku."
    );
    assert_eq!(
        Mode::Programista.system_prompt(),
        "Jesteś HexAi – ekspertem programistycznym. \
         Twój kod jest czysty, wydajny i zgodny z najlepszymi praktykami. \
         Zawsze podajesz kompletne przykłady z obsługą błędów. \
         Wyjaśniaj rozwiązania krok po kroku po polsku."
    );
}

#[test]
fn messages_of_a_conversation() {
    let m = build_messages(&[pair("a", "b")], "c");
    let seen: Vec<(String, String)> = m.into_iter().map(|x| (x.role, x.content)).collect();
    assert_eq!(seen, vec![pair("user", "a"), pair("assistant", "b"), pair("user", "c")]);
}

#[test]
fn instruct_prompt() {
    assert_eq!(
        format_prompt("S", &[pair("u", "a")], "p"),
        "[INST] <<SYS>>\nS\n<</SYS>>\n\nu [/INST] a </s><s>[INST] p [/INST]"
    );
    assert_eq!(format_prompt("S", &[], "p"), "[INST] <<SYS>>\nS\n<</SYS>>\n\np [/INST]");
}

#[test]
fn tokens_are_counted_by_turn() {
    assert_eq!(LlmEngine::count_tokens(&[pair("abc", "d"), pair("ż", "")]), 1);
    assert_eq!(LlmEngine::count_tokens(&[pair("abcd", "efgh")]), 2);
    assert_eq!(LlmEngine::count_tokens(&[]), 0);
}

#[test]
fn history_is_trimmed_from_the_front() {
    let long = "x".repeat(40);
    let mut h = vec![pair("first", &long), pair("second", &long), pair("third", &long)];
    LlmEngine::trim_history(&mut h, 22);
    assert_eq!(h.len(), 2);
    assert_eq!(h[0].0, "second");
    let kept = h.clone();
    LlmEngine::trim_history(&mut h, 22);
    assert_eq!(h, kept);
    LlmEngine::trim_history(&mut h, 0);
    assert_eq!(h.len(), 1);
    assert_eq!(h[0].0, "third");
}

#[test]
fn engine_goes_where_the_environment_says() {
    let cfg = Config::from_env(&no_config());
    let e = LlmEngine::new(&cfg, &engine_env(None), None);
    assert_eq!(e.kind, EngineKind::Ollama);
    assert!(matches!(&e.backend, Backend::Ollama { base_url } if base_url == "http://127.0.0.1:11434"));
    assert_eq!(e.info(), "ollama → llama2");
    let e = LlmEngine::new(&cfg, &engine_env(Some("openai")), None);
    assert_eq!(e.kind, EngineKind::OpenAI);
    assert!(matches!(&e.backend, Backend::OpenAI { base_url, api_key } if base_url == "http://o" && api_key == "k"));
    assert_eq!(e.info(), "openai → gpt-4o-mini");
    let e = LlmEngine::new(&cfg, &engine_env(Some("local")), None);
    assert_eq!(e.kind, EngineKind::Local);
    assert!(matches!(e.backend, Backend::Ollama { .. }));
    assert_eq!(e.model_path, None);
    let params = LocalParams::from_env(&LocalEnv {
        n_ctx: None,
        n_threads: None,
        n_gpu_layers: Some("3".to_string()),
        temp: None,
        top_p: None,
        max_tokens: None,
        cpus: Some(8),
    });
    let local = LocalEngine::load("/m.gguf", params, true, Ok(())).unwrap();
    let e = LlmEngine::new(&cfg, &engine_env(Some("local")), Some(local));
    assert_eq!(e.model_path, Some("/m.gguf".to_string()));
    assert_eq!(e.info(), "local/llama_cpp | ctx=4096 threads=8 gpu_layers=3");
    let e = LlmEngine::new(&cfg, &engine_env(Some("?")), None);
    assert_eq!(e.kind, EngineKind::Ollama);
}

#[test]
fn local_parameters_and_their_defaults() {
    let p = LocalParams::from_env(&LocalEnv {
        n_ctx: None,
        n_threads: None,
        n_gpu_layers: None,
        temp: None,
        top_p: None,
        max_tokens: None,
        cpus: None,
    });
    assert_eq!((p.n_ctx, p.n_threads, p.n_gpu_layers, p.max_tokens), (4096, 4, 0, 1024));
    assert_eq!(f32::from_bits(p.temp), 0.7);
    assert_eq!(f32::from_bits(p.top_p), 0.9);
    let p = LocalParams::from_env(&LocalEnv {
        n_ctx: Some("2048".to_string()),
        n_threads: Some("x".to_string()),
        n_gpu_layers: None,
        temp: Some(0.25f32.to_bits()),
        top_p: None,
        max_tokens: Some("7".to_string()),
        cpus: Some(12),
    });
    assert_eq!((p.n_ctx, p.n_threads, p.max_tokens), (2048, 12, 7));
    assert_eq!(f32::from_bits(p.temp), 0.25);
}

#[test]
fn requests_go_to_the_backend() {
    let cfg = Config::from_env(&no_config());
    let mut e = LlmEngine::new(&cfg, &engine_env(Some("ollama")), None);
    e.mode = Mode::Programista;
    e.kind = EngineKind::OpenAI;
    match e.request("p", &[pair("u", "a")]) {
        EngineRequest::Ollama { url, model, messages } => {
            assert_eq!(url, "http://127.0.0.1:11434/api/chat");
            assert_eq!(model, "codellama:7b-instruct");
            assert_eq!(messages.len(), 4);
            assert_eq!(messages[0].role, "system");
            assert_eq!(messages[0].content, Mode::Programista.system_prompt());
            assert_eq!(messages[3].content, "p");
        }
        _ => panic!("another backend"),
    }
    let e = LlmEngine::new(&cfg, &engine_env(Some("openai")), None);
    let params = LocalParams::from_env(&LocalEnv {
        n_ctx: None,
        n_threads: None,
        n_gpu_layers: None,
        temp: None,
        top_p: None,
        max_tokens: None,
        cpus: None,
    });
    let local = LlmEngine::new(&cfg, &engine_env(Some("local")), Some(LocalEngine { params }));
    match local.request("p", &[]) {
        EngineRequest::Local { prompt } => {
            assert_eq!(prompt, format_prompt(Mode::General.system_prompt(), &[], "p"))
        }
        _ => panic!("another backend"),
    }
    match e.request("p", &[]) {
        EngineRequest::OpenAI { url, api_key, model, messages } => {
            assert_eq!(url, "http://o/v1/chat/completions");
            assert_eq!(api_key, "k");
            assert_eq!(model, "gpt-4o-mini");
            assert_eq!(messages.len(), 2);
        }
        _ => panic!("another backend"),
    }
    let copy = e.copy();
    assert_eq!(copy.kind, e.kind);
    assert_eq!(copy.info(), e.info());
}

#[test]
fn engine_failures() {
    assert_eq!(
        ollama_unreachable("refused").message(),
        "Engine error: Ollama unreachable: refused. Is `ollama serve` running?"
    );
    assert_eq!(
        http_failure("OpenAI", "500 Internal Server Error", "boom").message(),
        "Engine error: OpenAI HTTP 500 Internal Server Error: boom"
    );
    assert_eq!(model_unusable("bad").message(), "Engine error: Błąd ładowania modelu: bad");
    let params = LocalParams::from_env(&LocalEnv {
        n_ctx: None,
        n_threads: None,
        n_gpu_layers: None,
        temp: None,
        top_p: None,
        max_tokens: None,
        cpus: None,
    });
    let e = LocalEngine::load("/x", params, false, Ok(())).unwrap_err();
    assert_eq!(e.message(), model_missing("/x").message());
    let e = LocalEngine::load("/x", params, true, Err("bad".to_string())).unwrap_err();
    assert_eq!(e.message(), model_unusable("bad").message());
    let missing = model_missing("/x").message();
    assert!(missing.starts_with("Engine error: Model GGUF nie znaleziony: /x"));
    assert!(missing.ends_with(MODEL_HINT));
    assert!(missing.contains("export HEXAI_ENGINE=local"));
}

#[test]
fn errors_and_their_answers() {
    let cases: Vec<(HexError, u16, &str)> = vec![
        (HexError::Redis("x".to_string()), 500, "Redis error: x"),
        (HexError::Io("x".to_string()), 500, "IO error: x"),
        (HexError::Http("x".to_string()), 500, "HTTP error: x"),
        (HexError::Json("x".to_string()), 500, "JSON error: x"),
        (HexError::NotFound("x".to_string()), 404, "Not found: x"),
        (HexError::BadRequest("x".to_string()), 400, "Bad request: x"),
        (HexError::Engine("x".to_string()), 500, "Engine error: x"),
        (HexError::Internal("x".to_string()), 500, "Internal: x"),
    ];
    for (e, status, text) in cases {
        assert_eq!(e.message(), text);
        assert_eq!(e.into_response(), (status, text.to_string()));
    }
}

fn polled(b: &mut SseBuffer) -> Vec<String> {
    let mut out = vec![];
    loop {
        match b.poll() {
            SsePoll::Data(d) => out.push(d),
            SsePoll::Done => {
                out.push("DONE".to_string());
                return out;
            }
            SsePoll::NeedMore => return out,
        }
    }
}

#[test]
fn events_are_read_whole() {
    let mut b = SseBuffer::new();
    b.feed(b": note\n\ndata: one\r\n\ndata: tw");
    assert_eq!(polled(&mut b), vec!["one"]);
    b.feed("o ż\ndata: [DONE]\ndata: three\n".as_bytes());
    assert_eq!(polled(&mut b), vec!["two ż", "DONE"]);
    assert_eq!(polled(&mut b), vec!["three"]);
}

#[test]
fn events_do_not_depend_on_how_they_arrive() {
    let all = "data: a\n\nid: 1\n  data: b  \ndata:c\ndata: d\n";
    let mut whole = SseBuffer::new();
    whole.feed(all.as_bytes());
    let expected = polled(&mut whole);
    assert_eq!(expected, vec!["a", "b", "d"]);
    for cut in 0..all.len() {
        let mut b = SseBuffer::new();
        b.feed(&all.as_bytes()[..cut]);
        let mut seen = polled(&mut b);
        b.feed(&all.as_bytes()[cut..]);
        seen.extend(polled(&mut b));
        assert_eq!(seen, expected);
    }
}

#[test]
fn bytes_that_are_no_text_are_dropped() {
    let mut b = SseBuffer::new();
    b.feed(b"data: \xff\n");
    b.feed(b"data: x\n");
    assert_eq!(polled(&mut b), vec!["x"]);
    assert!(reply_lines(b"{}\n\xff").is_empty());
}

#[test]
fn empty_parts_say_nothing() {
    let parts = vec!["a".to_string(), String::new(), "b".to_string()];
    assert_eq!(spoken_parts(&parts), vec!["a", "b"]);
}

#[test]
fn lines_end_as_in_std() {
    for s in ["", "\n", "a", "a\n", "a\r\nb", "a\r", "a\n\nb\n", "\r\n", "a\rb\n", "\r\r\n"] {
        let std_lines: Vec<String> = s.lines().map(|l| l.to_string()).collect();
        assert_eq!(split_lines(s), std_lines);
    }
    assert_eq!(reply_lines(b"{1}\n\n{2}\r\n"), vec!["{1}", "{2}"]);
}

#[test]
fn reply_ends_with_the_line_that_says_so() {
    let p = |s: &str, d: bool| Some((s.to_string(), d));
    let (parts, done) = reply_parts(&vec![p("a", false), None, p("b", true), p("c", false)]);
    assert_eq!(parts, vec!["a", "b"]);
    assert!(done);
    let (parts, done) = reply_parts(&vec![None, p("", false)]);
    assert_eq!(parts, vec![""]);
    assert!(!done);
}

#[test]
fn reply_is_put_together_or_fails() {
    let ok = |s: &str| Ok(s.to_string());
    assert_eq!(collect_reply(vec![ok(" a"), ok("b ")], true).unwrap(), "ab");
    assert_eq!(collect_reply(vec![ok(" a"), ok("b ")], false).unwrap(), " ab ");
    assert_eq!(collect_reply(vec![], true).unwrap(), "");
    let r = collect_reply(
        vec![ok("a"), Err(HexError::Engine("x".to_string())), Err(HexError::Io("y".to_string()))],
        false,
    );
    assert_eq!(r.unwrap_err().message(), "Engine error: x");
}
