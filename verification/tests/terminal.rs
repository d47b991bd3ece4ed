use hexai::tui::api::{endpoint, stream_event, stream_step, Arrival, Stats, StreamEvent, Vram, API_BASE};
use hexai::tui::app::{
    App, KeyCode, KeyOutcome, KeyPress, Role, Screen, CONTROL, OLLAMA_DOWN, SCROLL_END,
    SERVER_DOWN, SHIFT,
};
use hexai::tui::ui::{
    draw, draw_help_overlay, draw_settings_overlay, modal, render_ai_line, render_divider,
    render_header, render_input, render_messages, render_statusbar, speech_lines, Areas, Paint,
    Span, Style,
};

fn key(code: KeyCode) -> KeyPress {
    KeyPress { modifiers: 0, code }
}

fn ctrl(c: char) -> KeyPress {
    KeyPress { modifiers: CONTROL, code: KeyCode::Char(c) }
}

fn typed(app: &mut App, s: &str) {
    for c in s.chars() {
        app.insert_char(c);
    }
}

fn plain(l: &[Span]) -> String {
    l.iter().map(|s| s.content.as_str()).collect()
}

fn all_plain(l: &[Vec<Span>]) -> Vec<String> {
    l.iter().map(|x| plain(x)).collect()
}

fn contents(app: &App) -> Vec<String> {
    app.messages.iter().map(|m| m.content.clone()).collect()
}

fn areas() -> Areas {
    Areas { width: 100, height: 40, divider_width: 5, view_width: 60, view_height: 4 }
}

// ── Events ──

#[test]
fn bytes_become_events() {
    assert!(matches!(stream_event(Ok("ż".as_bytes().to_vec())), Some(StreamEvent::Token(t)) if t == "ż"));
    assert!(stream_event(Ok(vec![0xff])).is_none());
    assert!(matches!(stream_event(Err("e".to_string())), Some(StreamEvent::Error(t)) if t == "e"));
    assert_eq!(endpoint("/chat"), format!("{API_BASE}/chat"));
    assert_eq!(endpoint("/stats"), "http://localhost:8000/stats");
}

#[test]
fn interface_starts_empty() {
    let app = App::default();
    assert_eq!(app.screen, Screen::Chat);
    assert_eq!((app.engine.as_str(), app.mode.as_str()), ("transformers", "general"));
    assert!(app.messages.is_empty() && app.input.is_empty() && !app.loading && !app.stats_loaded);
    assert!(app.stats_due(0));
}

#[test]
fn status_goes_after_four_seconds() {
    let mut app = App::default();
    app.set_status("a", false, 1000);
    app.tick_status(4999);
    assert_eq!(app.status_msg, Some(("a".to_string(), false)));
    app.tick_status(5000);
    assert_eq!(app.status_msg, None);
    app.set_status("e", true, 0);
    app.tick_status(u64::MAX);
    assert_eq!(app.status_msg, Some(("e".to_string(), true)));
    app.clear_status();
    assert_eq!((app.status_msg, app.status_clear_at), (None, None));
}

#[test]
fn stats_are_asked_for_every_five_seconds() {
    let mut app = App::default();
    app.stats_asked(1000);
    assert!(!app.stats_due(5999));
    assert!(app.stats_due(6000));
    app.apply_stats(Stats {
        engine: "ollama".to_string(),
        mode: "programista".to_string(),
        vram: None,
        active_sessions: 3,
        model_loaded: true,
    });
    assert_eq!((app.engine.as_str(), app.mode.as_str()), ("ollama", "programista"));
    assert!(app.stats_loaded);
    assert_eq!(app.stats.unwrap().active_sessions, 3);
}

#[test]
fn typing_and_deleting() {
    let mut app = App::default();
    typed(&mut app, "aż");
    assert_eq!((app.input.as_str(), app.input_cursor), ("aż", 3));
    app.input_cursor = 1;
    app.insert_char('ó');
    assert_eq!((app.input.as_str(), app.input_cursor), ("aóż", 3));
    app.delete_char_back();
    assert_eq!((app.input.as_str(), app.input_cursor), ("aż", 1));
    app.delete_char_back();
    app.delete_char_back();
    assert_eq!((app.input.as_str(), app.input_cursor), ("ż", 0));
}

#[test]
fn deleting_undoes_typing() {
    for c in ['x', 'ż', '€', '😀'] {
        let mut app = App::default();
        typed(&mut app, "kot");
        app.input_cursor = 2;
        app.insert_char(c);
        app.delete_char_back();
        assert_eq!((app.input.as_str(), app.input_cursor), ("kot", 2));
    }
}

#[test]
fn only_moves_put_the_cursor_inside_a_character() {
    let mut app = App::default();
    for code in [
        KeyCode::Char('ż'),
        KeyCode::Char('😀'),
        KeyCode::Backspace,
        KeyCode::Up,
        KeyCode::Other,
        KeyCode::Esc,
    ] {
        app.handle_key(key(code), 0, "t");
        assert!(app.input.is_char_boundary(app.input_cursor));
    }
    app.handle_key(key(KeyCode::Left), 0, "t");
    assert!(!app.input.is_char_boundary(app.input_cursor));
}

#[test]
fn a_new_conversation_starts_over() {
    let mut app = App::default();
    typed(&mut app, "cześć");
    app.handle_key(key(KeyCode::Enter), 0, "12:00");
    app.session_id = Some("s".to_string());
    app.handle_key(ctrl('n'), 10, "12:00");
    assert!(app.messages.is_empty() && !app.loading && app.inbox.is_none());
    assert_eq!(app.session_id, None);
    assert_eq!(app.status_msg, Some(("Nowa rozmowa".to_string(), false)));
    assert_eq!((app.status_clear_at, app.scroll_offset), (Some(4010), 0));
}

#[test]
fn events_wait_in_the_inbox() {
    let mut app = App::default();
    app.deliver(StreamEvent::Done);
    assert!(app.drain_stream_events().is_empty());
    typed(&mut app, "x");
    app.handle_key(key(KeyCode::Enter), 0, "t");
    app.deliver(StreamEvent::Token("a".to_string()));
    app.deliver(StreamEvent::Done);
    assert_eq!(app.drain_stream_events().len(), 2);
    assert!(app.drain_stream_events().is_empty());
    assert!(app.inbox.is_some());
}

#[test]
fn a_reply_is_streamed_into_the_last_message() {
    let mut app = App::default();
    typed(&mut app, "hej");
    app.handle_key(key(KeyCode::Enter), 0, "12:00");
    app.scroll_offset = 0;
    app.apply_stream_event(StreamEvent::Token("Dzień ".to_string()), 0, "12:01");
    app.apply_stream_event(StreamEvent::Token("dobry".to_string()), 0, "12:02");
    assert_eq!(contents(&app), vec!["hej", "Dzień dobry"]);
    assert_eq!(app.messages[1].ts, "12:00");
    assert_eq!(app.scroll_offset, SCROLL_END);
    app.set_status("i", false, 0);
    app.apply_stream_event(StreamEvent::Done, 0, "12:03");
    assert!(!app.loading && app.stream_buf.is_empty() && app.inbox.is_none());
    assert_eq!(app.status_msg, None);
}

#[test]
fn events_are_taken_in_order() {
    let mut app = App::default();
    typed(&mut app, "hej");
    app.handle_key(key(KeyCode::Enter), 0, "12:00");
    app.apply_stream_events(
        vec![
            StreamEvent::Token("a".to_string()),
            StreamEvent::Token("b".to_string()),
            StreamEvent::Done,
            StreamEvent::Token("c".to_string()),
        ],
        0,
        "12:01",
    );
    assert_eq!(contents(&app), vec!["hej", "c"]);
    assert!(!app.loading);
    assert_eq!(app.stream_buf, "c");
}

#[test]
fn a_token_without_a_message_makes_one() {
    let mut app = App::default();
    app.apply_stream_event(StreamEvent::Token("a".to_string()), 0, "12:01");
    assert_eq!(contents(&app), vec!["a"]);
    assert_eq!(app.messages[0].role, Role::Assistant);
    assert_eq!(app.messages[0].ts, "12:01");
}

#[test]
fn an_error_is_kept_when_the_stream_ends() {
    let mut app = App::default();
    app.set_status("e", true, 0);
    app.apply_stream_event(StreamEvent::Done, 0, "t");
    assert_eq!(app.status_msg, Some(("e".to_string(), true)));
}

#[test]
fn errors_are_shown_in_words() {
    let mut app = App::default();
    typed(&mut app, "hej");
    app.handle_key(key(KeyCode::Enter), 0, "12:00");
    let e = format!("Ollama unreachable: {}", "x".repeat(100));
    app.apply_stream_event(StreamEvent::Error(e), 0, "12:01");
    assert_eq!(contents(&app), vec!["hej".to_string(), OLLAMA_DOWN.to_string()]);
    let (status, is_err) = app.status_msg.clone().unwrap();
    assert!(is_err);
    assert_eq!(status.chars().count(), 6 + 60);
    assert!(!app.loading);
    app.push_error_bubble("Connection refused (111)", "12:02");
    assert_eq!(app.messages[2].content, format!("{SERVER_DOWN}Connection refused (111)"));
    assert_eq!(app.scroll_offset, SCROLL_END);
    app.push_error_bubble("inny", "12:03");
    assert_eq!(app.messages[3].content, "❌ inny");
    app.push_error_bubble("error sending request", "12:03");
    assert_eq!(
        app.messages[4].content,
        "❌ Nie mogę się połączyć z Ollama.\n\nUruchom Ollama w osobnym terminalu:\n  ollama serve\n\n\
         Następnie pobierz model (jeśli jeszcze nie masz):\n  ollama pull llama2\n\n\
         Lub przełącz silnik na OpenAI (Ctrl+S → Ustawienia)."
    );
}

// ── Keys ──

#[test]
fn keys_that_end_the_interface() {
    let mut app = App::default();
    assert!(matches!(app.handle_key(ctrl('c'), 0, "t"), KeyOutcome::Quit));
    assert!(matches!(app.handle_key(ctrl('q'), 0, "t"), KeyOutcome::Quit));
    let shifted = KeyPress { modifiers: CONTROL | SHIFT, code: KeyCode::Char('c') };
    assert!(matches!(app.handle_key(shifted, 0, "t"), KeyOutcome::Stay));
    assert_eq!(app.input, "c");
}

#[test]
fn a_message_is_sent_once() {
    let mut app = App::default();
    assert!(matches!(app.handle_key(key(KeyCode::Enter), 0, "t"), KeyOutcome::Stay));
    typed(&mut app, "  hej ");
    let shifted = KeyPress { modifiers: SHIFT, code: KeyCode::Enter };
    assert!(matches!(app.handle_key(shifted, 0, "t"), KeyOutcome::Stay));
    app.set_status("e", true, 0);
    match app.handle_key(key(KeyCode::Enter), 0, "12:00") {
        KeyOutcome::Send { session_id, message } => {
            assert_eq!(session_id, None);
            assert_eq!(message, "hej");
        }
        _ => panic!("it is sent"),
    }
    assert_eq!(contents(&app), vec!["hej", ""]);
    assert_eq!(app.messages[0].role, Role::User);
    assert!(app.loading && app.input.is_empty() && app.status_msg.is_none());
    typed(&mut app, "drugi");
    assert!(matches!(app.handle_key(key(KeyCode::Enter), 0, "t"), KeyOutcome::Stay));
    assert_eq!(app.input, "drugi");
}

#[test]
fn help_is_asked_for_and_closed() {
    let mut app = App::default();
    app.handle_key(key(KeyCode::Char('?')), 0, "t");
    assert_eq!(app.screen, Screen::Help);
    app.handle_key(key(KeyCode::Char('x')), 0, "t");
    assert_eq!(app.screen, Screen::Chat);
    assert!(app.input.is_empty());
    typed(&mut app, "co");
    app.handle_key(key(KeyCode::Char('?')), 0, "t");
    assert_eq!((app.screen, app.input.as_str()), (Screen::Chat, "co?"));
}

#[test]
fn any_key_closes_help() {
    for k in [ctrl('n'), key(KeyCode::Esc), key(KeyCode::Enter), key(KeyCode::Other)] {
        let mut app = App::default();
        app.screen = Screen::Help;
        assert!(matches!(app.handle_key(k, 0, "t"), KeyOutcome::Stay));
        assert_eq!(app.screen, Screen::Chat);
    }
    let mut app = App::default();
    app.screen = Screen::Help;
    app.handle_key(ctrl('s'), 0, "t");
    assert_eq!(app.screen, Screen::Settings);
    app.handle_key(ctrl('n'), 0, "t");
    assert_eq!(app.screen, Screen::Settings);
}

#[test]
fn shift_enter_breaks_the_line() {
    let mut app = App::default();
    typed(&mut app, "ab");
    let shifted = KeyPress { modifiers: SHIFT, code: KeyCode::Enter };
    assert!(matches!(app.handle_key(shifted, 0, "t"), KeyOutcome::Stay));
    assert_eq!((app.input.as_str(), app.input_cursor), ("ab\n", 3));
    assert!(app.messages.is_empty());
    app.handle_key(key(KeyCode::Left), 0, "t");
    app.handle_key(key(KeyCode::Left), 0, "t");
    let both = KeyPress { modifiers: CONTROL | SHIFT, code: KeyCode::Enter };
    app.handle_key(both, 0, "t");
    assert_eq!((app.input.as_str(), app.input_cursor), ("a\nb\n", 2));
    match app.handle_key(key(KeyCode::Enter), 0, "t") {
        KeyOutcome::Send { message, .. } => assert_eq!(message, "a\nb"),
        _ => panic!("it is sent"),
    }
}

#[test]
fn a_stream_ends_once() {
    let (ev, last) = stream_step(Arrival::Chunk("ż".as_bytes().to_vec()));
    assert!(matches!(ev, Some(StreamEvent::Token(t)) if t == "ż"));
    assert!(!last);
    let (ev, last) = stream_step(Arrival::Chunk(vec![0xff]));
    assert!(ev.is_none() && !last);
    let (ev, last) = stream_step(Arrival::End);
    assert!(matches!(ev, Some(StreamEvent::Done)) && last);
    let (ev, last) = stream_step(Arrival::Failure("e".to_string()));
    assert!(matches!(ev, Some(StreamEvent::Error(t)) if t == "e"));
    assert!(last);
}

#[test]
fn settings_are_chosen() {
    let mut app = App::default();
    app.handle_key(ctrl('s'), 0, "t");
    assert_eq!(app.screen, Screen::Settings);
    app.handle_key(key(KeyCode::Up), 0, "t");
    assert_eq!(app.settings_cursor, 0);
    app.handle_key(key(KeyCode::Char('j')), 0, "t");
    match app.handle_key(key(KeyCode::Enter), 7, "t") {
        KeyOutcome::SetEngine(e) => assert_eq!(e, "ollama"),
        _ => panic!("an engine was chosen"),
    }
    assert_eq!((app.screen, app.engine.as_str()), (Screen::Chat, "ollama"));
    assert_eq!(app.status_msg, Some(("Silnik: CPU (Ollama)".to_string(), false)));
    app.handle_key(ctrl('s'), 0, "t");
    for _ in 0..5 {
        app.handle_key(key(KeyCode::Down), 0, "t");
    }
    assert_eq!(app.settings_cursor, 3);
    assert!(matches!(
        app.handle_key(key(KeyCode::Char(' ')), 0, "t"),
        KeyOutcome::SetMode(m) if m == "programista"
    ));
    app.handle_key(ctrl('s'), 0, "t");
    app.handle_key(key(KeyCode::Char('k')), 0, "t");
    assert!(matches!(
        app.handle_key(key(KeyCode::Enter), 0, "t"),
        KeyOutcome::SetMode(m) if m == "general"
    ));
    assert_eq!(app.status_msg, Some(("Tryb: Ogólny".to_string(), false)));
    app.handle_key(ctrl('s'), 0, "t");
    app.handle_key(key(KeyCode::Esc), 0, "t");
    assert_eq!(app.screen, Screen::Chat);
    app.settings_cursor = 0;
    app.handle_key(ctrl('s'), 0, "t");
    assert!(matches!(
        app.handle_key(key(KeyCode::Enter), 0, "t"),
        KeyOutcome::SetEngine(e) if e == "transformers"
    ));
    app.handle_key(ctrl('s'), 0, "t");
    app.handle_key(ctrl('s'), 0, "t");
    assert_eq!(app.screen, Screen::Chat);
}

#[test]
fn keys_scroll_and_move() {
    let mut app = App::default();
    app.handle_key(key(KeyCode::Up), 0, "t");
    assert_eq!(app.scroll_offset, 0);
    app.handle_key(key(KeyCode::Down), 0, "t");
    app.handle_key(key(KeyCode::PageDown), 0, "t");
    assert_eq!(app.scroll_offset, 11);
    app.handle_key(key(KeyCode::PageUp), 0, "t");
    app.handle_key(key(KeyCode::PageUp), 0, "t");
    assert_eq!(app.scroll_offset, 0);
    app.scroll_offset = SCROLL_END;
    app.handle_key(key(KeyCode::PageDown), 0, "t");
    assert_eq!(app.scroll_offset, SCROLL_END);
    typed(&mut app, "ab");
    app.handle_key(key(KeyCode::Right), 0, "t");
    assert_eq!(app.input_cursor, 2);
    app.handle_key(key(KeyCode::Left), 0, "t");
    app.handle_key(key(KeyCode::Char('x')), 0, "t");
    assert_eq!((app.input.as_str(), app.input_cursor), ("axb", 2));
    app.handle_key(key(KeyCode::Backspace), 0, "t");
    app.handle_key(key(KeyCode::Left), 0, "t");
    app.handle_key(key(KeyCode::Left), 0, "t");
    assert_eq!(app.input_cursor, 0);
    app.handle_key(key(KeyCode::Other), 0, "t");
    assert_eq!(app.input, "ab");
}

#[test]
fn a_key_clears_an_error() {
    let mut app = App::default();
    app.set_status("e", true, 0);
    app.handle_key(key(KeyCode::Other), 0, "t");
    assert_eq!(app.status_msg, None);
    app.set_status("i", false, 0);
    app.handle_key(key(KeyCode::Other), 0, "t");
    assert!(app.status_msg.is_some());
}

// ── What is shown ──

#[test]
fn header_tells_of_engine_mode_and_model() {
    let mut app = App::default();
    let (l, r) = render_header(&app);
    assert_eq!(plain(&l), "⬡ HexAi  v2.0.0");
    assert_eq!(plain(&r), " GPU   Ogólny  ○ offline");
    app.apply_stats(Stats {
        engine: "ollama".to_string(),
        mode: "programista".to_string(),
        vram: None,
        active_sessions: 0,
        model_loaded: true,
    });
    let (_, r) = render_header(&app);
    assert_eq!(plain(&r), " CPU   Dev  ● model");
    assert_eq!(r[4].style, Style { fg: Some(Paint::Green), bg: None, bold: false });
    assert_eq!(render_divider(3), "───");
    assert_eq!(Paint::Accent.rgb(), Some((217, 119, 6)));
    assert_eq!(Paint::Black.rgb(), None);
}

#[test]
fn code_is_set_apart() {
    let shown = |s: &str| {
        render_ai_line(s).into_iter().map(|x| (x.content, x.style.bold)).collect::<Vec<_>>()
    };
    let s = |t: &str, b: bool| (t.to_string(), b);
    assert_eq!(shown("a `b` c"), vec![s("  ", false), s("a ", false), s("b", true), s(" c", false)]);
    assert_eq!(shown("a `b"), vec![s("  ", false), s("a ", false), s("`", false), s("b", false)]);
    assert_eq!(shown("``x"), vec![s("  ", false), s("", true), s("x", false)]);
    assert_eq!(shown(""), vec![s("  ", false)]);
    assert_eq!(shown("`ż``ó`"), vec![s("  ", false), s("ż", true), s("ó", true)]);
}

#[test]
fn only_backticks_are_lost() {
    for s in ["a `b` c", "`", "``", "```x`", "brak", "`a` `b` `"] {
        let shown: String = plain(&render_ai_line(s)[1..]).replace('`', "");
        assert_eq!(shown, s.replace('`', ""));
    }
}

#[test]
fn conversation_is_wrapped() {
    let mut app = App::default();
    let l = render_messages(&mut app, 60, 10);
    assert_eq!(l.len(), 7);
    assert_eq!(plain(&l[3]), "        Jak mogę Ci dziś pomóc?");
    typed(&mut app, "jeden dwa trzy");
    app.handle_key(key(KeyCode::Enter), 0, "12:00");
    let l = render_messages(&mut app, 18, 4);
    assert_eq!(
        all_plain(&l),
        vec![
            "  Ty  12:00", "  jeden dwa", "  trzy", "", "  HexAi  12:00", "  ", "", "  HexAi",
            "  ⣾ myślę…", ""
        ]
    );
    assert_eq!(app.scroll_offset, 6);
    app.scroll_offset = 2;
    render_messages(&mut app, 18, 4);
    assert_eq!(app.scroll_offset, 2);
    render_messages(&mut app, 18, 100);
    assert_eq!(app.scroll_offset, 0);
    let broken = vec!["x".to_string(), "`y`".to_string()];
    assert_eq!(all_plain(&speech_lines(Role::User, &broken)), vec!["  x", "  `y`"]);
    assert_eq!(all_plain(&speech_lines(Role::Assistant, &broken)), vec!["  x", "  y"]);
}

#[test]
fn scroll_settles_at_the_end() {
    let mut app = App::default();
    typed(&mut app, "a");
    app.handle_key(key(KeyCode::Enter), 0, "t");
    app.scroll_offset = SCROLL_END;
    let n = render_messages(&mut app, 40, 3).len();
    let settled = app.scroll_offset;
    assert_eq!(settled as usize, n - 3);
    render_messages(&mut app, 40, 3);
    assert_eq!(app.scroll_offset, settled);
}

#[test]
fn input_shows_the_cursor() {
    let mut app = App::default();
    typed(&mut app, "żółw");
    let l = render_input(&app, 0);
    assert_eq!(plain(&l[0]), "żółw ");
    assert_eq!(plain(&l[1]), " Enter wyślij · Shift+Enter nowa linia · Ctrl+N nowa · ? pomoc");
    app.input_cursor = 4;
    let l = render_input(&app, 0);
    let pieces: Vec<&str> = l[0].iter().map(|s| s.content.as_str()).collect();
    assert_eq!(pieces, vec!["żó", "ł", "w"]);
    app.loading = true;
    assert_eq!(plain(&render_input(&app, 119)[1]), " ⣾ Generowanie…");
    assert_eq!(plain(&render_input(&app, 120 * 11)[1]), " ⢿ Generowanie…");
}

#[test]
fn status_bar_tells_of_keys_and_state() {
    let keys = " Ctrl+N  Nowa   Ctrl+S  Ustawienia   ?  Pomoc   Ctrl+C  Wyjście  ";
    let mut app = App::default();
    assert_eq!(plain(&render_statusbar(&app)), keys);
    app.stats = Some(Stats {
        engine: String::new(),
        mode: String::new(),
        vram: Some(Vram { percent: 51, used: "4.1".to_string(), total: "8.0".to_string() }),
        active_sessions: 2,
        model_loaded: false,
    });
    assert_eq!(plain(&render_statusbar(&app)), format!("{keys} VRAM 51% · 2 sesji "));
    app.set_status("błąd", true, 0);
    let l = render_statusbar(&app);
    assert_eq!(plain(&l), format!("{keys} błąd "));
    assert_eq!(l[8].style.fg, Some(Paint::Red));
}

#[test]
fn settings_show_what_is_chosen() {
    let mut app = App::default();
    app.settings_cursor = 1;
    let l = draw_settings_overlay(&app);
    assert_eq!(
        all_plain(&l),
        vec![
            "", "SILNIK", "  ● ⚡ Transformers (GPU)", "  ○ 🖥  Ollama (CPU)", "TRYB",
            "  ● 💬 Ogólny", "  ○ 💻 Programista (Dev)", "",
            "  ↑↓/jk Nawiguj · Enter Wybierz · Esc Zamknij"
        ]
    );
    assert_eq!(l[3][0].style, Style { fg: Some(Paint::Primary), bg: Some(Paint::Marked), bold: false });
    let vram = |p: u64| Stats {
        engine: String::new(),
        mode: String::new(),
        vram: Some(Vram { percent: p, used: "1.0".to_string(), total: "2.0".to_string() }),
        active_sessions: 0,
        model_loaded: false,
    };
    app.stats = Some(vram(62));
    let l = draw_settings_overlay(&app);
    assert_eq!(plain(&l[9]), format!("  {}{} 62% (1.0/2.0GB)", "█".repeat(12), "░".repeat(8)));
    assert_eq!(l[9][0].style.fg, Some(Paint::Accent));
    app.stats = Some(vram(u64::MAX));
    let l = draw_settings_overlay(&app);
    assert_eq!(plain(&l[9]), format!("  {} 65535% (1.0/2.0GB)", "█".repeat(20)));
    assert_eq!(l[9][0].style.fg, Some(Paint::Red));
}

#[test]
fn help_lists_the_keys() {
    let l = all_plain(&draw_help_overlay());
    assert_eq!(l.len(), 13);
    assert_eq!(l[1], format!("  {:<18}Wyślij wiadomość", "Enter"));
    assert_eq!(l[5], format!("  {:<18}Przewijaj historię", "↑↓ / PgUp/PgDn"));
    assert_eq!(l[12], "  Naciśnij dowolny klawisz aby zamknąć");
}

#[test]
fn windows_are_centered_and_fit() {
    let m = modal(100, 40, 44, 18);
    assert_eq!((m.x, m.y, m.width, m.height), (28, 11, 44, 18));
    let m = modal(30, 10, 44, 18);
    assert_eq!((m.x, m.y, m.width, m.height), (0, 0, 30, 10));
}

#[test]
fn scene_of_every_screen() {
    let mut app = App::default();
    let s = draw(&mut app, &areas(), 0);
    assert!(s.overlay.is_none());
    assert_eq!(s.chat.divider, "─────");
    assert_eq!(s.chat.messages.len(), 7);
    app.screen = Screen::Help;
    let o = draw(&mut app, &areas(), 0).overlay.unwrap();
    assert_eq!(o.title, " ⬡  HexAi – Pomoc ");
    assert_eq!((o.area.x, o.area.width), (25, 50));
    app.screen = Screen::Settings;
    let o = draw(&mut app, &areas(), 0).overlay.unwrap();
    assert_eq!(o.title, " ⚙  Ustawienia ");
    assert_eq!((o.area.y, o.area.height), (11, 18));
    assert_eq!(o.lines.len(), 9);
}
