use hexai::builder::{
    auto_detect_requirements, cannot_run, count_lines, count_requirements, find_executable,
    missing_source, plan_requirements, print_step, run_failed, BuilderConfig, RequirementsPlan, BUILDER_HELP, PYOXIDIZER_CONFIG, STEPS,
};
use hexai::config::{Config, ConfigEnv};
use hexai::launcher::{
    cannot_bind, get_api_base, gui_url, listen_address, log_filter, parse_flags, wait_step, Launch,
    WaitStep, HELP,
};

fn args(list: &[&str]) -> Vec<String> {
    list.iter().map(|s| s.to_string()).collect()
}

fn settings(list: &[&str]) -> Option<(String, String, bool)> {
    BuilderConfig::from_args(&args(list)).map(|c| (c.source_dir, c.out_dir, c.skip_cleanup))
}

#[test]
fn launch_by_arguments() {
    assert_eq!(parse_flags(&args(&["hexai"])).launch, Launch::Tui);
    assert_eq!(parse_flags(&args(&["hexai", "--server"])).launch, Launch::Server);
    assert_eq!(parse_flags(&args(&["hexai", "--server", "--with-gui"])).launch, Launch::Gui);
    assert_eq!(parse_flags(&args(&["hexai", "--with-gui", "-h"])).launch, Launch::Help);
    let f = parse_flags(&args(&["hexai", "-v", "--help"]));
    assert!(f.verbose && f.launch == Launch::Help);
    assert!(!parse_flags(&args(&["hexai", "--Verbose"])).verbose);
    assert!(HELP.starts_with("\n⬡  HexAi v2.0.0\n"));
}

#[test]
fn log_and_addresses() {
    assert_eq!(log_filter(false), "hexai_backend=info,hexai=info,warn");
    assert_eq!(log_filter(true), "hexai_backend=debug,hexai=debug,warn");
    assert_eq!(gui_url(&None), "http://127.0.0.1:8000/gui");
    assert_eq!(gui_url(&Some("9000".to_string())), "http://127.0.0.1:9000/gui");
    assert_eq!(gui_url(&Some("99999".to_string())), "http://127.0.0.1:8000/gui");
    assert_eq!(get_api_base(&None), "http://localhost:8000");
    assert_eq!(get_api_base(&Some("x".to_string())), "x");
    assert_eq!(cannot_bind("a:1", "zajęty"), "Nie można zbindować a:1: zajęty");
    let cfg = Config::from_env(&ConfigEnv {
        host: Some("h".to_string()),
        port: Some("65535".to_string()),
        redis_url: None,
        ollama_url: None,
        serper_api_key: None,
        db_path: None,
        jwt_secret: None,
        auth: None,
        rate_limit_rpm: None,
        cors_origins: None,
    });
    assert_eq!(listen_address(&cfg), "h:65535");
}

#[test]
fn builder_arguments() {
    let s = |a: &str, b: &str, c: bool| Some((a.to_string(), b.to_string(), c));
    assert_eq!(settings(&["b"]), s("./source-code", ".", false));
    assert_eq!(settings(&[]), s("./source-code", ".", false));
    assert_eq!(settings(&["b", "-s", "src", "--out", "o", "--no-cleanup"]), s("src", "o", true));
    assert_eq!(settings(&["b", "--source", "a", "-s", "--help"]), s("--help", ".", false));
    assert_eq!(settings(&["b", "-o"]), s("./source-code", ".", false));
    assert_eq!(settings(&["b", "x", "--help", "-s", "y"]), None);
    assert_eq!(settings(&["b", "-h"]), None);
    assert!(BUILDER_HELP.starts_with("HexAi Builder\n"));
}

#[test]
fn requirements_are_detected() {
    let code = "import torch\nfrom llama_index.core import x\nimport os\nfrom rank_bm25 import y\n";
    assert_eq!(auto_detect_requirements(code), "torch\nllama-index\nrank-bm25");
    assert_eq!(auto_detect_requirements(""), "");
    assert_eq!(count_lines(&auto_detect_requirements(code)), 3);
    assert_eq!(count_lines(""), 0);
}

#[test]
fn requirements_are_counted() {
    assert_eq!(count_requirements("torch\n\n # note\n  redis \n#x\nrich"), 3);
    assert_eq!(count_requirements(""), 0);
}

#[test]
fn executable_is_found() {
    let e = |n: &str, f: bool| (n.to_string(), f);
    let list = vec![e("hexai", false), e("hexai.exe", true), e("hexai", true), e("hexai", true)];
    assert_eq!(find_executable(&list, false), Some(2));
    assert_eq!(find_executable(&list, true), Some(1));
    assert_eq!(find_executable(&vec![e("hex", true)], false), None);
}

#[test]
fn builder_messages() {
    assert_eq!(print_step(1, STEPS, "x"), "\n[1/7] x");
    assert_eq!(cannot_run("pip", "brak"), "Nie można uruchomić `pip`: brak");
    assert_eq!(run_failed("pip", Some(1)), "`pip` zakończyło się błędem (kod: Some(1))");
    assert_eq!(run_failed("pip", Some(-7)), "`pip` zakończyło się błędem (kod: Some(-7))");
    assert_eq!(
        run_failed("pip", Some(i32::MIN)),
        "`pip` zakończyło się błędem (kod: Some(-2147483648))"
    );
    assert_eq!(run_failed("pip", None), "`pip` zakończyło się błędem (kod: None)");
    assert_eq!(
        missing_source("d"),
        "Katalog 'd' nie istnieje. Utwórz go i umieść w nim main.py."
    );
    assert!(PYOXIDIZER_CONFIG.starts_with("def make_exe():\n"));
}

#[test]
fn requirements_are_planned() {
    let list = Some("torch\n# x\n".to_string());
    assert!(matches!(plan_requirements(&list, "import rich"), RequirementsPlan::Present(1)));
    match plan_requirements(&None, "import rich\nimport torch") {
        RequirementsPlan::Write(t, n) => assert_eq!((t.as_str(), n), ("torch\nrich", 2)),
        _ => panic!("packages are imported"),
    }
    assert!(matches!(plan_requirements(&None, "import os"), RequirementsPlan::Nothing));
}

#[test]
fn the_window_waits_for_the_service() {
    assert_eq!(wait_step(true, 0), WaitStep::Open);
    assert_eq!(wait_step(true, 9999), WaitStep::Open);
    assert_eq!(wait_step(false, 0), WaitStep::Wait(50));
    assert_eq!(wait_step(false, 5000), WaitStep::Wait(50));
    assert_eq!(wait_step(false, 5001), WaitStep::OpenAnyway);
}
