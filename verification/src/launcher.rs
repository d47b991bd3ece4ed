//! How the program is started.

use crate::config;
use crate::config::{env_number, Config};
use crate::text;
use crate::text::{concat2, concat3, number, same_text, text_or};
use vstd::prelude::*;

verus! {

/// What is shown where help is asked for.
pub const HELP: &'static str = r#"
⬡  HexAi v2.0.0

UŻYCIE:
    hexai              Serwer API + TUI (domyślnie)
    hexai --server     Tylko serwer API (headless)
    hexai --with-gui   Serwer API + natywne okno GUI
    hexai --verbose    Szczegółowe logi
    hexai --help       Ta pomoc

ŚRODOWISKO:
    HEXAI_HOST           Adres nasłuchiwania   (domyślnie: 0.0.0.0)
    HEXAI_PORT           Port API              (domyślnie: 8000)
    HEXAI_ENGINE         Silnik LLM            (ollama|openai|candle)
    REDIS_URL            URL Redis             (domyślnie: redis://127.0.0.1:6379)
    OLLAMA_URL           URL Ollama            (domyślnie: http://127.0.0.1:11434)
    OPENAI_API_KEY       Klucz OpenAI
    OPENAI_API_BASE      Base URL OpenAI       (domyślnie: https://api.openai.com)
    HEXAI_EMBED_MODEL    Model embeddings      (domyślnie: nomic-embed-text)
    SERPER_API_KEY       Klucz Serper          (opcjonalne)
    HEXAI_DB_PATH        Ścieżka SQLite        (domyślnie: ./hexai.db)
    HEXAI_AUTH           Włącz JWT auth        (0|1)
    HEXAI_JWT_SECRET     Sekret JWT
    HEXAI_ADMIN_PASS     Hasło admina          (domyślnie: hexai-admin)
    HEXAI_RATE_LIMIT_RPM Limit żądań/min       (domyślnie: 60)
    HEXAI_CORS_ORIGINS   Dozwolone origins     (domyślnie: *)
    RUST_LOG             Poziom logów          (info|debug|trace)
"#;

/// What the program is asked to do.
#[derive(Clone, Copy, Debug, PartialEq, Eq, Structural)]
pub enum Launch {
    /// Show the help.
    Help,
    /// Serve, and open a window.
    Gui,
    /// Serve, and nothing else.
    Server,
    /// Serve, and open the terminal interface.
    Tui,
}

/// What the program is asked to do, and whether it tells of all it does.
#[derive(Clone, Copy, Debug, PartialEq, Eq, Structural)]
pub struct Flags {
    pub launch: Launch,
    pub verbose: bool,
}

/// One of the arguments is one of the two words.
pub open spec fn given(args: Seq<Seq<char>>, long: Seq<char>, short: Seq<char>) -> bool {
    args.contains(long) || args.contains(short)
}

fn has_arg(args: &Vec<String>, long: &str, short: &str) -> (r: bool)
    ensures
        r == given(text::views(args@), long@, short@),
{
    let ghost all = text::views(args@);
    let mut i: usize = 0;
    while i < args.len()
        invariant
            all == text::views(args@),
            i <= args@.len(),
            forall|j: int| 0 <= j < i ==> all[j] != long@ && all[j] != short@,
        decreases args@.len() - i,
    {
        proof {
            assert(all[i as int] == args@[i as int]@);
        }
        if same_text(args[i].as_str(), long) || same_text(args[i].as_str(), short) {
            return true;
        }
        i = i + 1;
    }
    false
}

/// Reads the arguments. Help goes before all else, and a window before serving
/// alone.
pub fn parse_flags(args: &Vec<String>) -> (f: Flags)
    ensures
        f.verbose == given(text::views(args@), "--verbose"@, "-v"@),
        f.launch == if given(text::views(args@), "--help"@, "-h"@) {
            Launch::Help
        } else if text::views(args@).contains("--with-gui"@) {
            Launch::Gui
        } else if text::views(args@).contains("--server"@) {
            Launch::Server
        } else {
            Launch::Tui
        },
{
    let with_gui: bool = has_arg(args, "--with-gui", "--with-gui");
    let server_only: bool = has_arg(args, "--server", "--server");
    let verbose: bool = has_arg(args, "--verbose", "-v");
    let help: bool = has_arg(args, "--help", "-h");
    let launch: Launch = if help {
        Launch::Help
    } else if with_gui {
        Launch::Gui
    } else if server_only {
        Launch::Server
    } else {
        Launch::Tui
    };
    Flags { launch, verbose }
}

/// The variable for the log that is set where all is to be told and the user
/// set none.
pub const VERBOSE_LOG: &'static str = "debug,hyper=info,reqwest=info,h2=warn";

/// The filter of the log where the environment has none.
pub fn log_filter(verbose: bool) -> (r: String)
    ensures
        r@ == "hexai_backend="@ + log_level(verbose) + ",hexai="@ + log_level(verbose)
            + ",warn"@,
{
    let level: &str = if verbose {
        "debug"
    } else {
        "info"
    };
    let head: String = concat3("hexai_backend=", level, ",hexai=");
    concat3(head.as_str(), level, ",warn")
}

/// How much the log tells.
pub open spec fn log_level(verbose: bool) -> Seq<char> {
    if verbose {
        "debug"@
    } else {
        "info"@
    }
}

/// The page that the window shows, given the variable for the port.
pub fn gui_url(port: &Option<String>) -> (r: String)
    ensures
        r@ == "http://127.0.0.1:"@ + text::decimal(config::number_or(*port, 65535, 8000))
            + "/gui"@,
{
    let n: u64 = env_number(port, 65535, 8000);
    let digits: String = number(n);
    concat3("http://127.0.0.1:", digits.as_str(), "/gui")
}

/// The address that the service listens on.
pub fn listen_address(cfg: &Config) -> (r: String)
    ensures
        r@ == cfg.host@ + ":"@ + text::decimal(cfg.port as nat),
{
    let port: String = number(cfg.port as u64);
    concat3(cfg.host.as_str(), ":", port.as_str())
}

/// What the window does while the service starts.
#[derive(Clone, Copy, PartialEq, Eq, Structural, Debug)]
pub enum WaitStep {
    /// It opens.
    Open,
    /// It opens although the service is not known to be ready.
    OpenAnyway,
    /// It asks again after so many milliseconds.
    Wait(u64),
}

/// How long the window waits for the service at most, in milliseconds.
pub const PATIENCE_MILLIS: u64 = 5000;

/// How long the window waits before it asks again, in milliseconds.
pub const ASK_AGAIN_MILLIS: u64 = 50;

/// What the window does, given whether the service is ready and for how many
/// milliseconds it has waited.
pub fn wait_step(ready: bool, waited_millis: u64) -> (r: WaitStep)
    ensures
        r == (if ready {
            WaitStep::Open
        } else if waited_millis > PATIENCE_MILLIS {
            WaitStep::OpenAnyway
        } else {
            WaitStep::Wait(ASK_AGAIN_MILLIS)
        }),
{
    if ready {
        WaitStep::Open
    } else if waited_millis > PATIENCE_MILLIS {
        WaitStep::OpenAnyway
    } else {
        WaitStep::Wait(ASK_AGAIN_MILLIS)
    }
}

/// Where the window finds the service, given the variable for it.
pub fn get_api_base(v: &Option<String>) -> (r: String)
    ensures
        r@ == text::or_default(*v, "http://localhost:8000"@),
{
    text_or(v, "http://localhost:8000")
}

/// What is said where the address is taken.
pub fn cannot_bind(address: &str, cause: &str) -> (r: String)
    ensures
        r@ == "Nie można zbindować "@ + address@ + ": "@ + cause@,
{
    let head: String = concat3("Nie można zbindować ", address, ": ");
    concat2(head.as_str(), cause)
}

} // verus!
