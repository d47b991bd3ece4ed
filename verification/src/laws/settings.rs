//! Laws of the settings, of the start of the program, of its pages and its errors.

use crate::config;
use crate::config::{env_number, Config, ConfigEnv};
use crate::engine::{model_missing, model_unusable, LocalEnv, LocalParams, MODEL_HINT};
use crate::error::HexError;
use crate::launcher::{
    cannot_bind, get_api_base, gui_url, listen_address, log_filter, parse_flags, wait_step, Flags,
    Launch, WaitStep,
};
use crate::laws;
use crate::outside;
use crate::static_gui::{candidates, header_type, serve_gui, GuiAnswer};
use crate::store::Store;
use crate::text;
use crate::text::number;
use vstd::prelude::*;

verus! {

// ── Settings ──

/// A number that a variable spells is taken where it is within the limit, and a
/// number is read back as it is written. Without one the default holds.
pub proof fn law_number_of_variable(
    v: &Option<String>,
    max: u64,
    default: u64,
    n: u64,
    spelt: u64,
    digits: String,
)
    requires
        default <= max,
        call_ensures(env_number, (v, max, default), n),
        call_ensures(number, (spelt,), digits),
    ensures
        v matches Some(s) ==> (s@ == digits@ && spelt <= max ==> n == spelt),
        v matches Some(s) ==> (s@ == digits@ && spelt > max ==> n == default),
        v matches Some(s) ==> (s@.len() == 0 ==> n == default),
        v matches Some(s) ==> ((exists|i: int|
            0 < i < s@.len() && !('0' <= #[trigger] s@[i] <= '9')) ==> n == default),
        v is None ==> n == default,
        n <= max,
{
    text::lemma_number_round_trip(spelt as nat, spelt as nat);
    if let Some(s) = *v {
        if exists|i: int| 0 < i < s@.len() && !('0' <= #[trigger] s@[i] <= '9') {
            let i = choose|i: int| 0 < i < s@.len() && !('0' <= #[trigger] s@[i] <= '9');
            let d = text::unsigned_digits(s@);
            if s@[0] == '+' {
                assert(d[i - 1] == s@[i]);
                assert(!text::is_digit(d[i - 1]));
            } else {
                assert(!text::is_digit(d[i]));
            }
        }
    }
}

/// Each setting is the one of its own variable where that is set, and its default
/// where it is not.
pub proof fn law_config(env: &ConfigEnv, c: Config, port: u64, rpm: u64)
    requires
        call_ensures(Config::from_env, (env,), c),
        call_ensures(env_number, (&env.port, 65535, 8000), port),
        call_ensures(env_number, (&env.rate_limit_rpm, 4294967295, 60), rpm),
    ensures
        env.host matches Some(s) ==> c.host@ == s@,
        env.host is None ==> c.host@ == "0.0.0.0"@,
        c.port == port,
        c.rate_limit_rpm == rpm,
        env.redis_url matches Some(s) ==> c.redis_url@ == s@,
        env.redis_url is None ==> c.redis_url@ == "redis://127.0.0.1:6379"@,
        env.ollama_url matches Some(s) ==> c.ollama_url@ == s@,
        env.ollama_url is None ==> c.ollama_url@ == "http://127.0.0.1:11434"@,
        env.serper_api_key matches Some(s) ==> c.serper_api_key is Some && c.serper_api_key->0@
            == s@,
        env.serper_api_key is None ==> c.serper_api_key is None,
        env.db_path matches Some(s) ==> c.db_path@ == s@,
        env.db_path is None ==> c.db_path@ == "./hexai.db"@,
        env.jwt_secret matches Some(s) ==> c.jwt_secret@ == s@,
        env.jwt_secret is None ==> c.jwt_secret@ == "change-me-in-production"@,
        c.auth_enabled <==> (env.auth matches Some(s) && (s@ == "1"@ || s@ == "true"@)),
        c.session_ttl_secs == 86400,
        c.session_max_tokens == 4096,
        env.cors_origins matches Some(s) ==> text::views(c.cors_origins@) == config::origins(s@),
        env.cors_origins is None ==> c.cors_origins@.len() == 1 && c.cors_origins@[0]@ == "*"@,
{
    if env.cors_origins is None {
        reveal_strlit("*");
        law_origins("*"@, Seq::empty());
        let v = text::views(c.cors_origins@);
        assert(v.len() == c.cors_origins@.len());
        assert(v[0] == c.cors_origins@[0]@);
        let t = text::trimmed("*"@);
        assert(t == "*"@);
    }
}

/// The origins in a list: each stands between commas, without the space around it,
/// in the order of the list, and none is left out.
pub proof fn law_origins(first: Seq<char>, rest: Seq<char>)
    requires
        forall|i: int| 0 <= i < first.len() ==> #[trigger] first[i] != ',',
    ensures
        config::origins(first) == seq![text::trimmed(first)],
        config::origins(first.push(',') + rest)
            == seq![text::trimmed(first)] + config::origins(rest),
{
    laws::text::law_split_at_cut(first, ',', rest, text::is_char(','));
    let f = |o: Seq<char>| text::trimmed(o);
    assert(text::split_on(first, ',') == seq![first]);
    assert(seq![first].map_values(f) =~= seq![text::trimmed(first)]);
    assert(text::split_on(first.push(',') + rest, ',') == seq![first] + text::split_on(rest, ','));
    assert((seq![first] + text::split_on(rest, ',')).map_values(f) =~= seq![text::trimmed(first)]
        + text::split_on(rest, ',').map_values(f));
}

/// A local model is set up by its own variables. It uses all processors of the
/// machine unless told otherwise.
pub proof fn law_local_params(
    env: &LocalEnv,
    p: LocalParams,
    cpus: u64,
    ctx: u64,
    threads: u64,
    layers: u64,
    tokens: u64,
)
    requires
        call_ensures(LocalParams::from_env, (env,), p),
        cpus == (match env.cpus {
            Some(n) => n as u64,
            None => 4u64,
        }),
        call_ensures(env_number, (&env.n_ctx, 4294967295, 4096), ctx),
        call_ensures(env_number, (&env.n_threads, 4294967295, cpus), threads),
        call_ensures(env_number, (&env.n_gpu_layers, 4294967295, 0), layers),
        call_ensures(env_number, (&env.max_tokens, 4294967295, 1024), tokens),
    ensures
        p.n_ctx == ctx,
        p.n_threads == threads,
        p.n_gpu_layers == layers,
        p.max_tokens == tokens,
        env.temp matches Some(t) ==> p.temp == t,
        env.temp is None ==> p.temp == 0x3f33_3333,
        env.top_p matches Some(t) ==> p.top_p == t,
        env.top_p is None ==> p.top_p == 0x3f66_6666,
{
}

/// Where a model cannot be loaded, the failure says which one or why.
pub proof fn law_model_failures(path: &str, cause: &str, a: HexError, b: HexError)
    requires
        call_ensures(model_missing, (path,), a),
        call_ensures(model_unusable, (cause,), b),
    ensures
        a matches HexError::Engine(t) && t@ == "Model GGUF nie znaleziony: "@ + path@ + MODEL_HINT@,
        b matches HexError::Engine(t) && t@ == "Błąd ładowania modelu: "@ + cause@,
{
}

// ── Errors ──

/// A failure is told by its kind and its cause. What is not found and what was
/// asked wrongly have statuses of their own, and all else is a fault of the
/// service.
pub proof fn law_errors(e: HexError, m: String, r: (u16, String))
    requires
        call_ensures(HexError::message, (&e,), m),
        call_ensures(HexError::into_response, (e,), r),
    ensures
        r.1@ == m@,
        r.0 == 404 <==> e is NotFound,
        r.0 == 400 <==> e is BadRequest,
        r.0 == 500 <==> !(e is NotFound) && !(e is BadRequest),
        e matches HexError::Redis(c) ==> m@ == "Redis error: "@ + c@,
        e matches HexError::Io(c) ==> m@ == "IO error: "@ + c@,
        e matches HexError::Http(c) ==> m@ == "HTTP error: "@ + c@,
        e matches HexError::Json(c) ==> m@ == "JSON error: "@ + c@,
        e matches HexError::NotFound(c) ==> m@ == "Not found: "@ + c@,
        e matches HexError::BadRequest(c) ==> m@ == "Bad request: "@ + c@,
        e matches HexError::Engine(c) ==> m@ == "Engine error: "@ + c@,
        e matches HexError::Internal(c) ==> m@ == "Internal: "@ + c@,
{
}

// ── The keyed store ──

/// What is put under a key is found under it, and what is under any other key is
/// found as before.
pub proof fn law_store_insert<V>(
    s: &mut Store<V>,
    key: String,
    value: V,
    same: &str,
    other: &str,
    r: Option<&V>,
    before: Option<&V>,
    after: Option<&V>,
)
    requires
        old(s).wf(),
        call_ensures(Store::<V>::insert, (s, key, value), ()),
        same@ == key@,
        other@ != key@,
        call_ensures(Store::<V>::get, (&*final(s), same), r),
        call_ensures(Store::<V>::get, (&*old(s), other), before),
        call_ensures(Store::<V>::get, (&*final(s), other), after),
    ensures
        r is Some && *r->0 == value,
        after is Some <==> before is Some,
        after is Some ==> *after->0 == *before->0,
{
}

/// What is taken out is gone, and what is under any other key is found as before.
pub proof fn law_store_remove<V>(
    s: &mut Store<V>,
    key: &str,
    other: &str,
    taken: Option<V>,
    r: Option<&V>,
    had: Option<&V>,
    before: Option<&V>,
    after: Option<&V>,
)
    requires
        old(s).wf(),
        call_ensures(Store::<V>::remove, (s, key), taken),
        other@ != key@,
        call_ensures(Store::<V>::get, (&*old(s), key), had),
        call_ensures(Store::<V>::get, (&*final(s), key), r),
        call_ensures(Store::<V>::get, (&*old(s), other), before),
        call_ensures(Store::<V>::get, (&*final(s), other), after),
    ensures
        r is None,
        taken is Some <==> had is Some,
        taken is Some ==> taken->0 == *had->0,
        after is Some <==> before is Some,
        after is Some ==> *after->0 == *before->0,
{
}

// ── The start of the program ──

/// What the program does depends on which words are given and not on their order
/// or number. Help goes before all else, and a window before serving alone.
pub proof fn law_flags(args: &Vec<String>, f: Flags, other: &Vec<String>, g: Flags, i: int)
    requires
        call_ensures(parse_flags, (args,), f),
        call_ensures(parse_flags, (other,), g),
    ensures
        0 <= i < args@.len() && (args@[i]@ == "--help"@ || args@[i]@ == "-h"@) ==> f.launch
            == Launch::Help,
        0 <= i < args@.len() && args@[i]@ == "--with-gui"@ ==> f.launch == Launch::Help || f.launch
            == Launch::Gui,
        0 <= i < args@.len() && args@[i]@ == "--server"@ ==> f.launch != Launch::Tui,
        0 <= i < args@.len() && (args@[i]@ == "--verbose"@ || args@[i]@ == "-v"@) ==> f.verbose,
        f.launch == Launch::Help ==> text::views(args@).contains("--help"@) || text::views(
            args@,
        ).contains("-h"@),
        f.launch == Launch::Gui ==> text::views(args@).contains("--with-gui"@),
        f.launch == Launch::Server ==> text::views(args@).contains("--server"@) && !text::views(
            args@,
        ).contains("--with-gui"@),
        f.verbose ==> text::views(args@).contains("--verbose"@) || text::views(args@).contains(
            "-v"@,
        ),
        (forall|w: Seq<char>| #[trigger]
            text::views(args@).contains(w) <==> text::views(other@).contains(w)) ==> f == g,
{
    let v = text::views(args@);
    if 0 <= i < args@.len() {
        assert(v[i] == args@[i]@);
        assert(v.contains(v[i]));
    }
}

/// The window waits for the service and opens as soon as that is ready. Where it
/// is not, the window asks again every fiftieth of a second, for five seconds.
pub proof fn law_wait(ready: bool, waited: u64, r: WaitStep)
    requires
        call_ensures(wait_step, (ready, waited), r),
    ensures
        r == WaitStep::Open <==> ready,
        r is Wait <==> !ready && waited <= 5000,
        r matches WaitStep::Wait(n) ==> n == 50,
        r == WaitStep::OpenAnyway <==> !ready && waited > 5000,
{
}

/// The service listens at the host and the port of its settings, and the window
/// looks for it at the port of the variable.
pub proof fn law_addresses(
    cfg: &Config,
    port: &Option<String>,
    base: &Option<String>,
    address: &str,
    cause: &str,
    a: String,
    b: String,
    c: String,
    d: String,
    n: u64,
    here: String,
    there: String,
)
    requires
        call_ensures(listen_address, (cfg,), a),
        call_ensures(gui_url, (port,), b),
        call_ensures(get_api_base, (base,), c),
        call_ensures(cannot_bind, (address, cause), d),
        call_ensures(env_number, (port, 65535, 8000), n),
        call_ensures(number, (cfg.port as u64,), here),
        call_ensures(number, (n,), there),
    ensures
        a@ == cfg.host@ + ":"@ + here@,
        b@ == "http://127.0.0.1:"@ + there@ + "/gui"@,
        base matches Some(s) ==> c@ == s@,
        base is None ==> c@ == "http://localhost:8000"@,
        d@ == "Nie można zbindować "@ + address@ + ": "@ + cause@,
{
}

/// The log tells more where all is to be told, and less otherwise.
pub proof fn law_log(verbose: String, quiet: String)
    requires
        call_ensures(log_filter, (true,), verbose),
        call_ensures(log_filter, (false,), quiet),
    ensures
        verbose@ == "hexai_backend=debug,hexai=debug,warn"@,
        quiet@ == "hexai_backend=info,hexai=info,warn"@,
{
    reveal_strlit("hexai_backend=debug,hexai=debug,warn");
    reveal_strlit("hexai_backend=info,hexai=info,warn");
    reveal_strlit("hexai_backend=");
    reveal_strlit(",hexai=");
    reveal_strlit(",warn");
    reveal_strlit("debug");
    reveal_strlit("info");
    assert(verbose@ =~= "hexai_backend=debug,hexai=debug,warn"@);
    assert(quiet@ =~= "hexai_backend=info,hexai=info,warn"@);
}

// ── The pages of the interface ──

/// A request for something below the root is answered by the file of that name,
/// or else by the page of that name, or else by the start page of that directory,
/// or else by the start page. Slashes in front of the name do not count. A request
/// for the root is answered by the start page.
pub proof fn law_candidates(uri: &str, name: Seq<char>, r: Vec<String>)
    requires
        call_ensures(candidates, (uri,), r),
    ensures
        (uri@ == "/gui/"@ + name || uri@ == "/gui//"@ + name || (uri@ == "/"@ + name
            && !text::has_prefix(uri@, "/gui"@))) && name.len() > 0 && name[0] != '/' ==> {
            &&& r@.len() == 4
            &&& r@[0]@ == name
            &&& r@[1]@ == name + ".html"@
            &&& r@[2]@ == name + "/index.html"@
            &&& r@[3]@ == "index.html"@
        },
        (uri@ == "/gui"@ + name || (uri@ == name && !text::has_prefix(uri@, "/gui"@))) && name.len()
            > 0 && name[0] != '/' ==> r@.len() == 4 && r@[0]@ == name,
        uri@ == "/gui"@ || uri@ == "/gui/"@ || uri@ == "/"@ ==> r@.len() == 1 && r@[0]@
            == "index.html"@,
        r@.len() > 0 && r@.last()@ == "index.html"@,
{
    reveal_strlit("/gui/");
    reveal_strlit("/gui//");
    reveal_strlit("/gui");
    reveal_strlit("/");
    let v = text::views(r@);
    assert(v.len() == r@.len());
    assert(v == crate::static_gui::candidate_paths(uri@));
    assert(forall|i: int| 0 <= i < v.len() ==> v[i] == (#[trigger] r@[i])@);
    assert(v.last() == r@.last()@);
    let p = "/gui/"@;
    let rel = crate::static_gui::relative(uri@);
    if name.len() > 0 && name[0] != '/' {
        assert(text::trim_start_char(name, '/') == name);
    }
    if uri@ == p + name {
        assert(uri@.take(5) =~= p);
        assert(uri@.skip(5) =~= name);
    }
    if uri@ == "/gui//"@ + name {
        assert(uri@.take(5) =~= p);
        assert(uri@.skip(5) =~= "/"@ + name);
        assert(("/"@ + name).skip(1) =~= name);
        assert(text::trim_start_char("/"@ + name, '/') == text::trim_start_char(name, '/'));
        assert(rel == text::trim_start_char(name, '/'));
    }
    if uri@ == "/"@ + name && !text::has_prefix(uri@, "/gui"@) {
        if text::has_prefix(uri@, p) {
            assert(uri@.take(4) =~= uri@.take(5).take(4));
            assert(p.take(4) =~= "/gui"@);
        }
        assert(uri@.skip(1) =~= name);
        assert(text::trim_start_char(uri@, '/') == text::trim_start_char(name, '/'));
    }
    if uri@ == "/gui"@ + name && name.len() > 0 && name[0] != '/' {
        assert(uri@.take(4) =~= "/gui"@);
        assert(uri@.skip(4) =~= name);
        if text::has_prefix(uri@, p) {
            assert(uri@.take(5)[4] == p[4]);
            assert(uri@[4] == name[0]);
        }
        assert(rel == name);
    }
    if uri@ == name && !text::has_prefix(uri@, "/gui"@) {
        if text::has_prefix(uri@, p) {
            assert(uri@.take(4) =~= uri@.take(5).take(4));
            assert(p.take(4) =~= "/gui"@);
        }
    }
    if uri@ == "/gui"@ {
        assert(uri@.take(4) =~= uri@);
        assert(uri@.skip(4).len() == 0);
        if text::has_prefix(uri@, p) {
            assert(false);
        }
        assert(rel.len() == 0);
    }
    if uri@ == p {
        assert(uri@.take(5) =~= uri@);
        assert(uri@.skip(5).len() == 0);
        assert(rel.len() == 0);
    }
    if uri@ == "/"@ {
        assert(uri@.skip(1).len() == 0);
        assert(text::trim_start_char(uri@.skip(1), '/').len() == 0);
        assert(rel.len() == 0);
    }
}

/// The first of the files that exists answers, with the type that its name
/// suggests unless a header cannot hold that. Without any there is no answer.
pub proof fn law_served(uri: &str, present: &Vec<bool>, all: Vec<String>, r: GuiAnswer, n: int)
    requires
        call_ensures(candidates, (uri,), all),
        present@.len() == all@.len(),
        call_ensures(serve_gui, (uri, present), r),
    ensures
        r is NotFound <==> forall|i: int| 0 <= i < present@.len() ==> !(#[trigger] present@[i]),
        0 <= n < present@.len() && present@[n] && (forall|i: int|
            0 <= i < n ==> !(#[trigger] present@[i])) ==> (r matches GuiAnswer::Found {
            path,
            content_type,
        } && path@ == all@[n]@ && ((forall|i: int|
            0 <= i < outside::guessed_type(path@).len() ==> (#[trigger] outside::guessed_type(
                path@,
            )[i]) == '\t' || (outside::guessed_type(path@)[i] as u32 >= 32 && outside::guessed_type(
                path@,
            )[i] as u32 != 127)) ==> content_type@ == outside::guessed_type(path@))),
{
    let v = text::views(all@);
    assert(v.len() == all@.len());
    let k = lemma_first(present@);
    if k < present@.len() {
        assert(v[k] == all@[k]@);
    }
    if 0 <= n < present@.len() && present@[n] && (forall|i: int|
        0 <= i < n ==> !(#[trigger] present@[i])) {
        assert(k == n);
    }
}

proof fn lemma_first(present: Seq<bool>) -> (k: int)
    ensures
        k == crate::static_gui::first_present(present),
        0 <= k <= present.len(),
        forall|i: int| 0 <= i < k ==> !(#[trigger] present[i]),
        k < present.len() ==> present[k],
    decreases present.len(),
{
    if present.len() == 0 {
        0
    } else if present[0] {
        0
    } else {
        let j = lemma_first(present.skip(1));
        assert forall|i: int| 0 <= i < j + 1 implies !(#[trigger] present[i]) by {
            if i > 0 {
                assert(present.skip(1)[i - 1] == present[i]);
            }
        }
        j + 1
    }
}

/// A type goes into the header as it is, unless it holds a character that a header
/// cannot.
pub proof fn law_header_type(guess: String, r: String)
    requires
        call_ensures(header_type, (guess,), r),
    ensures
        (forall|i: int|
            0 <= i < guess@.len() ==> (#[trigger] guess@[i]) == '\t' || (guess@[i] as u32 >= 32
                && guess@[i] as u32 != 127)) ==> r@ == guess@,
        (exists|i: int|
            0 <= i < guess@.len() && (#[trigger] guess@[i]) != '\t' && (guess@[i] as u32) < 32)
            ==> r@ == "application/octet-stream"@,
{
}

/// Every key has a slot of its own, and the value in it is the one that is found
/// under the key.
pub proof fn law_store_slots<V>(
    s: &Store<V>,
    n: usize,
    i: usize,
    key: &String,
    value: &V,
    same: &str,
    found: Option<&V>,
    fresh: Store<V>,
    none: usize,
)
    requires
        s.wf(),
        call_ensures(Store::<V>::len, (s,), n),
        i < n,
        call_ensures(Store::<V>::key_at, (s, i), key),
        call_ensures(Store::<V>::value_at, (s, i), value),
        same@ == key@,
        call_ensures(Store::<V>::get, (s, same), found),
        call_ensures(Store::<V>::new, (), fresh),
        call_ensures(Store::<V>::len, (&fresh,), none),
    ensures
        found is Some && *found->0 == *value,
        none == 0,
{
    s.lemma_shape();
    assert(s@.contains_key(s.keys()[i as int]));
}

} // verus!
