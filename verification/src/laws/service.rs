//! Laws of what the service answers.

use crate::config::Config;
use crate::engine::{EngineKind, LlmEngine, Mode};
use crate::laws;
use crate::memory::{PersistentMemory, Turn};
use crate::outside;
use crate::passages;
use crate::passages::Aim;
use crate::profiler::UserProfiler;
use crate::rag::DocChunk;
use crate::router;
use crate::router::{
    build_chat_context, build_cors, build_router, can_chunk, chat_handler, confirm, d100, d500,
    delete_session, enrich, fetch_text, health, ingest_doc, ingested, on_web, page_text, rag_prompt,
    rag_query, refuse, sanitize, session_of, set_engine, set_mode, stats, unavailable, web_text,
    Answer, ChatAnswer, ChatContext, ChatReq, CorsPolicy, Endpoint, EngineReq, Ingest, IngestReq,
    ModeReq, RagAnswer, RagReq, ServiceStats, Source, Verb,
};
use crate::state::AppState;
use crate::text;
use crate::text::{join, number, trim};
use vstd::prelude::*;

verus! {

// ── Choosing the engine and the mode ──

/// Every mode can be chosen by its name: the answer is a success, and the mode is
/// the one of the engine from then on. No other name is accepted, and one that is
/// not changes nothing. Whatever the name, nothing but the mode changes.
pub proof fn law_every_mode_can_be_chosen(
    st: &mut AppState,
    req: &ModeReq,
    a: Answer,
    m: Mode,
    name: String,
)
    requires
        call_ensures(set_mode, (st, req), a),
        call_ensures(Mode::name, (&m,), name),
    ensures
        req.mode@ == name@ ==> a.status == 200 && final(st).engine.mode == m && a.field@
            == "message"@,
        a.status == 200 && final(st).engine.mode == m ==> req.mode@ == name@,
        a.status == 200 || a.status == 400,
        a.status == 400 ==> *final(st) == *old(st) && a.field@ == "error"@ && a.text@
            == "Nieznany tryb: "@ + req.mode@,
        a.status == 200 ==> a.text@ == "Tryb: "@ + req.mode@,
        final(st).engine.kind == old(st).engine.kind,
        final(st).engine.backend == old(st).engine.backend,
        final(st).cfg == old(st).cfg,
        final(st).memory == old(st).memory,
        final(st).rag == old(st).rag,
        final(st).profiler == old(st).profiler,
        final(st).auth == old(st).auth,
        m == Mode::General ==> name@ == "general"@,
        m == Mode::Programista ==> name@ == "programista"@,
{
    lemma_mode_names();
    assert(a@ == (a.status, a.field@, a.text@));
}

proof fn lemma_mode_names()
    ensures
        "general"@ != "programista"@,
{
    reveal_strlit("general");
    reveal_strlit("programista");
    assert("general"@.len() == 7);
    assert("programista"@.len() == 11);
}

/// Every kind of engine but the one in this process can be chosen by its name:
/// the answer is a success, and the engine is of that kind from then on. No other
/// name is accepted, and one that is not changes nothing. Whatever the name,
/// nothing but the kind changes.
pub proof fn law_every_engine_can_be_chosen(
    st: &mut AppState,
    req: &EngineReq,
    a: Answer,
    k: EngineKind,
    name: String,
)
    requires
        call_ensures(set_engine, (st, req), a),
        call_ensures(EngineKind::name, (&k,), name),
    ensures
        req.engine@ == name@ && k != EngineKind::Local ==> a.status == 200 && final(st).engine.kind
            == k && a.field@ == "message"@,
        a.status == 200 && final(st).engine.kind == k ==> req.engine@ == name@ && k
            != EngineKind::Local,
        req.engine@ == "ollama"@ ==> final(st).engine.kind == EngineKind::Ollama,
        req.engine@ == "openai"@ ==> final(st).engine.kind == EngineKind::OpenAI,
        req.engine@ == "candle"@ ==> final(st).engine.kind == EngineKind::Candle,
        a.status == 200 || a.status == 400,
        a.status == 400 ==> *final(st) == *old(st) && a.field@ == "error"@ && a.text@
            == "Nieznany silnik: "@ + req.engine@,
        a.status == 200 ==> a.text@ == "Silnik: "@ + req.engine@,
        final(st).engine.mode == old(st).engine.mode,
        final(st).engine.backend == old(st).engine.backend,
        final(st).cfg == old(st).cfg,
        final(st).memory == old(st).memory,
        final(st).rag == old(st).rag,
        final(st).profiler == old(st).profiler,
        final(st).auth == old(st).auth,
{
    k.lemma_name_round_trip();
    router::lemma_chosen_kind_has_its_name(req.engine@);
    EngineKind::Ollama.lemma_name_round_trip();
    EngineKind::OpenAI.lemma_name_round_trip();
    EngineKind::Candle.lemma_name_round_trip();
    EngineKind::Local.lemma_name_round_trip();
    assert(a@ == (a.status, a.field@, a.text@));
}

// ── Routes ──

/// Open to everyone are the state of health, the login and the pages of the
/// interface, and nothing else: a path is open where it is one of these. What
/// deletes is asked for by a delete, and what is only read by a get.
pub proof fn law_routes(r: Vec<(String, Endpoint)>, i: int, guarded: bool, v: Verb)
    requires
        call_ensures(build_router, (), r),
        0 <= i < r@.len(),
        call_ensures(Endpoint::is_protected, (&r@[i].1,), guarded),
        call_ensures(Endpoint::verb, (&r@[i].1,), v),
    ensures
        !guarded <==> r@[i].0@ == "/health"@ || r@[i].0@ == "/auth/token"@ || r@[i].0@ == "/"@
            || text::has_prefix(r@[i].0@, "/gui"@),
        v == Verb::Delete <==> r@[i].0@ == "/session/:id"@,
        v == Verb::Get <==> r@[i].0@ == "/health"@ || r@[i].0@ == "/"@ || r@[i].0@ == "/tts"@
            || r@[i].0@ == "/stats"@ || r@[i].0@ == "/sessions"@ || text::has_prefix(
            r@[i].0@,
            "/gui"@,
        ),
        r@[i].0@.len() > 0 && r@[i].0@[0] == '/',
{
    reveal_strlit("/health");
    reveal_strlit("/auth/token");
    reveal_strlit("/gui");
    reveal_strlit("/gui/");
    reveal_strlit("/gui/*path");
    reveal_strlit("/");
    reveal_strlit("/chat");
    reveal_strlit("/engine");
    reveal_strlit("/mode");
    reveal_strlit("/rag");
    reveal_strlit("/ingest");
    reveal_strlit("/generate_image");
    reveal_strlit("/transcribe");
    reveal_strlit("/analyze_image");
    reveal_strlit("/tts");
    reveal_strlit("/stats");
    reveal_strlit("/sessions");
    reveal_strlit("/session/:id");
    let t = r@.map_values(|e: (String, Endpoint)| (e.0@, e.1));
    assert(t == router::route_table());
    assert(t.len() == r@.len());
    assert(t[i] == (r@[i].0@, r@[i].1));
    let p = r@[i].0@;
    assert("/gui"@.take(4) =~= "/gui"@);
    assert("/gui/"@.take(4) =~= "/gui"@);
    assert("/gui/*path"@.take(4) =~= "/gui"@);
    if p.len() >= 4 && p.take(4) == "/gui"@ {
        assert(p[1] == p.take(4)[1]);
        assert(p[2] == p.take(4)[2]);
    }
    lemma_health_path_alone(p);
}

proof fn lemma_health_path_alone(p: Seq<char>)
    ensures
        p == "/health"@ ==> p.len() == 7 && p[1] == 'h',
        p == "/auth/token"@ ==> p.len() == 11 && p[2] == 'u',
        p == "/session/:id"@ ==> p.len() == 12 && p[1] == 's',
        p == "/sessions"@ ==> p.len() == 9,
        p == "/stats"@ ==> p.len() == 6 && p[1] == 's',
        p == "/tts"@ ==> p.len() == 4 && p[1] == 't',
        p == "/"@ ==> p.len() == 1,
{
    reveal_strlit("/health");
    reveal_strlit("/auth/token");
    reveal_strlit("/");
    reveal_strlit("/tts");
    reveal_strlit("/stats");
    reveal_strlit("/sessions");
    reveal_strlit("/session/:id");
}

/// Every part of the service can be reached under some path.
pub proof fn law_every_part_has_a_path(r: Vec<(String, Endpoint)>, e: Endpoint)
    requires
        call_ensures(build_router, (), r),
    ensures
        exists|i: int| 0 <= i < r@.len() && (#[trigger] r@[i]).1 == e,
{
    let t = r@.map_values(|e: (String, Endpoint)| (e.0@, e.1));
    assert(t == router::route_table());
    assert(t.len() == r@.len());
    let i: int = match e {
        Endpoint::Health => 0,
        Endpoint::Login => 1,
        Endpoint::GuiIndex => 2,
        Endpoint::GuiStatic => 4,
        Endpoint::Chat => 6,
        Endpoint::SetEngine => 7,
        Endpoint::SetMode => 8,
        Endpoint::RagQuery => 9,
        Endpoint::IngestDoc => 10,
        Endpoint::GenerateImage => 11,
        Endpoint::Transcribe => 12,
        Endpoint::AnalyzeImage => 13,
        Endpoint::Tts => 14,
        Endpoint::Stats => 15,
        Endpoint::ListSessions => 16,
        Endpoint::DeleteSession => 17,
    };
    assert(t[i].1 == e);
    assert(r@[i].1 == e);
}

/// Everyone may call from a page exactly where a star is listed. Otherwise every
/// site that is listed may, where a header can hold it, and no other.
pub proof fn law_cors(origins: &Vec<String>, r: CorsPolicy, i: int)
    requires
        call_ensures(build_cors, (origins,), r),
    ensures
        0 <= i < origins@.len() && origins@[i]@ == "*"@ ==> r is Any,
        r is Any ==> exists|j: int| 0 <= j < origins@.len() && (#[trigger] origins@[j])@ == "*"@,
        r matches CorsPolicy::Listed(l) ==> {
            &&& 0 <= i < origins@.len() && (forall|k: int|
                0 <= k < origins@[i]@.len() ==> (#[trigger] origins@[i]@[k]) == '\t' || (
                origins@[i]@[k] as u32 >= 32 && origins@[i]@[k] as u32 != 127)) ==> text::views(
                l@,
            ).contains(origins@[i]@)
            &&& forall|j: int|
                0 <= j < l@.len() ==> text::views(origins@).contains((#[trigger] l@[j])@)
        },
{
    let all = text::views(origins@);
    if 0 <= i < origins@.len() {
        assert(all[i] == origins@[i]@);
    }
    match r {
        CorsPolicy::Any => {
            let j = choose|j: int| 0 <= j < all.len() && all[j] == "*"@;
            assert(origins@[j]@ == "*"@);
        },
        CorsPolicy::Listed(l) => {
            let fits = |o: Seq<char>| router::is_header(o);
            let v = text::views(l@);
            assert(v == all.filter(fits));
            if 0 <= i < origins@.len() && forall|k: int|
                0 <= k < origins@[i]@.len() ==> (#[trigger] origins@[i]@[k]) == '\t' || (
                origins@[i]@[k] as u32 >= 32 && origins@[i]@[k] as u32 != 127) {
                assert(router::is_header(origins@[i]@));
                all.lemma_filter_contains(fits, i);
                assert(all.filter(fits).contains(all[i]));
            }
            assert forall|j: int| 0 <= j < l@.len() implies text::views(origins@).contains(
                (#[trigger] l@[j])@,
            ) by {
                assert(v[j] == l@[j]@);
                assert(v.contains(v[j]));
                all.lemma_filter_contains_rev(fits, v[j]);
            }
        },
    }
}

// ── What is filtered out of a message ──

/// A letter is read in small and in capitals.
pub proof fn law_letters(c: char, letter: char)
    requires
        'a' <= letter <= 'z',
        (c as u32) < 128,
    ensures
        passages::reads(c, letter) <==> c == letter || c as int + 32 == letter as int,
{
}

/// Beyond the letters of English, the barred one of Polish is read in both cases,
/// and the sign of the kelvin and the long s as the letters that they are.
pub proof fn law_other_letters(c: char, letter: char)
    requires
        c as u32 >= 128,
    ensures
        'a' <= letter <= 'z' ==> (passages::reads(c, letter) <==> (letter == 'k' && c
            == '\u{212a}') || (letter == 's' && c == '\u{17f}')),
        letter == 'ł' ==> (passages::reads(c, letter) <==> c == 'ł' || c == 'Ł'),
{
}

/// No message keeps a passage that tries to misuse the assistant: nowhere in what
/// is left is one of the first words followed on its line by one of the last.
pub proof fn law_nothing_misused(
    prompt: &str,
    r: String,
    before: Seq<char>,
    first: Seq<char>,
    between: Seq<char>,
    last: Seq<char>,
    behind: Seq<char>,
)
    requires
        call_ensures(sanitize, (prompt,), r),
        forall|i: int| 0 <= i < between.len() ==> #[trigger] between[i] != '\n',
        forall|i: int| 0 <= i < first.len() ==> #[trigger] first[i] != '\n',
        r@ == before + (first + (between + (last + behind))),
    ensures
        (first.len() == 6 && (passages::opens_with(first, "ignore"@) || passages::opens_with(
            first,
            "forget"@,
        ))) || (first.len() == 8 && passages::opens_with(first, "zignoruj"@))
            ==> !passages::opens_with(last, "instrukcje"@),
        (first.len() == 4 && (passages::opens_with(first, "give"@) || passages::opens_with(
            first,
            "show"@,
        ))) || (first.len() == 5 && passages::opens_with(first, "podaj"@))
            ==> !passages::opens_with(last, "password"@) && !passages::opens_with(last, "secret"@)
            && !passages::opens_with(last, "hasło"@) && !passages::opens_with(last, "token"@),
{
    reveal_strlit("zignoruj");
    reveal_strlit("ignore");
    reveal_strlit("forget");
    reveal_strlit("podaj");
    reveal_strlit("give");
    reveal_strlit("show");
    reveal_strlit("instrukcje");
    reveal_strlit("password");
    reveal_strlit("secret");
    reveal_strlit("hasło");
    reveal_strlit("token");
    router::lemma_sanitized_once(prompt@);
    let s = first + (between + (last + behind));
    let n = before.len() as int;
    assert(r@.skip(n) =~= s);
    let at = first.len() + between.len() as int;
    assert(s.skip(at) =~= last + behind);
    assert forall|i: int| 0 <= i < at implies #[trigger] s[i] != '\n' by {
        if i < first.len() {
            assert(s[i] == first[i]);
        } else {
            assert(s[i] == between[i - first.len()]);
        }
    }
    assert(passages::one_line(s, at));
    assert forall|w: Seq<char>| passages::opens_with(first, w)
        implies #[trigger] passages::opens_with(s, w) by {
        assert forall|i: int| 0 <= i < w.len() implies passages::reads(#[trigger] s[i], w[i]) by {
            assert(s[i] == first[i]);
        }
    }
    let t = s.skip(at);
    assert forall|w: Seq<char>| passages::opens_with(last, w)
        implies #[trigger] passages::opens_with(t, w) by {
        assert forall|i: int| 0 <= i < w.len() implies passages::reads(#[trigger] t[i], w[i]) by {
            assert(t[i] == last[i]);
        }
    }
    if first.len() == 6 && (passages::opens_with(first, "ignore"@) || passages::opens_with(
        first,
        "forget"@,
    )) || first.len() == 8 && passages::opens_with(first, "zignoruj"@) {
        if passages::opens_with(last, "instrukcje"@) {
            assert(passages::opens_with(t, "instrukcje"@));
            assert(passages::opens_with(s, "ignore"@) || passages::opens_with(s, "forget"@)
                || passages::opens_with(s, "zignoruj"@));
            if first.len() == 6 {
                lemma_not_both(s);
            }
            assert(0 < passages::key_len(Aim::Instructions, s) <= at);
            assert(passages::leads(Aim::Instructions, s, at));
            assert(passages::begins(Aim::Instructions, r@.skip(n)));
            assert(passages::has_passage(Aim::Instructions, r@));
        }
    }
    if first.len() == 4 && (passages::opens_with(first, "give"@) || passages::opens_with(
        first,
        "show"@,
    )) || first.len() == 5 && passages::opens_with(first, "podaj"@) {
        if passages::opens_with(last, "password"@) || passages::opens_with(last, "secret"@)
            || passages::opens_with(last, "hasło"@) || passages::opens_with(last, "token"@) {
            assert(passages::opens_with(t, "password"@) || passages::opens_with(t, "secret"@)
                || passages::opens_with(t, "hasło"@) || passages::opens_with(t, "token"@));
            assert(passages::opens_with(s, "give"@) || passages::opens_with(s, "show"@)
                || passages::opens_with(s, "podaj"@));
            if first.len() == 4 {
                lemma_not_both(s);
            }
            assert(0 < passages::key_len(Aim::Secrets, s) <= at);
            assert(passages::leads(Aim::Secrets, s, at));
            assert(passages::begins(Aim::Secrets, r@.skip(n)));
            assert(passages::has_passage(Aim::Secrets, r@));
        }
    }
}

proof fn lemma_not_both(s: Seq<char>)
    ensures
        passages::opens_with(s, "ignore"@) || passages::opens_with(s, "forget"@)
            ==> !passages::opens_with(s, "zignoruj"@),
        passages::opens_with(s, "give"@) || passages::opens_with(s, "show"@)
            ==> !passages::opens_with(s, "podaj"@),
{
    reveal_strlit("zignoruj");
    reveal_strlit("ignore");
    reveal_strlit("forget");
    reveal_strlit("podaj");
    reveal_strlit("give");
    reveal_strlit("show");
    if passages::opens_with(s, "zignoruj"@) {
        assert(passages::reads(s[0], "zignoruj"@[0]));
        if passages::opens_with(s, "ignore"@) {
            assert(passages::reads(s[0], "ignore"@[0]));
        }
        if passages::opens_with(s, "forget"@) {
            assert(passages::reads(s[0], "forget"@[0]));
        }
    }
    if passages::opens_with(s, "podaj"@) {
        assert(passages::reads(s[0], "podaj"@[0]));
        if passages::opens_with(s, "give"@) {
            assert(passages::reads(s[0], "give"@[0]));
        }
        if passages::opens_with(s, "show"@) {
            assert(passages::reads(s[0], "show"@[0]));
        }
    }
}

/// A message in which none of the first words stands anywhere goes out as it is,
/// but for the space around it. So does one in which none of the last words
/// stands.
pub proof fn law_other_messages_kept(prompt: &str, r: String, same: String)
    requires
        call_ensures(sanitize, (prompt,), r),
        call_ensures(trim, (prompt,), same),
    ensures
        (forall|i: int|
            #![trigger prompt@.skip(i)]
            0 <= i <= prompt@.len() ==> {
                let s = prompt@.skip(i);
                &&& !passages::opens_with(s, "zignoruj"@)
                &&& !passages::opens_with(s, "ignore"@)
                &&& !passages::opens_with(s, "forget"@)
                &&& !passages::opens_with(s, "podaj"@)
                &&& !passages::opens_with(s, "give"@)
                &&& !passages::opens_with(s, "show"@)
            }) ==> r@ == same@,
        (forall|i: int|
            #![trigger prompt@.skip(i)]
            0 <= i <= prompt@.len() ==> {
                let s = prompt@.skip(i);
                &&& !passages::opens_with(s, "instrukcje"@)
                &&& !passages::opens_with(s, "password"@)
                &&& !passages::opens_with(s, "secret"@)
                &&& !passages::opens_with(s, "hasło"@)
                &&& !passages::opens_with(s, "token"@)
            }) ==> r@ == same@,
{
    let p = prompt@;
    if (forall|i: int|
        #![trigger p.skip(i)]
        0 <= i <= p.len() ==> {
            let s = p.skip(i);
            &&& !passages::opens_with(s, "zignoruj"@)
            &&& !passages::opens_with(s, "ignore"@)
            &&& !passages::opens_with(s, "forget"@)
            &&& !passages::opens_with(s, "podaj"@)
            &&& !passages::opens_with(s, "give"@)
            &&& !passages::opens_with(s, "show"@)
        }) || (forall|i: int|
        #![trigger p.skip(i)]
        0 <= i <= p.len() ==> {
            let s = p.skip(i);
            &&& !passages::opens_with(s, "instrukcje"@)
            &&& !passages::opens_with(s, "password"@)
            &&& !passages::opens_with(s, "secret"@)
            &&& !passages::opens_with(s, "hasło"@)
            &&& !passages::opens_with(s, "token"@)
        }) {
        lemma_no_passage(p, Aim::Instructions);
        lemma_no_passage(p, Aim::Secrets);
        router::lemma_harmless_message_is_kept(p);
    }
}

proof fn lemma_no_passage(p: Seq<char>, aim: Aim)
    requires
        (forall|i: int|
            #![trigger p.skip(i)]
            0 <= i <= p.len() ==> passages::key_len(aim, p.skip(i)) == 0) || (forall|i: int|
            #![trigger p.skip(i)]
            0 <= i <= p.len() ==> passages::goal_len(aim, p.skip(i)) == 0),
    ensures
        !passages::has_passage(aim, p),
{
    if passages::has_passage(aim, p) {
        let from = choose|from: int|
            0 <= from <= p.len() && #[trigger] passages::begins(aim, p.skip(from));
        let s = p.skip(from);
        let at = choose|at: int| #[trigger] passages::leads(aim, s, at);
        assert(s.skip(at) =~= p.skip(from + at));
        assert(passages::goal_len(aim, p.skip(from + at)) > 0);
    }
}

// ── Chat ──

/// What is known is put to a prompt, and the prompt itself is never lost: behind
/// it the passages, in order, and in front of it all the facts, in order. Without
/// any it goes out as it is.
pub proof fn law_enriched(
    prompt: &str,
    hits: &Vec<String>,
    facts: &Vec<String>,
    none: &Vec<String>,
    r: String,
    plain: String,
    informed: String,
    known: String,
    passages: String,
    list: String,
)
    requires
        none@.len() == 0,
        call_ensures(enrich, (prompt, hits, facts), r),
        call_ensures(enrich, (prompt, none, none), plain),
        call_ensures(enrich, (prompt, hits, none), informed),
        call_ensures(enrich, (prompt, none, facts), known),
        call_ensures(join, (hits, "\n---\n"), passages),
        call_ensures(join, (facts, ", "), list),
    ensures
        plain@ == prompt@,
        hits@.len() > 0 ==> informed@ == prompt@ + "\n\nKontekst z bazy wiedzy:\n"@ + passages@,
        facts@.len() > 0 ==> known@ == "Fakty o użytkowniku: "@ + list@ + "\n\n"@ + prompt@,
        facts@.len() > 0 ==> r@ == "Fakty o użytkowniku: "@ + list@ + "\n\n"@ + informed@,
        facts@.len() == 0 ==> r@ == informed@,
        hits@.len() == 0 ==> r@ == known@,
{
    assert(text::views(none@) =~= Seq::<Seq<char>>::empty());
    assert(text::views(hits@).len() == hits@.len());
    assert(text::views(facts@).len() == facts@.len());
    if hits@.len() == 0 {
        assert(text::views(hits@) =~= text::views(none@));
    }
    if facts@.len() == 0 {
        assert(text::views(facts@) =~= text::views(none@));
    }
}

/// A reply is made by the engine of the service, from the prompt with the facts of
/// the user, of which at most five go with it, and from the end of the
/// conversation.
pub proof fn law_chat_context(
    st: &AppState,
    prompt: &str,
    id: &str,
    hits: &Vec<String>,
    cached: Vec<Turn>,
    stored: Vec<Turn>,
    c: ChatContext,
    facts: Vec<String>,
    r: String,
    history: Vec<(String, String)>,
    e: LlmEngine,
)
    requires
        st.wf(),
        call_ensures(build_chat_context, (st, prompt, id, hits, cached, stored), c),
        call_ensures(UserProfiler::get_facts, (&st.profiler, id, 5), facts),
        call_ensures(enrich, (prompt, hits, &facts), r),
        call_ensures(
            PersistentMemory::get_trimmed_history,
            (&st.memory, id, cached, stored),
            history,
        ),
    ensures
        c.enriched@ == r@,
        crate::engine::turns(c.history@) == crate::engine::turns(history@),
        c.engine.kind == st.engine.kind,
        c.engine.mode == st.engine.mode,
        c.serper is Some <==> st.cfg.serper_api_key is Some,
        c.serper matches Some(k) ==> k@ == st.cfg.serper_api_key->0@,
{
}

/// A message goes to the session that it names. Only one that names none begins a
/// new one.
pub proof fn law_session_of(req: &ChatReq, r: String)
    requires
        call_ensures(session_of, (req,), r),
    ensures
        req.session_id matches Some(s) ==> r@ == s@,
        req.session_id is None ==> outside::is_uuid(r@),
{
}

/// A reply is handed on as it is, in its session, and remembered as the last turn
/// of that session and of no other. A failure is told, and nothing is remembered.
pub proof fn law_chat(
    st: &mut AppState,
    id: String,
    prompt: &str,
    reply: Result<String, String>,
    r: ChatAnswer,
    other: Seq<char>,
    p: &mut UserProfiler,
    who: &str,
)
    requires
        old(st).wf(),
        call_ensures(chat_handler, (st, id, prompt, reply), r),
        *old(p) == old(st).profiler,
        who@ == id@,
        call_ensures(UserProfiler::update_from_message, (p, who, prompt), ()),
    ensures
        reply is Ok ==> final(st).profiler.facts_of(id@) == final(p).facts_of(id@),
        reply is Ok <==> r is Reply,
        r matches ChatAnswer::Reply(c) ==> c.session_id@ == id@ && c.response@ == reply->Ok_0@,
        reply is Ok ==> final(st).memory.kept(id@).len() > 0 && final(st).memory.kept(id@).last()
            == (prompt@, reply->Ok_0@),
        reply is Ok && old(st).memory.kept(id@).len() < 100
            ==> final(st).memory.kept(id@)
            == old(st).memory.kept(id@).push((prompt@, reply->Ok_0@)),
        reply is Ok ==> final(st).memory.sessions().contains(id@),
        other != id@ ==> final(st).memory.kept(other) == old(st).memory.kept(other),
        other != id@ ==> final(st).profiler.facts_of(other) == old(st).profiler.facts_of(other),
        r matches ChatAnswer::Failed(a) ==> a.status == 500 && a.field@ == "error"@ && a.text@
            == reply->Err_0@ && *final(st) == *old(st),
        final(st).engine == old(st).engine,
        final(st).rag == old(st).rag,
{
    match r {
        ChatAnswer::Failed(a) => {
            assert(a@ == (a.status, a.field@, a.text@));
        },
        _ => {},
    }
}

// ── The knowledge base ──

/// The question goes to the model whole, behind the passages in order.
pub proof fn law_rag_prompt(
    req: &RagReq,
    hits: &Vec<String>,
    r: String,
    passages: String,
)
    requires
        call_ensures(rag_prompt, (req, hits), r),
        call_ensures(join, (hits, "\n---\n"), passages),
    ensures
        hits@.len() > 0 ==> r@ == "Odpowiedz na pytanie na podstawie kontekstu:\n\n"@ + passages@
            + "\n\nPytanie: "@ + req.query@,
        hits@.len() == 0 ==> r@ == "Odpowiedz na pytanie na podstawie kontekstu:\n\n"@
            + "Brak dokumentów w bazie wiedzy."@ + "\n\nPytanie: "@ + req.query@,
{
    assert(text::views(hits@).len() == hits@.len());
}

/// The answer to a question is the reply, with as many sources as passages went
/// with it. A failure is told.
pub proof fn law_rag_query(hits: &Vec<String>, reply: Result<String, String>, r: RagAnswer)
    requires
        call_ensures(rag_query, (hits, reply), r),
    ensures
        reply is Ok <==> r is Reply,
        r matches RagAnswer::Reply { response, sources } ==> response@ == reply->Ok_0@ && sources
            == hits@.len(),
        r matches RagAnswer::Failed(a) ==> a.status == 500 && a.field@ == "error"@ && a.text@
            == reply->Err_0@,
{
    match r {
        RagAnswer::Failed(a) => {
            assert(a@ == (a.status, a.field@, a.text@));
        },
        _ => {},
    }
}

/// An address is one on the web where it begins with one of the two schemes,
/// whatever follows. Anything else names a file, which is read as a PDF where its
/// name ends so, and refused where there is none.
pub proof fn law_sources(source: &str, rest: Seq<char>, present: bool, web: bool, r: Source)
    requires
        call_ensures(on_web, (source,), web),
        call_ensures(fetch_text, (source, present), r),
    ensures
        source@ == "http://"@ + rest ==> web,
        source@ == "https://"@ + rest ==> web,
        web ==> text::has_prefix(source@, "http://"@) || text::has_prefix(source@, "https://"@),
        r is Web <==> web,
        !web && !present ==> (r matches Source::Missing(e) && e@ == "Plik "@ + source@
            + " nie istnieje."@),
        !web && present && source@ == rest + ".pdf"@ ==> r is Pdf,
        !web && present && !text::has_suffix(source@, ".pdf"@) ==> r is Plain,
        r is Missing ==> !present,
{
    if source@ == "http://"@ + rest {
        assert(source@.take("http://"@.len() as int) =~= "http://"@);
    }
    if source@ == "https://"@ + rest {
        assert(source@.take("https://"@.len() as int) =~= "https://"@);
    }
    if source@ == rest + ".pdf"@ {
        assert(source@.skip(source@.len() - ".pdf"@.len()) =~= ".pdf"@);
    }
}

/// The pieces of a page come in order, those of one element behind those of the
/// element before it, and none is lost.
pub proof fn law_all_pieces(a: Seq<Seq<Seq<char>>>, b: Seq<Seq<Seq<char>>>)
    ensures
        router::all_pieces(a + b) == router::all_pieces(a) + router::all_pieces(b),
        a.len() == 0 ==> router::all_pieces(a).len() == 0,
        a.len() == 1 ==> router::all_pieces(a) == a[0],
    decreases b.len(),
{
    if a.len() == 1 {
        assert(a.drop_last() =~= Seq::<Seq<Seq<char>>>::empty());
        assert(router::all_pieces(a.drop_last()) =~= Seq::<Seq<char>>::empty());
        assert(router::all_pieces(a) =~= a[0]);
    }
    if b.len() == 0 {
        assert(a + b =~= a);
        assert(router::all_pieces(a) + router::all_pieces(b) =~= router::all_pieces(a));
    } else {
        law_all_pieces(a, b.drop_last());
        assert((a + b).drop_last() =~= a + b.drop_last());
        assert((a + b).last() == b.last());
        assert(router::all_pieces(a + b) =~= router::all_pieces(a) + router::all_pieces(b));
    }
}

/// The text of a page with one element holds its pieces with a space between each
/// two.
pub proof fn law_page_text(found: &Vec<Vec<String>>, r: String, one: String)
    requires
        call_ensures(page_text, (found,), r),
        found@.len() == 1,
        call_ensures(join, (&found@[0], " "), one),
    ensures
        r@ == one@,
{
    let v = outside::nested_views(found@);
    assert(v[0] == text::views(found@[0]@));
    law_all_pieces(v, v);
}

/// A PDF document with any text is that text, and everything else the text of the
/// body of the page.
pub proof fn law_web_text(bytes: &[u8], pdf: Option<String>, r: String, words: String, body: String)
    requires
        call_ensures(web_text, (bytes, pdf), r),
        call_ensures(web_text, (bytes, None), body),
        pdf matches Some(t) ==> words@ == text::trimmed(t@),
    ensures
        pdf is Some && words@.len() > 0 ==> r@ == pdf->0@,
        pdf is None || words@.len() == 0 ==> r@ == body@,
        body@ == text::joined(
            router::all_pieces(outside::selected_text(outside::lossy_text(bytes@), "body"@)),
            " "@,
        ),
{
}

/// A document with words is cut into the chunks of its text. One that could not be
/// fetched or has no words is refused, and the answer says why.
pub proof fn law_ingest(req: &IngestReq, fetched: Result<String, String>, r: Ingest, i: int)
    requires
        fetched matches Ok(t) ==> text::words(t@).len() <= req.chunk_size || req.chunk_overlap
            < req.chunk_size,
        call_ensures(ingest_doc, (req, fetched), r),
    ensures
        fetched matches Err(e) ==> (r matches Ingest::Refused(a) && a.status == 400 && a.field@
            == "error"@ && a.text@ == e@),
        fetched matches Ok(t) ==> (r is Refused <==> text::trimmed(t@).len() == 0),
        r matches Ingest::Refused(a) ==> a.status == 400 && (fetched is Ok ==> a.text@
            == "Empty document"@),
        r matches Ingest::Chunks(c) ==> {
            let words = text::words(fetched->Ok_0@);
            let step = req.chunk_size - req.chunk_overlap;
            &&& c@.len() == 0 <==> words.len() == 0
            &&& words.len() <= req.chunk_size && words.len() > 0 ==> c@.len() == 1 && c@[0].text@
                == text::joined(words, " "@)
            &&& 0 <= i < c@.len() ==> c@[i].source@ == req.source@ && c@[i].chunk_idx == i
            &&& 0 <= i < c@.len() - 1 ==> c@[i].text@ == text::joined(
                words.subrange(i * step, i * step + req.chunk_size),
                " "@,
            )
            &&& 0 <= i == c@.len() - 1 ==> c@[i].text@ == text::joined(words.skip(i * step), " "@)
        },
{
    match r {
        Ingest::Refused(a) => {
            assert(a@ == (a.status, a.field@, a.text@));
        },
        Ingest::Chunks(c) => {
            let words = text::words(fetched->Ok_0@);
            let size = req.chunk_size as int;
            let overlap = req.chunk_overlap as int;
            if words.len() <= req.chunk_size && words.len() > 0 {
                laws::rag::lemma_chunk(words, size, overlap, c@, 0);
            }
            if 0 <= i < c@.len() {
                laws::rag::lemma_chunk(words, size, overlap, c@, i);
            }
        },
    }
}

/// Where a chunk is not longer than what it shares with the next, a text longer
/// than it has no end of chunks; every other text can be cut.
pub proof fn law_can_chunk(t: &str, req: &IngestReq, r: bool)
    requires
        call_ensures(can_chunk, (t, req), r),
    ensures
        !r <==> req.chunk_size <= req.chunk_overlap && text::words(t@).len() > req.chunk_size,
{
}

// ── Answers ──

/// An answer says what went wrong under `error` with the status that was given,
/// and what was done under `message` with success.
pub proof fn law_answers(
    status: u16,
    t: String,
    req: &IngestReq,
    chunks: usize,
    a: Answer,
    b: Answer,
    c: Answer,
    n: String,
)
    requires
        call_ensures(refuse, (status, t), a),
        call_ensures(confirm, (t,), b),
        call_ensures(ingested, (req, chunks), c),
        call_ensures(number, (chunks as u64,), n),
    ensures
        a.status == status && a.field@ == "error"@ && a.text@ == t@,
        b.status == 200 && b.field@ == "message"@ && b.text@ == t@,
        c.status == 200 && c.field@ == "message"@ && c.text@ == "Zindeksowano "@ + n@
            + " fragmentów z "@ + req.source@,
{
    assert(a@ == (a.status, a.field@, a.text@));
    assert(b@ == (b.status, b.field@, b.text@));
    assert(c@ == (c.status, c.field@, c.text@));
}

/// Pictures, speech and transcripts are refused as not implemented, and nothing
/// else is.
pub proof fn law_unavailable(e: Endpoint, r: Option<Answer>)
    requires
        call_ensures(unavailable, (e,), r),
    ensures
        r is Some <==> e == Endpoint::GenerateImage || e == Endpoint::Transcribe || e
            == Endpoint::AnalyzeImage || e == Endpoint::Tts,
        r matches Some(a) ==> a.status == 501 && a.text@.len() > 0,
{
    reveal_strlit("Image generation: start the Python service");
    reveal_strlit("Transcription: start the Python service");
    reveal_strlit("Vision: start the Python service");
    reveal_strlit("TTS: start the Python service");
    if let Some(a) = r {
        assert(a@ == (a.status, a.field@, a.text@));
    }
}

/// What the service reports of itself is what holds: the engine and the mode by
/// their names, all sessions, and all chunks.
pub proof fn law_stats(
    st: &AppState,
    stored: Vec<String>,
    s: ServiceStats,
    kind: String,
    mode: String,
    all: Vec<String>,
    chunks: usize,
)
    requires
        st.wf(),
        call_ensures(stats, (st, stored), s),
        call_ensures(EngineKind::name, (&st.engine.kind,), kind),
        call_ensures(Mode::name, (&st.engine.mode,), mode),
        call_ensures(PersistentMemory::list_sessions, (&st.memory, stored), all),
        call_ensures(crate::rag::RagStore::count, (&st.rag,), chunks),
    ensures
        s.engine@ == kind@,
        s.mode@ == mode@,
        s.active_sessions == all@.len(),
        s.rag_chunks == chunks,
        s.auth_enabled == st.auth.auth_enabled,
        s.model_loaded,
        s.history_len == 0,
        s.model_idle_seconds == 0,
{
    assert(text::views(all@).len() == all@.len());
}

/// A session that was deleted has no turns left and is no longer listed. Every
/// other session stays as it is, and so does the rest of the service.
pub proof fn law_delete_session(st: &mut AppState, id: &str, a: Answer, other: Seq<char>)
    requires
        old(st).wf(),
        call_ensures(delete_session, (st, id), a),
    ensures
        a.status == 200 && a.field@ == "message"@ && a.text@ == "Sesja "@ + id@ + " usunięta"@,
        final(st).memory.kept(id@).len() == 0,
        !final(st).memory.sessions().contains(id@),
        other != id@ ==> final(st).memory.kept(other) == old(st).memory.kept(other),
        other != id@ ==> (final(st).memory.sessions().contains(other)
            <==> old(st).memory.sessions().contains(other)),
        final(st).cfg == old(st).cfg && final(st).engine == old(st).engine
            && final(st).rag == old(st).rag && final(st).profiler == old(st).profiler
            && final(st).auth == old(st).auth,
{
    assert(a@ == (a.status, a.field@, a.text@));
}

/// The service is well, and of this version.
pub proof fn law_health(r: (String, String))
    requires
        call_ensures(health, (), r),
    ensures
        r.0@ == "ok"@,
        r.1@ == "2.0.0"@,
{
}

/// A request that says nothing of it is cut into chunks of five hundred words that
/// share a hundred.
pub proof fn law_default_chunks(n: usize, m: usize)
    requires
        call_ensures(d500, (), n),
        call_ensures(d100, (), m),
    ensures
        n == 500,
        m == 100,
        m < n,
{
}

/// What is remembered of a turn is the turn itself, at the end of its session, and
/// of no other; the engine, the documents and the settings stay.
pub proof fn law_remembered(
    st: &mut AppState,
    id: &str,
    prompt: &str,
    response: &str,
    other: Seq<char>,
    p: &mut UserProfiler,
)
    requires
        old(st).wf(),
        call_ensures(AppState::remember, (st, id, prompt, response), ()),
        *old(p) == old(st).profiler,
        call_ensures(UserProfiler::update_from_message, (p, id, prompt), ()),
    ensures
        final(st).profiler.facts_of(id@) == final(p).facts_of(id@),
        final(st).memory.kept(id@).len() > 0,
        final(st).memory.kept(id@).last() == (prompt@, response@),
        old(st).memory.kept(id@).len() < 100 ==> final(st).memory.kept(id@) == old(st).memory.kept(
            id@,
        ).push((prompt@, response@)),
        other != id@ ==> final(st).memory.kept(other) == old(st).memory.kept(other),
        other != id@ ==> final(st).profiler.facts_of(other) == old(st).profiler.facts_of(other),
        final(st).engine == old(st).engine,
        final(st).rag == old(st).rag,
        final(st).cfg == old(st).cfg,
        final(st).auth == old(st).auth,
{
}

/// The kind and the mode are set as they are given, each without the other.
pub proof fn law_engine_set(a: &mut AppState, b: &mut AppState, kind: EngineKind, mode: Mode)
    requires
        call_ensures(AppState::set_engine_kind, (a, kind), ()),
        call_ensures(AppState::set_mode, (b, mode), ()),
    ensures
        final(a).engine.kind == kind,
        final(a).engine.mode == old(a).engine.mode,
        final(a).engine.backend == old(a).engine.backend,
        final(b).engine.mode == mode,
        final(b).engine.kind == old(b).engine.kind,
        final(b).engine.backend == old(b).engine.backend,
        final(a).memory == old(a).memory && final(b).memory == old(b).memory,
{
}

/// A service starts with the settings, the engine and the memory that it is given,
/// knows nothing of any user, and has the chunks that were kept, each under its
/// identifier.
pub proof fn law_service_starts(
    cfg: Config,
    engine: LlmEngine,
    memory: PersistentMemory,
    model: &Option<String>,
    loaded: Vec<DocChunk>,
    s: AppState,
    user: Seq<char>,
    i: int,
)
    requires
        memory.wf(),
        call_ensures(AppState::new, (cfg, engine, memory, model, loaded), s),
    ensures
        s.cfg == cfg,
        s.engine == engine,
        s.memory == memory,
        s.profiler.facts_of(user).len() == 0,
        s.auth.jwt_secret@ == cfg.jwt_secret@,
        s.auth.auth_enabled == cfg.auth_enabled,
        0 <= i < loaded@.len() && (forall|j: int|
            i < j < loaded@.len() ==> (#[trigger] loaded@[j]).id@ != loaded@[i].id@)
            ==> s.rag@.contains_key(loaded@[i].id@) && s.rag@[loaded@[i].id@] == loaded@[i],
        loaded@.len() == 0 ==> s.rag.chunks().len() == 0,
{
    if 0 <= i < loaded@.len() && (forall|j: int|
        i < j < loaded@.len() ==> (#[trigger] loaded@[j]).id@ != loaded@[i].id@) {
        crate::rag::lemma_stored_last(Map::empty(), loaded@, i);
    }
    if loaded@.len() == 0 {
        assert(loaded@ =~= Seq::empty());
        crate::rag::lemma_store_of_nothing(s.rag);
    }
}

// ── What is filtered out, by itself ──

/// What stands in front of the first passage stays as it is.
pub proof fn law_front_stays(aim: Aim, s: Seq<char>, rep: Seq<char>, n: int)
    requires
        0 <= n <= s.len(),
        forall|i: int| 0 <= i < n ==> !passages::begins(aim, #[trigger] s.skip(i)),
    ensures
        passages::without(aim, s, rep) == s.take(n) + passages::without(aim, s.skip(n), rep),
    decreases n,
{
    if n == 0 {
        assert(s.skip(0) =~= s);
        assert(s.take(0) + passages::without(aim, s, rep) =~= passages::without(aim, s, rep));
    } else {
        assert(s.skip(0) =~= s);
        assert(!passages::begins(aim, s.skip(0)));
        let t = s.skip(1);
        assert forall|i: int| 0 <= i < n - 1 implies !passages::begins(
            aim,
            #[trigger] t.skip(i),
        ) by {
            assert(t.skip(i) =~= s.skip(i + 1));
        }
        law_front_stays(aim, t, rep, n - 1);
        assert(t.skip(n - 1) =~= s.skip(n));
        assert(seq![s[0]] + t.take(n - 1) =~= s.take(n));
        assert(passages::without(aim, s, rep) =~= s.take(n) + passages::without(
            aim,
            s.skip(n),
            rep,
        ));
    }
}

/// A passage gives way to the mark, and what follows it is looked at by itself. A
/// passage that is after the instructions ends with the first word that can end
/// it, and one that is after a secret with the last on its line.
pub proof fn law_passage_goes(aim: Aim, s: Seq<char>, rep: Seq<char>, at: int, len: int)
    requires
        passages::leads(aim, s, at),
        len == passages::goal_len(aim, s.skip(at)),
        aim == Aim::Instructions ==> forall|other: int|
            other < at ==> !#[trigger] passages::leads(aim, s, other),
        aim == Aim::Secrets ==> forall|other: int|
            other > at ==> !#[trigger] passages::leads(aim, s, other),
    ensures
        passages::without(aim, s, rep) == rep + passages::without(aim, s.skip(at + len), rep),
{
    assert(passages::ends_with_word_at(aim, s, at));
    let found = choose|x: int| #[trigger] passages::ends_with_word_at(aim, s, x);
    assert(passages::ends_with_word_at(aim, s, found));
    assert(found == at);
    assert(passages::begins(aim, s));
}

} // verus!
