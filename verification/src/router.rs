//! What the service answers to each request.

use crate::engine;
use crate::engine::{EngineKind, LlmEngine, Mode};
use crate::memory;
use crate::memory::Turn;
use crate::outside;
use crate::outside::{
    decode_lossy, html_select, is_header_value, new_id, regex_replace_all, BODY, GIVE_SECRET,
    IGNORE_INSTRUCTIONS,
};
use crate::passages;
use crate::passages::Aim;
use crate::profiler;
use crate::rag;
use crate::rag::{chunk_text, DocChunk};
use crate::state::AppState;
use crate::text;
use crate::text::{
    concat2, concat3, copy_opt, ends_with, join, number, same_text, split_whitespace, starts_with,
    trim,
};
use vstd::prelude::*;

verus! {

// ── Requests ──

/// A message of a user.
pub struct ChatReq {
    pub session_id: Option<String>,
    pub message: String,
    pub stream: bool,
}

/// The reply to a message.
pub struct ChatResp {
    pub session_id: String,
    pub response: String,
}

/// A request to change the engine.
pub struct EngineReq {
    pub engine: String,
}

/// A request to change the mode.
pub struct ModeReq {
    pub mode: String,
}

/// A question to the knowledge base.
pub struct RagReq {
    pub query: String,
}

/// A request for a picture.
pub struct ImageReq {
    pub prompt: String,
}

/// A request for speech.
pub struct TtsQuery {
    pub text: String,
}

/// A document for the knowledge base.
pub struct IngestReq {
    pub source: String,
    pub chunk_size: usize,
    pub chunk_overlap: usize,
}

/// The words in a chunk unless the request says otherwise.
pub fn d500() -> (n: usize)
    ensures
        n == 500,
{
    500
}

/// The words that chunks share unless the request says otherwise.
pub fn d100() -> (n: usize)
    ensures
        n == 100,
{
    100
}

// ── Routes ──

/// The parts of the service that can be asked for.
#[derive(Clone, Copy, Debug, PartialEq, Eq, Structural)]
pub enum Endpoint {
    Health,
    Login,
    GuiIndex,
    GuiStatic,
    Chat,
    SetEngine,
    SetMode,
    RagQuery,
    IngestDoc,
    GenerateImage,
    Transcribe,
    AnalyzeImage,
    Tts,
    Stats,
    ListSessions,
    DeleteSession,
}

/// How a part of the service is asked for.
#[derive(Clone, Copy, Debug, PartialEq, Eq, Structural)]
pub enum Verb {
    Get,
    Post,
    Delete,
}

/// The longest body that a request may have, in bytes.
pub const BODY_LIMIT: usize = 10_485_760;

/// The paths of the service, each with what it leads to.
pub open spec fn route_table() -> Seq<(Seq<char>, Endpoint)> {
    seq![
        ("/health"@, Endpoint::Health),
        ("/auth/token"@, Endpoint::Login),
        ("/gui"@, Endpoint::GuiIndex),
        ("/gui/"@, Endpoint::GuiIndex),
        ("/gui/*path"@, Endpoint::GuiStatic),
        ("/"@, Endpoint::GuiIndex),
        ("/chat"@, Endpoint::Chat),
        ("/engine"@, Endpoint::SetEngine),
        ("/mode"@, Endpoint::SetMode),
        ("/rag"@, Endpoint::RagQuery),
        ("/ingest"@, Endpoint::IngestDoc),
        ("/generate_image"@, Endpoint::GenerateImage),
        ("/transcribe"@, Endpoint::Transcribe),
        ("/analyze_image"@, Endpoint::AnalyzeImage),
        ("/tts"@, Endpoint::Tts),
        ("/stats"@, Endpoint::Stats),
        ("/sessions"@, Endpoint::ListSessions),
        ("/session/:id"@, Endpoint::DeleteSession),
    ]
}

/// The paths of the service, each with what it leads to.
pub fn build_router() -> (r: Vec<(String, Endpoint)>)
    ensures
        r@.map_values(|e: (String, Endpoint)| (e.0@, e.1)) == route_table(),
{
    let mut r: Vec<(String, Endpoint)> = Vec::new();
    r.push(("/health".to_owned(), Endpoint::Health));
    r.push(("/auth/token".to_owned(), Endpoint::Login));
    r.push(("/gui".to_owned(), Endpoint::GuiIndex));
    r.push(("/gui/".to_owned(), Endpoint::GuiIndex));
    r.push(("/gui/*path".to_owned(), Endpoint::GuiStatic));
    r.push(("/".to_owned(), Endpoint::GuiIndex));
    r.push(("/chat".to_owned(), Endpoint::Chat));
    r.push(("/engine".to_owned(), Endpoint::SetEngine));
    r.push(("/mode".to_owned(), Endpoint::SetMode));
    r.push(("/rag".to_owned(), Endpoint::RagQuery));
    r.push(("/ingest".to_owned(), Endpoint::IngestDoc));
    r.push(("/generate_image".to_owned(), Endpoint::GenerateImage));
    r.push(("/transcribe".to_owned(), Endpoint::Transcribe));
    r.push(("/analyze_image".to_owned(), Endpoint::AnalyzeImage));
    r.push(("/tts".to_owned(), Endpoint::Tts));
    r.push(("/stats".to_owned(), Endpoint::Stats));
    r.push(("/sessions".to_owned(), Endpoint::ListSessions));
    r.push(("/session/:id".to_owned(), Endpoint::DeleteSession));
    proof {
        assert(r@.map_values(|e: (String, Endpoint)| (e.0@, e.1)) =~= route_table());
    }
    r
}

impl Endpoint {
    /// The part is open to everyone.
    pub open spec fn is_public(self) -> bool {
        self == Endpoint::Health || self == Endpoint::Login || self == Endpoint::GuiIndex || self
            == Endpoint::GuiStatic
    }

    /// How the part is asked for.
    pub open spec fn verb_of(self) -> Verb {
        match self {
            Endpoint::Health => Verb::Get,
            Endpoint::GuiIndex => Verb::Get,
            Endpoint::GuiStatic => Verb::Get,
            Endpoint::Tts => Verb::Get,
            Endpoint::Stats => Verb::Get,
            Endpoint::ListSessions => Verb::Get,
            Endpoint::DeleteSession => Verb::Delete,
            _ => Verb::Post,
        }
    }

    /// Whether the part asks for a token where tokens are asked for.
    pub fn is_protected(&self) -> (r: bool)
        ensures
            r == !self.is_public(),
    {
        match self {
            Endpoint::Health | Endpoint::Login | Endpoint::GuiIndex | Endpoint::GuiStatic => false,
            _ => true,
        }
    }

    /// How the part is asked for.
    pub fn verb(&self) -> (v: Verb)
        ensures
            v == self.verb_of(),
    {
        match self {
            Endpoint::Health
            | Endpoint::GuiIndex
            | Endpoint::GuiStatic
            | Endpoint::Tts
            | Endpoint::Stats
            | Endpoint::ListSessions => Verb::Get,
            Endpoint::DeleteSession => Verb::Delete,
            _ => Verb::Post,
        }
    }
}

/// No path leads to two parts of the service.
pub proof fn lemma_paths_are_distinct(i: int, j: int)
    requires
        0 <= i < j < route_table().len(),
    ensures
        route_table()[i].0 != route_table()[j].0,
{
    reveal_strlit("/health");
    reveal_strlit("/auth/token");
    reveal_strlit("/gui");
    reveal_strlit("/gui/");
    reveal_strlit("/gui/*path");
    reveal_strlit("/");
    reveal_strlit("/chat");
    reveal_strlit("/engine");
    reveal_strlit("/mode");
    reveal_strlit("/rag");
    reveal_strlit("/ingest");
    reveal_strlit("/generate_image");
    reveal_strlit("/transcribe");
    reveal_strlit("/analyze_image");
    reveal_strlit("/tts");
    reveal_strlit("/stats");
    reveal_strlit("/sessions");
    reveal_strlit("/session/:id");
    let a = route_table()[i].0;
    let b = route_table()[j].0;
    if a == b {
        assert(a.len() == b.len());
        assert(a[1] == b[1]);
        assert(a[2] == b[2]);
    }
}

/// Who may call the service from a page of another site.
pub enum CorsPolicy {
    /// Everyone.
    Any,
    /// The pages of these sites.
    Listed(Vec<String>),
}

/// The text can be the value of a header.
pub open spec fn is_header(s: Seq<char>) -> bool {
    forall|i: int| 0 <= i < s.len() ==> outside::is_header_char(#[trigger] s[i])
}

/// Who may call the service from a page of another site: everyone where a star
/// is listed, and else the sites that a header can name.
pub fn build_cors(origins: &Vec<String>) -> (r: CorsPolicy)
    ensures
        match r {
            CorsPolicy::Any => text::views(origins@).contains("*"@),
            CorsPolicy::Listed(l) => !text::views(origins@).contains("*"@) && text::views(l@)
                == text::views(origins@).filter(|o: Seq<char>| is_header(o)),
        },
{
    let ghost all = text::views(origins@);
    let ghost fits = |o: Seq<char>| is_header(o);
    let mut listed: Vec<String> = Vec::new();
    let mut i: usize = 0;
    proof {
        reveal(Seq::filter);
        assert(all.take(0) =~= Seq::<Seq<char>>::empty());
        assert(text::views(listed@) =~= Seq::<Seq<char>>::empty());
    }
    while i < origins.len()
        invariant
            all == text::views(origins@),
            fits == (|o: Seq<char>| is_header(o)),
            i <= origins@.len(),
            forall|j: int| 0 <= j < i ==> all[j] != "*"@,
            text::views(listed@) == all.take(i as int).filter(fits),
        decreases origins@.len() - i,
    {
        let ghost o = listed@;
        proof {
            reveal(Seq::filter);
            assert(all.take(i + 1).drop_last() =~= all.take(i as int));
            assert(all.take(i + 1).last() == origins@[i as int]@);
            assert(all[i as int] == origins@[i as int]@);
        }
        if same_text(origins[i].as_str(), "*") {
            return CorsPolicy::Any;
        }
        if is_header_value(origins[i].as_str()) {
            listed.push(origins[i].clone());
            proof {
                assert(text::views(listed@) =~= text::views(o).push(origins@[i as int]@));
            }
        }
        i = i + 1;
    }
    proof {
        assert(all.take(all.len() as int) =~= all);
    }
    CorsPolicy::Listed(listed)
}

// ── Answers ──

/// An answer of one field.
pub struct Answer {
    pub status: u16,
    pub field: String,
    pub text: String,
}

impl View for Answer {
    type V = (u16, Seq<char>, Seq<char>);

    open spec fn view(&self) -> (u16, Seq<char>, Seq<char>) {
        (self.status, self.field@, self.text@)
    }
}

/// An answer that says what went wrong.
pub fn refuse(status: u16, text: String) -> (a: Answer)
    ensures
        a@ == (status, "error"@, text@),
{
    Answer { status, field: "error".to_owned(), text }
}

/// An answer that says what was done.
pub fn confirm(text: String) -> (a: Answer)
    ensures
        a@ == (200u16, "message"@, text@),
{
    Answer { status: 200, field: "message".to_owned(), text }
}

// ── /chat ──

/// What takes the place of a passage that is filtered out.
pub const FILTERED: &'static str = "[FILTERED]";

/// A message without the passages that try to misuse the assistant, and without
/// white space around it.
pub open spec fn sanitized(prompt: Seq<char>) -> Seq<char> {
    text::trimmed(
        passages::without(
            Aim::Secrets,
            passages::without(Aim::Instructions, prompt, FILTERED@),
            FILTERED@,
        ),
    )
}

/// Filters the passages out of a message that try to misuse the assistant.
pub fn sanitize(prompt: &str) -> (r: String)
    ensures
        r@ == sanitized(prompt@),
{
    proof {
        reveal_strlit("[FILTERED]");
    }
    let first: String = regex_replace_all(IGNORE_INSTRUCTIONS, prompt, FILTERED);
    let second: String = regex_replace_all(GIVE_SECRET, first.as_str(), FILTERED);
    trim(second.as_str())
}

/// There is nothing to filter in the message.
pub open spec fn is_harmless(prompt: Seq<char>) -> bool {
    !passages::has_passage(Aim::Instructions, prompt) && !passages::has_passage(
        Aim::Secrets,
        prompt,
    )
}

/// A message in which nothing is to be filtered is only trimmed.
pub proof fn lemma_harmless_message_is_kept(prompt: Seq<char>)
    requires
        is_harmless(prompt),
    ensures
        sanitized(prompt) == text::trimmed(prompt),
{
    passages::lemma_nothing_to_take(Aim::Instructions, prompt, FILTERED@);
    passages::lemma_nothing_to_take(Aim::Secrets, prompt, FILTERED@);
}

/// In a sanitised message nothing is left to be filtered, and there is no white
/// space around it, so that sanitising it again changes nothing.
pub proof fn lemma_sanitized_once(prompt: Seq<char>)
    ensures
        is_harmless(sanitized(prompt)),
        text::trimmed(sanitized(prompt)) == sanitized(prompt),
        sanitized(sanitized(prompt)) == sanitized(prompt),
{
    let first = passages::without(Aim::Instructions, prompt, FILTERED@);
    let second = passages::without(Aim::Secrets, first, FILTERED@);
    passages::lemma_none_left(Aim::Instructions, prompt);
    passages::lemma_none_made(Aim::Instructions, Aim::Secrets, first);
    passages::lemma_none_left(Aim::Secrets, first);
    let (from, to) = text::lemma_trimmed_is_part(second);
    passages::lemma_part_has_none(Aim::Instructions, second, from, to);
    passages::lemma_part_has_none(Aim::Secrets, second, from, to);
    text::lemma_trimmed_once(second);
    lemma_harmless_message_is_kept(sanitized(prompt));
}

/// What stands between two passages of the knowledge base.
pub const PASSAGE_BREAK: &'static str = "\n---\n";

/// A prompt with what the knowledge base has on it behind it, and with what is
/// known of the user in front of it.
pub open spec fn enriched(
    prompt: Seq<char>,
    hits: Seq<Seq<char>>,
    facts: Seq<Seq<char>>,
) -> Seq<char> {
    let informed = if hits.len() == 0 {
        prompt
    } else {
        prompt + "\n\nKontekst z bazy wiedzy:\n"@ + text::joined(hits, PASSAGE_BREAK@)
    };
    if facts.len() == 0 {
        informed
    } else {
        "Fakty o użytkowniku: "@ + text::joined(facts, ", "@) + "\n\n"@ + informed
    }
}

/// Puts what is known to a prompt.
pub fn enrich(prompt: &str, hits: &Vec<String>, facts: &Vec<String>) -> (r: String)
    ensures
        r@ == enriched(prompt@, text::views(hits@), text::views(facts@)),
{
    let mut out: String = prompt.to_owned();
    if hits.len() > 0 {
        let passages: String = join(hits, PASSAGE_BREAK);
        out = concat3(out.as_str(), "\n\nKontekst z bazy wiedzy:\n", passages.as_str());
    }
    if facts.len() > 0 {
        let list: String = join(facts, ", ");
        let head: String = concat3("Fakty o użytkowniku: ", list.as_str(), "\n\n");
        out = concat2(head.as_str(), out.as_str());
    }
    out
}

/// Without hits and facts a prompt goes out as it is.
pub proof fn lemma_nothing_to_add(prompt: Seq<char>)
    ensures
        enriched(prompt, Seq::empty(), Seq::empty()) == prompt,
{
}

/// What a reply is made from.
pub struct ChatContext {
    /// The prompt with what is known.
    pub enriched: String,
    /// The end of the conversation that fits.
    pub history: Vec<(String, String)>,
    /// The engine that replies.
    pub engine: LlmEngine,
    /// The key of the search service.
    pub serper: Option<String>,
}

/// How many passages of the knowledge base go with a prompt.
pub const RAG_HITS: usize = 3;

/// How many facts of the user go with a prompt.
pub const FACTS_SHOWN: usize = 5;

/// Puts together what a reply to a prompt is made from. `hits` is what the
/// knowledge base has on the prompt; `cached` and `stored` are what the cache
/// and the database have of the session.
pub fn build_chat_context(
    st: &AppState,
    raw_prompt: &str,
    session_id: &str,
    hits: &Vec<String>,
    cached: Vec<Turn>,
    stored: Vec<Turn>,
) -> (c: ChatContext)
    requires
        st.wf(),
    ensures
        c.enriched@ == enriched(
            raw_prompt@,
            text::views(hits@),
            profiler::first_n(st.profiler.facts_of(session_id@), FACTS_SHOWN as nat),
        ),
        engine::turns(c.history@) == engine::recent(
            memory::history(
                memory::turn_views(cached@),
                memory::turn_views(stored@),
                st.memory.kept(session_id@),
            ),
            st.memory.max_tokens(),
        ),
        engine::same_engine(st.engine, c.engine),
        text::opt_view(c.serper) == text::opt_view(st.cfg.serper_api_key),
{
    let facts: Vec<String> = st.profiler.get_facts(session_id, FACTS_SHOWN);
    ChatContext {
        enriched: enrich(raw_prompt, hits, &facts),
        history: st.memory.get_trimmed_history(session_id, cached, stored),
        engine: st.engine.copy(),
        serper: copy_opt(&st.cfg.serper_api_key),
    }
}

/// The session of a message: the one it names, or a new one.
pub fn session_of(req: &ChatReq) -> (r: String)
    ensures
        match req.session_id {
            Some(s) => r@ == s@,
            None => outside::is_uuid(r@),
        },
{
    match &req.session_id {
        Some(s) => s.clone(),
        None => new_id(),
    }
}

/// What answers a message that is not streamed.
pub enum ChatAnswer {
    Reply(ChatResp),
    Failed(Answer),
}

/// Answers a message with the reply of the engine, and remembers it. A failure
/// is not remembered.
pub fn chat_handler(
    st: &mut AppState,
    session_id: String,
    prompt: &str,
    reply: Result<String, String>,
) -> (r: ChatAnswer)
    requires
        old(st).wf(),
    ensures
        final(st).wf(),
        final(st).cfg == old(st).cfg,
        final(st).engine == old(st).engine,
        final(st).rag == old(st).rag,
        final(st).auth == old(st).auth,
        match reply {
            Err(e) => *final(st) == *old(st) && (r matches ChatAnswer::Failed(a) && a@ == (
                500u16,
                "error"@,
                e@,
            )),
            Ok(t) => {
                &&& r matches ChatAnswer::Reply(c)
                &&& c.session_id@ == session_id@
                &&& c.response@ == t@
                &&& final(st).memory.kept(session_id@) == memory::with_turn(
                    old(st).memory.kept(session_id@),
                    (prompt@, t@),
                )
                &&& final(st).profiler.facts_of(session_id@) == match profiler::fact_in(prompt@) {
                    Some(f) => profiler::first_n(
                        seq![f] + old(st).profiler.facts_of(session_id@),
                        profiler::MAX_FACTS as nat,
                    ),
                    None => old(st).profiler.facts_of(session_id@),
                }
                &&& final(st).memory.lifetime() == old(st).memory.lifetime()
                &&& final(st).memory.max_tokens() == old(st).memory.max_tokens()
                &&& forall|s: Seq<char>| #[trigger]
                    final(st).memory.sessions().contains(s) <==> s == session_id@ || old(
                        st,
                    ).memory.sessions().contains(s)
                &&& forall|s: Seq<char>|
                    s != session_id@ ==> #[trigger] final(st).memory.kept(s) == old(st).memory.kept(
                        s,
                    )
                &&& forall|s: Seq<char>|
                    s != session_id@ ==> #[trigger] final(st).profiler.facts_of(s) == old(
                        st,
                    ).profiler.facts_of(s)
            },
        },
{
    match reply {
        Err(e) => ChatAnswer::Failed(refuse(500, e)),
        Ok(response) => {
            st.remember(session_id.as_str(), prompt, response.as_str());
            ChatAnswer::Reply(ChatResp { session_id, response })
        },
    }
}

// ── /engine and /mode ──

/// The kind of engine that a client may choose by this name.
pub open spec fn chosen_kind(name: Seq<char>) -> Option<EngineKind> {
    if name == "ollama"@ {
        Some(EngineKind::Ollama)
    } else if name == "openai"@ {
        Some(EngineKind::OpenAI)
    } else if name == "candle"@ {
        Some(EngineKind::Candle)
    } else {
        None
    }
}

/// The mode of this name.
pub open spec fn chosen_mode(name: Seq<char>) -> Option<Mode> {
    if name == "general"@ {
        Some(Mode::General)
    } else if name == "programista"@ {
        Some(Mode::Programista)
    } else {
        None
    }
}

/// Changes the kind of the engine, where the name is one that may be chosen.
pub fn set_engine(st: &mut AppState, req: &EngineReq) -> (a: Answer)
    ensures
        match chosen_kind(req.engine@) {
            Some(kind) => *final(st) == (AppState {
                engine: (LlmEngine { kind, ..old(st).engine }),
                ..*old(st)
            }) && a@ == (200u16, "message"@, "Silnik: "@ + req.engine@),
            None => *final(st) == *old(st) && a@ == (
                400u16,
                "error"@,
                "Nieznany silnik: "@ + req.engine@,
            ),
        },
{
    let name: &str = req.engine.as_str();
    let kind: EngineKind = if same_text(name, "ollama") {
        EngineKind::Ollama
    } else if same_text(name, "openai") {
        EngineKind::OpenAI
    } else if same_text(name, "candle") {
        EngineKind::Candle
    } else {
        return refuse(400, concat2("Nieznany silnik: ", name));
    };
    st.set_engine_kind(kind);
    confirm(concat2("Silnik: ", name))
}

/// Changes the mode of the engine, where there is one of the name.
pub fn set_mode(st: &mut AppState, req: &ModeReq) -> (a: Answer)
    ensures
        match chosen_mode(req.mode@) {
            Some(mode) => *final(st) == (AppState {
                engine: (LlmEngine { mode, ..old(st).engine }),
                ..*old(st)
            }) && a@ == (200u16, "message"@, "Tryb: "@ + req.mode@),
            None => *final(st) == *old(st) && a@ == (
                400u16,
                "error"@,
                "Nieznany tryb: "@ + req.mode@,
            ),
        },
{
    let name: &str = req.mode.as_str();
    let mode: Mode = if same_text(name, "general") {
        Mode::General
    } else if same_text(name, "programista") {
        Mode::Programista
    } else {
        return refuse(400, concat2("Nieznany tryb: ", name));
    };
    st.set_mode(mode);
    confirm(concat2("Tryb: ", name))
}

/// A kind that a client may choose goes by the name under which it is chosen.
pub proof fn lemma_chosen_kind_has_its_name(name: Seq<char>)
    ensures
        chosen_kind(name) matches Some(k) ==> k.name_text() == name && EngineKind::named(name)
            == Some(k),
        chosen_mode(name) matches Some(m) ==> m.name_text() == name,
{
    reveal_strlit("local");
    reveal_strlit("ollama");
    reveal_strlit("openai");
    reveal_strlit("candle");
    assert("local"@.len() == 5 && "ollama"@.len() == 6 && "openai"@.len() == 6 && "candle"@.len()
        == 6);
    assert("ollama"@[1] == 'l' && "openai"@[1] == 'p' && "candle"@[1] == 'a');
}

// ── /rag ──

/// What stands for the passages where there are none.
pub const NO_DOCUMENTS: &'static str = "Brak dokumentów w bazie wiedzy.";

/// The prompt that asks a question about passages of the knowledge base.
pub open spec fn question(query: Seq<char>, hits: Seq<Seq<char>>) -> Seq<char> {
    let context = if hits.len() == 0 {
        NO_DOCUMENTS@
    } else {
        text::joined(hits, PASSAGE_BREAK@)
    };
    "Odpowiedz na pytanie na podstawie kontekstu:\n\n"@ + context + "\n\nPytanie: "@ + query
}

/// The prompt that asks a question about passages of the knowledge base.
pub fn rag_prompt(req: &RagReq, hits: &Vec<String>) -> (r: String)
    ensures
        r@ == question(req.query@, text::views(hits@)),
{
    let context: String = if hits.len() == 0 {
        NO_DOCUMENTS.to_owned()
    } else {
        join(hits, PASSAGE_BREAK)
    };
    let head: String = concat3(
        "Odpowiedz na pytanie na podstawie kontekstu:\n\n",
        context.as_str(),
        "\n\nPytanie: ",
    );
    concat2(head.as_str(), req.query.as_str())
}

/// What answers a question to the knowledge base.
pub enum RagAnswer {
    /// The reply, and how many passages it rests on.
    Reply { response: String, sources: usize },
    Failed(Answer),
}

/// Answers a question to the knowledge base with the reply of the engine.
pub fn rag_query(hits: &Vec<String>, reply: Result<String, String>) -> (r: RagAnswer)
    ensures
        match reply {
            Ok(t) => r matches RagAnswer::Reply { response, sources } && response@ == t@ && sources
                == hits@.len(),
            Err(e) => r matches RagAnswer::Failed(a) && a@ == (500u16, "error"@, e@),
        },
{
    match reply {
        Ok(response) => RagAnswer::Reply { response, sources: hits.len() },
        Err(e) => RagAnswer::Failed(refuse(500, e)),
    }
}

// ── /ingest ──

/// Where a document comes from.
pub enum Source {
    /// A page or a file on the web.
    Web,
    /// A PDF file on this machine.
    Pdf,
    /// A text file on this machine.
    Plain,
    /// A file that does not exist, and what is said of it.
    Missing(String),
}

/// The document is on the web.
pub open spec fn is_web(source: Seq<char>) -> bool {
    text::has_prefix(source, "http://"@) || text::has_prefix(source, "https://"@)
}

/// Whether a document is on the web.
pub fn on_web(source: &str) -> (r: bool)
    ensures
        r == is_web(source@),
{
    starts_with(source, "http://") || starts_with(source, "https://")
}

/// How a document is to be read, given whether a file of this name exists.
pub fn fetch_text(source: &str, present: bool) -> (r: Source)
    ensures
        if is_web(source@) {
            r is Web
        } else if !present {
            r matches Source::Missing(e) && e@ == "Plik "@ + source@ + " nie istnieje."@
        } else if text::has_suffix(source@, ".pdf"@) {
            r is Pdf
        } else {
            r is Plain
        },
{
    if on_web(source) {
        return Source::Web;
    }
    if !present {
        return Source::Missing(concat3("Plik ", source, " nie istnieje."));
    }
    if ends_with(source, ".pdf") {
        Source::Pdf
    } else {
        Source::Plain
    }
}

/// The pieces of all the elements, one after the other.
pub open spec fn all_pieces(found: Seq<Seq<Seq<char>>>) -> Seq<Seq<char>>
    decreases found.len(),
{
    if found.len() == 0 {
        Seq::empty()
    } else {
        all_pieces(found.drop_last()) + found.last()
    }
}

/// The text of the elements, with a space between each two pieces.
pub fn page_text(found: &Vec<Vec<String>>) -> (r: String)
    ensures
        r@ == text::joined(all_pieces(outside::nested_views(found@)), " "@),
{
    let ghost all = outside::nested_views(found@);
    let mut pieces: Vec<String> = Vec::new();
    let mut i: usize = 0;
    proof {
        assert(all.take(0) =~= Seq::<Seq<Seq<char>>>::empty());
        assert(text::views(pieces@) =~= Seq::<Seq<char>>::empty());
    }
    while i < found.len()
        invariant
            all == outside::nested_views(found@),
            i <= found@.len(),
            text::views(pieces@) == all_pieces(all.take(i as int)),
        decreases found@.len() - i,
    {
        let ghost before = pieces@;
        let ghost element = text::views(found@[i as int]@);
        let mut j: usize = 0;
        proof {
            assert(all.take(i + 1).drop_last() =~= all.take(i as int));
            assert(all.take(i + 1).last() == element);
            assert(text::views(before) + element.take(0) =~= text::views(before));
        }
        while j < found[i].len()
            invariant
                i < found@.len(),
                element == text::views(found@[i as int]@),
                j <= element.len(),
                text::views(pieces@) == text::views(before) + element.take(j as int),
            decreases element.len() - j,
        {
            let ghost so_far = pieces@;
            pieces.push(found[i][j].clone());
            proof {
                assert(text::views(pieces@) =~= text::views(so_far).push(element[j as int]));
                assert(element.take(j + 1) =~= element.take(j as int).push(element[j as int]));
                assert(text::views(pieces@) =~= text::views(before) + element.take(j + 1));
            }
            j = j + 1;
        }
        proof {
            assert(element.take(element.len() as int) =~= element);
        }
        i = i + 1;
    }
    proof {
        assert(all.take(all.len() as int) =~= all);
    }
    join(&pieces, " ")
}

/// The text of a page whose bytes were fetched: that of the PDF document where
/// they are one with any text, and else that of the body of the page.
pub fn web_text(bytes: &[u8], pdf: Option<String>) -> (r: String)
    ensures
        r@ == if pdf is Some && text::trimmed(pdf->Some_0@).len() > 0 {
            pdf->Some_0@
        } else {
            text::joined(
                all_pieces(outside::selected_text(outside::lossy_text(bytes@), BODY@)),
                " "@,
            )
        },
{
    if let Some(t) = pdf {
        if !trim(t.as_str()).as_str().is_empty() {
            return t;
        }
    }
    let html: String = decode_lossy(bytes);
    let found: Vec<Vec<String>> = html_select(html.as_str(), BODY);
    page_text(&found)
}

/// Whether a text can be cut into chunks of this length and overlap.
pub fn can_chunk(t: &str, req: &IngestReq) -> (r: bool)
    ensures
        r == (text::words(t@).len() <= req.chunk_size || req.chunk_overlap < req.chunk_size),
{
    let words: Vec<String> = split_whitespace(t);
    proof {
        assert(text::views(words@).len() == words@.len());
    }
    words.len() <= req.chunk_size || req.chunk_overlap < req.chunk_size
}

/// What is said of a document without text.
pub const EMPTY_DOCUMENT: &'static str = "Empty document";

/// What becomes of a document.
pub enum Ingest {
    /// It is refused.
    Refused(Answer),
    /// Its chunks are to be stored.
    Chunks(Vec<DocChunk>),
}

/// Cuts a document that was fetched into chunks, or says why it is refused.
pub fn ingest_doc(req: &IngestReq, fetched: Result<String, String>) -> (r: Ingest)
    requires
        fetched matches Ok(t) ==> text::words(t@).len() <= req.chunk_size || req.chunk_overlap
            < req.chunk_size,
    ensures
        match fetched {
            Err(e) => r matches Ingest::Refused(a) && a@ == (400u16, "error"@, e@),
            Ok(t) => if text::trimmed(t@).len() == 0 {
                r matches Ingest::Refused(a) && a@ == (400u16, "error"@, EMPTY_DOCUMENT@)
            } else {
                &&& r matches Ingest::Chunks(c)
                &&& rag::makes_chunks(
                    text::words(t@).len() as int,
                    req.chunk_size as int,
                    req.chunk_overlap as int,
                    c@.len() as int,
                )
                &&& forall|i: int|
                    0 <= i < c@.len() ==> {
                        &&& rag::is_chunk(
                            #[trigger] c@[i],
                            text::words(t@),
                            req.chunk_size as int,
                            req.chunk_overlap as int,
                            i,
                        )
                        &&& c@[i].source@ == req.source@
                    }
            },
        },
{
    match fetched {
        Err(e) => Ingest::Refused(refuse(400, e)),
        Ok(t) => {
            if trim(t.as_str()).as_str().is_empty() {
                return Ingest::Refused(refuse(400, EMPTY_DOCUMENT.to_owned()));
            }
            Ingest::Chunks(
                chunk_text(t.as_str(), req.chunk_size, req.chunk_overlap, req.source.as_str()),
            )
        },
    }
}

/// What is said once a document has been stored.
pub fn ingested(req: &IngestReq, chunks: usize) -> (a: Answer)
    ensures
        a@ == (
            200u16,
            "message"@,
            "Zindeksowano "@ + text::decimal(chunks as nat) + " fragmentów z "@ + req.source@,
        ),
{
    let n: String = number(chunks as u64);
    let head: String = concat3("Zindeksowano ", n.as_str(), " fragmentów z ");
    confirm(concat2(head.as_str(), req.source.as_str()))
}

// ── Other parts ──

/// The answer of a part that another service has to do.
pub fn unavailable(e: Endpoint) -> (r: Option<Answer>)
    ensures
        match e {
            Endpoint::GenerateImage => r matches Some(a) && a@ == (
                501u16,
                "error"@,
                "Image generation: start the Python service"@,
            ),
            Endpoint::Transcribe => r matches Some(a) && a@ == (
                501u16,
                "error"@,
                "Transcription: start the Python service"@,
            ),
            Endpoint::AnalyzeImage => r matches Some(a) && a@ == (
                501u16,
                "error"@,
                "Vision: start the Python service"@,
            ),
            Endpoint::Tts => r matches Some(a) && a@ == (
                501u16,
                ""@,
                "TTS: start the Python service"@,
            ),
            _ => r is None,
        },
{
    match e {
        Endpoint::GenerateImage => Some(
            refuse(501, "Image generation: start the Python service".to_owned()),
        ),
        Endpoint::Transcribe => Some(
            refuse(501, "Transcription: start the Python service".to_owned()),
        ),
        Endpoint::AnalyzeImage => Some(refuse(501, "Vision: start the Python service".to_owned())),
        Endpoint::Tts => Some(
            Answer {
                status: 501,
                field: "".to_owned(),
                text: "TTS: start the Python service".to_owned(),
            },
        ),
        _ => None,
    }
}

/// The state of the service in numbers.
pub struct ServiceStats {
    pub engine: String,
    pub mode: String,
    pub active_sessions: usize,
    pub history_len: usize,
    pub model_loaded: bool,
    pub model_idle_seconds: u64,
    pub rag_chunks: usize,
    pub auth_enabled: bool,
}

/// The state of the service, given the sessions that are stored.
pub fn stats(st: &AppState, stored: Vec<String>) -> (s: ServiceStats)
    requires
        st.wf(),
    ensures
        s.engine@ == st.engine.kind.name_text(),
        s.mode@ == st.engine.mode.name_text(),
        s.active_sessions == memory::all_sessions(
            text::views(stored@),
            st.memory.sessions(),
        ).len(),
        s.history_len == 0,
        s.model_loaded,
        s.model_idle_seconds == 0,
        s.rag_chunks == st.rag.chunks().len(),
        s.auth_enabled == st.auth.auth_enabled,
{
    let sessions: Vec<String> = st.memory.list_sessions(stored);
    proof {
        assert(text::views(sessions@).len() == sessions@.len());
    }
    ServiceStats {
        engine: st.engine.kind.name(),
        mode: st.engine.mode.name(),
        active_sessions: sessions.len(),
        history_len: 0,
        model_loaded: true,
        model_idle_seconds: 0,
        rag_chunks: st.rag.count(),
        auth_enabled: st.auth.auth_enabled,
    }
}

/// Forgets a session, and says so.
pub fn delete_session(st: &mut AppState, id: &str) -> (a: Answer)
    requires
        old(st).wf(),
    ensures
        final(st).wf(),
        a@ == (200u16, "message"@, "Sesja "@ + id@ + " usunięta"@),
        final(st).cfg == old(st).cfg,
        final(st).engine == old(st).engine,
        final(st).rag == old(st).rag,
        final(st).profiler == old(st).profiler,
        final(st).auth == old(st).auth,
        final(st).memory.kept(id@) == Seq::<(Seq<char>, Seq<char>)>::empty(),
        final(st).memory.lifetime() == old(st).memory.lifetime(),
        final(st).memory.max_tokens() == old(st).memory.max_tokens(),
        !final(st).memory.sessions().contains(id@),
        forall|s: Seq<char>|
            s != id@ ==> #[trigger] final(st).memory.kept(s) == old(st).memory.kept(s),
        forall|s: Seq<char>| #[trigger]
            final(st).memory.sessions().contains(s) <==> s != id@ && old(
                st,
            ).memory.sessions().contains(s),
{
    st.memory.clear_session(id);
    confirm(concat3("Sesja ", id, " usunięta"))
}

/// The version of the service.
pub const VERSION: &'static str = "2.0.0";

/// That the service is up, and its version.
pub fn health() -> (r: (String, String))
    ensures
        r.0@ == "ok"@,
        r.1@ == VERSION@,
{
    ("ok".to_owned(), VERSION.to_owned())
}

} // verus!
