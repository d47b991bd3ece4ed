//! Which language model answers, what is sent to it, and how its reply is read.

use crate::config;
use crate::config::{env_number, Config};
use crate::error::HexError;
use crate::outside::decode_text;
use crate::text;
use crate::text::{
    byte_len, chars_of, concat2, concat3, copy_opt, number, same_text, split_char, string_of, strip_prefix, text_or, trim,
    trim_end_matches,
};
use vstd::prelude::*;
use vstd::utf8::*;

verus! {

// ── Kinds and modes ──

/// The kind of engine that answers.
#[derive(Clone, Copy, Debug, PartialEq, Eq, Structural)]
pub enum EngineKind {
    Local,
    Ollama,
    OpenAI,
    Candle,
}

impl Default for EngineKind {
    fn default() -> (k: Self)
        ensures
            k == EngineKind::Ollama,
    {
        EngineKind::Ollama
    }
}

impl EngineKind {
    /// The name of the kind.
    pub open spec fn name_text(self) -> Seq<char> {
        match self {
            EngineKind::Local => "local"@,
            EngineKind::Ollama => "ollama"@,
            EngineKind::OpenAI => "openai"@,
            EngineKind::Candle => "candle"@,
        }
    }

    /// The name of the kind.
    pub fn name(&self) -> (r: String)
        ensures
            r@ == self.name_text(),
    {
        match self {
            EngineKind::Local => "local".to_owned(),
            EngineKind::Ollama => "ollama".to_owned(),
            EngineKind::OpenAI => "openai".to_owned(),
            EngineKind::Candle => "candle".to_owned(),
        }
    }

    /// The kind that a name stands for.
    pub open spec fn named(s: Seq<char>) -> Option<EngineKind> {
        if s == "local"@ {
            Some(EngineKind::Local)
        } else if s == "ollama"@ {
            Some(EngineKind::Ollama)
        } else if s == "openai"@ {
            Some(EngineKind::OpenAI)
        } else if s == "candle"@ {
            Some(EngineKind::Candle)
        } else {
            None
        }
    }

    /// The kind with the given name; no other text is a kind.
    pub fn from_name(s: &str) -> (r: Option<EngineKind>)
        ensures
            r == EngineKind::named(s@),
    {
        if same_text(s, "local") {
            Some(EngineKind::Local)
        } else if same_text(s, "ollama") {
            Some(EngineKind::Ollama)
        } else if same_text(s, "openai") {
            Some(EngineKind::OpenAI)
        } else if same_text(s, "candle") {
            Some(EngineKind::Candle)
        } else {
            None
        }
    }

    /// The name of a kind leads back to that kind.
    pub proof fn lemma_name_round_trip(self)
        ensures
            EngineKind::named(self.name_text()) == Some(self),
    {
        reveal_strlit("local");
        reveal_strlit("ollama");
        reveal_strlit("openai");
        reveal_strlit("candle");
        assert("local"@[0] == 'l');
        assert("ollama"@[1] == 'l');
        assert("openai"@[1] == 'p');
        assert("candle"@[0] == 'c');
        assert("ollama"@[0] == 'o');
        assert("openai"@[0] == 'o');
    }
}

/// What the assistant is tuned for.
#[derive(Clone, Copy, Debug, PartialEq, Eq, Structural)]
pub enum Mode {
    General,
    Programista,
}

/// The instructions of the general mode.
pub const GENERAL_PROMPT: &'static str =
    "Jesteś HexAi – inteligentnym, pomocnym asystentem AI. Odpowiadaj precyzyjnie, zwięźle i uprzejmie po polsku.";

/// The instructions of the programming mode.
pub const PROGRAMMER_PROMPT: &'static str =
    "Jesteś HexAi – ekspertem programistycznym. Twój kod jest czysty, wydajny i zgodny z najlepszymi praktykami. Zawsze podajesz kompletne przykłady z obsługą błędów. Wyjaśniaj rozwiązania krok po kroku po polsku.";

impl Default for Mode {
    fn default() -> (m: Self)
        ensures
            m == Mode::General,
    {
        Mode::General
    }
}

impl Mode {
    /// The instructions that the model gets before the conversation.
    pub open spec fn system_text(self) -> Seq<char> {
        match self {
            Mode::General => GENERAL_PROMPT@,
            Mode::Programista => PROGRAMMER_PROMPT@,
        }
    }

    /// The model that Ollama is asked for.
    pub open spec fn ollama_text(self) -> Seq<char> {
        match self {
            Mode::General => "llama2"@,
            Mode::Programista => "codellama:7b-instruct"@,
        }
    }

    /// The model that an OpenAI-compatible service is asked for.
    pub open spec fn openai_text(self) -> Seq<char> {
        match self {
            Mode::General => "gpt-4o-mini"@,
            Mode::Programista => "gpt-4o"@,
        }
    }

    /// The name of the mode.
    pub open spec fn name_text(self) -> Seq<char> {
        match self {
            Mode::General => "general"@,
            Mode::Programista => "programista"@,
        }
    }

    /// The instructions that the model gets before the conversation.
    pub fn system_prompt(&self) -> (r: &'static str)
        ensures
            r@ == self.system_text(),
    {
        match self {
            Mode::General => GENERAL_PROMPT,
            Mode::Programista => PROGRAMMER_PROMPT,
        }
    }

    /// The model that Ollama is asked for.
    pub fn ollama_model(&self) -> (r: &'static str)
        ensures
            r@ == self.ollama_text(),
    {
        match self {
            Mode::General => "llama2",
            Mode::Programista => "codellama:7b-instruct",
        }
    }

    /// The model that an OpenAI-compatible service is asked for.
    pub fn openai_model(&self) -> (r: &'static str)
        ensures
            r@ == self.openai_text(),
    {
        match self {
            Mode::General => "gpt-4o-mini",
            Mode::Programista => "gpt-4o",
        }
    }

    /// The name of the mode.
    pub fn name(&self) -> (r: String)
        ensures
            r@ == self.name_text(),
    {
        match self {
            Mode::General => "general".to_owned(),
            Mode::Programista => "programista".to_owned(),
        }
    }
}

// ── Conversations ──

/// The questions and answers of a conversation, oldest first.
pub open spec fn turns(h: Seq<(String, String)>) -> Seq<(Seq<char>, Seq<char>)> {
    h.map_values(|t: (String, String)| (t.0@, t.1@))
}

/// A message of a conversation and who it is from.
#[derive(Clone, Debug)]
pub struct LlmMessage {
    pub role: String,
    pub content: String,
}

impl View for LlmMessage {
    type V = (Seq<char>, Seq<char>);

    open spec fn view(&self) -> (Seq<char>, Seq<char>) {
        (self.role@, self.content@)
    }
}

/// The messages of a conversation.
pub open spec fn message_views(m: Seq<LlmMessage>) -> Seq<(Seq<char>, Seq<char>)> {
    m.map_values(|x: LlmMessage| x@)
}

/// The conversation as messages: each question from the user followed by its
/// answer from the assistant, and the new prompt from the user at the end.
pub open spec fn conversation(
    h: Seq<(Seq<char>, Seq<char>)>,
    prompt: Seq<char>,
) -> Seq<(Seq<char>, Seq<char>)> {
    Seq::new(
        2 * h.len() + 1,
        |i: int|
            if i == 2 * h.len() {
                ("user"@, prompt)
            } else if i % 2 == 0 {
                ("user"@, h[i / 2].0)
            } else {
                ("assistant"@, h[i / 2].1)
            },
    )
}

/// The messages that put a prompt after a conversation.
pub fn build_messages(history: &[(String, String)], prompt: &str) -> (r: Vec<LlmMessage>)
    ensures
        message_views(r@) == conversation(turns(history@), prompt@),
{
    let mut msgs: Vec<LlmMessage> = Vec::new();
    let mut i: usize = 0;
    let ghost h = turns(history@);
    let ghost all = conversation(h, prompt@);
    while i < history.len()
        invariant
            h == turns(history@),
            all == conversation(h, prompt@),
            i <= history@.len(),
            msgs@.len() == 2 * i,
            forall|j: int| 0 <= j < 2 * i ==> (#[trigger] msgs@[j])@ == all[j],
        decreases history@.len() - i,
    {
        msgs.push(LlmMessage { role: "user".to_owned(), content: history[i].0.clone() });
        msgs.push(LlmMessage { role: "assistant".to_owned(), content: history[i].1.clone() });
        proof {
            let k = 2 * i as int;
            assert(k / 2 == i && (k + 1) / 2 == i && k % 2 == 0 && (k + 1) % 2 == 1);
            assert(msgs@[k]@ == all[k]);
            assert(msgs@[k + 1]@ == all[k + 1]);
        }
        i = i + 1;
    }
    msgs.push(LlmMessage { role: "user".to_owned(), content: prompt.to_owned() });
    proof {
        assert(message_views(msgs@) =~= all);
    }
    msgs
}

/// The part of an instruct prompt that precedes the last question.
pub open spec fn instruct_head(
    system: Seq<char>,
    h: Seq<(Seq<char>, Seq<char>)>,
) -> Seq<char>
    decreases h.len(),
{
    if h.len() == 0 {
        "[INST] <<SYS>>\n"@ + system + "\n<</SYS>>\n\n"@
    } else {
        instruct_head(system, h.drop_last()) + h.last().0 + " [/INST] "@ + h.last().1
            + " </s><s>[INST] "@
    }
}

/// Formats a conversation and a prompt as a Llama-2/Mistral instruct string.
pub fn format_prompt(system: &str, history: &[(String, String)], prompt: &str) -> (r: String)
    ensures
        r@ == instruct_head(system@, turns(history@)) + prompt@ + " [/INST]"@,
{
    let mut out: String = concat3("[INST] <<SYS>>\n", system, "\n<</SYS>>\n\n");
    let mut i: usize = 0;
    let ghost h = turns(history@);
    proof {
        assert(h.take(0) =~= Seq::<(Seq<char>, Seq<char>)>::empty());
    }
    while i < history.len()
        invariant
            h == turns(history@),
            i <= history@.len(),
            out@ == instruct_head(system@, h.take(i as int)),
        decreases history@.len() - i,
    {
        proof {
            assert(h.take(i + 1).drop_last() =~= h.take(i as int));
            assert(h.take(i + 1).last() == h[i as int]);
        }
        out.append(history[i].0.as_str());
        out.append(" [/INST] ");
        out.append(history[i].1.as_str());
        out.append(" </s><s>[INST] ");
        i = i + 1;
    }
    proof {
        assert(h.take(h.len() as int) =~= h);
    }
    out.append(prompt);
    out.append(" [/INST]");
    out
}

// ── The size of a conversation ──

/// The estimated number of tokens of one turn: a quarter of its bytes.
pub open spec fn turn_tokens(t: (Seq<char>, Seq<char>)) -> nat {
    (encode_utf8(t.0).len() + encode_utf8(t.1).len()) / 4
}

/// The estimated number of tokens of a conversation.
pub open spec fn tokens(h: Seq<(Seq<char>, Seq<char>)>) -> nat
    decreases h.len(),
{
    if h.len() == 0 {
        0
    } else {
        turn_tokens(h[0]) + tokens(h.skip(1))
    }
}

/// The conversation without its oldest turns: turns go while there are more
/// than `max` tokens and more than one turn.
pub open spec fn recent(h: Seq<(Seq<char>, Seq<char>)>, max: nat) -> Seq<(Seq<char>, Seq<char>)>
    decreases h.len(),
{
    if tokens(h) > max && h.len() > 1 {
        recent(h.skip(1), max)
    } else {
        h
    }
}

/// What is kept of a conversation is its end. It is within the limit or a
/// single turn, and no longer end of the conversation is within the limit.
pub proof fn lemma_recent_is_longest_fitting_end(h: Seq<(Seq<char>, Seq<char>)>, max: nat)
    ensures
        recent(h, max).len() <= h.len(),
        recent(h, max) == h.skip(h.len() - recent(h, max).len()),
        tokens(recent(h, max)) <= max || recent(h, max).len() <= 1,
        h.len() > 0 ==> recent(h, max).len() > 0,
        forall|k: int|
            0 <= k < h.len() - recent(h, max).len() ==> tokens(#[trigger] h.skip(k)) > max,
    decreases h.len(),
{
    if tokens(h) > max && h.len() > 1 {
        lemma_recent_is_longest_fitting_end(h.skip(1), max);
        let r = recent(h, max);
        assert(h.skip(1).skip(h.skip(1).len() - r.len()) =~= h.skip(h.len() - r.len()));
        assert forall|k: int| 0 <= k < h.len() - r.len() implies tokens(#[trigger] h.skip(k)) > max by {
            if k == 0 {
                assert(h.skip(0) =~= h);
            } else {
                assert(h.skip(k) =~= h.skip(1).skip(k - 1));
            }
        }
    } else {
        assert(h.skip(0) =~= h);
    }
}

/// Cutting a conversation down again changes nothing.
pub proof fn lemma_recent_twice(h: Seq<(Seq<char>, Seq<char>)>, max: nat)
    ensures
        recent(recent(h, max), max) == recent(h, max),
    decreases h.len(),
{
    if tokens(h) > max && h.len() > 1 {
        lemma_recent_twice(h.skip(1), max);
    }
}

fn count_wide(msgs: &[(String, String)]) -> (n: u128)
    ensures
        n == tokens(turns(msgs@)),
{
    let mut total: u128 = 0;
    let mut i: usize = msgs.len();
    let ghost h = turns(msgs@);
    proof {
        assert(h.skip(h.len() as int) =~= Seq::<(Seq<char>, Seq<char>)>::empty());
    }
    while i > 0
        invariant
            h == turns(msgs@),
            i <= msgs@.len(),
            total == tokens(h.skip(i as int)),
            total <= (msgs@.len() - i) * 0x1_0000_0000_0000_0000,
            msgs@.len() <= usize::MAX,
        decreases i,
    {
        i = i - 1;
        let u: u128 = byte_len(msgs[i].0.as_str()) as u128;
        let a: u128 = byte_len(msgs[i].1.as_str()) as u128;
        proof {
            assert(h.skip(i as int)[0] == h[i as int]);
            assert(h.skip(i as int).skip(1) =~= h.skip(i + 1));
            assert((msgs@.len() - i) * 0x1_0000_0000_0000_0000 <= 0xffff_ffff_ffff_ffff
                * 0x1_0000_0000_0000_0000) by (nonlinear_arith)
                requires
                    msgs@.len() <= usize::MAX,
                    i >= 0,
            ;
            assert((msgs@.len() - i) * 0x1_0000_0000_0000_0000 == (msgs@.len() - (i + 1))
                * 0x1_0000_0000_0000_0000 + 0x1_0000_0000_0000_0000) by (nonlinear_arith);
        }
        total = total + (u + a) / 4;
    }
    proof {
        assert(h.skip(0) =~= h);
    }
    total
}

// ── Settings of a local model ──

/// How a model is run in this process.
#[derive(Clone, Copy, Debug)]
pub struct LocalParams {
    pub n_ctx: u32,
    pub n_threads: u32,
    pub n_gpu_layers: u32,
    /// Sampling temperature, as the bits of a 32-bit float.
    pub temp: u32,
    /// Nucleus sampling bound, as the bits of a 32-bit float.
    pub top_p: u32,
    pub max_tokens: u32,
}

/// The variables that set up a local model. The sampling numbers are the bits
/// of the 32-bit floats that the variables spell, where they spell one.
pub struct LocalEnv {
    /// `HEXAI_MODEL_CTX`
    pub n_ctx: Option<String>,
    /// `HEXAI_MODEL_THREADS`
    pub n_threads: Option<String>,
    /// `HEXAI_MODEL_GPU_LAYERS`
    pub n_gpu_layers: Option<String>,
    /// `HEXAI_MODEL_TEMP`
    pub temp: Option<u32>,
    /// `HEXAI_MODEL_TOP_P`
    pub top_p: Option<u32>,
    /// `HEXAI_MODEL_MAX_TOKENS`
    pub max_tokens: Option<String>,
    /// The processors of the machine, where their number is known.
    pub cpus: Option<u32>,
}

/// The bits of the float 0.7.
pub const DEFAULT_TEMP: u32 = 0x3f33_3333;

/// The bits of the float 0.9.
pub const DEFAULT_TOP_P: u32 = 0x3f66_6666;

fn env_u32(v: &Option<String>, default: u32) -> (n: u32)
    ensures
        n == config::number_or(*v, u32::MAX as nat, default as nat),
{
    env_number(v, 4294967295, default as u64) as u32
}

impl LocalParams {
    /// The settings that the environment gives, with a default for each.
    pub fn from_env(env: &LocalEnv) -> (p: Self)
        ensures
            p.n_ctx == config::number_or(env.n_ctx, u32::MAX as nat, 4096),
            p.n_threads == config::number_or(
                env.n_threads,
                u32::MAX as nat,
                (match env.cpus {
                    Some(n) => n as nat,
                    None => 4,
                }),
            ),
            p.n_gpu_layers == config::number_or(env.n_gpu_layers, u32::MAX as nat, 0),
            p.temp == (match env.temp {
                Some(t) => t,
                None => DEFAULT_TEMP,
            }),
            p.top_p == (match env.top_p {
                Some(t) => t,
                None => DEFAULT_TOP_P,
            }),
            p.max_tokens == config::number_or(env.max_tokens, u32::MAX as nat, 1024),
    {
        let cpus: u32 = match env.cpus {
            Some(n) => n,
            None => 4,
        };
        LocalParams {
            n_ctx: env_u32(&env.n_ctx, 4096),
            n_threads: env_u32(&env.n_threads, cpus),
            n_gpu_layers: env_u32(&env.n_gpu_layers, 0),
            temp: match env.temp {
                Some(t) => t,
                None => DEFAULT_TEMP,
            },
            top_p: match env.top_p {
                Some(t) => t,
                None => DEFAULT_TOP_P,
            },
            max_tokens: env_u32(&env.max_tokens, 1024),
        }
    }
}

/// What follows the path in the text for a model file that is not there.
pub const MODEL_HINT: &'static str =
    "\n\nPobierz model GGUF (jednorazowo):\n# Mistral 7B (~4 GB RAM):\nwget https://huggingface.co/TheBloke/Mistral-7B-Instruct-v0.2-GGUF/resolve/main/mistral-7b-instruct-v0.2.Q4_K_M.gguf\n\n# Llama 3.2 3B (~2 GB RAM, szybki):\nwget https://huggingface.co/bartowski/Llama-3.2-3B-Instruct-GGUF/resolve/main/Llama-3.2-3B-Instruct-Q4_K_M.gguf\n\nNastępnie ustaw:\nexport HEXAI_ENGINE=local\nexport HEXAI_MODEL_PATH=/ścieżka/do/model.gguf";

/// The failure to load a model whose file is not there.
pub fn model_missing(model_path: &str) -> (e: HexError)
    ensures
        e matches HexError::Engine(t) && t@ == "Model GGUF nie znaleziony: "@ + model_path@
            + MODEL_HINT@,
{
    HexError::Engine(concat3("Model GGUF nie znaleziony: ", model_path, MODEL_HINT))
}

/// The failure to load a model whose file cannot be used.
pub fn model_unusable(cause: &str) -> (e: HexError)
    ensures
        e matches HexError::Engine(t) && t@ == "Błąd ładowania modelu: "@ + cause@,
{
    HexError::Engine(concat2("Błąd ładowania modelu: ", cause))
}

/// A model in this process.
#[derive(Clone, Copy, Debug)]
pub struct LocalEngine {
    pub params: LocalParams,
}

impl LocalEngine {
    /// The model that was loaded, or why there is none: its file is not there,
    /// or loading it failed.
    pub fn load(
        model_path: &str,
        params: LocalParams,
        present: bool,
        loaded: Result<(), String>,
    ) -> (r: Result<LocalEngine, HexError>)
        ensures
            if !present {
                r matches Err(HexError::Engine(t)) && t@ == "Model GGUF nie znaleziony: "@
                    + model_path@ + MODEL_HINT@
            } else {
                match loaded {
                    Ok(_) => r matches Ok(e) && e.params == params,
                    Err(c) => r matches Err(HexError::Engine(t)) && t@
                        == "Błąd ładowania modelu: "@ + c@,
                }
            },
    {
        if !present {
            return Err(model_missing(model_path));
        }
        match loaded {
            Ok(_) => Ok(LocalEngine { params }),
            Err(c) => Err(model_unusable(c.as_str())),
        }
    }
}

/// The failure to reach Ollama.
pub fn ollama_unreachable(cause: &str) -> (e: HexError)
    ensures
        e matches HexError::Engine(t) && t@ == "Ollama unreachable: "@ + cause@
            + ". Is `ollama serve` running?"@,
{
    HexError::Engine(concat3("Ollama unreachable: ", cause, ". Is `ollama serve` running?"))
}

/// The failure of a service that answers with an error status.
pub fn http_failure(service: &str, status: &str, body: &str) -> (e: HexError)
    ensures
        e matches HexError::Engine(t) && t@ == service@ + " HTTP "@ + status@ + ": "@ + body@,
{
    let mut t: String = concat3(service, " HTTP ", status);
    t.append(": ");
    t.append(body);
    HexError::Engine(t)
}

// ── The engine ──

/// Where prompts go.
pub enum Backend {
    /// A model in this process.
    Local(LocalEngine),
    /// An Ollama server.
    Ollama { base_url: String },
    /// An OpenAI-compatible service.
    OpenAI { base_url: String, api_key: String },
}

/// The variables that choose the engine.
pub struct EngineEnv {
    /// `HEXAI_ENGINE`
    pub engine: Option<String>,
    /// `HEXAI_MODEL_PATH`
    pub model_path: Option<String>,
    /// `OPENAI_API_KEY`
    pub openai_key: Option<String>,
    /// `OPENAI_API_BASE`
    pub openai_base: Option<String>,
}

/// The engine that answers prompts.
pub struct LlmEngine {
    pub kind: EngineKind,
    pub mode: Mode,
    pub backend: Backend,
    pub model_path: Option<String>,
}

/// The kind that the environment asks for.
pub open spec fn wanted_kind(env: EngineEnv) -> EngineKind {
    match env.engine {
        Some(s) => match EngineKind::named(s@) {
            Some(k) => k,
            None => EngineKind::Ollama,
        },
        None => EngineKind::Ollama,
    }
}

/// A request to the model.
pub enum EngineRequest {
    /// Complete this prompt in this process.
    Local { prompt: String },
    /// Post this conversation to an Ollama server.
    Ollama { url: String, model: String, messages: Vec<LlmMessage> },
    /// Post this conversation to an OpenAI-compatible service.
    OpenAI { url: String, api_key: String, model: String, messages: Vec<LlmMessage> },
}

/// The conversation with the instructions of the mode in front.
pub open spec fn instructed(
    mode: Mode,
    h: Seq<(Seq<char>, Seq<char>)>,
    prompt: Seq<char>,
) -> Seq<(Seq<char>, Seq<char>)> {
    seq![("system"@, mode.system_text())] + conversation(h, prompt)
}

fn instruct(mode: &Mode, history: &[(String, String)], prompt: &str) -> (r: Vec<LlmMessage>)
    ensures
        message_views(r@) == instructed(*mode, turns(history@), prompt@),
{
    let mut r: Vec<LlmMessage> = build_messages(history, prompt);
    let ghost tail = r@;
    let first = LlmMessage { role: "system".to_owned(), content: mode.system_prompt().to_owned() };
    r.insert(0, first);
    proof {
        assert(message_views(r@) =~= seq![first@] + message_views(tail));
    }
    r
}

/// The two backends are the same in every setting.
pub open spec fn same_backend(a: Backend, b: Backend) -> bool {
    match a {
        Backend::Local(p) => b matches Backend::Local(q) && p == q,
        Backend::Ollama { base_url: u } => b matches Backend::Ollama { base_url: v } && u@ == v@,
        Backend::OpenAI { base_url: u, api_key: k } => b matches Backend::OpenAI {
            base_url: v,
            api_key: l,
        } && u@ == v@ && k@ == l@,
    }
}

/// The two engines are the same in every setting.
pub open spec fn same_engine(a: LlmEngine, b: LlmEngine) -> bool {
    &&& a.kind == b.kind
    &&& a.mode == b.mode
    &&& same_backend(a.backend, b.backend)
    &&& text::opt_view(a.model_path) == text::opt_view(b.model_path)
}

impl LlmEngine {
    /// An engine with the same settings.
    pub fn copy(&self) -> (e: Self)
        ensures
            same_engine(*self, e),
    {
        LlmEngine {
            kind: self.kind,
            mode: self.mode,
            backend: match &self.backend {
                Backend::Local(p) => Backend::Local(*p),
                Backend::Ollama { base_url } => Backend::Ollama { base_url: base_url.clone() },
                Backend::OpenAI { base_url, api_key } => Backend::OpenAI {
                    base_url: base_url.clone(),
                    api_key: api_key.clone(),
                },
            },
            model_path: copy_opt(&self.model_path),
        }
    }

    /// The kind that the environment asks for: Ollama where it names none.
    pub fn kind_wanted(env: &EngineEnv) -> (k: EngineKind)
        ensures
            k == wanted_kind(*env),
    {
        match &env.engine {
            Some(s) => match EngineKind::from_name(s.as_str()) {
                Some(k) => k,
                None => EngineKind::Ollama,
            },
            None => EngineKind::Ollama,
        }
    }

    /// The engine that the environment asks for. `loaded` is the model in this
    /// process where one is wanted and was loaded; where it could not
    /// be, prompts go to Ollama.
    pub fn new(cfg: &Config, env: &EngineEnv, loaded: Option<LocalEngine>) -> (e: Self)
        ensures
            e.kind == wanted_kind(*env),
            e.mode == Mode::General,
            match wanted_kind(*env) {
                EngineKind::Local => match loaded {
                    Some(p) => e.backend == Backend::Local(p) && text::opt_view(e.model_path)
                        == Some(text::or_default(env.model_path, Seq::empty())),
                    None => (e.backend matches Backend::Ollama { base_url } && base_url@
                        == cfg.ollama_url@) && e.model_path is None,
                },
                EngineKind::OpenAI => (e.backend matches Backend::OpenAI { base_url, api_key }
                    && base_url@ == text::trim_end_char(
                    text::or_default(env.openai_base, "https://api.openai.com"@),
                    '/',
                ) && api_key@ == text::or_default(env.openai_key, Seq::empty()))
                    && e.model_path is None,
                _ => (e.backend matches Backend::Ollama { base_url } && base_url@
                    == cfg.ollama_url@) && e.model_path is None,
            },
    {
        let kind: EngineKind = LlmEngine::kind_wanted(env);
        proof {
            reveal_strlit("");
            assert(""@ =~= Seq::<char>::empty());
        }
        match kind {
            EngineKind::Local => match loaded {
                Some(p) => LlmEngine {
                    kind,
                    mode: Mode::General,
                    backend: Backend::Local(p),
                    model_path: Some(text_or(&env.model_path, "")),
                },
                None => LlmEngine {
                    kind,
                    mode: Mode::General,
                    backend: Backend::Ollama { base_url: cfg.ollama_url.clone() },
                    model_path: None,
                },
            },
            EngineKind::OpenAI => {
                let base: String = text_or(&env.openai_base, "https://api.openai.com");
                LlmEngine {
                    kind,
                    mode: Mode::General,
                    backend: Backend::OpenAI {
                        base_url: trim_end_matches(base.as_str(), '/'),
                        api_key: text_or(&env.openai_key, ""),
                    },
                    model_path: None,
                }
            },
            _ => LlmEngine {
                kind,
                mode: Mode::General,
                backend: Backend::Ollama { base_url: cfg.ollama_url.clone() },
                model_path: None,
            },
        }
    }

    /// The request that puts a prompt after a conversation. It goes to the
    /// backend, whatever the kind says, in the words of the mode.
    pub fn request(&self, prompt: &str, history: &[(String, String)]) -> (r: EngineRequest)
        ensures
            match self.backend {
                Backend::Local(_) => r matches EngineRequest::Local { prompt: p } && p@
                    == instruct_head(self.mode.system_text(), turns(history@)) + prompt@
                    + " [/INST]"@,
                Backend::Ollama { base_url } => r matches EngineRequest::Ollama {
                    url,
                    model,
                    messages,
                } && url@ == base_url@ + "/api/chat"@ && model@ == self.mode.ollama_text()
                    && message_views(messages@) == instructed(self.mode, turns(history@), prompt@),
                Backend::OpenAI { base_url, api_key } => r matches EngineRequest::OpenAI {
                    url,
                    api_key: key,
                    model,
                    messages,
                } && url@ == base_url@ + "/v1/chat/completions"@ && key@ == api_key@ && model@
                    == self.mode.openai_text() && message_views(messages@) == instructed(
                    self.mode,
                    turns(history@),
                    prompt@,
                ),
            },
    {
        match &self.backend {
            Backend::Local(_) => EngineRequest::Local {
                prompt: format_prompt(self.mode.system_prompt(), history, prompt),
            },
            Backend::Ollama { base_url } => EngineRequest::Ollama {
                url: concat2(base_url.as_str(), "/api/chat"),
                model: self.mode.ollama_model().to_owned(),
                messages: instruct(&self.mode, history, prompt),
            },
            Backend::OpenAI { base_url, api_key } => EngineRequest::OpenAI {
                url: concat2(base_url.as_str(), "/v1/chat/completions"),
                api_key: api_key.clone(),
                model: self.mode.openai_model().to_owned(),
                messages: instruct(&self.mode, history, prompt),
            },
        }
    }

    /// The estimated number of tokens of a conversation.
    pub fn count_tokens(msgs: &[(String, String)]) -> (n: usize)
        requires
            tokens(turns(msgs@)) <= usize::MAX,
        ensures
            n == tokens(turns(msgs@)),
    {
        count_wide(msgs) as usize
    }

    /// Drops the oldest turns while there are more than `max_tokens` tokens and
    /// more than one turn.
    pub fn trim_history(history: &mut Vec<(String, String)>, max_tokens: usize)
        ensures
            turns(final(history)@) == recent(turns(old(history)@), max_tokens as nat),
    {
        let ghost h = turns(history@);
        loop
            invariant
                recent(turns(history@), max_tokens as nat) == recent(h, max_tokens as nat),
            ensures
                turns(history@) == recent(h, max_tokens as nat),
            decreases history@.len(),
        {
            if !(count_wide(history.as_slice()) > max_tokens as u128 && history.len() > 1) {
                break ;
            }
            let ghost before = history@;
            history.remove(0);
            proof {
                assert(turns(history@) =~= turns(before).skip(1));
            }
        }
    }

    /// A line that says what runs.
    pub fn info(&self) -> (r: String)
        ensures
            r@ == (match self.backend {
                Backend::Local(l) => "local/llama_cpp | ctx="@ + text::decimal(
                    l.params.n_ctx as nat,
                ) + " threads="@ + text::decimal(l.params.n_threads as nat) + " gpu_layers="@
                    + text::decimal(l.params.n_gpu_layers as nat),
                Backend::Ollama { .. } => "ollama → "@ + self.mode.ollama_text(),
                Backend::OpenAI { .. } => "openai → "@ + self.mode.openai_text(),
            }),
    {
        match &self.backend {
            Backend::Local(l) => {
                let mut out: String = concat3(
                    "local/llama_cpp | ctx=",
                    number(l.params.n_ctx as u64).as_str(),
                    " threads=",
                );
                out.append(number(l.params.n_threads as u64).as_str());
                out.append(" gpu_layers=");
                out.append(number(l.params.n_gpu_layers as u64).as_str());
                out
            },
            Backend::Ollama { .. } => concat2("ollama → ", self.mode.ollama_model()),
            Backend::OpenAI { .. } => concat2("openai → ", self.mode.openai_model()),
        }
    }
}

// ── Replies as streams of server-sent events ──

/// The position of the first `c`, or the length of the text where there is none.
pub open spec fn first_index(s: Seq<char>, c: char) -> nat
    decreases s.len(),
{
    if s.len() == 0 || s[0] == c {
        0
    } else {
        1 + first_index(s.skip(1), c)
    }
}

pub(crate) proof fn lemma_first_index(s: Seq<char>, c: char)
    ensures
        first_index(s, c) <= s.len(),
        first_index(s, c) < s.len() ==> s[first_index(s, c) as int] == c,
        forall|i: int| 0 <= i < first_index(s, c) ==> s[i] != c,
    decreases s.len(),
{
    if s.len() > 0 && s[0] != c {
        lemma_first_index(s.skip(1), c);
        assert forall|i: int| 0 <= i < first_index(s, c) implies s[i] != c by {
            if i > 0 {
                assert(s.skip(1)[i - 1] == s[i]);
            }
        }
    }
}

pub(crate) proof fn lemma_first_index_is(s: Seq<char>, c: char, n: int)
    requires
        0 <= n <= s.len(),
        forall|i: int| 0 <= i < n ==> s[i] != c,
        n < s.len() ==> s[n] == c,
    ensures
        first_index(s, c) == n,
{
    lemma_first_index(s, c);
}

/// What a line carries: the text after `data: `, where the line has it.
pub open spec fn payload(line: Seq<char>) -> Option<Seq<char>> {
    text::without_prefix(text::trimmed(line), "data: "@)
}

/// The next payload of the buffered text and what is left after it, or the text
/// after the last complete line where no line carries a payload.
pub open spec fn sse_next(buf: Seq<char>) -> (Option<Seq<char>>, Seq<char>)
    decreases buf.len(),
{
    let n = first_index(buf, '\n') as int;
    if n >= buf.len() {
        (None, buf)
    } else {
        match payload(buf.take(n)) {
            Some(d) => (Some(d), buf.skip(n + 1)),
            None => sse_next(buf.skip(n + 1)),
        }
    }
}

/// All payloads of the complete lines of the text.
pub open spec fn sse_payloads(buf: Seq<char>) -> Seq<Seq<char>>
    decreases buf.len(),
{
    let n = first_index(buf, '\n') as int;
    if n >= buf.len() {
        Seq::empty()
    } else {
        let rest = sse_payloads(buf.skip(n + 1));
        match payload(buf.take(n)) {
            Some(d) => seq![d] + rest,
            None => rest,
        }
    }
}

/// The text after the last complete line.
pub open spec fn sse_rest(buf: Seq<char>) -> Seq<char>
    decreases buf.len(),
{
    let n = first_index(buf, '\n') as int;
    if n >= buf.len() {
        buf
    } else {
        sse_rest(buf.skip(n + 1))
    }
}

/// It makes no difference where the text is cut into chunks: the payloads of
/// the whole are those of the first part, then those of what the first part
/// left over with the second part behind it.
pub proof fn lemma_sse_chunks(a: Seq<char>, b: Seq<char>)
    ensures
        sse_payloads(a + b) == sse_payloads(a) + sse_payloads(sse_rest(a) + b),
        sse_rest(a + b) == sse_rest(sse_rest(a) + b),
    decreases a.len(),
{
    let n = first_index(a, '\n') as int;
    lemma_first_index(a, '\n');
    if n >= a.len() {
        assert(sse_payloads(a) + sse_payloads(a + b) =~= sse_payloads(a + b));
    } else {
        lemma_first_index_is(a + b, '\n', n);
        lemma_sse_chunks(a.skip(n + 1), b);
        assert((a + b).skip(n + 1) =~= a.skip(n + 1) + b);
        assert((a + b).take(n) =~= a.take(n));
        let rest = sse_payloads(a.skip(n + 1));
        let more = sse_payloads(sse_rest(a) + b);
        match payload(a.take(n)) {
            Some(d) => {
                assert(seq![d] + (rest + more) =~= (seq![d] + rest) + more);
            },
            None => {},
        }
    }
}

/// Reading payloads one at a time gives them all, in order.
pub proof fn lemma_sse_next_is_first(buf: Seq<char>)
    ensures
        match sse_next(buf).0 {
            Some(d) => sse_payloads(buf) == seq![d] + sse_payloads(sse_next(buf).1) && sse_rest(buf)
                == sse_rest(sse_next(buf).1),
            None => sse_payloads(buf).len() == 0 && sse_next(buf).1 == sse_rest(buf),
        },
    decreases buf.len(),
{
    let n = first_index(buf, '\n') as int;
    if n < buf.len() && payload(buf.take(n)) is None {
        lemma_sse_next_is_first(buf.skip(n + 1));
    }
}

/// What the buffered part of a reply holds.
pub enum SsePoll {
    /// Nothing complete: more bytes are needed.
    NeedMore,
    /// The end of the reply.
    Done,
    /// The next event.
    Data(String),
}

/// The part of a reply that has arrived and is not read yet.
pub struct SseBuffer {
    pub buf: String,
}

/// The bytes as text, or nothing where they are not UTF-8.
pub open spec fn text_or_nothing(bytes: Seq<u8>) -> Seq<char> {
    if valid_utf8(bytes) {
        decode_utf8(bytes)
    } else {
        Seq::empty()
    }
}

impl SseBuffer {
    /// A buffer with nothing in it.
    pub fn new() -> (b: Self)
        ensures
            b.buf@.len() == 0,
    {
        SseBuffer { buf: String::new() }
    }

    /// Takes in bytes that arrived; bytes that are not UTF-8 are dropped.
    pub fn feed(&mut self, bytes: &[u8])
        ensures
            final(self).buf@ == old(self).buf@ + text_or_nothing(bytes@),
    {
        match decode_text(bytes) {
            Some(t) => {
                self.buf.append(t.as_str());
            },
            None => {
                proof {
                    assert(self.buf@ + Seq::<char>::empty() =~= self.buf@);
                }
            },
        }
    }

    /// Reads up to the next event.
    pub fn poll(&mut self) -> (r: SsePoll)
        ensures
            final(self).buf@ == sse_next(old(self).buf@).1,
            match sse_next(old(self).buf@).0 {
                None => r is NeedMore,
                Some(d) => if d == "[DONE]"@ {
                    r is Done
                } else {
                    r matches SsePoll::Data(t) && t@ == d
                },
            },
    {
        let cs: Vec<char> = chars_of(self.buf.as_str());
        let n: usize = cs.len();
        let mut start: usize = 0;
        let ghost all = self.buf@;
        proof {
            assert(all.skip(0) =~= all);
        }
        loop
            invariant
                cs@ == all,
                all == old(self).buf@,
                n == all.len(),
                start <= n,
                sse_next(all.skip(start as int)) == sse_next(all),
                self.buf@ == all,
            decreases n - start,
        {
            let mut nl: usize = start;
            while nl < n && cs[nl] != '\n'
                invariant
                    start <= nl <= n == cs@.len(),
                    forall|i: int| start <= i < nl ==> cs@[i] != '\n',
                decreases n - nl,
            {
                nl = nl + 1;
            }
            let ghost rest = all.skip(start as int);
            proof {
                assert forall|i: int| 0 <= i < nl - start implies rest[i] != '\n' by {
                    assert(rest[i] == cs@[start + i]);
                }
                lemma_first_index_is(rest, '\n', nl - start);
            }
            if nl == n {
                self.buf = string_of(&cs, start, n);
                proof {
                    assert(all.subrange(start as int, n as int) =~= rest);
                }
                return SsePoll::NeedMore;
            }
            let raw: String = string_of(&cs, start, nl);
            let line: String = trim(raw.as_str());
            proof {
                assert(rest.take(nl - start) =~= raw@);
                assert(rest.skip(nl - start + 1) =~= all.skip(nl + 1));
            }
            if let Some(data) = strip_prefix(line.as_str(), "data: ") {
                self.buf = string_of(&cs, nl + 1, n);
                proof {
                    assert(all.subrange(nl + 1, n as int) =~= all.skip(nl + 1));
                }
                if same_text(data.as_str(), "[DONE]") {
                    return SsePoll::Done;
                }
                return SsePoll::Data(data);
            }
            start = nl + 1;
        }
    }
}

/// The parts of an event that say something, in order.
pub open spec fn nonempty(parts: Seq<Seq<char>>) -> Seq<Seq<char>> {
    parts.filter(|p: Seq<char>| p.len() > 0)
}

/// Leaves the empty parts of an event out.
pub fn spoken_parts(parts: &Vec<String>) -> (r: Vec<String>)
    ensures
        text::views(r@) == nonempty(text::views(parts@)),
{
    let mut out: Vec<String> = Vec::new();
    let mut i: usize = 0;
    let ghost all = text::views(parts@);
    let ghost keep = |p: Seq<char>| p.len() > 0;
    proof {
        assert(all.take(0) =~= Seq::<Seq<char>>::empty());
        reveal(Seq::filter);
        assert(text::views(out@) =~= Seq::<Seq<char>>::empty());
    }
    while i < parts.len()
        invariant
            all == text::views(parts@),
            keep == (|p: Seq<char>| p.len() > 0),
            i <= parts@.len(),
            text::views(out@) == all.take(i as int).filter(keep),
        decreases parts@.len() - i,
    {
        let ghost o = out@;
        proof {
            reveal(Seq::filter);
            assert(all.take(i + 1).drop_last() =~= all.take(i as int));
            assert(all.take(i + 1).last() == parts@[i as int]@);
        }
        if !parts[i].as_str().is_empty() {
            out.push(parts[i].clone());
            proof {
                assert(text::views(out@) =~= text::views(o).push(parts@[i as int]@));
            }
        }
        i = i + 1;
    }
    proof {
        assert(all.take(all.len() as int) =~= all);
    }
    out
}

// ── Replies line by line ──

/// A line without the carriage return that ends it.
pub open spec fn without_return(line: Seq<char>) -> Seq<char> {
    if line.len() > 0 && line.last() == '\r' {
        line.drop_last()
    } else {
        line
    }
}

/// The lines of a text. A line ends with a line feed, or a carriage return and
/// a line feed; the last one need not end.
pub open spec fn lines(s: Seq<char>) -> Seq<Seq<char>> {
    let pieces = text::split_on(s, '\n');
    let ended = pieces.drop_last().map_values(|l: Seq<char>| without_return(l));
    if pieces.last().len() == 0 {
        ended
    } else {
        ended.push(pieces.last())
    }
}

/// The lines of a text.
pub fn split_lines(s: &str) -> (r: Vec<String>)
    ensures
        text::views(r@) == lines(s@),
{
    let pieces: Vec<String> = split_char(s, '\n');
    let ghost all = text::views(pieces@);
    let n: usize = pieces.len();
    let mut out: Vec<String> = Vec::new();
    let mut i: usize = 0;
    while i < n - 1
        invariant
            all == text::views(pieces@),
            n == pieces@.len(),
            n >= 1,
            i <= n - 1,
            out@.len() == i,
            forall|j: int| 0 <= j < i ==> (#[trigger] out@[j])@ == without_return(all[j]),
        decreases n - i,
    {
        let cs: Vec<char> = chars_of(pieces[i].as_str());
        let m: usize = cs.len();
        if m > 0 && cs[m - 1] == '\r' {
            let line: String = string_of(&cs, 0, m - 1);
            proof {
                assert(line@ =~= all[i as int].drop_last());
            }
            out.push(line);
        } else {
            out.push(pieces[i].clone());
        }
        i = i + 1;
    }
    proof {
        assert(text::views(out@) =~= all.drop_last().map_values(
            |l: Seq<char>| without_return(l),
        ));
    }
    let ghost ended = out@;
    if !pieces[n - 1].as_str().is_empty() {
        out.push(pieces[n - 1].clone());
        proof {
            assert(text::views(out@) =~= text::views(ended).push(all.last()));
        }
    }
    out
}

/// The lines of the bytes that arrived, without the empty ones. Bytes that are
/// not UTF-8 have no lines.
pub fn reply_lines(bytes: &[u8]) -> (r: Vec<String>)
    ensures
        text::views(r@) == nonempty(lines(text_or_nothing(bytes@))),
{
    let all: Vec<String> = match decode_text(bytes) {
        Some(t) => split_lines(t.as_str()),
        None => split_lines(""),
    };
    proof {
        reveal_strlit("");
        assert(""@ =~= Seq::<char>::empty());
    }
    spoken_parts(&all)
}

/// A line of a reply as it was understood: what it says, and whether it is the
/// last one. A line that was not understood is `None`.
pub open spec fn said(l: Option<(String, bool)>) -> Option<(Seq<char>, bool)> {
    match l {
        Some(p) => Some((p.0@, p.1)),
        None => None,
    }
}

/// What the lines say up to the one that ends the reply, and whether one does.
pub open spec fn said_until_done(l: Seq<Option<(Seq<char>, bool)>>) -> (Seq<Seq<char>>, bool)
    decreases l.len(),
{
    if l.len() == 0 {
        (Seq::empty(), false)
    } else {
        let (before, done) = said_until_done(l.drop_last());
        match l.last() {
            Some(p) => if done {
                (before, done)
            } else {
                (before.push(p.0), p.1)
            },
            None => (before, done),
        }
    }
}

/// What the lines of a reply say, up to and with the one that ends it.
pub fn reply_parts(parsed: &Vec<Option<(String, bool)>>) -> (r: (Vec<String>, bool))
    ensures
        (text::views(r.0@), r.1) == said_until_done(
            parsed@.map_values(|l: Option<(String, bool)>| said(l)),
        ),
{
    let ghost all = parsed@.map_values(|l: Option<(String, bool)>| said(l));
    let mut out: Vec<String> = Vec::new();
    let mut done: bool = false;
    let mut i: usize = 0;
    proof {
        assert(all.take(0) =~= Seq::<Option<(Seq<char>, bool)>>::empty());
        assert(text::views(out@) =~= Seq::<Seq<char>>::empty());
    }
    while i < parsed.len()
        invariant
            all == parsed@.map_values(|l: Option<(String, bool)>| said(l)),
            i <= parsed@.len(),
            (text::views(out@), done) == said_until_done(all.take(i as int)),
        decreases parsed@.len() - i,
    {
        let ghost o = out@;
        proof {
            assert(all.take(i + 1).drop_last() =~= all.take(i as int));
            assert(all.take(i + 1).last() == said(parsed@[i as int]));
        }
        if !done {
            match &parsed[i] {
                Some(p) => {
                    out.push(p.0.clone());
                    done = p.1;
                    proof {
                        assert(text::views(out@) =~= text::views(o).push(p.0@));
                    }
                },
                None => {},
            }
        }
        i = i + 1;
    }
    proof {
        assert(all.take(all.len() as int) =~= all);
    }
    (out, done)
}

/// The lines behind the one that ends a reply say nothing.
pub proof fn lemma_nothing_after_done(
    a: Seq<Option<(Seq<char>, bool)>>,
    b: Seq<Option<(Seq<char>, bool)>>,
)
    requires
        said_until_done(a).1,
    ensures
        said_until_done(a + b) == said_until_done(a),
    decreases b.len(),
{
    if b.len() == 0 {
        assert(a + b =~= a);
    } else {
        lemma_nothing_after_done(a, b.drop_last());
        assert((a + b).drop_last() =~= a + b.drop_last());
    }
}

/// The parts of a reply put together, or the first failure among them.
pub open spec fn whole_reply(parts: Seq<std::result::Result<String, HexError>>) -> std::result::Result<
    Seq<char>,
    HexError,
>
    decreases parts.len(),
{
    if parts.len() == 0 {
        Ok(Seq::empty())
    } else {
        match whole_reply(parts.drop_last()) {
            Err(e) => Err(e),
            Ok(before) => match parts.last() {
                Ok(t) => Ok(before + t@),
                Err(e) => Err(e),
            },
        }
    }
}

/// Puts a reply together from its parts; white space around it goes where
/// `trimmed` says so. The first failure takes the place of the reply.
pub fn collect_reply(
    parts: Vec<std::result::Result<String, HexError>>,
    trimmed: bool,
) -> (r: std::result::Result<String, HexError>)
    ensures
        match whole_reply(parts@) {
            Ok(t) => r matches Ok(s) && s@ == if trimmed {
                text::trimmed(t)
            } else {
                t
            },
            Err(e) => r matches Err(f) && f == e,
        },
{
    let ghost all = parts@;
    let mut buf: String = String::new();
    let mut failure: Option<HexError> = None;
    proof {
        assert(all.take(0) =~= Seq::<std::result::Result<String, HexError>>::empty());
        assert(buf@ =~= Seq::<char>::empty());
    }
    for part in it: parts
        invariant
            it.seq() == all,
            match failure {
                Some(e) => whole_reply(all.take(it.index() as int)) == Err::<Seq<char>, HexError>(e),
                None => whole_reply(all.take(it.index() as int)) == Ok::<Seq<char>, HexError>(buf@),
            },
    {
        proof {
            assert(all.take(it.index() + 1).drop_last() =~= all.take(it.index() as int));
        }
        if failure.is_none() {
            match part {
                Ok(t) => {
                    buf.append(t.as_str());
                },
                Err(e) => {
                    failure = Some(e);
                },
            }
        }
    }
    proof {
        assert(all.take(all.len() as int) =~= all);
    }
    match failure {
        Some(e) => Err(e),
        None => {
            if trimmed {
                Ok(trim(buf.as_str()))
            } else {
                Ok(buf)
            }
        },
    }
}

} // verus!
