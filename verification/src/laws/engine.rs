//! Laws of the conversation with a language model.

use crate::config::Config;
use crate::engine;
use crate::engine::{
    build_messages, collect_reply, format_prompt, http_failure, ollama_unreachable, reply_lines,
    reply_parts, split_lines, spoken_parts, Backend, EngineEnv, EngineKind, EngineRequest,
    LlmEngine, LlmMessage, LocalEngine, LocalParams, Mode, SseBuffer, SsePoll,
};
use crate::error::HexError;
use crate::laws;
use crate::text;
use crate::text::number;
use vstd::prelude::*;
use vstd::utf8::*;

verus! {

// ── What the model is told ──

/// The messages keep the order of the conversation: turn `i` is the question of
/// the user in place `2 * i` and the answer of the assistant behind it, and the
/// prompt of the user comes last.
pub proof fn law_messages_in_order(
    history: &[(String, String)],
    prompt: &str,
    r: Vec<LlmMessage>,
    i: int,
)
    requires
        call_ensures(build_messages, (history, prompt), r),
    ensures
        r@.len() == 2 * history@.len() + 1,
        0 <= i < history@.len() ==> {
            &&& r@[2 * i].role@ == "user"@
            &&& r@[2 * i].content@ == history@[i].0@
            &&& r@[2 * i + 1].role@ == "assistant"@
            &&& r@[2 * i + 1].content@ == history@[i].1@
        },
        r@.last().role@ == "user"@,
        r@.last().content@ == prompt@,
{
    let m = engine::message_views(r@);
    assert(m.len() == r@.len());
    if 0 <= i < history@.len() {
        assert(m[2 * i] == r@[2 * i]@);
        assert(m[2 * i + 1] == r@[2 * i + 1]@);
    }
    assert(m.last() == r@.last()@);
}

/// The messages of a conversation and one that goes on behind it: those of the
/// first, without its prompt, and then those of the second. A turn that is
/// appended leaves the earlier messages where they are.
pub proof fn law_messages_go_on(
    a: Seq<(Seq<char>, Seq<char>)>,
    b: Seq<(Seq<char>, Seq<char>)>,
    first: Seq<char>,
    prompt: Seq<char>,
)
    ensures
        engine::conversation(a + b, prompt) == engine::conversation(a, first).drop_last()
            + engine::conversation(b, prompt),
        a.len() == 0 ==> engine::conversation(a, prompt) == seq![("user"@, prompt)],
{
    let x = engine::conversation(a + b, prompt);
    let y = engine::conversation(a, first).drop_last();
    let z = engine::conversation(b, prompt);
    assert forall|i: int| 0 <= i < x.len() implies x[i] == (y + z)[i] by {
        let k = i - 2 * a.len();
        if k >= 0 {
            assert(i / 2 == a.len() + k / 2);
            assert(i % 2 == k % 2);
        } else {
            assert(i / 2 < a.len());
        }
    }
    assert(x =~= y + z);
    if a.len() == 0 {
        assert(engine::conversation(a, prompt) =~= seq![("user"@, prompt)]);
    }
}

/// The instruct string grows with the conversation: where the last prompt was
/// answered and another one follows, the string is the one of before with the
/// answer and the new prompt behind it. It begins with the instructions, and
/// without a conversation holds them and the prompt alone.
pub proof fn law_instruct_string(
    system: &str,
    history: &[(String, String)],
    longer: &[(String, String)],
    prompt: &str,
    next: &str,
    r: String,
    s: String,
)
    requires
        call_ensures(format_prompt, (system, history, prompt), r),
        call_ensures(format_prompt, (system, longer, next), s),
        longer@.len() == history@.len() + 1,
        forall|i: int| 0 <= i < history@.len() ==> #[trigger] longer@[i] == history@[i],
        longer@.last().0@ == prompt@,
    ensures
        s@ == r@ + " "@ + longer@.last().1@ + " </s><s>[INST] "@ + next@ + " [/INST]"@,
        history@.len() == 0 ==> r@ == "[INST] <<SYS>>\n"@ + system@ + "\n<</SYS>>\n\n"@ + prompt@
            + " [/INST]"@,
{
    let h = engine::turns(history@);
    let l = engine::turns(longer@);
    assert(l.drop_last() =~= h);
    assert(l.last() == (prompt@, longer@.last().1@));
    let answer = longer@.last().1@;
    reveal_strlit(" [/INST] ");
    reveal_strlit(" [/INST]");
    reveal_strlit(" ");
    assert(" [/INST] "@ =~= " [/INST]"@ + " "@);
    let head = engine::instruct_head(system@, h);
    assert(s@ =~= r@ + " "@ + answer + " </s><s>[INST] "@ + next@ + " [/INST]"@);
}

/// What is sent goes where the backend says, in the words of the mode and under
/// the key of the service: the instructions first, and then the conversation
/// with the prompt as messages.
pub proof fn law_request(
    e: &LlmEngine,
    prompt: &str,
    history: &[(String, String)],
    r: EngineRequest,
    m: Vec<LlmMessage>,
    s: String,
)
    requires
        call_ensures(LlmEngine::request, (e, prompt, history), r),
        call_ensures(build_messages, (history, prompt), m),
        call_ensures(format_prompt, (e.mode.told(), history, prompt), s),
    ensures
        e.backend is Local ==> r is Local,
        e.backend is Ollama ==> r is Ollama,
        e.backend is OpenAI ==> r is OpenAI,
        r matches EngineRequest::Local { prompt: p } ==> p@ == s@,
        r matches EngineRequest::Ollama { url, model, messages } ==> {
            &&& messages@.len() == m@.len() + 1
            &&& messages@[0].role@ == "system"@
            &&& messages@[0].content@ == e.mode.told()@
            &&& forall|i: int|
                0 <= i < m@.len() ==> (#[trigger] m@[i])@ == messages@[i + 1]@
            &&& e.backend matches Backend::Ollama { base_url } && url@ == base_url@ + "/api/chat"@
            &&& e.mode == Mode::General ==> model@ == "llama2"@
            &&& e.mode == Mode::Programista ==> model@ == "codellama:7b-instruct"@
        },
        r matches EngineRequest::OpenAI { url, api_key, model, messages } ==> {
            &&& messages@.len() == m@.len() + 1
            &&& messages@[0].role@ == "system"@
            &&& messages@[0].content@ == e.mode.told()@
            &&& forall|i: int|
                0 <= i < m@.len() ==> (#[trigger] m@[i])@ == messages@[i + 1]@
            &&& e.backend matches Backend::OpenAI { base_url, api_key: key } && url@ == base_url@
                + "/v1/chat/completions"@ && api_key@ == key@
            &&& e.mode == Mode::General ==> model@ == "gpt-4o-mini"@
            &&& e.mode == Mode::Programista ==> model@ == "gpt-4o"@
        },
{
    let mv = engine::message_views(m@);
    assert(mv.len() == m@.len());
    match r {
        EngineRequest::Ollama { url, model, messages } => {
            lemma_instructed(messages@, e.mode, mv, m@);
        },
        EngineRequest::OpenAI { url, api_key, model, messages } => {
            lemma_instructed(messages@, e.mode, mv, m@);
        },
        _ => {},
    }
}

proof fn lemma_instructed(
    messages: Seq<LlmMessage>,
    mode: Mode,
    mv: Seq<(Seq<char>, Seq<char>)>,
    m: Seq<LlmMessage>,
)
    requires
        mv == engine::message_views(m),
        engine::message_views(messages) == seq![("system"@, mode.system_text())] + mv,
    ensures
        messages.len() == m.len() + 1,
        messages[0].role@ == "system"@,
        messages[0].content@ == mode.told()@,
        forall|i: int| 0 <= i < m.len() ==> (#[trigger] m[i])@ == messages[i + 1]@,
{
    let v = engine::message_views(messages);
    assert(v.len() == messages.len());
    assert(v[0] == messages[0]@);
    assert forall|i: int| 0 <= i < m.len() implies (#[trigger] m[i])@ == messages[i + 1]@ by {
        assert(mv[i] == m[i]@);
        assert(v[i + 1] == messages[i + 1]@);
    }
}

impl Mode {
    /// The instructions of the mode, as the string that is sent.
    pub open spec fn told(self) -> &'static str {
        match self {
            Mode::General => engine::GENERAL_PROMPT,
            Mode::Programista => engine::PROGRAMMER_PROMPT,
        }
    }
}

// ── How much of a conversation is sent ──

/// A turn counts for a quarter of its bytes, rounded down, and a conversation for
/// its turns together.
pub proof fn law_tokens(a: Seq<(Seq<char>, Seq<char>)>, b: Seq<(Seq<char>, Seq<char>)>)
    ensures
        engine::tokens(a + b) == engine::tokens(a) + engine::tokens(b),
        a.len() == 0 ==> engine::tokens(a) == 0,
        a.len() == 1 ==> {
            let bytes = encode_utf8(a[0].0).len() + encode_utf8(a[0].1).len();
            4 * engine::tokens(a) <= bytes < 4 * engine::tokens(a) + 4
        },
    decreases a.len(),
{
    if a.len() == 0 {
        assert(a + b =~= b);
    } else {
        law_tokens(a.skip(1), b);
        assert((a + b).skip(1) =~= a.skip(1) + b);
        if a.len() == 1 {
            assert(engine::tokens(a.skip(1)) == 0);
        }
    }
}

/// Counting the tokens of a conversation counts each of its turns.
pub proof fn law_count_tokens(msgs: &[(String, String)], n: usize)
    requires
        call_ensures(LlmEngine::count_tokens, (msgs,), n),
    ensures
        msgs@.len() == 0 ==> n == 0,
        msgs@.len() == 1 ==> {
            let bytes = encode_utf8(msgs@[0].0@).len() + encode_utf8(msgs@[0].1@).len();
            4 * n <= bytes < 4 * n + 4
        },
        n == engine::tokens(engine::turns(msgs@)),
{
    let h = engine::turns(msgs@);
    law_tokens(h, Seq::empty());
    if msgs@.len() == 1 {
        assert(h[0] == (msgs@[0].0@, msgs@[0].1@));
    }
}

// ── Which engine ──

/// A kind is known by its name and by no other, and the names of the kinds are
/// told apart.
pub proof fn law_kind_names(s: &str, k: EngineKind, r: Option<EngineKind>, name: String)
    requires
        call_ensures(EngineKind::from_name, (s,), r),
        call_ensures(EngineKind::name, (&k,), name),
    ensures
        s@ == name@ <==> r == Some(k),
{
    k.lemma_name_round_trip();
    if let Some(j) = r {
        j.lemma_name_round_trip();
    }
}

/// The environment chooses the kind by its name; where it names none, it is
/// Ollama. A model in this process answers where one was loaded, an
/// OpenAI-compatible service under its own address and key, and Ollama at the
/// address of the settings otherwise.
pub proof fn law_engine_of_environment(
    cfg: &Config,
    env: &EngineEnv,
    loaded: Option<LocalEngine>,
    k: EngineKind,
    name: String,
    e: LlmEngine,
)
    requires
        call_ensures(LlmEngine::new, (cfg, env, loaded), e),
        call_ensures(EngineKind::name, (&k,), name),
    ensures
        env.engine is None ==> e.kind == EngineKind::Ollama,
        env.engine matches Some(s) ==> (s@ == name@ ==> e.kind == k),
        env.engine matches Some(s) ==> (e.kind == k && k != EngineKind::Ollama ==> s@ == name@),
        e.mode == Mode::General,
        e.kind == EngineKind::Local && loaded is Some ==> e.backend == Backend::Local(loaded->0),
        e.backend is Local ==> e.kind == EngineKind::Local && loaded is Some,
        e.backend is OpenAI <==> e.kind == EngineKind::OpenAI,
        e.backend matches Backend::Ollama { base_url } ==> base_url@ == cfg.ollama_url@,
        e.model_path is Some <==> e.backend is Local,
        e.model_path matches Some(p) ==> (match env.model_path {
            Some(q) => p@ == q@,
            None => p@.len() == 0,
        }),
        e.backend matches Backend::OpenAI { base_url, api_key } ==> {
            &&& base_url@.len() > 0 ==> base_url@.last() != '/'
            &&& env.openai_key matches Some(key) ==> api_key@ == key@
            &&& env.openai_key is None ==> api_key@.len() == 0
            &&& env.openai_base is None ==> base_url@ == "https://api.openai.com"@
            &&& env.openai_base matches Some(base) ==> base_url@.len() <= base@.len() && base_url@
                == base@.take(base_url@.len() as int) && forall|i: int|
                base_url@.len() <= i < base@.len() ==> #[trigger] base@[i] == '/'
        },
{
    k.lemma_name_round_trip();
    if let Some(s) = env.engine {
        if let Some(j) = EngineKind::named(s@) {
            j.lemma_name_round_trip();
        }
    }
    if e.backend is OpenAI {
        reveal_strlit("https://api.openai.com");
        laws::text::lemma_trim_end_char(
            text::or_default(env.openai_base, "https://api.openai.com"@),
            '/',
        );
    }
}

// ── How a reply is read ──

/// Every line with the mark in front is an event, whatever stands around it: the
/// events of a complete line and of what follows are the event of that line, if
/// it is one, and then those of what follows. A line that is not complete is
/// none yet, and waits.
pub proof fn law_events(line: Seq<char>, rest: Seq<char>, d: Seq<char>)
    requires
        forall|i: int| 0 <= i < line.len() ==> #[trigger] line[i] != '\n',
    ensures
        text::trimmed(line) == "data: "@ + d ==> engine::sse_payloads(line.push('\n') + rest)
            == seq![d] + engine::sse_payloads(rest),
        !(exists|x: Seq<char>| text::trimmed(line) == #[trigger] ("data: "@ + x))
            ==> engine::sse_payloads(line.push('\n') + rest) == engine::sse_payloads(rest),
        engine::sse_rest(line.push('\n') + rest) == engine::sse_rest(rest),
        engine::sse_payloads(line).len() == 0,
        engine::sse_rest(line) == line,
{
    let all = line.push('\n') + rest;
    let n = line.len() as int;
    engine::lemma_first_index_is(all, '\n', n);
    engine::lemma_first_index_is(line, '\n', n);
    assert(all.take(n) =~= line);
    assert(all.skip(n + 1) =~= rest);
    let t = text::trimmed(line);
    let p = "data: "@;
    if t == p + d {
        assert(t.take(p.len() as int) =~= p);
        assert(t.skip(p.len() as int) =~= d);
    }
    if text::has_prefix(t, p) {
        assert(t =~= p + t.skip(p.len() as int));
    }
}

/// The lines of a text: what stands before a line feed is a line, without the
/// carriage return at its end, and then come the lines of what stands behind it.
/// A last line that does not end is a line where it is not empty.
pub proof fn law_lines(line: Seq<char>, rest: Seq<char>)
    requires
        forall|i: int| 0 <= i < line.len() ==> #[trigger] line[i] != '\n',
    ensures
        line.len() > 0 && line.last() == '\r' ==> engine::lines(line.push('\n') + rest) == seq![
            line.drop_last(),
        ] + engine::lines(rest),
        line.len() == 0 || line.last() != '\r' ==> engine::lines(line.push('\n') + rest) == seq![
            line,
        ] + engine::lines(rest),
        line.len() > 0 ==> engine::lines(line) == seq![line],
        line.len() == 0 ==> engine::lines(line).len() == 0,
{
    let cut = text::is_char('\n');
    laws::text::law_split_at_cut(line, '\n', rest, cut);
    text::lemma_split_nonempty(rest, cut);
    let pieces = text::split_on(line.push('\n') + rest, '\n');
    let more = text::split_on(rest, '\n');
    assert(pieces == seq![line] + more);
    assert(pieces.last() == more.last());
    let f = |l: Seq<char>| engine::without_return(l);
    assert(pieces.drop_last().map_values(f) =~= seq![engine::without_return(line)]
        + more.drop_last().map_values(f));
    assert(engine::lines(line.push('\n') + rest) =~= seq![engine::without_return(line)]
        + engine::lines(rest));
    assert(text::split_on(line, '\n') == seq![line]);
    assert(seq![line].drop_last().map_values(f) =~= Seq::<Seq<char>>::empty());
    if line.len() > 0 {
        assert(engine::lines(line) =~= seq![line]);
    }
}

/// The lines of a string are those of its text.
pub proof fn law_split_lines(s: &str, r: Vec<String>)
    requires
        call_ensures(split_lines, (s,), r),
    ensures
        text::views(r@) == engine::lines(s@),
        s@.len() == 0 ==> r@.len() == 0,
        s@.len() > 0 && (forall|i: int| 0 <= i < s@.len() ==> #[trigger] s@[i] != '\n')
            ==> r@.len() == 1 && r@[0]@ == s@,
{
    assert(text::views(r@).len() == r@.len());
    if s@.len() == 0 {
        law_lines(s@, s@);
    }
    if s@.len() > 0 && (forall|i: int| 0 <= i < s@.len() ==> #[trigger] s@[i] != '\n') {
        law_lines(s@, s@);
        assert(text::views(r@)[0] == r@[0]@);
    }
}

/// Of the parts, those that hold something are kept, each once and in order.
pub proof fn law_nonempty(a: Seq<Seq<char>>, b: Seq<Seq<char>>)
    ensures
        engine::nonempty(a + b) == engine::nonempty(a) + engine::nonempty(b),
        a.len() == 0 ==> engine::nonempty(a).len() == 0,
        a.len() == 1 ==> engine::nonempty(a) == (if a[0].len() > 0 {
            a
        } else {
            Seq::empty()
        }),
    decreases b.len(),
{
    reveal(Seq::filter);
    let p = |p: Seq<char>| p.len() > 0;
    if b.len() == 0 {
        assert(a + b =~= a);
        assert(engine::nonempty(a) + engine::nonempty(b) =~= engine::nonempty(a));
    } else {
        law_nonempty(a, b.drop_last());
        assert((a + b).drop_last() =~= a + b.drop_last());
        assert((a + b).last() == b.last());
        assert(engine::nonempty(a + b) =~= engine::nonempty(a) + engine::nonempty(b));
    }
    if a.len() == 1 {
        assert(a.drop_last() =~= Seq::<Seq<char>>::empty());
        assert(engine::nonempty(a.drop_last()) =~= Seq::<Seq<char>>::empty());
        assert(a =~= Seq::<Seq<char>>::empty().push(a[0]));
    }
}

/// A part is passed on exactly where it holds something.
pub proof fn law_spoken_parts(parts: &Vec<String>, r: Vec<String>)
    requires
        call_ensures(spoken_parts, (parts,), r),
    ensures
        text::views(r@) == engine::nonempty(text::views(parts@)),
        (forall|i: int| 0 <= i < parts@.len() ==> (#[trigger] parts@[i])@.len() > 0)
            ==> text::views(r@) == text::views(parts@),
        r@.len() <= parts@.len(),
{
    let v = text::views(parts@);
    lemma_nonempty_len(v);
    assert(text::views(r@).len() == r@.len());
    if forall|i: int| 0 <= i < parts@.len() ==> (#[trigger] parts@[i])@.len() > 0 {
        assert forall|i: int| 0 <= i < v.len() implies (#[trigger] v[i]).len() > 0 by {
            assert(v[i] == parts@[i]@);
        }
        lemma_all_nonempty(v);
    }
}

proof fn lemma_nonempty_len(v: Seq<Seq<char>>)
    ensures
        engine::nonempty(v).len() <= v.len(),
    decreases v.len(),
{
    reveal(Seq::filter);
    if v.len() > 0 {
        lemma_nonempty_len(v.drop_last());
    }
}

proof fn lemma_all_nonempty(v: Seq<Seq<char>>)
    requires
        forall|i: int| 0 <= i < v.len() ==> (#[trigger] v[i]).len() > 0,
    ensures
        engine::nonempty(v) == v,
    decreases v.len(),
{
    reveal(Seq::filter);
    if v.len() > 0 {
        let d = v.drop_last();
        assert forall|i: int| 0 <= i < d.len() implies (#[trigger] d[i]).len() > 0 by {
            assert(d[i] == v[i]);
        }
        lemma_all_nonempty(d);
        assert(v[v.len() - 1].len() > 0);
    }
    assert(engine::nonempty(v) =~= v);
}

/// What lines say comes in their order, each understood line once, up to the one
/// that ends the reply, and nothing behind it. A line that was not understood is
/// passed over.
pub proof fn law_said_in_order(
    t: Seq<char>,
    rest: Seq<Option<(Seq<char>, bool)>>,
)
    ensures
        engine::said_until_done(seq![Some((t, true))] + rest) == (seq![t], true),
        engine::said_until_done(seq![Some((t, false))] + rest).0 == seq![t]
            + engine::said_until_done(rest).0,
        engine::said_until_done(seq![Some((t, false))] + rest).1 == engine::said_until_done(rest).1,
        engine::said_until_done(seq![None::<(Seq<char>, bool)>] + rest)
            == engine::said_until_done(rest),
        rest.len() == 0 ==> engine::said_until_done(rest) == (Seq::<Seq<char>>::empty(), false),
    decreases rest.len(),
{
    let a = seq![Some((t, true))] + rest;
    let b = seq![Some((t, false))] + rest;
    let c = seq![None::<(Seq<char>, bool)>] + rest;
    if rest.len() == 0 {
        let none = Seq::<Option<(Seq<char>, bool)>>::empty();
        assert(a.drop_last() =~= none);
        assert(b.drop_last() =~= none);
        assert(c.drop_last() =~= none);
        assert(engine::said_until_done(none) == (Seq::<Seq<char>>::empty(), false));
        assert(Seq::<Seq<char>>::empty().push(t) =~= seq![t]);
        assert(seq![t] + Seq::<Seq<char>>::empty() =~= seq![t]);
    } else {
        let d = rest.drop_last();
        law_said_in_order(t, d);
        assert(a.drop_last() =~= seq![Some((t, true))] + d);
        assert(b.drop_last() =~= seq![Some((t, false))] + d);
        assert(c.drop_last() =~= seq![None::<(Seq<char>, bool)>] + d);
        assert(engine::said_until_done(b).0 =~= seq![t] + engine::said_until_done(rest).0);
    }
}

/// A reply whose parts all came is the parts one after the other. Where one
/// failed, the first failure is what comes of the reply.
pub proof fn law_whole_reply(
    parts: Seq<std::result::Result<String, HexError>>,
    more: Seq<std::result::Result<String, HexError>>,
)
    ensures
        parts.len() == 0 ==> engine::whole_reply(parts) == Ok::<Seq<char>, HexError>(Seq::empty()),
        parts.len() == 1 ==> engine::whole_reply(parts) == (match parts[0] {
            Ok(t) => Ok::<Seq<char>, HexError>(t@),
            Err(e) => Err(e),
        }),
        engine::whole_reply(parts + more) == (match engine::whole_reply(parts) {
            Ok(a) => match engine::whole_reply(more) {
                Ok(b) => Ok::<Seq<char>, HexError>(a + b),
                Err(e) => Err(e),
            },
            Err(e) => Err(e),
        }),
    decreases more.len(),
{
    if parts.len() == 1 {
        assert(parts.drop_last() =~= Seq::<std::result::Result<String, HexError>>::empty());
        assert(engine::whole_reply(parts.drop_last()) == Ok::<Seq<char>, HexError>(Seq::empty()));
        assert(parts.last() == parts[0]);
        if let Ok(t) = parts[0] {
            assert(Seq::<char>::empty() + t@ =~= t@);
        }
    }
    if more.len() == 0 {
        assert(parts + more =~= parts);
        if let Ok(a) = engine::whole_reply(parts) {
            assert(a + Seq::<char>::empty() =~= a);
        }
    } else {
        let d = more.drop_last();
        law_whole_reply(parts, d);
        assert((parts + more).drop_last() =~= parts + d);
        assert((parts + more).last() == more.last());
        if let Ok(a) = engine::whole_reply(parts) {
            if let Ok(b) = engine::whole_reply(d) {
                if let Ok(t) = more.last() {
                    assert((a + b) + t@ =~= a + (b + t@));
                }
            }
        }
    }
}

/// Collecting a reply puts its parts together, and trims it only where asked.
pub proof fn law_collect_reply(
    parts: Vec<std::result::Result<String, HexError>>,
    whole: std::result::Result<String, HexError>,
    short: std::result::Result<String, HexError>,
)
    requires
        call_ensures(collect_reply, (parts, false), whole),
        call_ensures(collect_reply, (parts, true), short),
    ensures
        whole is Ok <==> engine::whole_reply(parts@) is Ok,
        whole is Ok <==> short is Ok,
        whole matches Ok(t) ==> engine::whole_reply(parts@) == Ok::<Seq<char>, HexError>(t@),
        whole matches Ok(t) ==> (short matches Ok(u) && u@ == text::trimmed(t@)),
        whole matches Err(e) ==> engine::whole_reply(parts@) == Err::<Seq<char>, HexError>(e)
            && short == Err::<String, HexError>(e),
{
}

/// Every mode has instructions and models of its own, and the models of the
/// programmer are the ones for code.
pub proof fn law_modes(m: Mode, a: &'static str, b: &'static str, c: &'static str, name: String)
    requires
        call_ensures(Mode::system_prompt, (&m,), a),
        call_ensures(Mode::ollama_model, (&m,), b),
        call_ensures(Mode::openai_model, (&m,), c),
        call_ensures(Mode::name, (&m,), name),
    ensures
        a@ == m.told()@,
        name@ == "general"@ <==> m == Mode::General,
        name@ == "programista"@ <==> m == Mode::Programista,
        m == Mode::General ==> b@ == "llama2"@ && c@ == "gpt-4o-mini"@,
        m == Mode::Programista ==> b@ == "codellama:7b-instruct"@ && c@ == "gpt-4o"@,
{
    reveal_strlit("general");
    reveal_strlit("programista");
    assert("general"@.len() == 7);
    assert("programista"@.len() == 11);
}

/// The kind that the environment asks for is the one that it names, and Ollama
/// where it names none.
pub proof fn law_kind_wanted(env: &EngineEnv, k: EngineKind, named: Option<EngineKind>, s: &str)
    requires
        call_ensures(LlmEngine::kind_wanted, (env,), k),
        call_ensures(EngineKind::from_name, (s,), named),
        env.engine matches Some(e) ==> s@ == e@,
    ensures
        env.engine is None ==> k == EngineKind::Ollama,
        env.engine is Some && named is Some ==> Some(k) == named,
        env.engine is Some && named is None ==> k == EngineKind::Ollama,
{
}

/// A copy of an engine sends the same requests.
pub proof fn law_copy(
    e: &LlmEngine,
    c: LlmEngine,
    prompt: &str,
    history: &[(String, String)],
    x: EngineRequest,
    y: EngineRequest,
)
    requires
        call_ensures(LlmEngine::copy, (e,), c),
        call_ensures(LlmEngine::request, (e, prompt, history), x),
        call_ensures(LlmEngine::request, (&c, prompt, history), y),
    ensures
        c.kind == e.kind,
        c.mode == e.mode,
        match x {
            EngineRequest::Local { prompt: p } => y matches EngineRequest::Local { prompt: q } && p@
                == q@,
            EngineRequest::Ollama { url, model, messages } => y matches EngineRequest::Ollama {
                url: u,
                model: m,
                messages: s,
            } && url@ == u@ && model@ == m@ && engine::message_views(messages@)
                == engine::message_views(s@),
            EngineRequest::OpenAI { url, api_key, model, messages } => y matches EngineRequest::OpenAI {
                url: u,
                api_key: k,
                model: m,
                messages: s,
            } && url@ == u@ && api_key@ == k@ && model@ == m@ && engine::message_views(messages@)
                == engine::message_views(s@),
        },
        e.backend matches Backend::Local(p) ==> c.backend == Backend::Local(p),
        e.model_path is Some <==> c.model_path is Some,
        e.model_path matches Some(p) ==> c.model_path->0@ == p@,
{
}

/// The line on what runs names the model that requests ask for.
pub proof fn law_info(
    e: &LlmEngine,
    r: String,
    prompt: &str,
    history: &[(String, String)],
    x: EngineRequest,
    ctx: String,
    threads: String,
    layers: String,
)
    requires
        call_ensures(LlmEngine::info, (e,), r),
        call_ensures(LlmEngine::request, (e, prompt, history), x),
        e.backend matches Backend::Local(l) ==> {
            &&& call_ensures(number, (l.params.n_ctx as u64,), ctx)
            &&& call_ensures(number, (l.params.n_threads as u64,), threads)
            &&& call_ensures(number, (l.params.n_gpu_layers as u64,), layers)
        },
    ensures
        x matches EngineRequest::Ollama { url, model, messages } ==> r@ == "ollama → "@ + model@,
        x matches EngineRequest::OpenAI { url, api_key, model, messages } ==> r@ == "openai → "@
            + model@,
        x is Local ==> r@ == "local/llama_cpp | ctx="@ + ctx@ + " threads="@ + threads@
            + " gpu_layers="@ + layers@,
{
}

/// A model in this process is there exactly where its file is and was loaded, with
/// the settings that it was loaded with.
pub proof fn law_load(
    path: &str,
    params: LocalParams,
    present: bool,
    loaded: Result<(), String>,
    r: Result<LocalEngine, HexError>,
    a: HexError,
    b: HexError,
    body: &str,
)
    requires
        call_ensures(LocalEngine::load, (path, params, present, loaded), r),
        call_ensures(ollama_unreachable, (path,), a),
        call_ensures(http_failure, (path, "500", body), b),
    ensures
        r is Ok <==> present && loaded is Ok,
        r matches Ok(e) ==> e.params == params,
        !present ==> (r matches Err(HexError::Engine(t)) && text::has_prefix(
            t@,
            "Model GGUF nie znaleziony: "@ + path@,
        )),
        present && loaded is Err ==> (r matches Err(HexError::Engine(t)) && t@
            == "Błąd ładowania modelu: "@ + loaded->Err_0@),
        a matches HexError::Engine(t) && t@ == "Ollama unreachable: "@ + path@
            + ". Is `ollama serve` running?"@,
        b matches HexError::Engine(t) && t@ == path@ + " HTTP "@ + "500"@ + ": "@ + body@,
{
    if !present {
        let p = "Model GGUF nie znaleziony: "@ + path@;
        let t = p + engine::MODEL_HINT@;
        assert(t.take(p.len() as int) =~= p);
    }
}

/// Events are read one at a time and in order, and none is read twice or lost:
/// what is read and what is left make up what was there. A mark ends the reply.
/// Where nothing complete is left, more is asked for, and what is not complete
/// waits.
pub proof fn law_poll(b: &mut SseBuffer, r: SsePoll)
    requires
        call_ensures(SseBuffer::poll, (b,), r),
    ensures
        r is NeedMore <==> engine::sse_payloads(old(b).buf@).len() == 0,
        r is NeedMore ==> final(b).buf@ == engine::sse_rest(old(b).buf@),
        r is Done <==> engine::sse_payloads(old(b).buf@).len() > 0 && engine::sse_payloads(
            old(b).buf@,
        )[0] == "[DONE]"@,
        r matches SsePoll::Data(t) ==> engine::sse_payloads(old(b).buf@).len() > 0 && t@
            == engine::sse_payloads(old(b).buf@)[0],
        !(r is NeedMore) ==> engine::sse_payloads(final(b).buf@) == engine::sse_payloads(
            old(b).buf@,
        ).skip(1),
        engine::sse_rest(final(b).buf@) == engine::sse_rest(old(b).buf@),
{
    let buf = old(b).buf@;
    engine::lemma_sse_next_is_first(buf);
    let all = engine::sse_payloads(buf);
    match engine::sse_next(buf).0 {
        Some(d) => {
            let rest = engine::sse_payloads(engine::sse_next(buf).1);
            assert(all == seq![d] + rest);
            assert(all.skip(1) =~= rest);
            assert(all[0] == d);
        },
        None => {
            lemma_rest_of_rest(buf);
        },
    }
}

proof fn lemma_rest_of_rest(s: Seq<char>)
    ensures
        engine::sse_rest(engine::sse_rest(s)) == engine::sse_rest(s),
    decreases s.len(),
{
    let n = engine::first_index(s, '\n') as int;
    if n < s.len() {
        lemma_rest_of_rest(s.skip(n + 1));
    }
}

/// What arrives is put behind what is there, as far as it is text, and a new
/// buffer holds nothing.
pub proof fn law_feed(b: &mut SseBuffer, bytes: &[u8], t: Seq<char>, fresh: SseBuffer)
    requires
        call_ensures(SseBuffer::feed, (b, bytes), ()),
        call_ensures(SseBuffer::new, (), fresh),
    ensures
        bytes@ == encode_utf8(t) ==> final(b).buf@ == old(b).buf@ + t,
        !valid_utf8(bytes@) ==> final(b).buf@ == old(b).buf@,
        fresh.buf@.len() == 0,
{
    encode_utf8_decode_utf8(t);
    encode_utf8_valid_utf8(t);
    assert(old(b).buf@ + Seq::<char>::empty() =~= old(b).buf@);
}

/// Every line of the bytes that says something is handed on, in order.
pub proof fn law_reply_lines(
    bytes: &[u8],
    s: &str,
    all: Vec<String>,
    spoken: Vec<String>,
    r: Vec<String>,
)
    requires
        call_ensures(reply_lines, (bytes,), r),
        call_ensures(split_lines, (s,), all),
        call_ensures(spoken_parts, (&all,), spoken),
    ensures
        bytes@ == encode_utf8(s@) ==> text::views(r@) == text::views(spoken@),
        !valid_utf8(bytes@) ==> r@.len() == 0,
{
    encode_utf8_decode_utf8(s@);
    encode_utf8_valid_utf8(s@);
    if !valid_utf8(bytes@) {
        let none = Seq::<char>::empty();
        law_lines(none, none);
        let l = engine::lines(none);
        assert(l =~= Seq::<Seq<char>>::empty());
        law_nonempty(l, l);
        assert(text::views(r@).len() == r@.len());
    }
}

/// Of the lines of a reply the first that ends it is the last that counts: what
/// was said before it and in it is handed on, in order, and nothing behind it.
pub proof fn law_reply_parts(parsed: &Vec<Option<(String, bool)>>, r: (Vec<String>, bool), i: int)
    requires
        call_ensures(reply_parts, (parsed,), r),
        forall|j: int|
            0 <= j < parsed@.len() ==> (#[trigger] parsed@[j]) is Some && ((parsed@[j]->0).1 <==> j
                == i),
    ensures
        0 <= i < parsed@.len() ==> r.0@.len() == i + 1 && r.1,
        !(0 <= i < parsed@.len()) ==> r.0@.len() == parsed@.len() && !r.1,
        forall|j: int| 0 <= j < r.0@.len() ==> (#[trigger] r.0@[j])@ == (parsed@[j]->0).0@,
{
    let all = parsed@.map_values(|l: Option<(String, bool)>| engine::said(l));
    lemma_said(all, i);
    let v = text::views(r.0@);
    assert(v.len() == r.0@.len());
    assert forall|j: int| 0 <= j < r.0@.len() implies (#[trigger] r.0@[j])@
        == (parsed@[j]->0).0@ by {
        assert(v[j] == r.0@[j]@);
        assert(all[j] == engine::said(parsed@[j]));
    }
}

proof fn lemma_said(all: Seq<Option<(Seq<char>, bool)>>, i: int)
    requires
        forall|j: int|
            0 <= j < all.len() ==> (#[trigger] all[j]) is Some && ((all[j]->0).1 <==> j == i),
    ensures
        ({
            let n = if 0 <= i < all.len() {
                i + 1
            } else {
                all.len() as int
            };
            let r = engine::said_until_done(all);
            &&& r.0.len() == n
            &&& r.1 <==> 0 <= i < all.len()
            &&& forall|j: int| 0 <= j < n ==> #[trigger] r.0[j] == (all[j]->0).0
        }),
    decreases all.len(),
{
    if all.len() > 0 {
        let d = all.drop_last();
        assert forall|j: int| 0 <= j < d.len() implies (#[trigger] d[j]) is Some && ((d[j]->0).1
            <==> j == i) by {
            assert(all[j] == d[j]);
        }
        lemma_said(d, i);
        assert(all[all.len() - 1] == all.last());
    }
}

} // verus!
