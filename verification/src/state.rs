//! The state of the service.

use crate::auth::AuthState;
use crate::config::Config;
use crate::engine::{EngineKind, LlmEngine, Mode};
use crate::memory;
use crate::memory::PersistentMemory;
use crate::outside;
use crate::profiler;
use crate::profiler::{UserProfiler, MAX_FACTS};
use crate::rag;
use crate::rag::{DocChunk, RagStore};
use crate::text;
use vstd::prelude::*;

verus! {

/// Everything that the service keeps while it runs.
pub struct AppState {
    pub cfg: Config,
    pub engine: LlmEngine,
    pub memory: PersistentMemory,
    pub rag: RagStore,
    pub profiler: UserProfiler,
    pub auth: AuthState,
}

impl AppState {
    /// The parts of the state are valid.
    pub open spec fn wf(self) -> bool {
        &&& self.memory.wf()
        &&& self.rag.wf()
        &&& self.profiler.wf()
    }

    /// The state of a service that starts with the given settings, engine and
    /// memory, and with the chunks of documents that were kept on disk.
    pub fn new(
        cfg: Config,
        engine: LlmEngine,
        memory: PersistentMemory,
        embed_model: &Option<String>,
        loaded: Vec<DocChunk>,
    ) -> (s: Self)
        requires
            memory.wf(),
        ensures
            s.wf(),
            s.cfg == cfg,
            s.engine == engine,
            s.memory == memory,
            s.rag@ == rag::stored(Map::empty(), loaded@),
            s.rag.settings() == (
                cfg.ollama_url@,
                text::or_default(*embed_model, rag::EMBED_MODEL@),
                text::trim_end_text(cfg.db_path@, ".db"@) + ".rag.json"@,
            ),
            forall|u: Seq<char>| #[trigger]
                s.profiler.facts_of(u) == Seq::<Seq<char>>::empty(),
            outside::per_minute(s.auth.limiter) == if cfg.rate_limit_rpm == 0 {
                1nat
            } else {
                cfg.rate_limit_rpm as nat
            },
            outside::arrivals(s.auth.limiter) == Map::<Seq<char>, nat>::empty(),
            s.auth.jwt_secret@ == cfg.jwt_secret@,
            s.auth.auth_enabled == cfg.auth_enabled,
    {
        let rag = RagStore::new(
            cfg.db_path.as_str(),
            cfg.ollama_url.as_str(),
            embed_model,
            loaded,
        );
        let auth = AuthState::new(&cfg);
        AppState { cfg, engine, memory, rag, profiler: UserProfiler::new(), auth }
    }

    /// Sets the kind of the engine and changes nothing else. Prompts keep going
    /// to the backend that was chosen at the start.
    pub fn set_engine_kind(&mut self, kind: EngineKind)
        ensures
            *final(self) == (AppState {
                engine: (LlmEngine { kind, ..old(self).engine }),
                ..*old(self)
            }),
    {
        self.engine.kind = kind;
    }

    /// Sets the mode of the engine and changes nothing else.
    pub fn set_mode(&mut self, mode: Mode)
        ensures
            *final(self) == (AppState {
                engine: (LlmEngine { mode, ..old(self).engine }),
                ..*old(self)
            }),
    {
        self.engine.mode = mode;
    }

    /// Remembers a turn of a session, and what the user stated in it.
    pub fn remember(&mut self, session_id: &str, prompt: &str, response: &str)
        requires
            old(self).wf(),
        ensures
            final(self).wf(),
            final(self).cfg == old(self).cfg,
            final(self).engine == old(self).engine,
            final(self).rag == old(self).rag,
            final(self).auth == old(self).auth,
            final(self).memory.lifetime() == old(self).memory.lifetime(),
            final(self).memory.max_tokens() == old(self).memory.max_tokens(),
            final(self).memory.kept(session_id@) == memory::with_turn(
                old(self).memory.kept(session_id@),
                (prompt@, response@),
            ),
            final(self).profiler.facts_of(session_id@) == (match profiler::fact_in(prompt@) {
                Some(f) => profiler::first_n(
                    seq![f] + old(self).profiler.facts_of(session_id@),
                    MAX_FACTS as nat,
                ),
                None => old(self).profiler.facts_of(session_id@),
            }),
            forall|s: Seq<char>| #[trigger]
                final(self).memory.sessions().contains(s) <==> s == session_id@ || old(
                    self,
                ).memory.sessions().contains(s),
            forall|s: Seq<char>|
                s != session_id@ ==> #[trigger] final(self).memory.kept(s) == old(self).memory.kept(
                    s,
                ),
            forall|s: Seq<char>|
                s != session_id@ ==> #[trigger] final(self).profiler.facts_of(s) == old(
                    self,
                ).profiler.facts_of(s),
    {
        self.memory.add_message(session_id, prompt, response);
        self.profiler.update_from_message(session_id, prompt);
    }
}

/// The setting of the mode does not touch the kind, and the other way round.
pub proof fn lemma_kind_and_mode_are_apart(e: LlmEngine, kind: EngineKind, mode: Mode)
    ensures
        (LlmEngine { mode, ..(LlmEngine { kind, ..e }) }) == (LlmEngine {
            kind,
            ..(LlmEngine { mode, ..e })
        }),
{
}

} // verus!
