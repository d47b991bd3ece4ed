//! What is remembered of each session.

use crate::engine;
use crate::engine::LlmEngine;
use crate::store::Store;
use crate::text;
use crate::text::{concat2, same_text};
use vstd::prelude::*;

verus! {

/// A question of the user and the answer of the assistant.
#[derive(Clone, Debug)]
pub struct Turn {
    pub user: String,
    pub assistant: String,
}

impl View for Turn {
    type V = (Seq<char>, Seq<char>);

    open spec fn view(&self) -> (Seq<char>, Seq<char>) {
        (self.user@, self.assistant@)
    }
}

/// The questions and answers of a list of turns.
pub open spec fn turn_views(t: Seq<Turn>) -> Seq<(Seq<char>, Seq<char>)> {
    t.map_values(|x: Turn| x@)
}

/// How many turns of a session are kept in memory.
pub const MAX_TURNS: usize = 100;

/// How many of the oldest turns go at once where there are too many.
pub const DROPPED_TURNS: usize = 50;

/// The turns of a session with one more at the end; the oldest fifty go where
/// there are more than a hundred.
pub open spec fn with_turn(
    t: Seq<(Seq<char>, Seq<char>)>,
    turn: (Seq<char>, Seq<char>),
) -> Seq<(Seq<char>, Seq<char>)> {
    let all = t.push(turn);
    if all.len() > MAX_TURNS {
        all.skip(DROPPED_TURNS as int)
    } else {
        all
    }
}

/// The turns of a session: those in the cache, or else those in the database, or
/// else those in memory.
pub open spec fn history(
    cached: Seq<(Seq<char>, Seq<char>)>,
    stored: Seq<(Seq<char>, Seq<char>)>,
    kept: Seq<(Seq<char>, Seq<char>)>,
) -> Seq<(Seq<char>, Seq<char>)> {
    if cached.len() > 0 {
        cached
    } else if stored.len() > 0 {
        stored
    } else {
        kept
    }
}

/// The turns of a session among the rows of the database, each of which is a turn
/// of some session, in the order in which they were put in.
pub open spec fn turns_in(
    rows: Seq<(Seq<char>, (Seq<char>, Seq<char>))>,
    session: Seq<char>,
) -> Seq<(Seq<char>, Seq<char>)>
    decreases rows.len(),
{
    if rows.len() == 0 {
        Seq::empty()
    } else if rows.last().0 == session {
        turns_in(rows.drop_last(), session).push(rows.last().1)
    } else {
        turns_in(rows.drop_last(), session)
    }
}

/// The rows of the database that are left when a session is deleted.
pub open spec fn rows_without(
    rows: Seq<(Seq<char>, (Seq<char>, Seq<char>))>,
    session: Seq<char>,
) -> Seq<(Seq<char>, (Seq<char>, Seq<char>))>
    decreases rows.len(),
{
    if rows.len() == 0 {
        rows
    } else if rows.last().0 == session {
        rows_without(rows.drop_last(), session)
    } else {
        rows_without(rows.drop_last(), session).push(rows.last())
    }
}

/// The sessions of the database, and after them those that are in memory alone.
pub open spec fn all_sessions(stored: Seq<Seq<char>>, kept: Seq<Seq<char>>) -> Seq<Seq<char>> {
    stored + kept.filter(|s: Seq<char>| !stored.contains(s))
}

/// The sessions of the assistant. They live in a cache and in a database; this
/// part keeps them in memory as well and puts the three together.
pub struct PersistentMemory {
    fallback: Store<Vec<Turn>>,
    ttl: u64,
    max_tok: usize,
}

fn copy_turns(v: &Vec<Turn>) -> (r: Vec<Turn>)
    ensures
        turn_views(r@) == turn_views(v@),
{
    let mut out: Vec<Turn> = Vec::new();
    let mut i: usize = 0;
    while i < v.len()
        invariant
            i <= v@.len(),
            out@.len() == i,
            forall|j: int| 0 <= j < i ==> (#[trigger] out@[j])@ == v@[j]@,
        decreases v@.len() - i,
    {
        out.push(Turn { user: v[i].user.clone(), assistant: v[i].assistant.clone() });
        i = i + 1;
    }
    proof {
        assert(turn_views(out@) =~= turn_views(v@));
    }
    out
}

fn has_session(list: &Vec<String>, n: usize, id: &str) -> (r: bool)
    requires
        n <= list@.len(),
    ensures
        r == text::views(list@).take(n as int).contains(id@),
{
    let mut i: usize = 0;
    let ghost seen = text::views(list@).take(n as int);
    while i < n
        invariant
            i <= n <= list@.len(),
            seen == text::views(list@).take(n as int),
            forall|j: int| 0 <= j < i ==> seen[j] != id@,
        decreases n - i,
    {
        if same_text(list[i].as_str(), id) {
            proof {
                assert(seen[i as int] == id@);
            }
            return true;
        }
        i = i + 1;
    }
    false
}

impl PersistentMemory {
    /// No session has more turns in memory than are kept.
    pub closed spec fn wf(self) -> bool {
        &&& self.fallback.wf()
        &&& forall|s: Seq<char>| #[trigger]
            self.fallback@.contains_key(s) ==> self.fallback@[s]@.len() <= MAX_TURNS
    }

    /// The turns of a session that are in memory.
    pub closed spec fn kept(self, session: Seq<char>) -> Seq<(Seq<char>, Seq<char>)> {
        if self.fallback@.contains_key(session) {
            turn_views(self.fallback@[session]@)
        } else {
            Seq::empty()
        }
    }

    /// The sessions in memory.
    pub closed spec fn sessions(self) -> Seq<Seq<char>> {
        self.fallback.keys()
    }

    /// The limit on the tokens of a conversation.
    pub closed spec fn max_tokens(self) -> nat {
        self.max_tok as nat
    }

    /// How long the cache keeps a session, in seconds.
    pub closed spec fn lifetime(self) -> u64 {
        self.ttl
    }

    /// At most a hundred turns of any session are in memory, and every session
    /// with turns is listed once.
    pub proof fn lemma_bounded(self, session: Seq<char>)
        requires
            self.wf(),
        ensures
            self.kept(session).len() <= MAX_TURNS,
            self.kept(session).len() > 0 ==> self.sessions().contains(session),
            self.sessions().no_duplicates(),
    {
        self.fallback.lemma_shape();
    }

    /// A memory with no session in it.
    pub fn new(ttl: u64, max_tokens: usize) -> (m: Self)
        ensures
            m.wf(),
            m.lifetime() == ttl,
            m.max_tokens() == max_tokens,
            m.sessions() == Seq::<Seq<char>>::empty(),
            forall|s: Seq<char>| #[trigger] m.kept(s) == Seq::<(Seq<char>, Seq<char>)>::empty(),
    {
        PersistentMemory { fallback: Store::new(), ttl, max_tok: max_tokens }
    }

    /// How long the cache keeps a session, in seconds.
    pub fn ttl(&self) -> (t: u64)
        ensures
            t == self.lifetime(),
    {
        self.ttl
    }

    /// The turns of a session: those in the cache, or else those in the
    /// database, or else those in memory.
    pub fn get_history(&self, session_id: &str, cached: Vec<Turn>, stored: Vec<Turn>) -> (r: Vec<
        Turn,
    >)
        requires
            self.wf(),
        ensures
            turn_views(r@) == history(
                turn_views(cached@),
                turn_views(stored@),
                self.kept(session_id@),
            ),
    {
        if cached.len() > 0 {
            return cached;
        }
        if stored.len() > 0 {
            return stored;
        }
        match self.fallback.get(session_id) {
            Some(v) => copy_turns(v),
            None => {
                let r: Vec<Turn> = Vec::new();
                proof {
                    assert(turn_views(r@) =~= Seq::<(Seq<char>, Seq<char>)>::empty());
                }
                r
            },
        }
    }

    /// Remembers a turn of a session. Nothing changes for other sessions.
    pub fn add_message(&mut self, session_id: &str, user: &str, assistant: &str)
        requires
            old(self).wf(),
        ensures
            final(self).wf(),
            final(self).lifetime() == old(self).lifetime(),
            final(self).max_tokens() == old(self).max_tokens(),
            final(self).kept(session_id@) == with_turn(
                old(self).kept(session_id@),
                (user@, assistant@),
            ),
            forall|s: Seq<char>|
                s != session_id@ ==> #[trigger] final(self).kept(s) == old(self).kept(s),
            forall|s: Seq<char>| #[trigger]
                final(self).sessions().contains(s) <==> s == session_id@ || old(
                    self,
                ).sessions().contains(s),
    {
        let ghost before = *self;
        let mut list: Vec<Turn> = match self.fallback.get(session_id) {
            Some(v) => copy_turns(v),
            None => Vec::new(),
        };
        proof {
            assert(turn_views(list@) =~= self.kept(session_id@));
        }
        let ghost l0 = list@;
        let turn = Turn { user: user.to_owned(), assistant: assistant.to_owned() };
        list.push(turn);
        proof {
            assert(turn_views(list@) =~= turn_views(l0).push(turn@));
        }
        let ghost l1 = list@;
        if list.len() > MAX_TURNS {
            list = list.split_off(DROPPED_TURNS);
            proof {
                assert(turn_views(list@) =~= turn_views(l1).skip(DROPPED_TURNS as int));
            }
        }
        self.fallback.insert(session_id.to_owned(), list);
        proof {
            before.fallback.lemma_shape();
            self.fallback.lemma_shape();
            assert forall|s: Seq<char>| #[trigger] self.sessions().contains(s) <==> s == session_id@
                || before.sessions().contains(s) by {
                assert(self.fallback@.contains_key(s) == self.fallback.keys().contains(s));
                assert(before.fallback@.contains_key(s) == before.fallback.keys().contains(s));
            }
        }
    }

    /// The end of a session that fits the limit on tokens, as pairs.
    pub fn get_trimmed_history(
        &self,
        session_id: &str,
        cached: Vec<Turn>,
        stored: Vec<Turn>,
    ) -> (r: Vec<(String, String)>)
        requires
            self.wf(),
        ensures
            engine::turns(r@) == engine::recent(
                history(turn_views(cached@), turn_views(stored@), self.kept(session_id@)),
                self.max_tokens(),
            ),
    {
        let list: Vec<Turn> = self.get_history(session_id, cached, stored);
        let mut pairs: Vec<(String, String)> = Vec::new();
        let mut i: usize = 0;
        while i < list.len()
            invariant
                i <= list@.len(),
                pairs@.len() == i,
                forall|j: int|
                    0 <= j < i ==> ((#[trigger] pairs@[j]).0@, pairs@[j].1@) == list@[j]@,
            decreases list@.len() - i,
        {
            pairs.push((list[i].user.clone(), list[i].assistant.clone()));
            i = i + 1;
        }
        proof {
            assert(engine::turns(pairs@) =~= turn_views(list@));
        }
        LlmEngine::trim_history(&mut pairs, self.max_tok);
        pairs
    }

    /// Forgets a session. Nothing changes for other sessions.
    pub fn clear_session(&mut self, session_id: &str)
        requires
            old(self).wf(),
        ensures
            final(self).wf(),
            final(self).lifetime() == old(self).lifetime(),
            final(self).max_tokens() == old(self).max_tokens(),
            final(self).kept(session_id@) == Seq::<(Seq<char>, Seq<char>)>::empty(),
            forall|s: Seq<char>|
                s != session_id@ ==> #[trigger] final(self).kept(s) == old(self).kept(s),
            forall|s: Seq<char>| #[trigger]
                final(self).sessions().contains(s) <==> s != session_id@ && old(
                    self,
                ).sessions().contains(s),
    {
        let ghost before = *self;
        let _ = self.fallback.remove(session_id);
        proof {
            before.fallback.lemma_shape();
            self.fallback.lemma_shape();
            assert forall|s: Seq<char>| #[trigger] self.sessions().contains(s) <==> s != session_id@
                && before.sessions().contains(s) by {
                assert(self.fallback@.contains_key(s) == self.fallback.keys().contains(s));
                assert(before.fallback@.contains_key(s) == before.fallback.keys().contains(s));
            }
        }
    }

    /// The sessions of the database, and after them those in memory alone.
    pub fn list_sessions(&self, stored: Vec<String>) -> (r: Vec<String>)
        requires
            self.wf(),
        ensures
            text::views(r@) == all_sessions(text::views(stored@), self.sessions()),
    {
        let n: usize = stored.len();
        let ghost base = text::views(stored@);
        let ghost keys = self.sessions();
        let ghost fresh = |s: Seq<char>| !base.contains(s);
        let mut out: Vec<String> = stored;
        let mut i: usize = 0;
        proof {
            reveal(Seq::filter);
            assert(keys.take(0) =~= Seq::<Seq<char>>::empty());
            assert(base + keys.take(0).filter(fresh) =~= base);
        }
        while i < self.fallback.len()
            invariant
                keys == self.fallback.keys(),
                fresh == (|s: Seq<char>| !base.contains(s)),
                i <= keys.len(),
                n == base.len(),
                n <= out@.len(),
                text::views(out@) == base + keys.take(i as int).filter(fresh),
            decreases keys.len() - i,
        {
            let key: &String = self.fallback.key_at(i);
            let ghost o = out@;
            proof {
                reveal(Seq::filter);
                assert(keys.take(i + 1).drop_last() =~= keys.take(i as int));
                assert(keys.take(i + 1).last() == key@);
                assert(text::views(out@).take(n as int) =~= base);
            }
            if !has_session(&out, n, key.as_str()) {
                out.push(key.clone());
                proof {
                    assert(text::views(out@) =~= text::views(o).push(key@));
                    assert(base + keys.take(i as int).filter(fresh).push(key@) =~= (base
                        + keys.take(i as int).filter(fresh)).push(key@));
                }
            }
            i = i + 1;
        }
        proof {
            assert(keys.take(keys.len() as int) =~= keys);
        }
        out
    }
}

/// A turn that was remembered is the last one of its session, as long as
/// neither the cache nor the database has anything of it.
pub proof fn lemma_remembered_turn_is_last(
    t: Seq<(Seq<char>, Seq<char>)>,
    turn: (Seq<char>, Seq<char>),
)
    ensures
        with_turn(t, turn).len() > 0,
        with_turn(t, turn).last() == turn,
        t.len() <= MAX_TURNS ==> with_turn(t, turn).len() <= MAX_TURNS,
{
}

/// Without a cache, and with a database that has a row of every session in
/// memory, the history of a session gains exactly the turn that is added to it,
/// at its end, and that of another session stays as it is. The database has a row
/// of the session then.
pub proof fn lemma_added_turn_ends_history(
    rows: Seq<(Seq<char>, (Seq<char>, Seq<char>))>,
    session: Seq<char>,
    other: Seq<char>,
    turn: (Seq<char>, Seq<char>),
    kept: Seq<(Seq<char>, Seq<char>)>,
    kept_other: Seq<(Seq<char>, Seq<char>)>,
)
    requires
        other != session,
        kept.len() > 0 ==> turns_in(rows, session).len() > 0,
    ensures
        history(
            Seq::empty(),
            turns_in(rows.push((session, turn)), session),
            with_turn(kept, turn),
        ) == history(Seq::empty(), turns_in(rows, session), kept).push(turn),
        history(Seq::empty(), turns_in(rows.push((session, turn)), other), kept_other) == history(
            Seq::empty(),
            turns_in(rows, other),
            kept_other,
        ),
        turns_in(rows.push((session, turn)), session).len() > 0,
{
    assert(rows.push((session, turn)).drop_last() =~= rows);
    if turns_in(rows, session).len() == 0 {
        assert(turns_in(rows, session) =~= kept);
    }
}

/// Without a cache, a session that was cleared has no history, and that of another
/// session stays as it is.
pub proof fn lemma_cleared_history_is_empty(
    rows: Seq<(Seq<char>, (Seq<char>, Seq<char>))>,
    session: Seq<char>,
    other: Seq<char>,
    kept_other: Seq<(Seq<char>, Seq<char>)>,
)
    requires
        other != session,
    ensures
        history(Seq::empty(), turns_in(rows_without(rows, session), session), Seq::empty())
            == Seq::<(Seq<char>, Seq<char>)>::empty(),
        history(Seq::empty(), turns_in(rows_without(rows, session), other), kept_other) == history(
            Seq::empty(),
            turns_in(rows, other),
            kept_other,
        ),
{
    lemma_rows_without(rows, session, session);
    lemma_rows_without(rows, session, other);
}

proof fn lemma_rows_without(
    rows: Seq<(Seq<char>, (Seq<char>, Seq<char>))>,
    session: Seq<char>,
    s: Seq<char>,
)
    ensures
        s == session ==> turns_in(rows_without(rows, session), s) == Seq::<
            (Seq<char>, Seq<char>),
        >::empty(),
        s != session ==> turns_in(rows_without(rows, session), s) == turns_in(rows, s),
    decreases rows.len(),
{
    if rows.len() > 0 {
        let less = rows.drop_last();
        lemma_rows_without(less, session, s);
        if rows.last().0 != session {
            let left = rows_without(less, session);
            assert(left.push(rows.last()).drop_last() =~= left);
        }
    }
}

/// The turns of a session after more turns were remembered, one after the other.
pub open spec fn with_turns(
    t: Seq<(Seq<char>, Seq<char>)>,
    more: Seq<(Seq<char>, Seq<char>)>,
) -> Seq<(Seq<char>, Seq<char>)>
    decreases more.len(),
{
    if more.len() == 0 {
        t
    } else {
        with_turn(with_turns(t, more.drop_last()), more.last())
    }
}

/// What is kept of a session are its newest turns, in order: all of them as long
/// as there are no more than a hundred, and more than fifty after that.
pub proof fn lemma_newest_turns_are_kept(
    t: Seq<(Seq<char>, Seq<char>)>,
    more: Seq<(Seq<char>, Seq<char>)>,
)
    requires
        t.len() <= MAX_TURNS,
    ensures
        ({
            let all = t + more;
            let kept = with_turns(t, more);
            &&& kept.len() <= all.len()
            &&& kept.len() <= MAX_TURNS
            &&& kept == all.skip(all.len() - kept.len())
            &&& all.len() <= MAX_TURNS ==> kept == all
            &&& all.len() > MAX_TURNS ==> kept.len() > DROPPED_TURNS
        }),
    decreases more.len(),
{
    let all = t + more;
    if more.len() == 0 {
        assert(all =~= t);
        assert(all.skip(0) =~= all);
    } else {
        let less = more.drop_last();
        lemma_newest_turns_are_kept(t, less);
        let before = with_turns(t, less);
        let most = t + less;
        assert(all =~= most.push(more.last()));
        let kept = with_turns(t, more);
        assert(kept =~= all.skip(all.len() - kept.len())) by {
            assert(before =~= most.skip(most.len() - before.len()));
        }
    }
}

/// Every session, stored or in memory, is listed; one that is in both places is
/// listed once, provided that the database and the memory each list it once.
pub proof fn lemma_sessions_listed_once(stored: Seq<Seq<char>>, kept: Seq<Seq<char>>)
    requires
        stored.no_duplicates(),
        kept.no_duplicates(),
    ensures
        all_sessions(stored, kept).no_duplicates(),
        forall|s: Seq<char>| #[trigger]
            all_sessions(stored, kept).contains(s) <==> stored.contains(s) || kept.contains(s),
{
    let fresh = |s: Seq<char>| !stored.contains(s);
    let extra = kept.filter(fresh);
    lemma_filter_facts(kept, fresh);
    let all = all_sessions(stored, kept);
    assert forall|i: int, j: int| 0 <= i < all.len() && 0 <= j < all.len() && i != j implies all[i]
        != all[j] by {
        if i < stored.len() && j >= stored.len() {
            assert(extra.contains(all[j]));
            assert(stored.contains(all[i]));
        }
        if j < stored.len() && i >= stored.len() {
            assert(extra.contains(all[i]));
            assert(stored.contains(all[j]));
        }
    }
    assert forall|s: Seq<char>| #[trigger] all.contains(s) <==> stored.contains(s) || kept.contains(
        s,
    ) by {
        if all.contains(s) {
            let i = choose|i: int| 0 <= i < all.len() && all[i] == s;
            if i < stored.len() {
                assert(stored[i] == s);
            } else {
                assert(extra[i - stored.len()] == s);
                assert(extra.contains(s));
            }
        }
        if stored.contains(s) {
            let i = choose|i: int| 0 <= i < stored.len() && stored[i] == s;
            assert(all[i] == s);
        } else if kept.contains(s) {
            assert(extra.contains(s));
            let i = choose|i: int| 0 <= i < extra.len() && extra[i] == s;
            assert(all[stored.len() + i] == s);
        }
    }
}

proof fn lemma_filter_facts(s: Seq<Seq<char>>, p: spec_fn(Seq<char>) -> bool)
    requires
        s.no_duplicates(),
    ensures
        s.filter(p).no_duplicates(),
        forall|x: Seq<char>| #[trigger] s.filter(p).contains(x) <==> s.contains(x) && p(x),
    decreases s.len(),
{
    reveal(Seq::filter);
    if s.len() > 0 {
        let t = s.drop_last();
        lemma_filter_facts(t, p);
        let f = t.filter(p);
        assert(s =~= t.push(s.last()));
        assert(!t.contains(s.last()));
        assert forall|x: Seq<char>| #[trigger] s.filter(p).contains(x) <==> s.contains(x) && p(
            x,
        ) by {
            if s.contains(x) && x != s.last() {
                let i = choose|i: int| 0 <= i < s.len() && s[i] == x;
                assert(t[i] == x);
            }
            if t.contains(x) {
                let i = choose|i: int| 0 <= i < t.len() && t[i] == x;
                assert(s[i] == x);
            }
            if f.contains(x) {
                let i = choose|i: int| 0 <= i < f.len() && f[i] == x;
                assert(f.push(s.last())[i] == x);
            }
            if f.push(s.last()).contains(x) && x != s.last() {
                let i = choose|i: int| 0 <= i < f.push(s.last()).len() && f.push(s.last())[i] == x;
                assert(f[i] == x);
            }
            if p(s.last()) {
                assert(f.push(s.last())[f.len() as int] == s.last());
            }
            assert(s[s.len() - 1] == s.last());
        }
        if p(s.last()) {
            assert(!f.contains(s.last()));
            assert forall|i: int, j: int|
                0 <= i < f.push(s.last()).len() && 0 <= j < f.push(s.last()).len() && i
                    != j implies f.push(s.last())[i] != f.push(s.last())[j] by {
                if i == f.len() {
                    assert(f.contains(f[j]));
                }
                if j == f.len() {
                    assert(f.contains(f[i]));
                }
            }
        }
    }
}

/// The key of a session in the cache.
pub fn session_key(session_id: &str) -> (r: String)
    ensures
        r@ == "session:"@ + session_id@,
{
    concat2("session:", session_id)
}

} // verus!
