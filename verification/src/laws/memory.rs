//! Laws of what is remembered.

use crate::engine;
use crate::engine::LlmEngine;
use crate::memory;
use crate::memory::{session_key, PersistentMemory, Turn};
use crate::outside::{self, PREFERENCE, TECH_STACK};
use crate::profiler::{fact_from, UserProfiler};
use crate::text;
use vstd::prelude::*;
use vstd::utf8::*;

verus! {

// ── Sessions ──

/// The two lists hold the same turns in the same order.
pub open spec fn same_turns(a: Seq<Turn>, b: Seq<Turn>) -> bool {
    a.len() == b.len() && forall|i: int|
        0 <= i < a.len() ==> (#[trigger] a[i]).user@ == b[i].user@ && a[i].assistant@
            == b[i].assistant@
}

proof fn lemma_same_turns(a: Seq<Turn>, b: Seq<Turn>)
    requires
        memory::turn_views(a) == memory::turn_views(b),
    ensures
        same_turns(a, b),
{
    assert(memory::turn_views(a).len() == a.len());
    assert(memory::turn_views(b).len() == b.len());
    assert forall|i: int| 0 <= i < a.len() implies (#[trigger] a[i]).user@ == b[i].user@
        && a[i].assistant@ == b[i].assistant@ by {
        assert(memory::turn_views(a)[i] == a[i]@);
        assert(memory::turn_views(b)[i] == b[i]@);
    }
}

/// What the cache has of a session counts before what the database has, and that
/// before what is in memory.
pub proof fn law_history(
    m: &PersistentMemory,
    id: &str,
    cached: Vec<Turn>,
    stored: Vec<Turn>,
    r: Vec<Turn>,
)
    requires
        m.wf(),
        call_ensures(PersistentMemory::get_history, (m, id, cached, stored), r),
    ensures
        cached@.len() > 0 ==> same_turns(r@, cached@),
        cached@.len() == 0 && stored@.len() > 0 ==> same_turns(r@, stored@),
        cached@.len() == 0 && stored@.len() == 0 ==> memory::turn_views(r@) == m.kept(id@),
{
    assert(memory::turn_views(cached@).len() == cached@.len());
    assert(memory::turn_views(stored@).len() == stored@.len());
    if cached@.len() > 0 {
        lemma_same_turns(r@, cached@);
    } else if stored@.len() > 0 {
        lemma_same_turns(r@, stored@);
    }
}

/// A turn that is remembered is read back as the last one of its session, behind
/// all that were there; from a hundred on, the fifty oldest are gone. Other
/// sessions stay as they are.
pub proof fn law_turn_remembered(
    m: &mut PersistentMemory,
    id: &str,
    other: &str,
    user: &str,
    assistant: &str,
    none: Vec<Turn>,
    before: Vec<Turn>,
    after: Vec<Turn>,
    left: Vec<Turn>,
    right: Vec<Turn>,
)
    requires
        old(m).wf(),
        call_ensures(PersistentMemory::add_message, (m, id, user, assistant), ()),
        none@.len() == 0,
        call_ensures(PersistentMemory::get_history, (&*old(m), id, none, none), before),
        call_ensures(PersistentMemory::get_history, (&*final(m), id, none, none), after),
        call_ensures(PersistentMemory::get_history, (&*old(m), other, none, none), left),
        call_ensures(PersistentMemory::get_history, (&*final(m), other, none, none), right),
    ensures
        after@.len() > 0,
        after@.last().user@ == user@,
        after@.last().assistant@ == assistant@,
        before@.len() <= 100,
        before@.len() < 100 ==> after@.len() == before@.len() + 1 && same_turns(
            after@.take(before@.len() as int),
            before@,
        ),
        before@.len() == 100 ==> after@.len() == 51
            && same_turns(after@.take(50), before@.skip(50)),
        other@ != id@ ==> same_turns(right@, left@),
        final(m).sessions().contains(id@),
        other@ != id@ ==> (final(m).sessions().contains(other@) <==> old(m).sessions().contains(
            other@,
        )),
{
    assert(memory::turn_views(none@).len() == 0);
    let x = memory::turn_views(before@);
    let y = memory::turn_views(after@);
    old(m).lemma_bounded(id@);
    assert(x.len() == before@.len());
    assert(y.len() == after@.len());
    assert(y == memory::with_turn(x, (user@, assistant@)));
    assert(y.last() == after@.last()@);
    if before@.len() < 100 {
        assert(y.take(x.len() as int) =~= x);
        assert(memory::turn_views(after@.take(before@.len() as int)) =~= y.take(x.len() as int));
        lemma_same_turns(after@.take(before@.len() as int), before@);
    } else {
        assert(y.take(50) =~= x.skip(50));
        assert(memory::turn_views(after@.take(50)) =~= y.take(50));
        assert(memory::turn_views(before@.skip(50)) =~= x.skip(50));
        lemma_same_turns(after@.take(50), before@.skip(50));
    }
    if other@ != id@ {
        lemma_same_turns(right@, left@);
    }
}

/// A session that was cleared has no turns, and no other session loses any.
pub proof fn law_session_cleared(
    m: &mut PersistentMemory,
    id: &str,
    other: &str,
    none: Vec<Turn>,
    after: Vec<Turn>,
    left: Vec<Turn>,
    right: Vec<Turn>,
)
    requires
        old(m).wf(),
        call_ensures(PersistentMemory::clear_session, (m, id), ()),
        none@.len() == 0,
        call_ensures(PersistentMemory::get_history, (&*final(m), id, none, none), after),
        call_ensures(PersistentMemory::get_history, (&*old(m), other, none, none), left),
        call_ensures(PersistentMemory::get_history, (&*final(m), other, none, none), right),
    ensures
        after@.len() == 0,
        other@ != id@ ==> same_turns(right@, left@),
        !final(m).sessions().contains(id@),
        other@ != id@ ==> (final(m).sessions().contains(other@) <==> old(m).sessions().contains(
            other@,
        )),
{
    assert(memory::turn_views(none@).len() == 0);
    assert(memory::turn_views(after@).len() == after@.len());
    if other@ != id@ {
        lemma_same_turns(right@, left@);
    }
}

/// What goes to the model is the end of the history, whole turns in order: as much
/// of it as fits the limit on tokens, and at least the last turn.
pub proof fn law_trimmed_history(
    m: &PersistentMemory,
    id: &str,
    cached: Vec<Turn>,
    stored: Vec<Turn>,
    all: Vec<Turn>,
    r: Vec<(String, String)>,
    i: int,
    k: int,
)
    requires
        m.wf(),
        call_ensures(PersistentMemory::get_history, (m, id, cached, stored), all),
        call_ensures(PersistentMemory::get_trimmed_history, (m, id, cached, stored), r),
    ensures
        r@.len() <= all@.len(),
        all@.len() > 0 ==> r@.len() > 0,
        0 <= i < r@.len() ==> r@[i].0@ == all@[all@.len() - r@.len() + i].user@,
        0 <= i < r@.len() ==> r@[i].1@ == all@[all@.len() - r@.len() + i].assistant@,
        r@.len() > 1 ==> engine::tokens(engine::turns(r@)) <= m.max_tokens(),
        0 <= k < all@.len() - r@.len() ==> engine::tokens(memory::turn_views(all@.skip(k)))
            > m.max_tokens(),
{
    let h = memory::turn_views(all@);
    let t = engine::turns(r@);
    engine::lemma_recent_is_longest_fitting_end(h, m.max_tokens());
    assert(h.len() == all@.len());
    assert(t.len() == r@.len());
    let from = h.len() - t.len();
    if 0 <= i < r@.len() {
        assert(t[i] == h.skip(from)[i]);
        assert(t[i] == (r@[i].0@, r@[i].1@));
        assert(h[from + i] == all@[from + i]@);
    }
    if 0 <= k < from {
        assert(h.skip(k) =~= memory::turn_views(all@.skip(k)));
    }
}

/// A history is never cut to nothing.
pub proof fn law_last_turn_stays(history: &mut Vec<(String, String)>, max: usize)
    requires
        call_ensures(LlmEngine::trim_history, (history, max), ()),
    ensures
        old(history)@.len() > 0 ==> final(history)@.len() > 0
            && final(history)@.last().0@ == old(history)@.last().0@
            && final(history)@.last().1@ == old(history)@.last().1@,
        old(history)@.len() == 0 ==> final(history)@.len() == 0,
        engine::tokens(engine::turns(old(history)@)) <= max ==> engine::turns(final(history)@)
            == engine::turns(old(history)@),
        final(history)@.len() > 1 ==> engine::tokens(engine::turns(final(history)@)) <= max,
{
    let h = engine::turns(old(history)@);
    let t = engine::turns(final(history)@);
    engine::lemma_recent_is_longest_fitting_end(h, max as nat);
    assert(h.len() == old(history)@.len());
    assert(t.len() == final(history)@.len());
    if h.len() > 0 {
        assert(t.last() == h.last());
        assert(h.last() == (old(history)@.last().0@, old(history)@.last().1@));
        assert(t.last() == (final(history)@.last().0@, final(history)@.last().1@));
    }
}

/// Every session of the database is listed, in order, then those in memory alone.
/// Nothing else is listed.
pub proof fn law_sessions_listed(
    m: &PersistentMemory,
    stored: Vec<String>,
    r: Vec<String>,
    i: int,
    s: Seq<char>,
)
    requires
        m.wf(),
        call_ensures(PersistentMemory::list_sessions, (m, stored), r),
    ensures
        r@.len() >= stored@.len(),
        0 <= i < stored@.len() ==> r@[i]@ == stored@[i]@,
        m.sessions().contains(s) ==> text::views(r@).contains(s),
        text::views(r@).contains(s) ==> text::views(stored@).contains(s)
            || m.sessions().contains(s),
        stored@.len() <= i < r@.len() ==> !text::views(stored@).contains(r@[i]@),
        text::views(stored@).no_duplicates() ==> text::views(r@).no_duplicates(),
{
    m.lemma_bounded(s);
    if text::views(stored@).no_duplicates() {
        memory::lemma_sessions_listed_once(text::views(stored@), m.sessions());
    }
    let base = text::views(stored@);
    let kept = m.sessions();
    let fresh = |s: Seq<char>| !base.contains(s);
    let extra = kept.filter(fresh);
    let all = text::views(r@);
    assert(all == base + extra);
    assert(all.len() == r@.len());
    assert(base.len() == stored@.len());
    if 0 <= i < stored@.len() {
        assert(all[i] == base[i]);
    }
    if kept.contains(s) {
        if base.contains(s) {
            let j = choose|j: int| 0 <= j < base.len() && base[j] == s;
            assert(all[j] == s);
        } else {
            let j = choose|j: int| 0 <= j < kept.len() && kept[j] == s;
            kept.lemma_filter_contains(fresh, j);
            let k = choose|k: int| 0 <= k < extra.len() && extra[k] == s;
            assert(all[base.len() + k] == s);
        }
    }
    if all.contains(s) {
        let j = choose|j: int| 0 <= j < all.len() && all[j] == s;
        if j < base.len() {
            assert(base[j] == s);
        } else {
            assert(extra[j - base.len()] == s);
            assert(extra.contains(s));
            kept.lemma_filter_contains_rev(fresh, s);
        }
    }
    if stored@.len() <= i < r@.len() {
        let x = extra[i - base.len()];
        assert(all[i] == x);
        kept.lemma_filter_pred(fresh, i - base.len());
    }
}

/// A new memory holds nothing, and no two sessions share a key in the cache.
pub proof fn law_memory_starts_empty(
    ttl: u64,
    max: usize,
    m: PersistentMemory,
    lifetime: u64,
    id: &str,
    other: &str,
    a: String,
    b: String,
)
    requires
        call_ensures(PersistentMemory::new, (ttl, max), m),
        call_ensures(PersistentMemory::ttl, (&m,), lifetime),
        call_ensures(session_key, (id,), a),
        call_ensures(session_key, (other,), b),
    ensures
        m.sessions().len() == 0,
        m.kept(id@).len() == 0,
        lifetime == ttl,
        m.max_tokens() == max,
        a@ == b@ <==> id@ == other@,
        text::has_prefix(a@, "session:"@),
{
    let p = "session:"@;
    assert(a@.skip(p.len() as int) =~= id@);
    assert(b@.skip(p.len() as int) =~= other@);
    assert(a@.take(p.len() as int) =~= p);
}

// ── Facts ──

/// A fact that is remembered is the first one of its user, in front of those that
/// were known; the twenty newest stay. Of other users the same is known.
pub proof fn law_fact_added(
    p: &mut UserProfiler,
    user: &str,
    fact: String,
    other: Seq<char>,
    i: int,
)
    requires
        old(p).wf(),
        call_ensures(UserProfiler::add_fact, (p, user, fact), ()),
    ensures
        final(p).facts_of(user@).len() == (if old(p).facts_of(user@).len() < 20 {
            old(p).facts_of(user@).len() + 1
        } else {
            20
        }),
        final(p).facts_of(user@)[0] == fact@,
        0 <= i < old(p).facts_of(user@).len() && i < 19
            ==> final(p).facts_of(user@)[i + 1] == old(p).facts_of(user@)[i],
        other != user@ ==> final(p).facts_of(other) == old(p).facts_of(other),
{
    old(p).lemma_few_facts(user@);
    let known = old(p).facts_of(user@);
    let all = seq![fact@] + known;
    assert(all[0] == fact@);
    if 0 <= i < known.len() {
        assert(all[i + 1] == known[i]);
    }
}

/// The facts that are asked for are the newest, in order: as many as were asked
/// for, or all of them where there are fewer.
pub proof fn law_facts_given(p: &UserProfiler, user: &str, limit: usize, r: Vec<String>, i: int)
    requires
        p.wf(),
        call_ensures(UserProfiler::get_facts, (p, user, limit), r),
    ensures
        r@.len() == (if p.facts_of(user@).len() < limit {
            p.facts_of(user@).len()
        } else {
            limit as nat
        }),
        0 <= i < r@.len() ==> r@[i]@ == p.facts_of(user@)[i],
{
    let v = text::views(r@);
    assert(v.len() == r@.len());
    if 0 <= i < r@.len() {
        assert(v[i] == r@[i]@);
    }
}

/// A fact is named by its kind and quotes the message from where it was found, at
/// most sixty characters of it.
pub proof fn law_fact_quotes(
    message: &str,
    kind: &str,
    start: usize,
    r: String,
    before: Seq<char>,
    from: Seq<char>,
)
    requires
        message@ == before + from,
        start == encode_utf8(before).len(),
        call_ensures(fact_from, (message, kind, start), r),
    ensures
        from.len() <= 60 ==> r@ == kind@ + ": "@ + from,
        from.len() > 60 ==> r@ == kind@ + ": "@ + from.take(60),
{
    crate::tui::app::lemma_cursor_behind(before, from);
}

/// A message in which a preference is found states it, one in which only the tools
/// of the user are found states those, and any other states nothing and changes
/// nothing.
pub proof fn law_message_states(
    p: &mut UserProfiler,
    user: &str,
    message: &str,
    before: Seq<char>,
    from: Seq<char>,
    other: Seq<char>,
)
    requires
        old(p).wf(),
        call_ensures(UserProfiler::update_from_message, (p, user, message), ()),
        message@ == before + from,
    ensures
        outside::regex_matches(PREFERENCE@, message@).len() == 0 && outside::regex_matches(
            TECH_STACK@,
            message@,
        ).len() == 0 ==> final(p).facts_of(user@) == old(p).facts_of(user@),
        outside::regex_matches(PREFERENCE@, message@).len() > 0 && outside::regex_matches(
            PREFERENCE@,
            message@,
        )[0].0 == encode_utf8(before).len() ==> final(p).facts_of(user@).len() > 0
            && final(p).facts_of(user@)[0] == "preference: "@ + (if from.len() <= 60 {
            from
        } else {
            from.take(60)
        }),
        outside::regex_matches(PREFERENCE@, message@).len() == 0 && outside::regex_matches(
            TECH_STACK@,
            message@,
        ).len() > 0 && outside::regex_matches(TECH_STACK@, message@)[0].0 == encode_utf8(
            before,
        ).len() ==> final(p).facts_of(user@).len() > 0 && final(p).facts_of(user@)[0]
            == "tech_stack: "@ + (if from.len() <= 60 {
            from
        } else {
            from.take(60)
        }),
        other != user@ ==> final(p).facts_of(other) == old(p).facts_of(other),
{
    crate::tui::app::lemma_cursor_behind(before, from);
    reveal_strlit("preference");
    reveal_strlit("tech_stack");
    reveal_strlit(": ");
    reveal_strlit("preference: ");
    reveal_strlit("tech_stack: ");
    assert("preference"@ + ": "@ =~= "preference: "@);
    assert("tech_stack"@ + ": "@ =~= "tech_stack: "@);
}

} // verus!
