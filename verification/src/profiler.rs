//! What is remembered of each user.

use crate::outside;
use crate::outside::{regex_find, PREFERENCE, TECH_STACK};
use crate::store::Store;
use crate::text;
use crate::text::{concat3, cut_at, take_chars};
use vstd::prelude::*;
use vstd::utf8::*;

verus! {

/// How many facts are remembered of a user.
pub const MAX_FACTS: usize = 20;

/// The facts known of each user, newest first.
pub struct UserProfiler {
    facts: Store<Vec<String>>,
}

/// The first `n` items, or all of them where there are fewer.
pub open spec fn first_n(s: Seq<Seq<char>>, n: nat) -> Seq<Seq<char>> {
    if s.len() <= n {
        s
    } else {
        s.take(n as int)
    }
}

/// The fact of the given type that a message states where the pattern matches:
/// up to sixty characters from the match on.
pub open spec fn stated(message: Seq<char>, pattern: Seq<char>, kind: Seq<char>) -> Option<
    Seq<char>,
> {
    let m = outside::regex_matches(pattern, message);
    if m.len() > 0 {
        Some(kind + ": "@ + text::at_most(text::tail_text(message, m[0].0), 60))
    } else {
        None
    }
}

/// The fact that a message states: a preference, or else what the user works
/// with.
pub open spec fn fact_in(message: Seq<char>) -> Option<Seq<char>> {
    match stated(message, PREFERENCE@, "preference"@) {
        Some(f) => Some(f),
        None => stated(message, TECH_STACK@, "tech_stack"@),
    }
}

/// The fact of the given type that a message states, given where the pattern
/// matched.
pub fn fact_from(message: &str, kind: &str, start: usize) -> (r: String)
    requires
        is_char_boundary(encode_utf8(message@), start as int),
    ensures
        r@ == kind@ + ": "@ + text::at_most(text::tail_text(message@, start as int), 60),
{
    let (_, snippet) = cut_at(message, start);
    let short: String = take_chars(snippet.as_str(), 60);
    concat3(kind, ": ", short.as_str())
}

fn copy_texts(v: &Vec<String>, n: usize) -> (r: Vec<String>)
    requires
        n <= v@.len(),
    ensures
        text::views(r@) == text::views(v@).take(n as int),
{
    let mut out: Vec<String> = Vec::new();
    let mut i: usize = 0;
    while i < n
        invariant
            i <= n <= v@.len(),
            out@.len() == i,
            forall|j: int| 0 <= j < i ==> (#[trigger] out@[j])@ == v@[j]@,
        decreases n - i,
    {
        out.push(v[i].clone());
        i = i + 1;
    }
    proof {
        assert(text::views(out@) =~= text::views(v@).take(n as int));
    }
    out
}

impl UserProfiler {
    /// No user has more facts than are remembered.
    pub closed spec fn wf(self) -> bool {
        &&& self.facts.wf()
        &&& forall|u: Seq<char>| #[trigger]
            self.facts@.contains_key(u) ==> self.facts@[u]@.len() <= MAX_FACTS
    }

    /// The facts known of a user, newest first.
    pub closed spec fn facts_of(self, user: Seq<char>) -> Seq<Seq<char>> {
        if self.facts@.contains_key(user) {
            text::views(self.facts@[user]@)
        } else {
            Seq::empty()
        }
    }

    /// At most twenty facts are known of any user.
    pub proof fn lemma_few_facts(self, user: Seq<char>)
        requires
            self.wf(),
        ensures
            self.facts_of(user).len() <= MAX_FACTS,
    {
    }

    /// A profiler that knows nothing.
    pub fn new() -> (p: Self)
        ensures
            p.wf(),
            forall|u: Seq<char>| #[trigger] p.facts_of(u) == Seq::<Seq<char>>::empty(),
    {
        UserProfiler { facts: Store::new() }
    }

    /// Remembers a fact in front of those known of the user; the oldest goes
    /// where there are more than twenty. Nothing changes for other users.
    pub fn add_fact(&mut self, user_id: &str, fact: String)
        requires
            old(self).wf(),
        ensures
            final(self).wf(),
            final(self).facts_of(user_id@) == first_n(
                seq![fact@] + old(self).facts_of(user_id@),
                MAX_FACTS as nat,
            ),
            forall|u: Seq<char>|
                u != user_id@ ==> #[trigger] final(self).facts_of(u) == old(self).facts_of(u),
    {
        let ghost known = self.facts_of(user_id@);
        let mut list: Vec<String> = match self.facts.get(user_id) {
            Some(v) => copy_texts(v, v.len()),
            None => Vec::new(),
        };
        proof {
            assert(known.take(known.len() as int) =~= known);
            assert(text::views(list@) =~= known);
        }
        let ghost before = list@;
        list.insert(0, fact);
        proof {
            assert(text::views(list@) =~= seq![fact@] + text::views(before));
        }
        let ghost longer = list@;
        if list.len() > MAX_FACTS {
            list.truncate(MAX_FACTS);
            proof {
                assert(text::views(list@) =~= text::views(longer).take(MAX_FACTS as int));
            }
        }
        self.facts.insert(user_id.to_owned(), list);
    }

    /// The newest facts known of a user, at most `limit`.
    pub fn get_facts(&self, user_id: &str, limit: usize) -> (r: Vec<String>)
        requires
            self.wf(),
        ensures
            text::views(r@) == first_n(self.facts_of(user_id@), limit as nat),
    {
        match self.facts.get(user_id) {
            Some(v) => {
                let n: usize = if v.len() <= limit {
                    v.len()
                } else {
                    limit
                };
                proof {
                    let known = text::views(v@);
                    assert(known.take(known.len() as int) =~= known);
                }
                copy_texts(v, n)
            },
            None => {
                let r: Vec<String> = Vec::new();
                proof {
                    assert(text::views(r@) =~= Seq::<Seq<char>>::empty());
                }
                r
            },
        }
    }

    /// Remembers what a message of the user states, where it states anything.
    pub fn update_from_message(&mut self, user_id: &str, message: &str)
        requires
            old(self).wf(),
        ensures
            final(self).wf(),
            final(self).facts_of(user_id@) == (match fact_in(message@) {
                Some(f) => first_n(seq![f] + old(self).facts_of(user_id@), MAX_FACTS as nat),
                None => old(self).facts_of(user_id@),
            }),
            forall|u: Seq<char>|
                u != user_id@ ==> #[trigger] final(self).facts_of(u) == old(self).facts_of(u),
    {
        match regex_find(PREFERENCE, message) {
            Some((start, _)) => {
                let fact: String = fact_from(message, "preference", start);
                self.add_fact(user_id, fact);
            },
            None => match regex_find(TECH_STACK, message) {
                Some((start, _)) => {
                    let fact: String = fact_from(message, "tech_stack", start);
                    self.add_fact(user_id, fact);
                },
                None => {},
            },
        }
    }
}

/// What is known of a user after facts were remembered of several users, one
/// after the other.
pub open spec fn known_after(
    known: Seq<Seq<char>>,
    added: Seq<(Seq<char>, Seq<char>)>,
    user: Seq<char>,
) -> Seq<Seq<char>>
    decreases added.len(),
{
    if added.len() == 0 {
        known
    } else {
        let before = known_after(known, added.drop_last(), user);
        if added.last().0 == user {
            first_n(seq![added.last().1] + before, MAX_FACTS as nat)
        } else {
            before
        }
    }
}

/// The facts that were added of a user, newest first.
pub open spec fn newest_first(added: Seq<(Seq<char>, Seq<char>)>, user: Seq<char>) -> Seq<Seq<char>>
    decreases added.len(),
{
    if added.len() == 0 {
        Seq::empty()
    } else if added.last().0 == user {
        seq![added.last().1] + newest_first(added.drop_last(), user)
    } else {
        newest_first(added.drop_last(), user)
    }
}

/// Of each user the newest facts are known, newest first, and at most twenty,
/// whatever was remembered of others in between. As many of them are shown as are
/// asked for, where there are that many.
pub proof fn lemma_newest_facts_are_known(
    added: Seq<(Seq<char>, Seq<char>)>,
    user: Seq<char>,
    limit: nat,
)
    ensures
        known_after(Seq::empty(), added, user) == first_n(
            newest_first(added, user),
            MAX_FACTS as nat,
        ),
        first_n(known_after(Seq::empty(), added, user), limit) == first_n(
            newest_first(added, user),
            if limit < MAX_FACTS {
                limit
            } else {
                MAX_FACTS as nat
            },
        ),
    decreases added.len(),
{
    let all = newest_first(added, user);
    if added.len() > 0 {
        let less = added.drop_last();
        lemma_newest_facts_are_known(less, user, limit);
        let before = newest_first(less, user);
        if added.last().0 == user {
            let f = seq![added.last().1];
            assert(first_n(f + first_n(before, MAX_FACTS as nat), MAX_FACTS as nat) =~= first_n(
                f + before,
                MAX_FACTS as nat,
            ));
        }
    }
    assert(first_n(first_n(all, MAX_FACTS as nat), limit) =~= first_n(
        all,
        if limit < MAX_FACTS {
            limit
        } else {
            MAX_FACTS as nat
        },
    ));
}

} // verus!
