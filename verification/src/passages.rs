//! The passages of a message that try to misuse the assistant.

use vstd::prelude::*;

verus! {

/// What a passage is after.
#[derive(Clone, Copy, PartialEq, Eq, Structural, Debug)]
pub enum Aim {
    /// That the assistant drops its instructions.
    Instructions,
    /// That the assistant gives a secret away.
    Secrets,
}

// ── Words ──

/// The character is the letter, small or capital. The sign for the kelvin counts
/// as a `k`, and the long `s` as an `s`.
pub open spec fn reads(c: char, letter: char) -> bool {
    ||| c == letter
    ||| 'a' <= letter <= 'z' && c as int + 32 == letter as int
    ||| letter == 'ł' && c == 'Ł'
    ||| letter == 'k' && c == '\u{212a}'
    ||| letter == 's' && c == '\u{17f}'
}

/// The text begins with the word, in small letters, capitals or both.
pub open spec fn opens_with(s: Seq<char>, word: Seq<char>) -> bool {
    s.len() >= word.len() && forall|i: int|
        0 <= i < word.len() ==> reads(#[trigger] s[i], word[i])
}

/// The length of the word at the start of a text that a passage begins with, or
/// zero where there is none.
pub open spec fn key_len(aim: Aim, s: Seq<char>) -> int {
    match aim {
        Aim::Instructions => if opens_with(s, "zignoruj"@) {
            8
        } else if opens_with(s, "ignore"@) || opens_with(s, "forget"@) {
            6
        } else {
            0
        },
        Aim::Secrets => if opens_with(s, "podaj"@) {
            5
        } else if opens_with(s, "give"@) || opens_with(s, "show"@) {
            4
        } else {
            0
        },
    }
}

/// The length of the word at the start of a text that a passage ends with, or
/// zero where there is none.
pub open spec fn goal_len(aim: Aim, s: Seq<char>) -> int {
    match aim {
        Aim::Instructions => if opens_with(s, "instrukcje"@) {
            10
        } else {
            0
        },
        Aim::Secrets => if opens_with(s, "password"@) {
            8
        } else if opens_with(s, "secret"@) {
            6
        } else if opens_with(s, "hasło"@) || opens_with(s, "token"@) {
            5
        } else {
            0
        },
    }
}

// ── Passages ──

/// The first `n` characters stand on one line.
pub open spec fn one_line(s: Seq<char>, n: int) -> bool {
    forall|i: int| 0 <= i < n ==> #[trigger] s[i] != '\n'
}

/// The text begins with the first word of a passage, and its last word begins at
/// `at`, behind the first and on the same line.
pub open spec fn leads(aim: Aim, s: Seq<char>, at: int) -> bool {
    &&& 0 < key_len(aim, s) <= at <= s.len()
    &&& goal_len(aim, s.skip(at)) > 0
    &&& one_line(s, at)
}

/// The text begins with a passage.
pub open spec fn begins(aim: Aim, s: Seq<char>) -> bool {
    exists|at: int| #[trigger] leads(aim, s, at)
}

/// The last word of the passage at the start of a text begins at `at`: a passage
/// that is after the instructions is as short as it can be, and one that is after
/// a secret as long.
pub open spec fn ends_with_word_at(aim: Aim, s: Seq<char>, at: int) -> bool {
    &&& leads(aim, s, at)
    &&& match aim {
        Aim::Instructions => forall|other: int| other < at ==> !#[trigger] leads(aim, s, other),
        Aim::Secrets => forall|other: int| other > at ==> !#[trigger] leads(aim, s, other),
    }
}

/// The length of the passage at the start of a text.
pub open spec fn passage_len(aim: Aim, s: Seq<char>) -> int {
    let at = choose|at: int| #[trigger] ends_with_word_at(aim, s, at);
    at + goal_len(aim, s.skip(at))
}

/// The text with `rep` in the place of each passage, from the left.
pub open spec fn without(aim: Aim, s: Seq<char>, rep: Seq<char>) -> Seq<char>
    decreases s.len(),
{
    if s.len() == 0 {
        s
    } else if begins(aim, s) {
        proof {
            lemma_passage(aim, s);
        }
        rep + without(aim, s.skip(passage_len(aim, s)), rep)
    } else {
        seq![s[0]] + without(aim, s.skip(1), rep)
    }
}

/// There is a passage in the text.
pub open spec fn has_passage(aim: Aim, s: Seq<char>) -> bool {
    exists|from: int| 0 <= from <= s.len() && #[trigger] begins(aim, s.skip(from))
}

// ── What words are made of ──

/// A character that a word can hold: neither a bracket nor the end of a line.
pub open spec fn in_word(c: char) -> bool {
    c != '[' && c != ']' && c != '\n'
}

proof fn lemma_words(aim: Aim, s: Seq<char>)
    ensures
        0 <= key_len(aim, s) <= s.len(),
        0 <= goal_len(aim, s) <= s.len(),
        forall|i: int| 0 <= i < key_len(aim, s) ==> in_word(#[trigger] s[i]),
        forall|i: int| 0 <= i < goal_len(aim, s) ==> in_word(#[trigger] s[i]),
{
    reveal_strlit("zignoruj");
    reveal_strlit("ignore");
    reveal_strlit("forget");
    reveal_strlit("podaj");
    reveal_strlit("give");
    reveal_strlit("show");
    reveal_strlit("instrukcje");
    reveal_strlit("password");
    reveal_strlit("secret");
    reveal_strlit("hasło");
    reveal_strlit("token");
}

/// Whether a text begins with a word is seen from its first characters.
proof fn lemma_words_of_start(aim: Aim, s: Seq<char>, t: Seq<char>)
    requires
        0 <= key_len(aim, s) <= t.len(),
        forall|i: int| 0 <= i < key_len(aim, s) ==> #[trigger] t[i] == s[i],
        key_len(aim, s) > 0,
    ensures
        key_len(aim, t) == key_len(aim, s),
{
    reveal_strlit("zignoruj");
    reveal_strlit("ignore");
    reveal_strlit("forget");
    reveal_strlit("podaj");
    reveal_strlit("give");
    reveal_strlit("show");
    assert(t[0] == s[0]);
}

proof fn lemma_goal_of_start(aim: Aim, s: Seq<char>, t: Seq<char>)
    requires
        0 <= goal_len(aim, s) <= t.len(),
        forall|i: int| 0 <= i < goal_len(aim, s) ==> #[trigger] t[i] == s[i],
        goal_len(aim, s) > 0,
    ensures
        goal_len(aim, t) == goal_len(aim, s),
{
    reveal_strlit("instrukcje");
    reveal_strlit("password");
    reveal_strlit("secret");
    reveal_strlit("hasło");
    reveal_strlit("token");
    assert(t[0] == s[0]);
}

proof fn lemma_shortest(aim: Aim, s: Seq<char>, at: int) -> (least: int)
    requires
        leads(aim, s, at),
    ensures
        leads(aim, s, least),
        forall|other: int| other < least ==> !#[trigger] leads(aim, s, other),
    decreases at,
{
    if exists|other: int| other < at && #[trigger] leads(aim, s, other) {
        let other = choose|other: int| other < at && #[trigger] leads(aim, s, other);
        lemma_shortest(aim, s, other)
    } else {
        at
    }
}

proof fn lemma_longest(aim: Aim, s: Seq<char>, at: int) -> (most: int)
    requires
        leads(aim, s, at),
    ensures
        leads(aim, s, most),
        forall|other: int| other > most ==> !#[trigger] leads(aim, s, other),
    decreases s.len() - at,
{
    if exists|other: int| other > at && #[trigger] leads(aim, s, other) {
        let other = choose|other: int| other > at && #[trigger] leads(aim, s, other);
        lemma_longest(aim, s, other)
    } else {
        at
    }
}

/// A passage at the start of a text has a length: it is not empty, lies within
/// the text and stands on one line.
pub proof fn lemma_passage(aim: Aim, s: Seq<char>)
    requires
        begins(aim, s),
    ensures
        0 < passage_len(aim, s) <= s.len(),
        one_line(s, passage_len(aim, s)),
{
    let any = choose|at: int| #[trigger] leads(aim, s, at);
    match aim {
        Aim::Instructions => {
            let least = lemma_shortest(aim, s, any);
            assert(ends_with_word_at(aim, s, least));
        },
        Aim::Secrets => {
            let most = lemma_longest(aim, s, any);
            assert(ends_with_word_at(aim, s, most));
        },
    }
    let at = choose|at: int| #[trigger] ends_with_word_at(aim, s, at);
    let tail = s.skip(at);
    lemma_words(aim, s);
    lemma_words(aim, tail);
    assert forall|i: int| 0 <= i < passage_len(aim, s) implies #[trigger] s[i] != '\n' by {
        if i >= at {
            assert(in_word(tail[i - at]));
        }
    }
}

// ── What stands in the place of a passage ──

/// The text begins with what takes the place of a passage.
spec fn marked(s: Seq<char>) -> bool {
    s.len() >= 10 && forall|i: int| 0 <= i < 10 ==> #[trigger] s[i] == "[FILTERED]"@[i]
}

/// No word begins inside the mark, nor runs into it.
proof fn lemma_no_word_in_mark(aim: Aim, s: Seq<char>, from: int)
    requires
        marked(s),
        0 <= from < 10,
    ensures
        key_len(aim, s.skip(from)) == 0,
        goal_len(aim, s.skip(from)) == 0,
{
    reveal_strlit("[FILTERED]");
    reveal_strlit("zignoruj");
    reveal_strlit("ignore");
    reveal_strlit("forget");
    reveal_strlit("podaj");
    reveal_strlit("give");
    reveal_strlit("show");
    reveal_strlit("instrukcje");
    reveal_strlit("password");
    reveal_strlit("secret");
    reveal_strlit("hasło");
    reveal_strlit("token");
    let t = s.skip(from);
    assert(t[0] == s[from]);
    assert(s[from] == "[FILTERED]"@[from]);
    if from < 9 {
        assert(t[1] == s[from + 1]);
        assert(s[from + 1] == "[FILTERED]"@[from + 1]);
    }
}

/// As long as no mark is met, what is left of a text is the text itself.
proof fn lemma_start_is_kept(aim: Aim, s: Seq<char>, n: int)
    requires
        0 <= n <= without(aim, s, "[FILTERED]"@).len(),
        forall|i: int|
            0 <= i < n ==> in_word(#[trigger] without(aim, s, "[FILTERED]"@)[i]),
    ensures
        n <= s.len(),
        forall|i: int|
            0 <= i < n ==> #[trigger] s[i] == without(aim, s, "[FILTERED]"@)[i],
        without(aim, s, "[FILTERED]"@).skip(n) == without(aim, s.skip(n), "[FILTERED]"@),
    decreases n,
{
    let rep = "[FILTERED]"@;
    let t = without(aim, s, rep);
    if n == 0 {
        assert(t.skip(0) =~= t);
        assert(s.skip(0) =~= s);
    } else {
        reveal_strlit("[FILTERED]");
        assert(in_word(t[0]));
        assert(s.len() > 0);
        if begins(aim, s) {
            assert(t[0] == '[');
        }
        let rest = without(aim, s.skip(1), rep);
        assert(t =~= seq![s[0]] + rest);
        assert forall|i: int| 0 <= i < n - 1 implies in_word(#[trigger] rest[i]) by {
            assert(rest[i] == t[i + 1]);
        }
        lemma_start_is_kept(aim, s.skip(1), n - 1);
        assert(t.skip(n) =~= rest.skip(n - 1));
        assert(s.skip(1).skip(n - 1) =~= s.skip(n));
        assert forall|i: int| 0 <= i < n implies #[trigger] s[i] == t[i] by {
            if i > 0 {
                assert(s.skip(1)[i - 1] == rest[i - 1]);
            }
        }
    }
}

/// A last word that is reached on one line after passages were taken out was
/// reached on one line before.
proof fn lemma_goal_was_there(aim: Aim, taken: Aim, s: Seq<char>, at: int) -> (was: int)
    requires
        0 <= at <= without(taken, s, "[FILTERED]"@).len(),
        goal_len(aim, without(taken, s, "[FILTERED]"@).skip(at)) > 0,
        one_line(without(taken, s, "[FILTERED]"@), at),
    ensures
        0 <= was <= s.len(),
        goal_len(aim, s.skip(was)) > 0,
        one_line(s, was),
    decreases s.len(),
{
    let rep = "[FILTERED]"@;
    let t = without(taken, s, rep);
    lemma_words(aim, t.skip(at));
    if at == 0 {
        assert(t.skip(0) =~= t);
        let n = goal_len(aim, t);
        lemma_start_is_kept(taken, s, n);
        assert(s.skip(0) =~= s);
        lemma_goal_of_start(aim, t, s);
        0
    } else {
        assert(s.len() > 0);
        if begins(taken, s) {
            lemma_passage(taken, s);
            reveal_strlit("[FILTERED]");
            let n = passage_len(taken, s);
            let rest = without(taken, s.skip(n), rep);
            assert(t == rep + rest);
            assert(marked(t));
            if at < 10 {
                lemma_no_word_in_mark(aim, t, at);
            }
            assert(t.skip(at) =~= rest.skip(at - 10));
            assert forall|i: int| 0 <= i < at - 10 implies #[trigger] rest[i] != '\n' by {
                assert(t[i + 10] == rest[i]);
            }
            let was = lemma_goal_was_there(aim, taken, s.skip(n), at - 10);
            assert(s.skip(n).skip(was) =~= s.skip(n + was));
            assert forall|i: int| 0 <= i < n + was implies #[trigger] s[i] != '\n' by {
                if i >= n {
                    assert(s.skip(n)[i - n] == s[i]);
                }
            }
            n + was
        } else {
            let rest = without(taken, s.skip(1), rep);
            assert(t == seq![s[0]] + rest);
            assert(t.skip(at) =~= rest.skip(at - 1));
            assert(t[0] == s[0]);
            assert forall|i: int| 0 <= i < at - 1 implies #[trigger] rest[i] != '\n' by {
                assert(t[i + 1] == rest[i]);
            }
            let was = lemma_goal_was_there(aim, taken, s.skip(1), at - 1);
            assert(s.skip(1).skip(was) =~= s.skip(1 + was));
            assert forall|i: int| 0 <= i < 1 + was implies #[trigger] s[i] != '\n' by {
                if i >= 1 {
                    assert(s.skip(1)[i - 1] == s[i]);
                }
            }
            1 + was
        }
    }
}

/// A text that begins with a passage after others were taken out began with one
/// before.
proof fn lemma_passage_was_there(aim: Aim, taken: Aim, s: Seq<char>)
    requires
        begins(aim, without(taken, s, "[FILTERED]"@)),
    ensures
        begins(aim, s),
{
    let t = without(taken, s, "[FILTERED]"@);
    let at = choose|at: int| #[trigger] leads(aim, t, at);
    let n = key_len(aim, t);
    lemma_words(aim, t);
    lemma_start_is_kept(taken, s, n);
    lemma_words_of_start(aim, t, s);
    assert(t.skip(n).skip(at - n) =~= t.skip(at));
    assert forall|i: int| 0 <= i < at - n implies #[trigger] t.skip(n)[i] != '\n' by {
        assert(t[i + n] == t.skip(n)[i]);
    }
    let was = lemma_goal_was_there(aim, taken, s.skip(n), at - n);
    assert(s.skip(n).skip(was) =~= s.skip(n + was));
    assert forall|i: int| 0 <= i < n + was implies #[trigger] s[i] != '\n' by {
        if i >= n {
            assert(s.skip(n)[i - n] == s[i]);
        } else {
            assert(in_word(t[i]));
        }
    }
    assert(leads(aim, s, n + was));
}

// ── The laws ──

/// Taking passages out leaves none of their kind.
pub proof fn lemma_none_left(aim: Aim, s: Seq<char>)
    ensures
        !has_passage(aim, without(aim, s, "[FILTERED]"@)),
    decreases s.len(),
{
    let rep = "[FILTERED]"@;
    let t = without(aim, s, rep);
    if has_passage(aim, t) {
        let from = choose|from: int| 0 <= from <= t.len() && #[trigger] begins(aim, t.skip(from));
        lemma_place_of_passage(aim, aim, s, from);
        if from == 0 {
            assert(t.skip(0) =~= t);
            lemma_passage_was_there(aim, aim, s);
            reveal_strlit("[FILTERED]");
            let at = choose|at: int| #[trigger] leads(aim, t, at);
            lemma_words(aim, t);
            assert(in_word(t[0]));
            assert(t[0] == '[');
        } else {
            let n = step(aim, s);
            lemma_none_left(aim, s.skip(n));
        }
    }
}

/// How much of a text one step of taking passages out goes over.
spec fn step(aim: Aim, s: Seq<char>) -> int {
    if begins(aim, s) {
        passage_len(aim, s)
    } else {
        1
    }
}

/// A passage in what is left stands at its start, or in what is left of the text
/// behind the first step.
proof fn lemma_place_of_passage(aim: Aim, taken: Aim, s: Seq<char>, from: int)
    requires
        0 <= from <= without(taken, s, "[FILTERED]"@).len(),
        begins(aim, without(taken, s, "[FILTERED]"@).skip(from)),
    ensures
        s.len() > 0,
        0 < step(taken, s) <= s.len(),
        from > 0 ==> has_passage(aim, without(taken, s.skip(step(taken, s)), "[FILTERED]"@)),
{
    let rep = "[FILTERED]"@;
    let t = without(taken, s, rep);
    let at = choose|at: int| #[trigger] leads(aim, t.skip(from), at);
    lemma_words(aim, t.skip(from));
    if s.len() > 0 {
        if begins(taken, s) {
            lemma_passage(taken, s);
            reveal_strlit("[FILTERED]");
            let rest = without(taken, s.skip(passage_len(taken, s)), rep);
            assert(t == rep + rest);
            assert(marked(t));
            if from < 10 {
                lemma_no_word_in_mark(aim, t, from);
            }
            assert(t.skip(from) =~= rest.skip(from - 10));
        } else {
            let rest = without(taken, s.skip(1), rep);
            assert(t == seq![s[0]] + rest);
            if from > 0 {
                assert(t.skip(from) =~= rest.skip(from - 1));
            }
        }
    }
}

/// Taking passages out makes none of another kind.
pub proof fn lemma_none_made(aim: Aim, taken: Aim, s: Seq<char>)
    requires
        !has_passage(aim, s),
    ensures
        !has_passage(aim, without(taken, s, "[FILTERED]"@)),
    decreases s.len(),
{
    let t = without(taken, s, "[FILTERED]"@);
    if has_passage(aim, t) {
        let from = choose|from: int| 0 <= from <= t.len() && #[trigger] begins(aim, t.skip(from));
        lemma_place_of_passage(aim, taken, s, from);
        if from == 0 {
            assert(t.skip(0) =~= t);
            lemma_passage_was_there(aim, taken, s);
            assert(s.skip(0) =~= s);
        } else {
            let n = step(taken, s);
            lemma_part_has_none(aim, s, n, s.len() as int);
            assert(s.subrange(n, s.len() as int) =~= s.skip(n));
            lemma_none_made(aim, taken, s.skip(n));
        }
    }
}

/// A part of a text without passages has none.
pub proof fn lemma_part_has_none(aim: Aim, s: Seq<char>, from: int, to: int)
    requires
        !has_passage(aim, s),
        0 <= from <= to <= s.len(),
    ensures
        !has_passage(aim, s.subrange(from, to)),
{
    let t = s.subrange(from, to);
    if has_passage(aim, t) {
        let x = choose|x: int| 0 <= x <= t.len() && #[trigger] begins(aim, t.skip(x));
        let u = t.skip(x);
        let v = s.skip(from + x);
        let at = choose|at: int| #[trigger] leads(aim, u, at);
        assert forall|i: int| 0 <= i < u.len() implies u[i] == v[i] by {}
        lemma_words(aim, u);
        lemma_words_of_start(aim, u, v);
        lemma_words(aim, u.skip(at));
        assert forall|i: int| 0 <= i < u.skip(at).len() implies #[trigger] v.skip(at)[i] == u.skip(
            at,
        )[i] by {}
        lemma_goal_of_start(aim, u.skip(at), v.skip(at));
        assert forall|i: int| 0 <= i < at implies #[trigger] v[i] != '\n' by {
            assert(u[i] == v[i]);
        }
        assert(leads(aim, v, at));
        assert(begins(aim, s.skip(from + x)));
    }
}

/// A text without passages stays as it is.
pub proof fn lemma_nothing_to_take(aim: Aim, s: Seq<char>, rep: Seq<char>)
    requires
        !has_passage(aim, s),
    ensures
        without(aim, s, rep) == s,
    decreases s.len(),
{
    if s.len() > 0 {
        assert(s.skip(0) =~= s);
        assert(!begins(aim, s.skip(0)));
        assert(s.subrange(1, s.len() as int) =~= s.skip(1));
        lemma_part_has_none(aim, s, 1, s.len() as int);
        lemma_nothing_to_take(aim, s.skip(1), rep);
        assert(seq![s[0]] + s.skip(1) =~= s);
    }
}

} // verus!
