//! Laws of the names in the text of an object.

use crate::json;
use crate::json::repeats;
use vstd::prelude::*;

verus! {

/// The text can stand between quotes as it is.
pub open spec fn is_plain(s: Seq<char>) -> bool {
    forall|i: int| 0 <= i < s.len() ==> #[trigger] s[i] != '"' && s[i] != '\\'
}

/// A character inside quotes, for itself or by its number in two hexadecimal digits
/// behind `\u00`.
pub enum Letter {
    Plain(char),
    Escaped(char, char, char),
}

impl Letter {
    /// The character that it stands for.
    pub open spec fn means(self) -> char {
        match self {
            Letter::Plain(c) => c,
            Letter::Escaped(c, _, _) => c,
        }
    }

    /// It can be written so.
    pub open spec fn wf(self) -> bool {
        match self {
            Letter::Plain(c) => c != '"' && c != '\\',
            Letter::Escaped(c, high, low) => '0' <= high <= '7' && (('0' <= low <= '9' && c as int
                == 16 * (high as int - 48) + low as int - 48) || ('a' <= low <= 'f' && c as int
                == 16 * (high as int - 48) + low as int - 87) || ('A' <= low <= 'F' && c as int
                == 16 * (high as int - 48) + low as int - 55)),
        }
    }

    /// The letter as it is written.
    pub open spec fn written(self) -> Seq<char> {
        match self {
            Letter::Plain(c) => seq![c],
            Letter::Escaped(_, high, low) => seq!['\\', 'u', '0', '0', high, low],
        }
    }
}

/// The letters can be written so.
pub open spec fn are_letters(w: Seq<Letter>) -> bool {
    forall|i: int| 0 <= i < w.len() ==> (#[trigger] w[i]).wf()
}

/// What the letters say.
pub open spec fn meaning(w: Seq<Letter>) -> Seq<char> {
    w.map_values(|l: Letter| l.means())
}

/// The letters as they are written.
pub open spec fn spelt(w: Seq<Letter>) -> Seq<char>
    decreases w.len(),
{
    if w.len() == 0 {
        Seq::empty()
    } else {
        w[0].written() + spelt(w.skip(1))
    }
}

/// The text is a number, a truth value or nothing: it has no quotes, brackets,
/// commas or colons.
pub open spec fn is_scalar(s: Seq<char>) -> bool {
    forall|i: int|
        0 <= i < s.len() ==> !"\"{}[],:"@.contains(#[trigger] s[i])
}

/// Letters in quotes.
pub open spec fn quoted(w: Seq<Letter>) -> Seq<char> {
    seq!['"'] + spelt(w) + seq!['"']
}

/// A value of a member.
pub enum Value {
    /// A number, a truth value or nothing.
    Scalar(Seq<char>),
    /// A string.
    Text(Seq<Letter>),
    /// An object with a member of its own.
    Inner(Seq<Letter>, Seq<char>),
}

impl Value {
    /// The value can be written as it is.
    pub open spec fn wf(self) -> bool {
        match self {
            Value::Scalar(s) => is_scalar(s),
            Value::Text(w) => are_letters(w),
            Value::Inner(name, s) => are_letters(name) && is_scalar(s),
        }
    }

    /// The value as it is written.
    pub open spec fn written(self) -> Seq<char> {
        match self {
            Value::Scalar(s) => s,
            Value::Text(w) => quoted(w),
            Value::Inner(name, s) => seq!['{'] + quoted(name) + seq![':'] + s + seq!['}'],
        }
    }
}

/// Members as they are written, with a comma behind each but the last, and the
/// bracket that closes the object.
pub open spec fn written(members: Seq<(Seq<Letter>, Value)>) -> Seq<char>
    decreases members.len(),
{
    if members.len() == 0 {
        seq!['}']
    } else {
        let first = quoted(members[0].0) + seq![':'] + members[0].1.written();
        if members.len() == 1 {
            first + seq!['}']
        } else {
            first + seq![','] + written(members.skip(1))
        }
    }
}

/// How many members have the name.
pub open spec fn having(members: Seq<(Seq<Letter>, Value)>, name: Seq<char>) -> nat
    decreases members.len(),
{
    if members.len() == 0 {
        0
    } else {
        (if meaning(members[0].0) == name {
            1nat
        } else {
            0
        }) + having(members.skip(1), name)
    }
}

/// A name is repeated exactly where two members of the object have it, however its
/// letters are written; a value that is the same text does not count, nor does a
/// member of an object inside.
pub proof fn law_repeated(members: Seq<(Seq<Letter>, Value)>, name: &str, text: &str, r: bool)
    requires
        is_plain(name@),
        forall|i: int|
            0 <= i < members.len() ==> are_letters((#[trigger] members[i]).0) && members[i].1.wf(),
        text@ == seq!['{'] + written(members),
        call_ensures(repeats, (text, name), r),
    ensures
        r <==> having(members, name@) > 1,
{
    let s = text@;
    assert(s[0] == '{');
    assert(s.skip(1) =~= written(members));
    lemma_members(s, 1, members, name@);
    assert(json::named(s, 0, 0, false, name@) == json::named(s, 1, 1, true, name@));
}

/// At this place of the text stands that.
spec fn stands(s: Seq<char>, i: int, t: Seq<char>) -> bool {
    0 <= i && i + t.len() <= s.len() && forall|k: int| 0 <= k < t.len()
        ==> s[i + k] == #[trigger] t[k]
}

proof fn lemma_stands_apart(s: Seq<char>, i: int, a: Seq<char>, b: Seq<char>)
    requires
        stands(s, i, a + b),
    ensures
        stands(s, i, a),
        stands(s, i + a.len(), b),
{
    let t = a + b;
    assert forall|k: int| 0 <= k < a.len() implies s[i + k] == #[trigger] a[k] by {
        assert(t[k] == a[k]);
    }
    assert forall|k: int| 0 <= k < b.len() implies s[i + a.len() + k] == #[trigger] b[k] by {
        assert(t[a.len() + k] == b[k]);
    }
}

proof fn lemma_members(
    s: Seq<char>,
    i: int,
    members: Seq<(Seq<Letter>, Value)>,
    name: Seq<char>,
)
    requires
        is_plain(name),
        forall|j: int|
            0 <= j < members.len() ==> are_letters((#[trigger] members[j]).0) && members[j].1.wf(),
        0 <= i <= s.len(),
        s.skip(i) == written(members),
    ensures
        json::named(s, i, 1, true, name) == having(members, name),
    decreases members.len(),
{
    let t = written(members);
    assert(t.len() == s.len() - i);
    assert forall|k: int| 0 <= k < t.len() implies s[i + k] == #[trigger] t[k] by {
        assert(s.skip(i)[k] == t[k]);
    }
    assert(stands(s, i, t));
    if members.len() == 0 {
        assert(s[i] == t[0]);
        assert(s.len() == i + 1);
        assert(json::named(s, i + 1, 0, true, name) == 0);
    } else {
        let w = members[0].0;
        let v = members[0].1;
        let head = quoted(w);
        let first = head + seq![':'] + v.written();
        let a = i + head.len();
        let b = a + 1;
        let c = b + v.written().len();
        let tail = if members.len() == 1 {
            seq!['}']
        } else {
            seq![','] + written(members.skip(1))
        };
        assert(t =~= first + tail);
        lemma_stands_apart(s, i, first, tail);
        lemma_stands_apart(s, i, head + seq![':'], v.written());
        lemma_stands_apart(s, i, head, seq![':']);
        assert(s[a] == seq![':'][0]);
        assert(a == i + spelt(w).len() + 2);
        lemma_string(s, i, w, 1, true, name);
        assert(json::named(s, a, 1, true, name) == json::named(s, b, 1, false, name));
        lemma_value(s, b, v, name);
        assert(s[c] == tail[0]);
        if members.len() == 1 {
            assert(s.len() == c + 1);
            assert(json::named(s, c + 1, 0, false, name) == 0);
            assert(json::named(s, c, 1, false, name) == 0);
            assert(having(members.skip(1), name) == 0);
        } else {
            let rest = members.skip(1);
            assert forall|j: int| 0 <= j < rest.len() implies are_letters((#[trigger] rest[j]).0)
                && rest[j].1.wf() by {
                assert(members[j + 1] == rest[j]);
            }
            assert(s.skip(c + 1) =~= written(rest)) by {
                assert(s.skip(i) == first + tail);
                assert(s.skip(c + 1) =~= s.skip(i).skip(c + 1 - i));
                assert((first + tail).skip(first.len() as int + 1) =~= written(rest));
                assert(c + 1 - i == first.len() + 1);
            }
            lemma_members(s, c + 1, rest, name);
            assert(json::named(s, c, 1, false, name) == json::named(s, c + 1, 1, true, name));
        }
    }
}

proof fn lemma_string(s: Seq<char>, i: int, w: Seq<Letter>, depth: int, key: bool, name: Seq<char>)
    requires
        is_plain(name),
        are_letters(w),
        stands(s, i, quoted(w)),
    ensures
        json::named(s, i, depth, key, name) == (if depth == 1 && key && meaning(w) == name {
            1nat
        } else {
            0
        }) + json::named(s, i + spelt(w).len() + 2, depth, key, name),
{
    let open = seq!['"'];
    lemma_stands_apart(s, i, open + spelt(w), open);
    lemma_stands_apart(s, i, open, spelt(w));
    assert(s[i] == open[0]);
    assert(s[i + 1 + spelt(w).len()] == open[0]);
    lemma_string_ends(s, i + 1, w);
    lemma_spells(s, i + 1, w, name, 0);
    assert(name.skip(0) =~= name);
}

proof fn lemma_string_ends(s: Seq<char>, i: int, w: Seq<Letter>)
    requires
        are_letters(w),
        stands(s, i, spelt(w)),
        i + spelt(w).len() < s.len(),
        s[i + spelt(w).len()] == '"',
    ensures
        json::string_end(s, i) == i + spelt(w).len() + 1,
    decreases w.len(),
{
    if w.len() > 0 {
        let l = w[0].written();
        let rest = w.skip(1);
        assert(are_letters(rest)) by {
            assert forall|k: int| 0 <= k < rest.len() implies (#[trigger] rest[k]).wf() by {
                assert(w[k + 1] == rest[k]);
            }
        }
        lemma_stands_apart(s, i, l, spelt(rest));
        lemma_string_ends(s, i + l.len(), rest);
        assert(w[0].wf());
        match w[0] {
            Letter::Plain(c) => {
                assert(s[i] == l[0]);
            },
            Letter::Escaped(c, high, low) => {
                assert(s[i] == l[0] && s[i + 1] == l[1] && s[i + 2] == l[2] && s[i + 3] == l[3]
                    && s[i + 4] == l[4] && s[i + 5] == l[5]);
                assert(json::string_end(s, i) == json::string_end(s, i + 2));
                assert(json::string_end(s, i + 2) == json::string_end(s, i + 3));
                assert(json::string_end(s, i + 3) == json::string_end(s, i + 4));
                assert(json::string_end(s, i + 4) == json::string_end(s, i + 5));
                assert(json::string_end(s, i + 5) == json::string_end(s, i + 6));
            },
        }
    }
}

proof fn lemma_spells(s: Seq<char>, i: int, w: Seq<Letter>, name: Seq<char>, k: int)
    requires
        0 <= k <= name.len(),
        are_letters(w),
        is_plain(name),
        stands(s, i, spelt(w)),
        i + spelt(w).len() < s.len(),
        s[i + spelt(w).len()] == '"',
    ensures
        json::spells(s, i, name, k) <==> meaning(w) == name.skip(k),
    decreases w.len(),
{
    let b = name.skip(k);
    let a = meaning(w);
    if w.len() == 0 {
        if k < name.len() {
            assert(b.len() > 0);
            assert(name[k] != '"');
            assert(json::spelled(s, i, name[k]) == 0);
        } else {
            assert(a =~= b);
        }
    } else {
        let l = w[0].written();
        let rest = w.skip(1);
        assert(are_letters(rest)) by {
            assert forall|j: int| 0 <= j < rest.len() implies (#[trigger] rest[j]).wf() by {
                assert(w[j + 1] == rest[j]);
            }
        }
        lemma_stands_apart(s, i, l, spelt(rest));
        assert(w[0].wf());
        assert(a.len() > 0 && a[0] == w[0].means());
        assert(s[i] == l[0]);
        if w[0] is Escaped {
            assert(s[i] == l[0] && s[i + 1] == l[1] && s[i + 2] == l[2] && s[i + 3] == l[3]
                && s[i + 4] == l[4] && s[i + 5] == l[5]);
            assert(l.len() == 6);
        } else {
            assert(l.len() == 1);
        }
        if k < name.len() {
            assert(b[0] == name[k]);
            assert(name[k] != '\\');
            if w[0].means() == name[k] {
                assert(json::spelled(s, i, name[k]) == l.len());
                lemma_spells(s, i + l.len(), rest, name, k + 1);
                assert(a.skip(1) =~= meaning(rest));
                assert(b.skip(1) =~= name.skip(k + 1));
                assert(a =~= seq![a[0]] + a.skip(1));
                assert(b =~= seq![b[0]] + b.skip(1));
            } else {
                assert(json::spelled(s, i, name[k]) == 0);
            }
        } else {
            assert(b.len() == 0);
            assert(s[i] != '"');
        }
    }
}

proof fn lemma_scalar(
    s: Seq<char>,
    i: int,
    v: Seq<char>,
    k: int,
    depth: int,
    key: bool,
    name: Seq<char>,
)
    requires
        is_scalar(v),
        stands(s, i, v),
        0 <= k <= v.len(),
    ensures
        json::named(s, i + k, depth, key, name) == json::named(s, i + v.len(), depth, key, name),
    decreases v.len() - k,
{
    if k < v.len() {
        let marks = "\"{}[],:"@;
        reveal_strlit("\"{}[],:");
        assert(s[i + k] == v[k]);
        assert(marks[0] == '"' && marks[1] == '{' && marks[2] == '}' && marks[3] == '[' && marks[4]
            == ']' && marks[5] == ',' && marks[6] == ':');
        assert(!marks.contains(v[k]));
        lemma_scalar(s, i, v, k + 1, depth, key, name);
    }
}

proof fn lemma_value(s: Seq<char>, i: int, v: Value, name: Seq<char>)
    requires
        is_plain(name),
        v.wf(),
        stands(s, i, v.written()),
    ensures
        json::named(s, i, 1, false, name) == json::named(s, i + v.written().len(), 1, false, name),
{
    match v {
        Value::Scalar(x) => {
            lemma_scalar(s, i, x, 0, 1, false, name);
        },
        Value::Text(x) => {
            lemma_string(s, i, x, 1, false, name);
        },
        Value::Inner(w, x) => {
            let open = seq!['{'];
            let colon = seq![':'];
            let close = seq!['}'];
            let q = quoted(w);
            lemma_stands_apart(s, i, open + q + colon + x, close);
            lemma_stands_apart(s, i, open + q + colon, x);
            lemma_stands_apart(s, i, open + q, colon);
            lemma_stands_apart(s, i, open, q);
            let a = i + 1;
            let b = a + q.len();
            let c = b + 1;
            let d = c + x.len();
            assert(s[i] == open[0]);
            assert(s[b] == colon[0]);
            assert(s[d] == close[0]);
            assert(json::named(s, i, 1, false, name) == json::named(s, a, 2, false, name));
            lemma_string(s, a, w, 2, false, name);
            assert(json::named(s, b, 2, false, name) == json::named(s, c, 2, false, name));
            lemma_scalar(s, c, x, 0, 2, false, name);
            assert(json::named(s, d, 2, false, name) == json::named(s, d + 1, 1, false, name));
        },
    }
}

} // verus!
