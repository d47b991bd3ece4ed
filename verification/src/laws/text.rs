//! Laws of the text primitives.

use crate::text;
use crate::text::{
    byte_len, chars_of, concat2, concat3, contains_text, copy_opt, cut_at, ends_with, join,
    join_range, number, parse_number, same_text, split_char, split_whitespace, starts_with,
    string_of, strip_prefix, take_chars, text_or, trim, trim_end_copies, trim_end_matches,
    trim_start_matches, white_space,
};
use vstd::prelude::*;
use vstd::utf8::*;

verus! {

// ── White space and trimming ──

/// The space, the tab, the ends of lines and pages and the wide spaces are white
/// space. What is printed in ASCII is not, nor is any letter of Polish.
pub proof fn law_white_space(c: char, r: bool)
    requires
        call_ensures(white_space, (c,), r),
    ensures
        c == ' ' || c == '\t' || c == '\n' || c == '\r' || c == '\u{b}' || c == '\u{c}' ==> r,
        c == '\u{85}' || c == '\u{a0}' || c == '\u{1680}' || c == '\u{2028}' || c == '\u{2029}' || c
            == '\u{202f}' || c == '\u{205f}' || c == '\u{3000}' ==> r,
        '\u{2000}' <= c <= '\u{200a}' ==> r,
        '\u{21}' <= c <= '\u{7e}' ==> !r,
        '\u{a1}' <= c <= '\u{24f}' ==> !r,
        c < '\u{9}' ==> !r,
        c > '\u{3000}' ==> !r,
        r ==> '\u{9}' <= c <= '\u{d}' || c == ' ' || c == '\u{85}' || c == '\u{a0}' || c
            == '\u{1680}' || '\u{2000}' <= c <= '\u{200a}' || c == '\u{2028}' || c == '\u{2029}'
            || c == '\u{202f}' || c == '\u{205f}' || c == '\u{3000}',
        r == text::is_white_space(c),
{
}

/// Trimming takes white space alone, at the ends alone, and all of it there: what
/// is left is a part of the text with nothing but white space before and behind
/// it, and has none at its own ends.
pub proof fn law_trim(s: &str, r: String)
    requires
        call_ensures(trim, (s,), r),
    ensures
        exists|from: int, to: int|
            #![trigger s@.subrange(from, to)]
            0 <= from <= to <= s@.len() && r@ == s@.subrange(from, to) && (forall|i: int|
                0 <= i < from ==> text::is_white_space(#[trigger] s@[i])) && (forall|i: int|
                to <= i < s@.len() ==> text::is_white_space(#[trigger] s@[i])),
        r@.len() > 0 ==> !text::is_white_space(r@[0]) && !text::is_white_space(r@.last()),
{
    text::lemma_trimmed_once(s@);
    let a = lemma_trim_start(s@);
    let t = text::trim_start(s@);
    let n = lemma_trim_end(t);
    assert(t.take(n) =~= s@.subrange(a, a + n));
    assert forall|i: int| a + n <= i < s@.len() implies text::is_white_space(#[trigger] s@[i]) by {
        assert(t[i - a] == s@[i]);
    }
}

proof fn lemma_trim_start(s: Seq<char>) -> (n: int)
    ensures
        0 <= n <= s.len(),
        text::trim_start(s) == s.skip(n),
        forall|i: int| 0 <= i < n ==> text::is_white_space(#[trigger] s[i]),
    decreases s.len(),
{
    if s.len() > 0 && text::is_white_space(s[0]) {
        let n = lemma_trim_start(s.skip(1));
        assert(s.skip(1).skip(n) =~= s.skip(n + 1));
        assert forall|i: int| 0 <= i < n + 1 implies text::is_white_space(#[trigger] s[i]) by {
            if i > 0 {
                assert(s.skip(1)[i - 1] == s[i]);
            }
        }
        n + 1
    } else {
        assert(s.skip(0) =~= s);
        0
    }
}

proof fn lemma_trim_end(s: Seq<char>) -> (n: int)
    ensures
        0 <= n <= s.len(),
        text::trim_end(s) == s.take(n),
        forall|i: int| n <= i < s.len() ==> text::is_white_space(#[trigger] s[i]),
    decreases s.len(),
{
    if s.len() > 0 && text::is_white_space(s.last()) {
        let n = lemma_trim_end(s.drop_last());
        assert(s.drop_last().take(n) =~= s.take(n));
        assert forall|i: int| n <= i < s.len() implies text::is_white_space(#[trigger] s[i]) by {
            if i < s.len() - 1 {
                assert(s.drop_last()[i] == s[i]);
            }
        }
        n
    } else {
        assert(s.take(s.len() as int) =~= s);
        s.len() as int
    }
}

/// Only copies of the character go from the start, and all of them.
pub proof fn law_trim_start_matches(s: &str, c: char, r: String)
    requires
        call_ensures(trim_start_matches, (s, c), r),
    ensures
        r@.len() <= s@.len(),
        r@ == s@.skip(s@.len() - r@.len()),
        forall|i: int| 0 <= i < s@.len() - r@.len() ==> #[trigger] s@[i] == c,
        r@.len() > 0 ==> r@[0] != c,
{
    lemma_trim_start_char(s@, c);
}

pub proof fn lemma_trim_start_char(s: Seq<char>, c: char)
    ensures
        text::trim_start_char(s, c).len() <= s.len(),
        text::trim_start_char(s, c) == s.skip(s.len() - text::trim_start_char(s, c).len()),
        forall|i: int|
            0 <= i < s.len() - text::trim_start_char(s, c).len() ==> #[trigger] s[i] == c,
        text::trim_start_char(s, c).len() > 0 ==> text::trim_start_char(s, c)[0] != c,
    decreases s.len(),
{
    if s.len() > 0 && s[0] == c {
        let t = s.skip(1);
        lemma_trim_start_char(t, c);
        let k = text::trim_start_char(s, c).len();
        assert(t.skip(t.len() - k) =~= s.skip(s.len() - k));
        assert forall|i: int| 0 <= i < s.len() - k implies #[trigger] s[i] == c by {
            if i > 0 {
                assert(t[i - 1] == s[i]);
            }
        }
    } else {
        assert(s.skip(0) =~= s);
    }
}

/// Only copies of the character go from the end, and all of them.
pub proof fn law_trim_end_matches(s: &str, c: char, r: String)
    requires
        call_ensures(trim_end_matches, (s, c), r),
    ensures
        r@.len() <= s@.len(),
        r@ == s@.take(r@.len() as int),
        forall|i: int| r@.len() <= i < s@.len() ==> #[trigger] s@[i] == c,
        r@.len() > 0 ==> r@.last() != c,
{
    lemma_trim_end_char(s@, c);
}

pub proof fn lemma_trim_end_char(s: Seq<char>, c: char)
    ensures
        text::trim_end_char(s, c).len() <= s.len(),
        text::trim_end_char(s, c) == s.take(text::trim_end_char(s, c).len() as int),
        forall|i: int| text::trim_end_char(s, c).len() <= i < s.len() ==> #[trigger] s[i] == c,
        text::trim_end_char(s, c).len() > 0 ==> text::trim_end_char(s, c).last() != c,
    decreases s.len(),
{
    if s.len() > 0 && s.last() == c {
        let t = s.drop_last();
        lemma_trim_end_char(t, c);
        let k = text::trim_end_char(s, c).len() as int;
        assert(t.take(k) =~= s.take(k));
        assert forall|i: int| k <= i < s.len() implies #[trigger] s[i] == c by {
            if i < t.len() {
                assert(t[i] == s[i]);
            }
        }
    } else {
        assert(s.take(s.len() as int) =~= s);
    }
}

/// Copies of a word go from the end until none is left there: appending one more
/// copy to the text makes no difference, and a text that does not end with the
/// word stays as it is.
pub proof fn law_trim_end_copies(s: &str, longer: &str, p: &str, r: String, again: String)
    requires
        p@.len() > 0,
        call_ensures(trim_end_copies, (s, p), r),
        call_ensures(trim_end_copies, (longer, p), again),
        longer@ == s@ + p@,
    ensures
        again@ == r@,
        !(r@.len() >= p@.len() && r@.skip(r@.len() - p@.len()) == p@),
        !(s@.len() >= p@.len() && s@.skip(s@.len() - p@.len()) == p@) ==> r@ == s@,
        r@.len() <= s@.len() && r@ == s@.take(r@.len() as int),
{
    assert(longer@.skip(longer@.len() - p@.len()) =~= p@);
    assert(longer@.take(longer@.len() - p@.len()) =~= s@);
    lemma_trim_end_text(s@, p@);
}

proof fn lemma_trim_end_text(s: Seq<char>, p: Seq<char>)
    requires
        p.len() > 0,
    ensures
        ({
            let r = text::trim_end_text(s, p);
            &&& !(r.len() >= p.len() && r.skip(r.len() - p.len()) == p)
            &&& r.len() <= s.len()
            &&& r == s.take(r.len() as int)
        }),
    decreases s.len(),
{
    if text::has_suffix(s, p) {
        let t = s.take(s.len() - p.len());
        lemma_trim_end_text(t, p);
        let k = text::trim_end_text(s, p).len() as int;
        assert(t.take(k) =~= s.take(k));
    } else {
        assert(s.take(s.len() as int) =~= s);
    }
}

// ── Searching ──

/// A text has a prefix, a suffix or a part exactly where it can be written with
/// the rest around it, and what is left without a prefix is that rest.
pub proof fn law_parts(
    s: &str,
    p: &str,
    starts: bool,
    ends: bool,
    holds: bool,
    rest: Option<String>,
    a: Seq<char>,
    b: Seq<char>,
)
    requires
        call_ensures(starts_with, (s, p), starts),
        call_ensures(ends_with, (s, p), ends),
        call_ensures(contains_text, (s, p), holds),
        call_ensures(strip_prefix, (s, p), rest),
    ensures
        s@ == p@ + b ==> starts && rest is Some && rest->0@ == b,
        s@ == a + p@ ==> ends,
        s@ == a + p@ + b ==> holds,
        rest matches Some(t) ==> s@ == p@ + t@,
        starts <==> rest is Some,
        starts ==> s@ == p@ + s@.skip(p@.len() as int),
        ends ==> s@ == s@.take(s@.len() - p@.len()) + p@,
        holds ==> exists|i: int|
            0 <= i <= s@.len() - p@.len() && s@ == #[trigger] s@.take(i) + p@ + s@.skip(
                i + p@.len(),
            ),
{
    if s@ == p@ + b {
        assert(s@.take(p@.len() as int) =~= p@);
        assert(s@.skip(p@.len() as int) =~= b);
    }
    if s@ == a + p@ {
        assert(s@.skip(s@.len() - p@.len()) =~= p@);
    }
    if s@ == a + p@ + b {
        assert(s@.subrange(a.len() as int, a.len() as int + p@.len()) =~= p@);
        assert(text::occurs_at(s@, p@, a.len() as int));
    }
    if starts {
        assert(s@ =~= p@ + s@.skip(p@.len() as int));
    }
    if ends {
        assert(s@ =~= s@.take(s@.len() - p@.len()) + p@);
    }
    if holds {
        let i = choose|i: int| text::occurs_at(s@, p@, i);
        assert(s@ =~= s@.take(i) + p@ + s@.skip(i + p@.len()));
    }
}

/// At most so many characters, the first ones, and all of them where there are no
/// more.
pub proof fn law_take_chars(s: &str, n: usize, r: String)
    requires
        call_ensures(take_chars, (s, n), r),
    ensures
        r@.len() == if s@.len() < n {
            s@.len()
        } else {
            n as nat
        },
        forall|i: int| 0 <= i < r@.len() ==> #[trigger] r@[i] == s@[i],
{
}

// ── Splitting and joining ──

/// The pieces of a text with a cut in it are those of what stands before the cut
/// and those of what stands behind it. A text without a cut is its only piece.
pub proof fn law_split_at_cut(a: Seq<char>, c: char, b: Seq<char>, cut: spec_fn(char) -> bool)
    ensures
        cut(c) ==> text::split_where(a.push(c) + b, cut) == text::split_where(a, cut)
            + text::split_where(b, cut),
        (forall|i: int| 0 <= i < a.len() ==> !cut(#[trigger] a[i])) ==> text::split_where(a, cut)
            == seq![a],
    decreases a.len(), b.len(),
{
    if forall|i: int| 0 <= i < a.len() ==> !cut(#[trigger] a[i]) {
        lemma_uncut(a, cut);
    }
    if cut(c) {
        lemma_cut(a, c, b, cut);
    }
}

proof fn lemma_uncut(a: Seq<char>, cut: spec_fn(char) -> bool)
    requires
        forall|i: int| 0 <= i < a.len() ==> !cut(#[trigger] a[i]),
    ensures
        text::split_where(a, cut) == seq![a],
    decreases a.len(),
{
    if a.len() == 0 {
        assert(a =~= Seq::<char>::empty());
    } else {
        let t = a.drop_last();
        assert forall|i: int| 0 <= i < t.len() implies !cut(#[trigger] t[i]) by {
            assert(t[i] == a[i]);
        }
        lemma_uncut(t, cut);
        assert(!cut(a[a.len() - 1]));
        assert(seq![t].drop_last().push(t.push(a.last())) =~= seq![a]) by {
            assert(t.push(a.last()) =~= a);
        }
    }
}

proof fn lemma_cut(a: Seq<char>, c: char, b: Seq<char>, cut: spec_fn(char) -> bool)
    requires
        cut(c),
    ensures
        text::split_where(a.push(c) + b, cut) == text::split_where(a, cut) + text::split_where(
            b,
            cut,
        ),
    decreases b.len(),
{
    let s = a.push(c) + b;
    let pa = text::split_where(a, cut);
    let pb = text::split_where(b, cut);
    if b.len() == 0 {
        assert(s =~= a.push(c));
        assert(s.drop_last() =~= a);
        assert(pb =~= seq![Seq::<char>::empty()]);
        assert(pa.push(Seq::<char>::empty()) =~= pa + pb);
    } else {
        let d = b.drop_last();
        lemma_cut(a, c, d, cut);
        text::lemma_split_nonempty(d, cut);
        let pd = text::split_where(d, cut);
        assert(s.drop_last() =~= a.push(c) + d);
        assert(s.last() == b.last());
        let before = pa + pd;
        if cut(b.last()) {
            assert(before.push(Seq::<char>::empty()) =~= pa + pb);
        } else {
            assert(before.last() == pd.last());
            assert(before.drop_last().push(before.last().push(b.last())) =~= pa + pb);
        }
    }
}

/// Splitting at a character: the pieces of `a` without it, that character and `b`
/// are `a` and then the pieces of `b`.
pub proof fn law_split_char(
    s: &str,
    sep: char,
    rest: &str,
    r: Vec<String>,
    more: Vec<String>,
    a: Seq<char>,
)
    requires
        call_ensures(split_char, (s, sep), r),
        call_ensures(split_char, (rest, sep), more),
        forall|i: int| 0 <= i < a.len() ==> #[trigger] a[i] != sep,
    ensures
        s@ == a ==> r@.len() == 1 && r@[0]@ == a,
        s@ == a.push(sep) + rest@ ==> {
            &&& r@.len() == 1 + more@.len()
            &&& r@[0]@ == a
            &&& forall|i: int| 0 <= i < more@.len() ==> (#[trigger] more@[i])@ == r@[i + 1]@
        },
{
    let cut = text::is_char(sep);
    law_split_at_cut(a, sep, rest@, cut);
    let v = text::views(r@);
    let w = text::views(more@);
    assert(v.len() == r@.len() && w.len() == more@.len());
    if s@ == a {
        assert(v[0] == r@[0]@);
    }
    if s@ == a.push(sep) + rest@ {
        assert(v == seq![a] + w);
        assert(v[0] == r@[0]@);
        assert forall|i: int| 0 <= i < more@.len() implies (#[trigger] more@[i])@ == r@[i + 1]@ by {
            assert(w[i] == more@[i]@);
            assert(v[i + 1] == r@[i + 1]@);
        }
    }
}

/// Joining puts the separator between each two parts and nowhere else: nothing
/// makes nothing, one part is itself, and of two lists that hold something, the
/// parts of both together make the first, the separator and the second.
pub proof fn law_joined(a: Seq<Seq<char>>, b: Seq<Seq<char>>, sep: Seq<char>)
    ensures
        text::joined(Seq::empty(), sep) == Seq::<char>::empty(),
        a.len() == 1 ==> text::joined(a, sep) == a[0],
        a.len() > 0 && b.len() > 0 ==> text::joined(a + b, sep) == text::joined(a, sep) + sep
            + text::joined(b, sep),
    decreases b.len(),
{
    if a.len() > 0 && b.len() > 0 {
        let all = a + b;
        assert(all.last() == b.last());
        assert(all.drop_last() =~= a + b.drop_last());
        if b.len() == 1 {
            assert(a + b.drop_last() =~= a);
        } else {
            law_joined(a, b.drop_last(), sep);
            assert(text::joined(all, sep) =~= text::joined(a, sep) + sep + (text::joined(
                b.drop_last(),
                sep,
            ) + sep + b.last()));
        }
    }
}

/// What joining strings gives is what joining their texts gives.
pub proof fn law_join(parts: &Vec<String>, one: String, sep: &str, r: String)
    requires
        call_ensures(join, (parts, sep), r),
    ensures
        parts@.len() == 0 ==> r@.len() == 0,
        parts@ == seq![one] ==> r@ == one@,
        parts@.len() > 1 ==> r@ == parts@[0]@ + sep@ + text::joined(
            text::views(parts@.skip(1)),
            sep@,
        ),
{
    let v = text::views(parts@);
    if parts@ == seq![one] {
        assert(v[0] == one@);
    }
    if parts@.len() > 1 {
        assert(v =~= seq![parts@[0]@] + text::views(parts@.skip(1)));
        law_joined(seq![parts@[0]@], text::views(parts@.skip(1)), sep@);
    }
}

/// The words of a text with white space in it are those before it and those
/// behind it. A text without white space that is not empty is its only word.
pub proof fn law_words(a: Seq<char>, c: char, b: Seq<char>)
    ensures
        text::is_white_space(c) ==> text::words(a.push(c) + b) == text::words(a) + text::words(b),
        (forall|i: int| 0 <= i < a.len() ==> !text::is_white_space(#[trigger] a[i])) && a.len() > 0
            ==> text::words(a) == seq![a],
        a.len() == 0 ==> text::words(a).len() == 0,
{
    if text::is_white_space(c) {
        lemma_words_apart(a, c, b);
    }
    if (forall|i: int| 0 <= i < a.len() ==> !text::is_white_space(#[trigger] a[i])) && a.len() > 0 {
        lemma_one_word(a);
    }
}

proof fn lemma_one_word(a: Seq<char>)
    requires
        a.len() > 0,
        forall|i: int| 0 <= i < a.len() ==> !text::is_white_space(#[trigger] a[i]),
    ensures
        text::words(a) == seq![a],
    decreases a.len(),
{
    let t = a.drop_last();
    assert(!text::is_white_space(a[a.len() - 1]));
    if a.len() == 1 {
        assert(text::words(t) =~= Seq::<Seq<char>>::empty());
        assert(seq![a.last()] =~= a);
        assert(text::words(a) =~= seq![a]);
    } else {
        assert forall|i: int| 0 <= i < t.len() implies !text::is_white_space(#[trigger] t[i]) by {
            assert(t[i] == a[i]);
        }
        lemma_one_word(t);
        assert(!text::is_white_space(a[a.len() - 2]));
        assert(t.push(a.last()) =~= a);
        assert(text::words(a) =~= seq![a]);
    }
}

proof fn lemma_words_apart(a: Seq<char>, c: char, b: Seq<char>)
    requires
        text::is_white_space(c),
    ensures
        text::words(a.push(c) + b) == text::words(a) + text::words(b),
    decreases b.len(),
{
    let s = a.push(c) + b;
    if b.len() == 0 {
        assert(s =~= a.push(c));
        assert(s.drop_last() =~= a);
        assert(text::words(a) + text::words(b) =~= text::words(a));
    } else {
        let d = b.drop_last();
        lemma_words_apart(a, c, d);
        assert(s.drop_last() =~= a.push(c) + d);
        assert(s.last() == b.last());
        let wa = text::words(a);
        let wd = text::words(d);
        if text::is_white_space(b.last()) {
        } else if b.len() >= 2 && !text::is_white_space(b[b.len() - 2]) {
            assert(s[s.len() - 2] == b[b.len() - 2]);
            lemma_ends_in_word(d);
            assert((wa + wd).last() == wd.last());
            assert((wa + wd).drop_last().push((wa + wd).last().push(b.last())) =~= wa + text::words(
                b,
            ));
        } else {
            assert(text::is_white_space(s[s.len() - 2]));
            assert((wa + wd).push(seq![b.last()]) =~= wa + text::words(b));
        }
    }
}

proof fn lemma_ends_in_word(d: Seq<char>)
    requires
        d.len() > 0,
        !text::is_white_space(d.last()),
    ensures
        text::words(d).len() > 0,
    decreases d.len(),
{
    if d.len() >= 2 && !text::is_white_space(d[d.len() - 2]) {
        lemma_ends_in_word(d.drop_last());
    }
}

/// Splitting a string at white space gives its words.
pub proof fn law_split_whitespace(s: &str, r: Vec<String>, i: int, j: int)
    requires
        call_ensures(split_whitespace, (s,), r),
    ensures
        0 <= i < r@.len() ==> r@[i]@.len() > 0,
        0 <= i < r@.len() && 0 <= j < r@[i]@.len() ==> !text::is_white_space(r@[i]@[j]),
        text::views(r@) == text::words(s@),
{
    assert(text::views(r@).len() == r@.len());
    if 0 <= i < r@.len() {
        assert(text::views(r@)[i] == r@[i]@);
        lemma_words_have_no_space(s@, i);
    }
}

proof fn lemma_words_have_no_space(s: Seq<char>, i: int)
    requires
        0 <= i < text::words(s).len(),
    ensures
        text::words(s)[i].len() > 0,
        forall|j: int|
            0 <= j < text::words(s)[i].len() ==> !text::is_white_space(
                #[trigger] text::words(s)[i][j],
            ),
    decreases s.len(),
{
    if s.len() > 0 {
        let t = s.drop_last();
        let before = text::words(t);
        if text::is_white_space(s.last()) {
            lemma_words_have_no_space(t, i);
        } else if s.len() >= 2 && !text::is_white_space(s[s.len() - 2]) {
            lemma_ends_in_word(t);
            lemma_words_have_no_space(t, if i < before.len() {
                i
            } else {
                before.len() - 1
            });
        } else if i < before.len() {
            lemma_words_have_no_space(t, i);
        }
    }
}

// ── Numbers ──

/// A number is written without needless zeros, and one digit more is ten times
/// the number and that digit.
pub proof fn law_number(n: u64, d: u64, r: String, longer: String)
    requires
        d < 10,
        10 * n + d <= u64::MAX,
        call_ensures(number, (n,), r),
        call_ensures(number, ((10 * n + d) as u64,), longer),
    ensures
        n > 0 ==> longer@.len() == r@.len() + 1,
        n > 0 ==> longer@.take(r@.len() as int) == r@,
        longer@.last() as int == 48 + d,
        n < 10 ==> r@.len() == 1 && r@[0] as int == 48 + n,
        n > 0 ==> r@[0] != '0',
{
    assert((10 * n + d) / 10 == n && (10 * n + d) % 10 == d);
    if n > 0 {
        assert(longer@ == text::decimal(n as nat).push(text::digit_char(d as nat)));
        assert(longer@.take(r@.len() as int) =~= r@);
        lemma_first_digit(n as nat);
    }
}

proof fn lemma_first_digit(n: nat)
    requires
        n > 0,
    ensures
        text::decimal(n).len() > 0,
        text::decimal(n)[0] != '0',
    decreases n,
{
    if n >= 10 {
        lemma_first_digit(n / 10);
    }
}

/// Reading a number goes digit by digit, from ten times what stands before: where
/// a text is read as a number, the text with one more digit is read as ten times
/// that number and the digit, as long as it is within the limit, and the text
/// with any other character behind it is no number. A single digit is its value.
pub proof fn law_parse_number(
    s: &str,
    longer: &str,
    max: u64,
    c: char,
    r: Option<u64>,
    more: Option<u64>,
)
    requires
        call_ensures(parse_number, (s, max), r),
        call_ensures(parse_number, (longer, max), more),
        longer@ == s@.push(c),
        s@.len() > 0,
    ensures
        r matches Some(n) ==> n <= max,
        !('0' <= c <= '9') ==> more is None,
        '0' <= c <= '9' ==> (r matches Some(n) ==> more == (if 10 * n + (c as int - 48) <= max {
            Some((10 * n + (c as int - 48)) as u64)
        } else {
            None
        })),
        more matches Some(n) ==> r is Some || s@ == seq!['+'],
        s@.len() == 1 && '0' <= s@[0] <= '9' && s@[0] as int - 48 <= max ==> r == Some(
            (s@[0] as int - 48) as u64,
        ),
        s@.len() == 1 && !('0' <= s@[0] <= '9') ==> r is None,
{
    let d = text::unsigned_digits(s@);
    let e = text::unsigned_digits(longer@);
    assert(e =~= d.push(c));
    assert(e.drop_last() =~= d);
    if !('0' <= c <= '9') {
        assert(!text::is_digit(e[e.len() - 1]));
    }
    if forall|i: int| 0 <= i < e.len() ==> text::is_digit(#[trigger] e[i]) {
        assert forall|i: int| 0 <= i < d.len() implies text::is_digit(#[trigger] d[i]) by {
            assert(e[i] == d[i]);
        }
    }
    if '0' <= c <= '9' && r is Some {
        assert forall|i: int| 0 <= i < e.len() implies text::is_digit(#[trigger] e[i]) by {
            if i < d.len() {
                assert(e[i] == d[i]);
            }
        }
    }
    assert(text::digits_value(e) == text::digits_value(d) * 10 + ((c as u32) - 48) as nat);
    if more is Some && d.len() > 0 {
        assert(text::digits_value(d) <= text::digits_value(e));
    }
    if more is Some && d.len() == 0 {
        assert(s@ =~= seq!['+']);
    }
    if s@.len() == 1 {
        if s@[0] == '+' {
            assert(d.len() == 0);
        } else {
            assert(d =~= s@);
            assert(d.drop_last() =~= Seq::<char>::empty());
            assert(text::digits_value(d) == text::digits_value(d.drop_last()) * 10 + ((
            d.last() as u32) - 48) as nat);
            if !('0' <= s@[0] <= '9') {
                assert(!text::is_digit(d[0]));
            }
        }
    }
}

// ── Copies and parts ──

/// A text that is cut between two characters is its two parts, and nothing of it is
/// lost.
pub proof fn law_cut(s: &str, byte: usize, r: (String, String), n: usize)
    requires
        is_char_boundary(encode_utf8(s@), byte as int),
        call_ensures(cut_at, (s, byte), r),
        call_ensures(byte_len, (s,), n),
    ensures
        s@ == r.0@ + r.1@,
        encode_utf8(r.0@).len() == byte,
        encode_utf8(r.0@).len() + encode_utf8(r.1@).len() == n,
{
    text::lemma_head_and_tail(s@, byte as int);
    text::lemma_encode_concat(r.0@, r.1@);
}

/// Two texts one behind the other are as long as both, each in its place.
pub proof fn law_concat(a: &str, b: &str, c: &str, two: String, three: String, same: bool, i: int)
    requires
        call_ensures(concat2, (a, b), two),
        call_ensures(concat3, (a, b, c), three),
        call_ensures(same_text, (a, b), same),
    ensures
        two@.len() == a@.len() + b@.len(),
        0 <= i < a@.len() ==> two@[i] == a@[i] && three@[i] == a@[i],
        0 <= i < b@.len() ==> two@[a@.len() + i] == b@[i] && three@[a@.len() + i] == b@[i],
        0 <= i < c@.len() ==> three@[a@.len() + b@.len() + i] == c@[i],
        three@.len() == a@.len() + b@.len() + c@.len(),
        same <==> a@ == b@,
{
}

/// What is there is taken, and the default only where nothing is.
pub proof fn law_default(o: &Option<String>, default: &str, r: String, copy: Option<String>)
    requires
        call_ensures(text_or, (o, default), r),
        call_ensures(copy_opt, (o,), copy),
    ensures
        o matches Some(s) ==> r@ == s@ && copy is Some && copy->0@ == s@,
        o is None ==> r@ == default@ && copy is None,
{
}

/// The characters of a string, put together again, are the string.
pub proof fn law_characters(s: &str, v: Vec<char>, r: String)
    requires
        call_ensures(chars_of, (s,), v),
        call_ensures(string_of, (&v, 0, v@.len() as usize), r),
        v@.len() <= usize::MAX,
    ensures
        r@ == s@,
        v@.len() == s@.len(),
{
    assert(v@.subrange(0, v@.len() as int) =~= v@);
}

/// Joining a part of a list is joining that part.
pub proof fn law_join_range(
    parts: &Vec<String>,
    from: usize,
    to: usize,
    part: &Vec<String>,
    sep: &str,
    r: String,
    s: String,
)
    requires
        from <= to <= parts@.len(),
        part@ == parts@.subrange(from as int, to as int),
        call_ensures(join_range, (parts, from, to, sep), r),
        call_ensures(join, (part, sep), s),
    ensures
        r@ == s@,
{
}

} // verus!
