//! Text primitives over the characters of a string: trimming, splitting,
//! joining, searching, and decimal numbers.

use vstd::prelude::*;
use vstd::utf8::*;

verus! {

/// `String::push` appends the character to the end of the string.
pub assume_specification[ String::push ](s: &mut String, c: char)
    ensures
        final(s)@ == old(s)@.push(c),
;

/// The texts of a sequence of strings.
pub open spec fn views(v: Seq<String>) -> Seq<Seq<char>> {
    v.map_values(|s: String| s@)
}

/// The characters of the Unicode `White_Space` property.
pub open spec fn is_white_space(c: char) -> bool {
    let n = c as u32;
    ||| 0x09 <= n <= 0x0d
    ||| n == 0x20
    ||| n == 0x85
    ||| n == 0xa0
    ||| n == 0x1680
    ||| 0x2000 <= n <= 0x200a
    ||| n == 0x2028
    ||| n == 0x2029
    ||| n == 0x202f
    ||| n == 0x205f
    ||| n == 0x3000
}

/// Whether the character is white space.
pub fn white_space(c: char) -> (r: bool)
    ensures
        r == is_white_space(c),
{
    let n: u32 = c as u32;
    (0x09 <= n && n <= 0x0d) || n == 0x20 || n == 0x85 || n == 0xa0 || n == 0x1680 || (0x2000 <= n
        && n <= 0x200a) || n == 0x2028 || n == 0x2029 || n == 0x202f || n == 0x205f || n == 0x3000
}

/// The characters of a string, in order.
pub fn chars_of(s: &str) -> (r: Vec<char>)
    ensures
        r@ == s@,
{
    let mut out: Vec<char> = Vec::new();
    for c in it: s.chars()
        invariant
            it.seq() == s@,
            out@ == s@.take(it.index()),
    {
        out.push(c);
    }
    out
}

/// The string made of the characters `from..to` of `v`.
pub fn string_of(v: &Vec<char>, from: usize, to: usize) -> (r: String)
    requires
        from <= to <= v@.len(),
    ensures
        r@ == v@.subrange(from as int, to as int),
{
    let mut out: String = String::new();
    let mut i: usize = from;
    while i < to
        invariant
            from <= i <= to <= v@.len(),
            out@ == v@.subrange(from as int, i as int),
        decreases to - i,
    {
        out.push(v[i]);
        i = i + 1;
    }
    out
}

/// Whether two strings have the same characters.
pub fn same_text(a: &str, b: &str) -> (r: bool)
    ensures
        r == (a@ == b@),
{
    a.to_owned() == b.to_owned()
}

/// Two strings, one after the other.
pub fn concat2(a: &str, b: &str) -> (r: String)
    ensures
        r@ == a@ + b@,
{
    let mut out: String = a.to_owned();
    out.append(b);
    out
}

/// Three strings, one after the other.
pub fn concat3(a: &str, b: &str, c: &str) -> (r: String)
    ensures
        r@ == a@ + b@ + c@,
{
    let mut out: String = a.to_owned();
    out.append(b);
    out.append(c);
    out
}

/// The text of an optional string.
pub open spec fn opt_view(o: Option<String>) -> Option<Seq<char>> {
    match o {
        Some(s) => Some(s@),
        None => None,
    }
}

/// The text that is there, or else `default`.
pub open spec fn or_default(o: Option<String>, default: Seq<char>) -> Seq<char> {
    match o {
        Some(s) => s@,
        None => default,
    }
}

/// The string that is there, or else `default`.
pub fn text_or(o: &Option<String>, default: &str) -> (r: String)
    ensures
        r@ == or_default(*o, default@),
{
    match o {
        Some(s) => s.clone(),
        None => default.to_owned(),
    }
}

/// A copy of an optional string.
pub fn copy_opt(o: &Option<String>) -> (r: Option<String>)
    ensures
        opt_view(r) == opt_view(*o),
{
    match o {
        Some(s) => Some(s.clone()),
        None => None,
    }
}

/// The number of bytes of the UTF-8 encoding of the text.
pub fn byte_len(s: &str) -> (n: usize)
    ensures
        n == encode_utf8(s@).len(),
{
    s.as_bytes().len()
}

// ── Trimming ──

/// The text without the white space at its start.
pub open spec fn trim_start(s: Seq<char>) -> Seq<char>
    decreases s.len(),
{
    if s.len() > 0 && is_white_space(s[0]) {
        trim_start(s.skip(1))
    } else {
        s
    }
}

/// The text without the white space at its end.
pub open spec fn trim_end(s: Seq<char>) -> Seq<char>
    decreases s.len(),
{
    if s.len() > 0 && is_white_space(s.last()) {
        trim_end(s.drop_last())
    } else {
        s
    }
}

/// The text without the white space at either end.
pub open spec fn trimmed(s: Seq<char>) -> Seq<char> {
    trim_end(trim_start(s))
}

/// The text without the leading white space and without the trailing white space.
pub fn trim(s: &str) -> (r: String)
    ensures
        r@ == trimmed(s@),
{
    let cs: Vec<char> = chars_of(s);
    let n: usize = cs.len();
    let mut i: usize = 0;
    proof {
        assert(cs@.skip(0) == cs@);
    }
    while i < n && white_space(cs[i])
        invariant
            i <= n == cs@.len(),
            trim_start(cs@.skip(i as int)) == trim_start(cs@),
        decreases n - i,
    {
        proof {
            assert(cs@.skip(i as int).skip(1) == cs@.skip(i + 1));
        }
        i = i + 1;
    }
    let ghost t = cs@.skip(i as int);
    let mut j: usize = n;
    proof {
        assert(trim_start(cs@) == t);
        assert(cs@.subrange(i as int, n as int) == t);
    }
    while i < j && white_space(cs[j - 1])
        invariant
            i <= j <= n == cs@.len(),
            trim_end(cs@.subrange(i as int, j as int)) == trim_end(t),
        decreases j,
    {
        proof {
            assert(cs@.subrange(i as int, j as int).drop_last() == cs@.subrange(i as int, j - 1));
        }
        j = j - 1;
    }
    string_of(&cs, i, j)
}

proof fn lemma_trim_end_shape(s: Seq<char>)
    ensures
        trim_end(s).len() <= s.len(),
        trim_end(s) == s.take(trim_end(s).len() as int),
        trim_end(s).len() > 0 ==> !is_white_space(trim_end(s).last()),
    decreases s.len(),
{
    if s.len() > 0 && is_white_space(s.last()) {
        lemma_trim_end_shape(s.drop_last());
        let n = trim_end(s).len() as int;
        assert(s.drop_last().take(n) =~= s.take(n));
    } else {
        assert(s.take(s.len() as int) =~= s);
    }
}

proof fn lemma_trim_start_shape(s: Seq<char>)
    ensures
        trim_start(s).len() > 0 ==> !is_white_space(trim_start(s)[0]),
    decreases s.len(),
{
    if s.len() > 0 && is_white_space(s[0]) {
        lemma_trim_start_shape(s.skip(1));
    }
}

/// A trimmed text is a part of the text.
pub proof fn lemma_trimmed_is_part(s: Seq<char>) -> (r: (int, int))
    ensures
        0 <= r.0 <= r.1 <= s.len(),
        trimmed(s) == s.subrange(r.0, r.1),
{
    let from = lemma_trim_start_is_tail(s);
    let t = trim_start(s);
    lemma_trim_end_shape(t);
    let n = trim_end(t).len() as int;
    assert(t.take(n) =~= s.subrange(from, from + n));
    (from, from + n)
}

proof fn lemma_trim_start_is_tail(s: Seq<char>) -> (from: int)
    ensures
        0 <= from <= s.len(),
        trim_start(s) == s.skip(from),
    decreases s.len(),
{
    if s.len() > 0 && is_white_space(s[0]) {
        let from = lemma_trim_start_is_tail(s.skip(1));
        assert(s.skip(1).skip(from) =~= s.skip(from + 1));
        from + 1
    } else {
        assert(s.skip(0) =~= s);
        0
    }
}

/// A trimmed text has no white space at either end, so that trimming it again
/// changes nothing.
pub proof fn lemma_trimmed_once(s: Seq<char>)
    ensures
        trimmed(s).len() > 0 ==> !is_white_space(trimmed(s)[0]) && !is_white_space(
            trimmed(s).last(),
        ),
        trimmed(trimmed(s)) == trimmed(s),
{
    lemma_trim_start_shape(s);
    lemma_trim_end_shape(trim_start(s));
    if trimmed(s).len() > 0 {
        assert(trimmed(s)[0] == trim_start(s)[0]);
    }
}

/// The text without the leading characters equal to `c`.
pub open spec fn trim_start_char(s: Seq<char>, c: char) -> Seq<char>
    decreases s.len(),
{
    if s.len() > 0 && s[0] == c {
        trim_start_char(s.skip(1), c)
    } else {
        s
    }
}

/// The text without the trailing characters equal to `c`.
pub open spec fn trim_end_char(s: Seq<char>, c: char) -> Seq<char>
    decreases s.len(),
{
    if s.len() > 0 && s.last() == c {
        trim_end_char(s.drop_last(), c)
    } else {
        s
    }
}

/// Drops the leading characters equal to `c`.
pub fn trim_start_matches(s: &str, c: char) -> (r: String)
    ensures
        r@ == trim_start_char(s@, c),
{
    let cs: Vec<char> = chars_of(s);
    let n: usize = cs.len();
    let mut i: usize = 0;
    proof {
        assert(cs@.skip(0) == cs@);
    }
    while i < n && cs[i] == c
        invariant
            i <= n == cs@.len(),
            trim_start_char(cs@.skip(i as int), c) == trim_start_char(cs@, c),
        decreases n - i,
    {
        proof {
            assert(cs@.skip(i as int).skip(1) == cs@.skip(i + 1));
        }
        i = i + 1;
    }
    proof {
        assert(cs@.subrange(i as int, n as int) == cs@.skip(i as int));
    }
    string_of(&cs, i, n)
}

/// Drops the trailing characters equal to `c`.
pub fn trim_end_matches(s: &str, c: char) -> (r: String)
    ensures
        r@ == trim_end_char(s@, c),
{
    let cs: Vec<char> = chars_of(s);
    let mut j: usize = cs.len();
    proof {
        assert(cs@.subrange(0, j as int) == cs@);
    }
    while 0 < j && cs[j - 1] == c
        invariant
            j <= cs@.len(),
            trim_end_char(cs@.subrange(0, j as int), c) == trim_end_char(cs@, c),
        decreases j,
    {
        proof {
            assert(cs@.subrange(0, j as int).drop_last() == cs@.subrange(0, j - 1));
        }
        j = j - 1;
    }
    string_of(&cs, 0, j)
}

// ── Prefixes, suffixes, substrings ──

/// `p` starts at position `i` of `s`.
pub open spec fn occurs_at(s: Seq<char>, p: Seq<char>, i: int) -> bool {
    0 <= i && i + p.len() <= s.len() && s.subrange(i, i + p.len()) == p
}

/// `p` occurs somewhere in `s`.
pub open spec fn has_text(s: Seq<char>, p: Seq<char>) -> bool {
    exists|i: int| occurs_at(s, p, i)
}

/// `s` begins with `p`.
pub open spec fn has_prefix(s: Seq<char>, p: Seq<char>) -> bool {
    p.len() <= s.len() && s.take(p.len() as int) == p
}

/// `s` ends with `p`.
pub open spec fn has_suffix(s: Seq<char>, p: Seq<char>) -> bool {
    p.len() <= s.len() && s.skip(s.len() - p.len()) == p
}

/// `s` without the prefix `p`, where it has that prefix.
pub open spec fn without_prefix(s: Seq<char>, p: Seq<char>) -> Option<Seq<char>> {
    if has_prefix(s, p) {
        Some(s.skip(p.len() as int))
    } else {
        None
    }
}

fn matches_at(s: &Vec<char>, p: &Vec<char>, at: usize) -> (r: bool)
    requires
        at <= s@.len(),
    ensures
        r == occurs_at(s@, p@, at as int),
{
    if p.len() > s.len() - at {
        return false;
    }
    let mut k: usize = 0;
    while k < p.len()
        invariant
            at + p@.len() <= s.len(),
            k <= p@.len(),
            forall|j: int| 0 <= j < k ==> s@[at + j] == p@[j],
        decreases p@.len() - k,
    {
        if s[at + k] != p[k] {
            proof {
                assert(s@.subrange(at as int, at + p@.len())[k as int] != p@[k as int]);
            }
            return false;
        }
        k = k + 1;
    }
    proof {
        assert(s@.subrange(at as int, at + p@.len()) =~= p@);
    }
    true
}

/// Whether `p` occurs in `s`.
pub fn contains_text(s: &str, p: &str) -> (r: bool)
    ensures
        r == has_text(s@, p@),
{
    let cs: Vec<char> = chars_of(s);
    let ps: Vec<char> = chars_of(p);
    let mut i: usize = 0;
    loop
        invariant
            cs@ == s@,
            ps@ == p@,
            i <= cs@.len(),
            forall|j: int| 0 <= j < i ==> !occurs_at(s@, p@, j),
        decreases cs@.len() - i,
    {
        if matches_at(&cs, &ps, i) {
            return true;
        }
        if i == cs.len() {
            return false;
        }
        i = i + 1;
    }
}

/// Whether `s` begins with `p`.
pub fn starts_with(s: &str, p: &str) -> (r: bool)
    ensures
        r == has_prefix(s@, p@),
{
    let cs: Vec<char> = chars_of(s);
    let ps: Vec<char> = chars_of(p);
    let r: bool = matches_at(&cs, &ps, 0);
    proof {
        if p@.len() <= s@.len() {
            assert(s@.subrange(0, p@.len() as int) == s@.take(p@.len() as int));
        }
    }
    r
}

/// Whether `s` ends with `p`.
pub fn ends_with(s: &str, p: &str) -> (r: bool)
    ensures
        r == has_suffix(s@, p@),
{
    let cs: Vec<char> = chars_of(s);
    let ps: Vec<char> = chars_of(p);
    if ps.len() > cs.len() {
        return false;
    }
    let at: usize = cs.len() - ps.len();
    proof {
        assert(s@.subrange(at as int, at + p@.len()) == s@.skip(at as int));
    }
    matches_at(&cs, &ps, at)
}

/// `s` without the prefix `p`, or nothing where it does not begin with `p`.
pub fn strip_prefix(s: &str, p: &str) -> (r: Option<String>)
    ensures
        without_prefix(s@, p@) is Some <==> r is Some,
        r matches Some(t) ==> without_prefix(s@, p@) == Some(t@),
{
    if starts_with(s, p) {
        let cs: Vec<char> = chars_of(s);
        let k: usize = p.unicode_len();
        let n: usize = cs.len();
        proof {
            assert(s@.subrange(k as int, n as int) == s@.skip(k as int));
        }
        Some(string_of(&cs, k, n))
    } else {
        None
    }
}

/// `s` without its copies of `p` at the end.
pub open spec fn trim_end_text(s: Seq<char>, p: Seq<char>) -> Seq<char>
    decreases s.len(),
{
    if p.len() > 0 && has_suffix(s, p) {
        trim_end_text(s.take(s.len() - p.len()), p)
    } else {
        s
    }
}

/// Drops every copy of the non-empty `p` at the end of `s`.
pub fn trim_end_copies(s: &str, p: &str) -> (r: String)
    ensures
        r@ == trim_end_text(s@, p@),
{
    let cs: Vec<char> = chars_of(s);
    let ps: Vec<char> = chars_of(p);
    let k: usize = ps.len();
    if k == 0 {
        return s.to_owned();
    }
    let mut j: usize = cs.len();
    proof {
        assert(cs@.take(j as int) == s@);
    }
    loop
        invariant
            cs@ == s@,
            ps@ == p@,
            k == p@.len() > 0,
            j <= s@.len(),
            trim_end_text(s@.take(j as int), p@) == trim_end_text(s@, p@),
        decreases j,
    {
        let ghost t = s@.take(j as int);
        if k > j {
            proof {
                assert(s@.subrange(0, j as int) == t);
            }
            return string_of(&cs, 0, j);
        }
        if !matches_at(&cs, &ps, j - k) {
            proof {
                assert(t.skip(j - k) == s@.subrange(j - k, j as int));
                assert(s@.subrange(0, j as int) == t);
            }
            return string_of(&cs, 0, j);
        }
        proof {
            assert(t.skip(j - k) == s@.subrange(j - k, j as int));
            assert(t.take(j - k) == s@.take(j - k));
        }
        j = j - k;
    }
}

/// The first `n` characters of a text, or all of it where it is shorter.
pub open spec fn at_most(s: Seq<char>, n: nat) -> Seq<char> {
    if s.len() <= n {
        s
    } else {
        s.take(n as int)
    }
}

/// At most the first `n` characters.
pub fn take_chars(s: &str, n: usize) -> (r: String)
    ensures
        r@ == at_most(s@, n as nat),
{
    let cs: Vec<char> = chars_of(s);
    let k: usize = if cs.len() <= n {
        cs.len()
    } else {
        n
    };
    proof {
        assert(s@.subrange(0, s@.len() as int) == s@);
    }
    string_of(&cs, 0, k)
}

// ── Splitting and joining ──

/// The pieces of `s` between the characters that `cut` holds of. There is
/// always one piece more than there are such characters.
pub open spec fn split_where(s: Seq<char>, cut: spec_fn(char) -> bool) -> Seq<Seq<char>>
    decreases s.len(),
{
    if s.len() == 0 {
        seq![Seq::<char>::empty()]
    } else {
        let before = split_where(s.drop_last(), cut);
        if cut(s.last()) {
            before.push(Seq::<char>::empty())
        } else {
            before.drop_last().push(before.last().push(s.last()))
        }
    }
}

/// The predicate that holds of `sep` alone.
pub open spec fn is_char(sep: char) -> spec_fn(char) -> bool {
    |c: char| c == sep
}

/// The pieces of `s` between the occurrences of `sep`.
pub open spec fn split_on(s: Seq<char>, sep: char) -> Seq<Seq<char>> {
    split_where(s, is_char(sep))
}

/// A split has one piece more than it has cuts, so at least one.
pub proof fn lemma_split_nonempty(s: Seq<char>, cut: spec_fn(char) -> bool)
    ensures
        split_where(s, cut).len() >= 1,
    decreases s.len(),
{
    if s.len() > 0 {
        lemma_split_nonempty(s.drop_last(), cut);
    }
}

/// The pieces of `s` between the occurrences of `sep`.
pub fn split_char(s: &str, sep: char) -> (r: Vec<String>)
    ensures
        views(r@) == split_on(s@, sep),
        r@.len() >= 1,
{
    let cs: Vec<char> = chars_of(s);
    let mut out: Vec<String> = Vec::new();
    let mut piece: String = String::new();
    let mut i: usize = 0;
    proof {
        assert(views(out@).push(piece@) =~= seq![Seq::<char>::empty()]);
        assert(s@.take(0) =~= Seq::<char>::empty());
    }
    while i < cs.len()
        invariant
            cs@ == s@,
            i <= cs@.len(),
            views(out@).push(piece@) == split_on(s@.take(i as int), sep),
        decreases cs@.len() - i,
    {
        let c: char = cs[i];
        let ghost before = views(out@).push(piece@);
        proof {
            assert(s@.take(i + 1).drop_last() =~= s@.take(i as int));
            assert(before.drop_last() =~= views(out@));
        }
        if c == sep {
            out.push(piece);
            piece = String::new();
            proof {
                assert(views(out@) =~= before);
                assert(piece@ =~= Seq::<char>::empty());
            }
        } else {
            piece.push(c);
        }
        i = i + 1;
    }
    let ghost o = out@;
    let ghost p = piece@;
    out.push(piece);
    proof {
        assert(views(out@) =~= views(o).push(p));
        assert(s@.take(s@.len() as int) =~= s@);
    }
    out
}

/// The parts one after the other with `sep` between each two.
pub open spec fn joined(parts: Seq<Seq<char>>, sep: Seq<char>) -> Seq<char>
    decreases parts.len(),
{
    if parts.len() == 0 {
        Seq::<char>::empty()
    } else if parts.len() == 1 {
        parts[0]
    } else {
        joined(parts.drop_last(), sep) + sep + parts.last()
    }
}

/// Joining undoes splitting: the pieces between the occurrences of `sep`, with
/// `sep` between each two, are the text again.
pub proof fn lemma_join_undoes_split(s: Seq<char>, sep: char)
    ensures
        joined(split_on(s, sep), seq![sep]) == s,
    decreases s.len(),
{
    let cut = is_char(sep);
    let mid = seq![sep];
    if s.len() == 0 {
        assert(s =~= Seq::<char>::empty());
    } else {
        let t = s.drop_last();
        let before = split_where(t, cut);
        lemma_split_nonempty(t, cut);
        lemma_join_undoes_split(t, sep);
        let pieces = split_where(s, cut);
        if s.last() == sep {
            assert(pieces.drop_last() =~= before);
            assert(joined(pieces, mid) =~= joined(before, mid) + mid);
            assert(s =~= t + mid);
        } else {
            assert(pieces.drop_last() =~= before.drop_last());
            if before.len() == 1 {
                assert(pieces.len() == 1);
                assert(joined(pieces, mid) == t.push(s.last()));
            } else {
                assert(joined(pieces, mid) =~= joined(before, mid).push(s.last()));
            }
            assert(s =~= t.push(s.last()));
        }
    }
}

/// A piece of a split holds no character that the text is split at.
pub proof fn lemma_pieces_are_uncut(s: Seq<char>, cut: spec_fn(char) -> bool, i: int, j: int)
    requires
        0 <= i < split_where(s, cut).len(),
        0 <= j < split_where(s, cut)[i].len(),
    ensures
        !cut(split_where(s, cut)[i][j]),
    decreases s.len(),
{
    if s.len() > 0 {
        let t = s.drop_last();
        let before = split_where(t, cut);
        let pieces = split_where(s, cut);
        lemma_split_nonempty(t, cut);
        if i < pieces.len() - 1 {
            assert(pieces[i] == before[i]);
            lemma_pieces_are_uncut(t, cut, i, j);
        } else if !cut(s.last()) && j < pieces[i].len() - 1 {
            assert(pieces[i][j] == before[i][j]);
            lemma_pieces_are_uncut(t, cut, i, j);
        }
    }
}

/// The strings one after the other with `sep` between each two.
pub fn join(parts: &Vec<String>, sep: &str) -> (r: String)
    ensures
        r@ == joined(views(parts@), sep@),
{
    proof {
        assert(views(parts@).subrange(0, parts@.len() as int) =~= views(parts@));
    }
    join_range(parts, 0, parts.len(), sep)
}

/// The strings `from..to` of `parts` with `sep` between each two.
pub fn join_range(parts: &Vec<String>, from: usize, to: usize, sep: &str) -> (r: String)
    requires
        from <= to <= parts@.len(),
    ensures
        r@ == joined(views(parts@.subrange(from as int, to as int)), sep@),
        r@ == joined(views(parts@).subrange(from as int, to as int), sep@),
{
    let mut out: String = String::new();
    let mut i: usize = from;
    let ghost all = views(parts@);
    proof {
        assert(all.subrange(from as int, from as int) =~= Seq::<Seq<char>>::empty());
        assert(out@ =~= Seq::<char>::empty());
    }
    while i < to
        invariant
            from <= i <= to <= parts@.len(),
            all == views(parts@),
            out@ == joined(all.subrange(from as int, i as int), sep@),
        decreases to - i,
    {
        let ghost prev = all.subrange(from as int, i as int);
        let ghost next = all.subrange(from as int, i + 1);
        proof {
            assert(next.drop_last() =~= prev);
            assert(next.last() == parts@[i as int]@);
        }
        if i > from {
            out.append(sep);
            out.append(parts[i].as_str());
        } else {
            out = parts[i].clone();
        }
        i = i + 1;
    }
    proof {
        assert(views(parts@.subrange(from as int, to as int)) =~= all.subrange(
            from as int,
            to as int,
        ));
    }
    out
}

/// The maximal runs of characters that are not white space, in order.
pub open spec fn words(s: Seq<char>) -> Seq<Seq<char>>
    decreases s.len(),
{
    if s.len() == 0 {
        Seq::<Seq<char>>::empty()
    } else {
        let before = words(s.drop_last());
        if is_white_space(s.last()) {
            before
        } else if s.len() >= 2 && !is_white_space(s[s.len() - 2]) {
            before.drop_last().push(before.last().push(s.last()))
        } else {
            before.push(seq![s.last()])
        }
    }
}

/// The maximal runs of characters that are not white space.
pub fn split_whitespace(s: &str) -> (r: Vec<String>)
    ensures
        views(r@) == words(s@),
{
    let cs: Vec<char> = chars_of(s);
    let mut out: Vec<String> = Vec::new();
    let mut word: String = String::new();
    let mut in_word: bool = false;
    let mut i: usize = 0;
    proof {
        assert(s@.take(0) =~= Seq::<char>::empty());
        assert(views(out@) =~= Seq::<Seq<char>>::empty());
    }
    while i < cs.len()
        invariant
            cs@ == s@,
            i <= cs@.len(),
            in_word == (i > 0 && !is_white_space(s@[i - 1])),
            in_word ==> views(out@).push(word@) == words(s@.take(i as int)),
            !in_word ==> views(out@) == words(s@.take(i as int)) && word@.len() == 0,
        decreases cs@.len() - i,
    {
        let c: char = cs[i];
        let ghost o = out@;
        let ghost w = word@;
        proof {
            assert(s@.take(i + 1).drop_last() =~= s@.take(i as int));
            if in_word {
                assert(views(o).push(w).drop_last() =~= views(o));
            }
        }
        if white_space(c) {
            if in_word {
                out.push(word);
                word = String::new();
                proof {
                    assert(views(out@) =~= views(o).push(w));
                }
            }
            in_word = false;
        } else {
            word.push(c);
            in_word = true;
            proof {
                if !(i > 0 && !is_white_space(s@[i - 1])) {
                    assert(w =~= Seq::<char>::empty());
                    assert(w.push(c) =~= seq![c]);
                }
            }
        }
        i = i + 1;
    }
    proof {
        assert(s@.take(s@.len() as int) =~= s@);
    }
    if in_word {
        let ghost o = out@;
        let ghost w = word@;
        out.push(word);
        proof {
            assert(views(out@) =~= views(o).push(w));
        }
    }
    out
}

// ── Decimal numbers ──

/// The character of a decimal digit.
pub open spec fn digit_char(d: nat) -> char
    recommends
        d < 10,
{
    ((d + 48) as u8) as char
}

/// `n` in decimal notation.
pub open spec fn decimal(n: nat) -> Seq<char>
    decreases n,
{
    if n < 10 {
        seq![digit_char(n)]
    } else {
        decimal(n / 10).push(digit_char(n % 10))
    }
}

/// `n` in decimal notation.
pub fn number(n: u64) -> (r: String)
    ensures
        r@ == decimal(n as nat),
    decreases n,
{
    let d: u8 = (n % 10) as u8;
    let c: char = (d + 48) as char;
    if n < 10 {
        let mut out: String = String::new();
        out.push(c);
        proof {
            assert(out@ =~= seq![digit_char(n as nat)]);
        }
        out
    } else {
        let mut out: String = number(n / 10);
        out.push(c);
        out
    }
}

/// Whether the character is an ASCII digit.
pub open spec fn is_digit(c: char) -> bool {
    '0' <= c && c <= '9'
}

/// The value of the digits read as one decimal number.
pub open spec fn digits_value(s: Seq<char>) -> nat
    decreases s.len(),
{
    if s.len() == 0 {
        0
    } else {
        digits_value(s.drop_last()) * 10 + ((s.last() as u32) - 48) as nat
    }
}

/// The digits of a number with an optional plus sign in front.
pub open spec fn unsigned_digits(s: Seq<char>) -> Seq<char> {
    if s.len() > 0 && s[0] == '+' {
        s.skip(1)
    } else {
        s
    }
}

/// The number that `s` spells: an optional plus sign and then digits alone, at
/// least one, whose value is at most `max`.
pub open spec fn parsed_number(s: Seq<char>, max: nat) -> Option<nat> {
    let d = unsigned_digits(s);
    if d.len() > 0 && (forall|i: int| 0 <= i < d.len() ==> is_digit(#[trigger] d[i]))
        && digits_value(d) <= max {
        Some(digits_value(d))
    } else {
        None
    }
}

/// Reads an unsigned decimal number that is at most `max`.
pub fn parse_number(s: &str, max: u64) -> (r: Option<u64>)
    ensures
        r is Some <==> parsed_number(s@, max as nat) is Some,
        r matches Some(n) ==> parsed_number(s@, max as nat) == Some(n as nat),
{
    let cs: Vec<char> = chars_of(s);
    let start: usize = if cs.len() > 0 && cs[0] == '+' {
        1
    } else {
        0
    };
    let ghost d = unsigned_digits(s@);
    proof {
        assert(d =~= s@.skip(start as int));
    }
    if cs.len() == start {
        return None;
    }
    let mut value: u64 = 0;
    let mut i: usize = start;
    let mut ok: bool = true;
    proof {
        assert(d.take(0) =~= Seq::<char>::empty());
    }
    while i < cs.len()
        invariant
            cs@ == s@,
            d == s@.skip(start as int),
            d == unsigned_digits(s@),
            start <= i <= cs@.len(),
            forall|j: int| 0 <= j < i - start ==> is_digit(#[trigger] d[j]),
            ok ==> value == digits_value(d.take(i - start)) && value <= max,
            !ok ==> digits_value(d.take(i - start)) > max,
        decreases cs@.len() - i,
    {
        let c: char = cs[i];
        proof {
            assert(d[i - start] == c);
            assert(d.take(i - start + 1).drop_last() =~= d.take(i - start));
        }
        if !('0' <= c && c <= '9') {
            proof {
                assert(!is_digit(d[i - start]));
            }
            return None;
        }
        let v: u64 = (c as u32 - 48) as u64;
        if ok {
            if value <= (u64::MAX - v) / 10 && value * 10 + v <= max {
                value = value * 10 + v;
            } else {
                ok = false;
            }
        }
        i = i + 1;
    }
    proof {
        assert(d.take(d.len() as int) =~= d);
        assert(forall|j: int| 0 <= j < d.len() ==> is_digit(#[trigger] d[j]));
    }
    if ok {
        Some(value)
    } else {
        None
    }
}

/// Reading a number undoes writing it.
pub proof fn lemma_number_round_trip(n: nat, max: nat)
    requires
        n <= max,
    ensures
        parsed_number(decimal(n), max) == Some(n),
{
    lemma_decimal(n);
    assert(decimal(n)[0] != '+');
}

proof fn lemma_decimal(n: nat)
    ensures
        decimal(n).len() > 0,
        forall|i: int| 0 <= i < decimal(n).len() ==> is_digit(#[trigger] decimal(n)[i]),
        digits_value(decimal(n)) == n,
    decreases n,
{
    let d = decimal(n);
    if n < 10 {
        assert(d.drop_last() =~= Seq::<char>::empty());
        assert(digits_value(d.drop_last()) == 0);
        assert(is_digit(digit_char(n)));
    } else {
        lemma_decimal(n / 10);
        assert(d.drop_last() =~= decimal(n / 10));
        assert(d.last() == digit_char(n % 10));
        assert(is_digit(digit_char(n % 10)));
        assert forall|i: int| 0 <= i < d.len() implies is_digit(#[trigger] d[i]) by {
            if i < d.len() - 1 {
                assert(d[i] == decimal(n / 10)[i]);
            }
        }
    }
}

// ── UTF-8 ──

/// The UTF-8 encoding of a text is the encodings of its parts in order.
pub proof fn lemma_encode_concat(a: Seq<char>, b: Seq<char>)
    ensures
        encode_utf8(a + b) == encode_utf8(a) + encode_utf8(b),
    decreases a.len(),
{
    if a.len() == 0 {
        assert(a + b =~= b);
        assert(encode_utf8(a) + encode_utf8(b) =~= encode_utf8(b));
    } else {
        lemma_encode_concat(a.drop_first(), b);
        assert((a + b).drop_first() =~= a.drop_first() + b);
        assert((a + b)[0] == a[0]);
        assert(encode_scalar(a[0] as u32) + (encode_utf8(a.drop_first()) + encode_utf8(b))
            =~= encode_utf8(a) + encode_utf8(b));
    }
}

/// The end of a text lies between two characters of any text that it starts.
pub proof fn lemma_boundary_concat(a: Seq<char>, b: Seq<char>)
    ensures
        is_char_boundary(encode_utf8(a + b), encode_utf8(a).len() as int),
    decreases a.len(),
{
    encode_utf8_valid_utf8(a + b);
    if a.len() > 0 {
        let s = a + b;
        lemma_boundary_concat(a.drop_first(), b);
        lemma_encode_concat(a, b);
        encode_utf8_first_scalar(s);
        assert(s.drop_first() =~= a.drop_first() + b);
        assert(s[0] == a[0]);
        assert(pop_first_scalar(encode_utf8(s)) =~= encode_utf8(s.drop_first()));
        assert(encode_utf8(a).len() == encode_scalar(a[0] as u32).len() + encode_utf8(
            a.drop_first(),
        ).len());
    }
}

/// The start of a text up to a byte.
pub open spec fn head_text(s: Seq<char>, byte: int) -> Seq<char> {
    decode_utf8(encode_utf8(s).subrange(0, byte))
}

/// The end of a text from a byte on.
pub open spec fn tail_text(s: Seq<char>, byte: int) -> Seq<char> {
    decode_utf8(encode_utf8(s).subrange(byte, encode_utf8(s).len() as int))
}

/// A text is its start and its end, and its start is as long as was asked for.
pub proof fn lemma_head_and_tail(s: Seq<char>, byte: int)
    requires
        is_char_boundary(encode_utf8(s), byte),
    ensures
        s == head_text(s, byte) + tail_text(s, byte),
        encode_utf8(head_text(s, byte)).len() == byte,
{
    let b = encode_utf8(s);
    encode_utf8_valid_utf8(s);
    encode_utf8_decode_utf8(s);
    valid_utf8_split(b, byte);
    decode_utf8_split(b, byte);
    decode_utf8_encode_utf8(b.subrange(0, byte));
    lemma_boundary_in_range(b, byte);
}

proof fn lemma_boundary_in_range(b: Seq<u8>, byte: int)
    requires
        valid_utf8(b),
        is_char_boundary(b, byte),
    ensures
        0 <= byte <= b.len(),
{
}

/// Cuts a text in two at a byte that lies between two characters.
pub fn cut_at(s: &str, byte: usize) -> (r: (String, String))
    requires
        is_char_boundary(encode_utf8(s@), byte as int),
    ensures
        r.0@ == head_text(s@, byte as int),
        r.1@ == tail_text(s@, byte as int),
{
    let (a, b) = s.split_at(byte);
    proof {
        encode_utf8_decode_utf8(a@);
        encode_utf8_decode_utf8(b@);
    }
    (a.to_owned(), b.to_owned())
}

} // verus!
