//! The knowledge base: documents in chunks, and the search over them.

use crate::outside;
use crate::outside::{is_alphanumeric, new_id, to_lowercase};
use crate::store::Store;
use crate::text;
use crate::text::{byte_len, chars_of, concat2, join_range, split_whitespace, trim_end_copies};
use vstd::prelude::*;
use vstd::utf8::*;

verus! {

/// A piece of a document. The numbers of the embedding are single-precision
/// floating-point numbers, each held as its bits.
#[derive(Clone, Debug)]
pub struct DocChunk {
    pub id: String,
    pub text: String,
    pub source: String,
    pub chunk_idx: usize,
    pub embedding: Vec<u32>,
}

// ── Chunks ──

/// The word that chunk `i` starts with, where chunks are `size` words long and
/// share `overlap` words with the next.
pub open spec fn chunk_start(i: int, size: int, overlap: int) -> int {
    i * (size - overlap)
}

/// The word behind the last one of chunk `i` of a text of `n` words.
pub open spec fn chunk_end(i: int, size: int, overlap: int, n: int) -> int {
    if chunk_start(i, size, overlap) + size < n {
        chunk_start(i, size, overlap) + size
    } else {
        n
    }
}

/// A text of `n` words makes `count` chunks: the last one is the first to reach
/// the end. A text without words makes none.
pub open spec fn makes_chunks(n: int, size: int, overlap: int, count: int) -> bool {
    if n == 0 {
        count == 0
    } else {
        &&& count > 0
        &&& forall|i: int|
            0 <= i < count - 1 ==> #[trigger] chunk_start(i, size, overlap) + size < n
        &&& chunk_start(count - 1, size, overlap) + size >= n
    }
}

/// A text makes one number of chunks and no other.
pub proof fn lemma_one_chunk_count(n: int, size: int, overlap: int, a: int, b: int)
    requires
        makes_chunks(n, size, overlap, a),
        makes_chunks(n, size, overlap, b),
    ensures
        a == b,
{
    if a < b {
        assert(chunk_start(a - 1, size, overlap) + size < n);
    }
    if b < a {
        assert(chunk_start(b - 1, size, overlap) + size < n);
    }
}

/// The next chunk starts `overlap` words before the end of the chunk before it.
pub proof fn lemma_chunks_overlap(n: int, size: int, overlap: int, count: int, i: int)
    requires
        makes_chunks(n, size, overlap, count),
        0 <= i < count - 1,
    ensures
        chunk_start(i + 1, size, overlap) == chunk_end(i, size, overlap, n) - overlap,
{
    assert(chunk_start(i, size, overlap) + size < n);
    assert((i + 1) * (size - overlap) == i * (size - overlap) + (size - overlap))
        by (nonlinear_arith);
}

/// Every word of the text is in some chunk.
pub proof fn lemma_chunks_cover(n: int, size: int, overlap: int, count: int, k: int)
    requires
        makes_chunks(n, size, overlap, count),
        0 <= overlap,
        0 <= k < n,
    ensures
        exists|i: int|
            0 <= i < count && #[trigger] chunk_start(i, size, overlap) <= k < chunk_end(
                i,
                size,
                overlap,
                n,
            ),
{
    lemma_cover_until(n, size, overlap, count, k, count - 1);
}

proof fn lemma_cover_until(n: int, size: int, overlap: int, count: int, k: int, j: int)
    requires
        makes_chunks(n, size, overlap, count),
        0 <= overlap,
        0 <= k < n,
        0 <= j < count,
        k < chunk_end(j, size, overlap, n),
    ensures
        exists|i: int|
            0 <= i < count && #[trigger] chunk_start(i, size, overlap) <= k < chunk_end(
                i,
                size,
                overlap,
                n,
            ),
    decreases j,
{
    assert(chunk_start(0, size, overlap) == 0) by (nonlinear_arith);
    if chunk_start(j, size, overlap) <= k {
    } else {
        assert(j > 0);
        lemma_chunks_overlap(n, size, overlap, count, j - 1);
        lemma_cover_until(n, size, overlap, count, k, j - 1);
    }
}

/// The words of a text, cut into chunks of `chunk_size` words that overlap by
/// `overlap` words. The identifiers of the chunks are random.
pub fn chunk_text(text: &str, chunk_size: usize, overlap: usize, source: &str) -> (r: Vec<DocChunk>)
    requires
        text::words(text@).len() <= chunk_size || overlap < chunk_size,
    ensures
        makes_chunks(
            text::words(text@).len() as int,
            chunk_size as int,
            overlap as int,
            r@.len() as int,
        ),
        forall|i: int|
            0 <= i < r@.len() ==> {
                &&& is_chunk(#[trigger] r@[i], text::words(text@), chunk_size as int, overlap as int, i)
                &&& r@[i].source@ == source@
            },
{
    let words: Vec<String> = split_whitespace(text);
    let n: usize = words.len();
    let mut chunks: Vec<DocChunk> = Vec::new();
    let ghost w = text::words(text@);
    proof {
        assert(w.len() == n);
    }
    if n == 0 {
        return chunks;
    }
    let mut start: usize = 0;
    let mut idx: usize = 0;
    let mut done: bool = false;
    proof {
        assert(chunk_start(0, chunk_size as int, overlap as int) == 0) by (nonlinear_arith);
    }
    while !done
        invariant
            text::views(words@) == w,
            w.len() == n,
            n > 0,
            n <= chunk_size || overlap < chunk_size,
            !done ==> start == chunk_start(idx as int, chunk_size as int, overlap as int),
            !done ==> start < n,
            !done ==> idx == chunks@.len(),
            !done ==> idx <= start,
            !done ==> forall|i: int|
                0 <= i < chunks@.len() ==> #[trigger] chunk_start(
                    i,
                    chunk_size as int,
                    overlap as int,
                ) + chunk_size < n,
            done ==> makes_chunks(
                n as int,
                chunk_size as int,
                overlap as int,
                chunks@.len() as int,
            ),
            forall|i: int|
                0 <= i < chunks@.len() ==> {
                    &&& is_chunk(#[trigger] chunks@[i], w, chunk_size as int, overlap as int, i)
                    &&& chunks@[i].source@ == source@
                },
        decreases (if done { 0int } else { 1 + n - start }),
    {
        let end: usize = if chunk_size >= n - start {
            n
        } else {
            start + chunk_size
        };
        let piece: String = join_range(&words, start, end, " ");
        let chunk = DocChunk {
            id: new_id(),
            text: piece,
            source: source.to_owned(),
            chunk_idx: idx,
            embedding: Vec::new(),
        };
        proof {
            assert(chunk.embedding@ =~= Seq::<u32>::empty());
        }
        chunks.push(chunk);
        if end == n {
            done = true;
        } else {
            proof {
                assert((idx + 1) * (chunk_size - overlap) == idx * (chunk_size - overlap) + (
                chunk_size - overlap)) by (nonlinear_arith);
            }
            start = end - overlap;
            idx = idx + 1;
        }
    }
    chunks
}

/// The chunk holds the words of its place, joined by spaces.
pub open spec fn is_chunk(
    c: DocChunk,
    words: Seq<Seq<char>>,
    size: int,
    overlap: int,
    i: int,
) -> bool {
    &&& outside::is_uuid(c.id@)
    &&& c.text@ == text::joined(
        words.subrange(
            chunk_start(i, size, overlap),
            chunk_end(i, size, overlap, words.len() as int),
        ),
        " "@,
    )
    &&& c.chunk_idx == i
    &&& c.embedding@ == Seq::<u32>::empty()
}

// ── Terms ──

/// The predicate that holds of all but letters and digits.
pub open spec fn separates() -> spec_fn(char) -> bool {
    |c: char| !outside::alphanumeric(c)
}

/// The terms of a text in lower case: the runs of letters and digits of more
/// than one byte.
pub open spec fn terms_of(lower: Seq<char>) -> Seq<Seq<char>> {
    text::split_where(lower, separates()).filter(|t: Seq<char>| encode_utf8(t).len() > 1)
}

fn split_terms(lower: &str) -> (r: Vec<String>)
    ensures
        text::views(r@) == text::split_where(lower@, separates()),
{
    let cs: Vec<char> = chars_of(lower);
    let mut out: Vec<String> = Vec::new();
    let mut piece: String = String::new();
    let mut i: usize = 0;
    proof {
        assert(text::views(out@).push(piece@) =~= seq![Seq::<char>::empty()]);
        assert(lower@.take(0) =~= Seq::<char>::empty());
    }
    while i < cs.len()
        invariant
            cs@ == lower@,
            i <= cs@.len(),
            text::views(out@).push(piece@) == text::split_where(lower@.take(i as int), separates()),
        decreases cs@.len() - i,
    {
        let c: char = cs[i];
        let ghost before = text::views(out@).push(piece@);
        proof {
            assert(lower@.take(i + 1).drop_last() =~= lower@.take(i as int));
            assert(before.drop_last() =~= text::views(out@));
        }
        if !is_alphanumeric(c) {
            out.push(piece);
            piece = String::new();
            proof {
                assert(text::views(out@) =~= before);
                assert(piece@ =~= Seq::<char>::empty());
            }
        } else {
            piece.push(c);
        }
        i = i + 1;
    }
    let ghost o = out@;
    let ghost p = piece@;
    out.push(piece);
    proof {
        assert(text::views(out@) =~= text::views(o).push(p));
        assert(lower@.take(lower@.len() as int) =~= lower@);
    }
    out
}

/// The terms of a text in lower case.
pub fn terms(lower: &str) -> (r: Vec<String>)
    ensures
        text::views(r@) == terms_of(lower@),
{
    let pieces: Vec<String> = split_terms(lower);
    let ghost long = |t: Seq<char>| encode_utf8(t).len() > 1;
    let ghost all = text::views(pieces@);
    let mut out: Vec<String> = Vec::new();
    let mut i: usize = 0;
    proof {
        reveal(Seq::filter);
        assert(all.take(0) =~= Seq::<Seq<char>>::empty());
        assert(text::views(out@) =~= Seq::<Seq<char>>::empty());
    }
    while i < pieces.len()
        invariant
            all == text::views(pieces@),
            long == (|t: Seq<char>| encode_utf8(t).len() > 1),
            i <= pieces@.len(),
            text::views(out@) == all.take(i as int).filter(long),
        decreases pieces@.len() - i,
    {
        let ghost o = out@;
        proof {
            reveal(Seq::filter);
            assert(all.take(i + 1).drop_last() =~= all.take(i as int));
            assert(all.take(i + 1).last() == pieces@[i as int]@);
        }
        if byte_len(pieces[i].as_str()) > 1 {
            out.push(pieces[i].clone());
            proof {
                assert(text::views(out@) =~= text::views(o).push(pieces@[i as int]@));
            }
        }
        i = i + 1;
    }
    proof {
        assert(all.take(all.len() as int) =~= all);
    }
    out
}

/// The terms of a text, in lower case.
pub fn tokenize(text: &str) -> (r: Vec<String>)
    ensures
        text::views(r@) == terms_of(outside::lowercase(text@)),
{
    let lower: String = to_lowercase(text);
    terms(lower.as_str())
}

/// A term is made of letters and digits alone, and is longer than one byte.
pub proof fn lemma_terms_are_words(lower: Seq<char>, i: int)
    requires
        0 <= i < terms_of(lower).len(),
    ensures
        encode_utf8(terms_of(lower)[i]).len() > 1,
        forall|j: int|
            0 <= j < terms_of(lower)[i].len() ==> outside::alphanumeric(
                #[trigger] terms_of(lower)[i][j],
            ),
{
    let pieces = text::split_where(lower, separates());
    let long = |t: Seq<char>| encode_utf8(t).len() > 1;
    let t = terms_of(lower)[i];
    pieces.lemma_filter_pred(long, i);
    assert(pieces.filter(long).contains(t));
    pieces.lemma_filter_contains_rev(long, t);
    let k = choose|k: int| 0 <= k < pieces.len() && pieces[k] == t;
    assert forall|j: int| 0 <= j < t.len() implies outside::alphanumeric(#[trigger] t[j]) by {
        text::lemma_pieces_are_uncut(lower, separates(), k, j);
    }
}

/// How often a term occurs.
pub open spec fn occurrences(tokens: Seq<Seq<char>>, t: Seq<char>) -> nat
    decreases tokens.len(),
{
    if tokens.len() == 0 {
        0
    } else {
        occurrences(tokens.drop_last(), t) + if tokens.last() == t {
            1nat
        } else {
            0
        }
    }
}

proof fn lemma_occurrences(tokens: Seq<Seq<char>>, t: Seq<char>)
    ensures
        occurrences(tokens, t) <= tokens.len(),
        occurrences(tokens, t) > 0 <==> tokens.contains(t),
    decreases tokens.len(),
{
    if tokens.len() > 0 {
        lemma_occurrences(tokens.drop_last(), t);
        if tokens.contains(t) && tokens.last() != t {
            let i = choose|i: int| 0 <= i < tokens.len() && tokens[i] == t;
            assert(tokens.drop_last()[i] == t);
        }
        if tokens.drop_last().contains(t) {
            let i = choose|i: int|
                0 <= i < tokens.drop_last().len() && tokens.drop_last()[i] == t;
            assert(tokens[i] == t);
        }
        if tokens.last() == t {
            assert(tokens[tokens.len() - 1] == t);
        }
    }
}

/// A count under each term that is counted at all.
pub open spec fn counts(m: Map<Seq<char>, usize>, f: spec_fn(Seq<char>) -> nat) -> bool {
    &&& forall|t: Seq<char>| #[trigger] m.contains_key(t) <==> f(t) > 0
    &&& forall|t: Seq<char>| #[trigger] m.contains_key(t) ==> m[t] == f(t)
}

/// How often each term of a list occurs.
pub fn term_counts(tokens: &Vec<String>) -> (r: Store<usize>)
    ensures
        r.wf(),
        counts(r@, |t: Seq<char>| occurrences(text::views(tokens@), t)),
{
    let mut table: Store<usize> = Store::new();
    let ghost all = text::views(tokens@);
    let mut i: usize = 0;
    proof {
        assert(all.take(0) =~= Seq::<Seq<char>>::empty());
    }
    while i < tokens.len()
        invariant
            all == text::views(tokens@),
            table.wf(),
            i <= tokens@.len(),
            counts(table@, |t: Seq<char>| occurrences(all.take(i as int), t)),
        decreases tokens@.len() - i,
    {
        let n: usize = match table.get(tokens[i].as_str()) {
            Some(n) => *n,
            None => 0,
        };
        let ghost f = |t: Seq<char>| occurrences(all.take(i as int), t);
        let ghost g = |t: Seq<char>| occurrences(all.take(i + 1), t);
        proof {
            let t = tokens@[i as int]@;
            lemma_occurrences(all.take(i as int), t);
            assert(f(t) == n);
            assert(all.take(i + 1).drop_last() =~= all.take(i as int));
            assert(all.take(i + 1).last() == t);
            assert forall|u: Seq<char>| true implies #[trigger] g(u) == f(u) + if u == t {
                1nat
            } else {
                0
            } by {}
        }
        table.insert(tokens[i].clone(), n + 1);
        i = i + 1;
        proof {
            assert forall|u: Seq<char>| #[trigger] table@.contains_key(u) <==> g(u) > 0 by {
                assert(f(u) >= 0);
            }
        }
    }
    proof {
        assert(all.take(all.len() as int) =~= all);
    }
    table
}

/// In how many documents a term occurs.
pub open spec fn documents_with(docs: Seq<Seq<Seq<char>>>, t: Seq<char>) -> nat
    decreases docs.len(),
{
    if docs.len() == 0 {
        0
    } else {
        documents_with(docs.drop_last(), t) + if docs.last().contains(t) {
            1nat
        } else {
            0
        }
    }
}

proof fn lemma_documents_with(docs: Seq<Seq<Seq<char>>>, t: Seq<char>)
    ensures
        documents_with(docs, t) <= docs.len(),
    decreases docs.len(),
{
    if docs.len() > 0 {
        lemma_documents_with(docs.drop_last(), t);
    }
}

/// The terms of each chunk.
pub open spec fn chunk_terms(chunks: Seq<DocChunk>) -> Seq<Seq<Seq<char>>> {
    chunks.map_values(|c: DocChunk| terms_of(outside::lowercase(c.text@)))
}

/// Counts the terms of one more document.
fn count_document(table: &mut Store<usize>, tokens: &Vec<String>, docs: Ghost<Seq<Seq<Seq<char>>>>)
    requires
        old(table).wf(),
        docs@.len() < usize::MAX,
        counts(old(table)@, |t: Seq<char>| documents_with(docs@, t)),
    ensures
        final(table).wf(),
        counts(
            final(table)@,
            |t: Seq<char>| documents_with(docs@.push(text::views(tokens@)), t),
        ),
{
    let seen: Store<usize> = term_counts(tokens);
    let ghost keys = seen.keys();
    let ghost words = text::views(tokens@);
    let ghost f = |t: Seq<char>| documents_with(docs@, t);
    proof {
        seen.lemma_shape();
        assert(keys.take(0) =~= Seq::<Seq<char>>::empty());
        assert forall|t: Seq<char>| keys.contains(t) <==> #[trigger] words.contains(t) by {
            lemma_occurrences(words, t);
            assert(seen@.contains_key(t) <==> keys.contains(t));
        }
    }
    let mut j: usize = 0;
    while j < seen.len()
        invariant
            seen.wf(),
            keys == seen.keys(),
            keys.no_duplicates(),
            table.wf(),
            j <= keys.len(),
            docs@.len() < usize::MAX,
            f == (|t: Seq<char>| documents_with(docs@, t)),
            counts(
                table@,
                |t: Seq<char>|
                    f(t) + if keys.take(j as int).contains(t) {
                        1nat
                    } else {
                        0
                    },
            ),
        decreases keys.len() - j,
    {
        let key: String = seen.key_at(j).clone();
        let ghost before = |t: Seq<char>|
            f(t) + if keys.take(j as int).contains(t) {
                1nat
            } else {
                0
            };
        let ghost after = |t: Seq<char>|
            f(t) + if keys.take(j + 1).contains(t) {
                1nat
            } else {
                0
            };
        proof {
            lemma_documents_with(docs@, key@);
            assert(!keys.take(j as int).contains(key@));
            assert(keys.take(j + 1) =~= keys.take(j as int).push(key@));
            assert forall|u: Seq<char>| true implies #[trigger] after(u) == before(u) + if u == key@ {
                1nat
            } else {
                0
            } by {
                let a = keys.take(j as int);
                let b = keys.take(j + 1);
                if a.contains(u) {
                    let i = choose|i: int| 0 <= i < a.len() && a[i] == u;
                    assert(b[i] == u);
                }
                if b.contains(u) && u != key@ {
                    let i = choose|i: int| 0 <= i < b.len() && b[i] == u;
                    assert(a[i] == u);
                }
                assert(b[j as int] == key@);
            }
            assert(before(key@) == f(key@));
        }
        let n: usize = match table.get(key.as_str()) {
            Some(n) => *n,
            None => 0,
        };
        table.insert(key, n + 1);
        j = j + 1;
        proof {
            assert forall|u: Seq<char>| #[trigger] table@.contains_key(u) <==> after(u) > 0 by {
                assert(before(u) >= 0);
            }
        }
    }
    proof {
        assert(keys.take(keys.len() as int) =~= keys);
        let all = docs@.push(words);
        assert(all.drop_last() =~= docs@);
        let last = |t: Seq<char>|
            f(t) + if keys.take(j as int).contains(t) {
                1nat
            } else {
                0
            };
        assert forall|t: Seq<char>| true implies #[trigger] documents_with(all, t) == last(t) by {
            assert(words.contains(t) <==> keys.contains(t));
        }
        let g = |t: Seq<char>| documents_with(all, t);
        assert forall|t: Seq<char>| #[trigger] table@.contains_key(t) <==> g(t) > 0 by {
            assert(g(t) == last(t));
        }
        assert forall|t: Seq<char>| #[trigger] table@.contains_key(t) implies table@[t] == g(t) by {
            assert(g(t) == last(t));
        }
    }
}

// ── Ranking ──

/// The bits of positive infinity, the largest number above zero.
pub const INFINITY_BITS: u32 = 0x7f80_0000;

/// The number with these bits is above zero. Numbers above zero are in the
/// order of their bits.
pub open spec fn is_positive(bits: u32) -> bool {
    0 < bits <= INFINITY_BITS
}

/// Place `a` comes before place `b`: it scores more, or as much and stands
/// first.
pub open spec fn ranks_before(scores: Seq<u32>, a: int, b: int) -> bool {
    scores[a] > scores[b] || (scores[a] == scores[b] && a < b)
}

/// The places that score above zero, each once, the best first.
pub open spec fn is_ranking(order: Seq<int>, scores: Seq<u32>) -> bool {
    &&& forall|i: int|
        0 <= i < order.len() ==> 0 <= #[trigger] order[i] < scores.len() && is_positive(
            scores[order[i]],
        )
    &&& forall|p: int|
        0 <= p < scores.len() && is_positive(#[trigger] scores[p]) ==> order.contains(p)
    &&& forall|i: int, j: int|
        0 <= i < j < order.len() ==> ranks_before(scores, #[trigger] order[i], #[trigger] order[j])
}

/// There is one ranking: two of the same scores are the same.
pub proof fn lemma_one_ranking(a: Seq<int>, b: Seq<int>, scores: Seq<u32>)
    requires
        is_ranking(a, scores),
        is_ranking(b, scores),
    ensures
        a == b,
{
    lemma_ranking_prefix(a, b, scores, a.len() as int);
    lemma_ranking_prefix(b, a, scores, b.len() as int);
    assert(a =~= b);
}

proof fn lemma_ranking_prefix(a: Seq<int>, b: Seq<int>, scores: Seq<u32>, n: int)
    requires
        is_ranking(a, scores),
        is_ranking(b, scores),
        0 <= n <= a.len(),
    ensures
        n <= b.len(),
        forall|i: int| 0 <= i < n ==> a[i] == b[i],
    decreases n,
{
    if n > 0 {
        lemma_ranking_prefix(a, b, scores, n - 1);
        let p = a[n - 1];
        assert(is_positive(scores[p]));
        assert(b.contains(p));
        let j = choose|j: int| 0 <= j < b.len() && b[j] == p;
        if j < n - 1 {
            assert(a[j] == b[j]);
            assert(ranks_before(scores, a[j], a[n - 1]));
        }
        assert(n - 1 <= j);
        if j > n - 1 {
            let q = b[n - 1];
            assert(is_positive(scores[q]));
            assert(a.contains(q));
            assert(ranks_before(scores, b[n - 1], b[j]));
            let i = choose|i: int| 0 <= i < a.len() && a[i] == q;
            if i < n - 1 {
                assert(a[i] == b[i]);
                assert(ranks_before(scores, b[i], b[n - 1]));
            } else if i > n - 1 {
                assert(ranks_before(scores, a[n - 1], a[i]));
            }
        }
    }
}

/// The places of a list.
pub open spec fn places(order: Seq<usize>) -> Seq<int> {
    order.map_values(|p: usize| p as int)
}

/// The order in which places rank does not change where more scores follow.
proof fn lemma_ranks_before_grows(scores: Seq<u32>, n: int, m: int, a: int, b: int)
    requires
        0 <= a < n <= m <= scores.len(),
        0 <= b < n,
    ensures
        ranks_before(scores.take(n), a, b) == ranks_before(scores.take(m), a, b),
{
}

/// A place that scores above zero goes in front of the first one that scores
/// less.
proof fn lemma_rank_insert(before: Seq<int>, scores: Seq<u32>, p: int, at: int)
    requires
        0 <= p < scores.len(),
        is_positive(scores[p]),
        is_ranking(before, scores.take(p)),
        0 <= at <= before.len(),
        forall|i: int| at <= i < before.len() ==> scores[#[trigger] before[i]] < scores[p],
        at > 0 ==> scores[before[at - 1]] >= scores[p],
    ensures
        is_ranking(before.insert(at, p), scores.take(p + 1)),
{
    let now = before.insert(at, p);
    let olds = scores.take(p);
    let news = scores.take(p + 1);
    assert forall|q: int| 0 <= q < news.len() && is_positive(#[trigger] news[q]) implies now.contains(
        q,
    ) by {
        if q < p {
            assert(olds[q] == news[q]);
            let i = choose|i: int| 0 <= i < before.len() && before[i] == q;
            if i < at {
                assert(now[i] == q);
            } else {
                assert(now[i + 1] == q);
            }
        } else {
            assert(now[at] == p);
        }
    }
    assert forall|i: int| 0 <= i < now.len() implies 0 <= #[trigger] now[i] < news.len()
        && is_positive(news[now[i]]) by {
        if i < at {
            assert(now[i] == before[i]);
        } else if i > at {
            assert(now[i] == before[i - 1]);
        }
    }
    assert forall|i: int, j: int| 0 <= i < j < now.len() implies ranks_before(
        news,
        #[trigger] now[i],
        #[trigger] now[j],
    ) by {
        if i == at {
            assert(now[j] == before[j - 1]);
        } else if j == at {
            assert(now[i] == before[i]);
            if i < at - 1 {
                assert(ranks_before(olds, before[i], before[at - 1]));
            }
        } else {
            let x = if i < at {
                i
            } else {
                i - 1
            };
            let y = if j < at {
                j
            } else {
                j - 1
            };
            assert(now[i] == before[x] && now[j] == before[y]);
            assert(ranks_before(olds, before[x], before[y]));
            lemma_ranks_before_grows(scores, p, p + 1, before[x], before[y]);
        }
    }
}

/// A place that does not score above zero is left out.
proof fn lemma_rank_skip(order: Seq<int>, scores: Seq<u32>, p: int)
    requires
        0 <= p < scores.len(),
        !is_positive(scores[p]),
        is_ranking(order, scores.take(p)),
    ensures
        is_ranking(order, scores.take(p + 1)),
{
    let olds = scores.take(p);
    let news = scores.take(p + 1);
    assert forall|q: int| 0 <= q < news.len() && is_positive(#[trigger] news[q]) implies order.contains(
        q,
    ) by {
        assert(olds[q] == news[q]);
    }
    assert forall|i: int, j: int| 0 <= i < j < order.len() implies ranks_before(
        news,
        #[trigger] order[i],
        #[trigger] order[j],
    ) by {
        assert(ranks_before(olds, order[i], order[j]));
        lemma_ranks_before_grows(scores, p, p + 1, order[i], order[j]);
    }
}

/// The places that score above zero, the best first; of equal scores, the one
/// that stands first.
pub fn rank(scores: &Vec<u32>) -> (r: Vec<usize>)
    ensures
        is_ranking(places(r@), scores@),
{
    let mut order: Vec<usize> = Vec::new();
    let mut p: usize = 0;
    while p < scores.len()
        invariant
            p <= scores@.len(),
            is_ranking(places(order@), scores@.take(p as int)),
        decreases scores@.len() - p,
    {
        let s: u32 = scores[p];
        if 0 < s && s <= INFINITY_BITS {
            let mut at: usize = order.len();
            let ghost before = places(order@);
            proof {
                assert forall|i: int| 0 <= i < order@.len() implies (#[trigger] order@[i]) < p by {
                    assert(before[i] == order@[i]);
                }
            }
            while at > 0 && scores[order[at - 1]] < s
                invariant
                    p < scores@.len(),
                    s == scores@[p as int],
                    at <= order@.len(),
                    before == places(order@),
                    forall|i: int| at <= i < before.len() ==> scores@[#[trigger] before[i]] < s,
                    forall|i: int| 0 <= i < order@.len() ==> (#[trigger] order@[i]) < p,
                decreases at,
            {
                proof {
                    assert(before[at - 1] == order@[at - 1]);
                }
                at = at - 1;
            }
            proof {
                if at > 0 {
                    assert(before[at - 1] == order@[at - 1]);
                }
                lemma_rank_insert(before, scores@, p as int, at as int);
            }
            order.insert(at, p);
            proof {
                assert(places(order@) =~= before.insert(at as int, p as int));
            }
        } else {
            proof {
                lemma_rank_skip(places(order@), scores@, p as int);
            }
        }
        p = p + 1;
    }
    proof {
        assert(scores@.take(scores@.len() as int) =~= scores@);
    }
    order
}

// ── The store ──

/// What is stored under each identifier once the chunks have been put in, one
/// after the other.
pub open spec fn stored(m: Map<Seq<char>, DocChunk>, chunks: Seq<DocChunk>) -> Map<
    Seq<char>,
    DocChunk,
>
    decreases chunks.len(),
{
    if chunks.len() == 0 {
        m
    } else {
        stored(m, chunks.drop_last()).insert(chunks.last().id@, chunks.last())
    }
}

/// A chunk with its embedding, where there is one to be had.
pub open spec fn embedded(c: DocChunk, e: Option<Vec<u32>>) -> DocChunk {
    match e {
        Some(v) => DocChunk { embedding: v, ..c },
        None => c,
    }
}

/// Each chunk with its embedding, where there is one to be had.
pub open spec fn all_embedded(chunks: Seq<(DocChunk, Option<Vec<u32>>)>) -> Seq<DocChunk> {
    chunks.map_values(|c: (DocChunk, Option<Vec<u32>>)| embedded(c.0, c.1))
}

/// The first `k` texts in the order of a ranking.
pub open spec fn best_texts(chunks: Seq<DocChunk>, order: Seq<int>, k: nat) -> Seq<Seq<char>> {
    let n = if k < order.len() {
        k
    } else {
        order.len()
    };
    Seq::new(n, |i: int| chunks[order[i]].text@)
}

/// The model that computes embeddings unless another one is asked for.
pub const EMBED_MODEL: &'static str = "nomic-embed-text";

/// Where the index of a database is kept on disk.
pub fn index_path(db_path: &str) -> (r: String)
    ensures
        r@ == text::trim_end_text(db_path@, ".db"@) + ".rag.json"@,
{
    proof {
        reveal_strlit(".db");
    }
    let base: String = trim_end_copies(db_path, ".db");
    concat2(base.as_str(), ".rag.json")
}

/// The knowledge base.
pub struct RagStore {
    docs: Store<DocChunk>,
    ollama_url: String,
    embed_model: String,
    index_file: String,
}

impl RagStore {
    /// Every chunk is stored under its identifier.
    pub closed spec fn wf(self) -> bool {
        &&& self.docs.wf()
        &&& forall|id: Seq<char>| #[trigger]
            self.docs@.contains_key(id) ==> self.docs@[id].id@ == id
    }

    /// The chunks under their identifiers.
    pub closed spec fn view(self) -> Map<Seq<char>, DocChunk> {
        self.docs@
    }

    /// The chunks in the order in which they are searched.
    pub closed spec fn chunks(self) -> Seq<DocChunk> {
        self.docs.values()
    }

    /// Where embeddings are computed, by which model, and where the index is
    /// kept.
    pub closed spec fn settings(self) -> (Seq<char>, Seq<char>, Seq<char>) {
        (self.ollama_url@, self.embed_model@, self.index_file@)
    }

    /// The chunks that are searched are the ones that are stored, each once.
    pub proof fn lemma_chunks_are_stored(self)
        requires
            self.wf(),
        ensures
            forall|i: int|
                0 <= i < self.chunks().len() ==> self@.contains_key(
                    (#[trigger] self.chunks()[i]).id@,
                ) && self@[self.chunks()[i].id@] == self.chunks()[i],
            forall|id: Seq<char>| #[trigger]
                self@.contains_key(id) ==> self.chunks().contains(self@[id]),
            forall|i: int, j: int|
                0 <= i < j < self.chunks().len() ==> (#[trigger] self.chunks()[i]).id@ != (
                #[trigger] self.chunks()[j]).id@,
    {
        self.docs.lemma_shape();
        let keys = self.docs.keys();
        assert forall|i: int| 0 <= i < self.chunks().len() implies self@.contains_key(
            (#[trigger] self.chunks()[i]).id@,
        ) && self@[self.chunks()[i].id@] == self.chunks()[i] && self.chunks()[i].id@ == keys[i] by {
            assert(self@.contains_key(keys[i]) && self@[keys[i]] == self.chunks()[i]);
        }
        assert forall|id: Seq<char>| #[trigger]
            self@.contains_key(id) implies self.chunks().contains(self@[id]) by {
            assert(keys.contains(id));
            let i = choose|i: int| 0 <= i < keys.len() && keys[i] == id;
            assert(self@[keys[i]] == self.chunks()[i]);
        }
    }

    /// A knowledge base beside the database, with the chunks that were kept on
    /// disk.
    pub fn new(
        db_path: &str,
        ollama_url: &str,
        embed_model: &Option<String>,
        loaded: Vec<DocChunk>,
    ) -> (r: Self)
        ensures
            r.wf(),
            r.settings() == (
                ollama_url@,
                text::or_default(*embed_model, EMBED_MODEL@),
                text::trim_end_text(db_path@, ".db"@) + ".rag.json"@,
            ),
            r@ == stored(Map::empty(), loaded@),
    {
        let mut r = RagStore {
            docs: Store::new(),
            ollama_url: ollama_url.to_owned(),
            embed_model: text::text_or(embed_model, EMBED_MODEL),
            index_file: index_path(db_path),
        };
        r.put_all(loaded);
        r
    }

    /// Stores the chunks, one after the other.
    fn put_all(&mut self, chunks: Vec<DocChunk>)
        requires
            old(self).wf(),
        ensures
            final(self).wf(),
            final(self).settings() == old(self).settings(),
            final(self)@ == stored(old(self)@, chunks@),
    {
        let ghost all = chunks@;
        let ghost first = *self;
        proof {
            assert(all.take(0) =~= Seq::<DocChunk>::empty());
        }
        for chunk in it: chunks
            invariant
                it.seq() == all,
                self.wf(),
                self.settings() == first.settings(),
                self@ == stored(first@, all.take(it.index() as int)),
        {
            proof {
                assert(all.take(it.index() + 1).drop_last() =~= all.take(it.index() as int));
            }
            self.docs.insert(chunk.id.clone(), chunk);
        }
        proof {
            assert(all.take(all.len() as int) =~= all);
        }
    }

    /// Stores the chunks, each with its embedding where one was to be had. A
    /// chunk takes the place of an earlier one with the same identifier.
    pub fn add_documents(&mut self, chunks: Vec<(DocChunk, Option<Vec<u32>>)>)
        requires
            old(self).wf(),
        ensures
            final(self).wf(),
            final(self).settings() == old(self).settings(),
            final(self)@ == stored(old(self)@, all_embedded(chunks@)),
    {
        let ghost all = chunks@;
        let mut ready: Vec<DocChunk> = Vec::new();
        for pair in it: chunks
            invariant
                it.seq() == all,
                ready@ == all_embedded(all.take(it.index() as int)),
        {
            let (chunk, embedding) = pair;
            let next: DocChunk = match embedding {
                Some(v) => DocChunk {
                    id: chunk.id,
                    text: chunk.text,
                    source: chunk.source,
                    chunk_idx: chunk.chunk_idx,
                    embedding: v,
                },
                None => chunk,
            };
            ready.push(next);
            proof {
                assert(ready@ =~= all_embedded(all.take(it.index() + 1)));
            }
        }
        proof {
            assert(all.take(all.len() as int) =~= all);
        }
        self.put_all(ready);
    }

    /// How many chunks there are.
    pub fn count(&self) -> (n: usize)
        requires
            self.wf(),
        ensures
            n == self.chunks().len(),
    {
        self.docs.len()
    }

    /// The chunk in place `i` of the search.
    pub fn chunk_at(&self, i: usize) -> (c: &DocChunk)
        requires
            i < self.chunks().len(),
        ensures
            *c == self.chunks()[i as int],
    {
        self.docs.value_at(i)
    }

    /// Where the index is kept on disk.
    pub fn index_file(&self) -> (r: &String)
        ensures
            r@ == self.settings().2,
    {
        &self.index_file
    }

    /// Where the embedding of a text is to be asked for, and of which model.
    pub fn embed_request(&self) -> (r: (String, String))
        ensures
            r.0@ == self.settings().0 + "/api/embeddings"@,
            r.1@ == self.settings().1,
    {
        (concat2(self.ollama_url.as_str(), "/api/embeddings"), self.embed_model.clone())
    }

    /// In how many of the chunks each term occurs.
    pub fn document_counts(&self) -> (r: Store<usize>)
        requires
            self.wf(),
        ensures
            r.wf(),
            counts(r@, |t: Seq<char>| documents_with(chunk_terms(self.chunks()), t)),
    {
        let mut table: Store<usize> = Store::new();
        let ghost all = chunk_terms(self.chunks());
        let n: usize = self.docs.len();
        let mut i: usize = 0;
        proof {
            assert(all.take(0) =~= Seq::<Seq<Seq<char>>>::empty());
        }
        while i < n
            invariant
                table.wf(),
                all == chunk_terms(self.docs.values()),
                i <= n,
                n == all.len(),
                counts(table@, |t: Seq<char>| documents_with(all.take(i as int), t)),
            decreases all.len() - i,
        {
            let tokens: Vec<String> = tokenize(self.docs.value_at(i).text.as_str());
            proof {
                assert(all.take(i + 1) =~= all.take(i as int).push(text::views(tokens@)));
            }
            count_document(&mut table, &tokens, Ghost(all.take(i as int)));
            i = i + 1;
        }
        proof {
            assert(all.take(all.len() as int) =~= all);
        }
        table
    }

    /// The texts of the `k` chunks that score best, the best first. A chunk that
    /// does not score above zero is left out.
    pub fn search(&self, scores: &Vec<u32>, k: usize) -> (r: Vec<String>)
        requires
            self.wf(),
            scores@.len() == self.chunks().len(),
        ensures
            exists|order: Seq<int>| #[trigger]
                is_ranking(order, scores@) && text::views(r@) == best_texts(
                    self.chunks(),
                    order,
                    k as nat,
                ),
    {
        let order: Vec<usize> = rank(scores);
        let ghost ranking = places(order@);
        let mut out: Vec<String> = Vec::new();
        let mut i: usize = 0;
        while i < order.len() && i < k
            invariant
                i <= order@.len(),
                i <= k,
                scores@.len() == self.docs.values().len(),
                ranking == places(order@),
                is_ranking(ranking, scores@),
                out@.len() == i,
                forall|j: int|
                    0 <= j < i ==> (#[trigger] out@[j])@ == self.docs.values()[ranking[j]].text@,
            decreases order@.len() - i,
        {
            proof {
                assert(ranking[i as int] == order@[i as int]);
            }
            let c: &DocChunk = self.docs.value_at(order[i]);
            out.push(c.text.clone());
            i = i + 1;
        }
        proof {
            assert(text::views(out@) =~= best_texts(self.chunks(), ranking, k as nat));
        }
        out
    }

    /// The same over scores of the terms alone, for which no embedding is asked.
    pub fn search_sync(&self, scores: &Vec<u32>, k: usize) -> (r: Vec<String>)
        requires
            self.wf(),
            scores@.len() == self.chunks().len(),
        ensures
            exists|order: Seq<int>| #[trigger]
                is_ranking(order, scores@) && text::views(r@) == best_texts(
                    self.chunks(),
                    order,
                    k as nat,
                ),
    {
        self.search(scores, k)
    }
}

/// A store made anew from what was kept of one is that store: where each chunk
/// that was kept is the one stored under its identifier and none is missing, in
/// whatever order they were kept, storing them gives the same chunks under the
/// same identifiers.
pub proof fn lemma_kept_chunks_come_back(m: Map<Seq<char>, DocChunk>, kept: Seq<DocChunk>)
    requires
        forall|i: int|
            0 <= i < kept.len() ==> m.contains_key((#[trigger] kept[i]).id@) && m[kept[i].id@]
                == kept[i],
        forall|id: Seq<char>| #[trigger] m.contains_key(id) ==> kept.contains(m[id]),
        forall|id: Seq<char>| #[trigger] m.contains_key(id) ==> m[id].id@ == id,
    ensures
        stored(Map::empty(), kept) == m,
{
    let made = stored(Map::empty(), kept);
    assert forall|id: Seq<char>| #[trigger] made.contains_key(id) == m.contains_key(id) && (
    made.contains_key(id) ==> made[id] == m[id]) by {
        lemma_stored_keys(Map::empty(), kept, id);
        lemma_stored_are_given(kept, m, id);
        if m.contains_key(id) {
            let i = choose|i: int| 0 <= i < kept.len() && kept[i] == m[id];
            assert(kept[i].id@ == id);
        }
        if made.contains_key(id) {
            let i = choose|i: int| 0 <= i < kept.len() && (#[trigger] kept[i]).id@ == id;
            assert(m.contains_key(kept[i].id@));
        }
    }
    assert(made =~= m);
}

proof fn lemma_stored_are_given(
    chunks: Seq<DocChunk>,
    m: Map<Seq<char>, DocChunk>,
    id: Seq<char>,
)
    requires
        forall|i: int| 0 <= i < chunks.len() ==> m[(#[trigger] chunks[i]).id@] == chunks[i],
    ensures
        stored(Map::empty(), chunks).contains_key(id) ==> stored(Map::empty(), chunks)[id] == m[id],
    decreases chunks.len(),
{
    if chunks.len() > 0 {
        let d = chunks.drop_last();
        assert forall|i: int| 0 <= i < d.len() implies m[(#[trigger] d[i]).id@] == d[i] by {
            assert(chunks[i] == d[i]);
        }
        lemma_stored_are_given(d, m, id);
        assert(chunks[chunks.len() - 1] == chunks.last());
    }
}

/// A store made anew from the chunks of a store holds the same chunks, and as
/// many of them.
pub proof fn lemma_store_comes_back(before: RagStore, after: RagStore)
    requires
        before.wf(),
        after.wf(),
        after@ == stored(Map::empty(), before.chunks()),
    ensures
        after@ == before@,
        after.chunks().len() == before.chunks().len(),
{
    before.lemma_chunks_are_stored();
    assert forall|id: Seq<char>| #[trigger] before@.contains_key(id) implies before@[id].id@
        == id by {}
    lemma_kept_chunks_come_back(before@, before.chunks());
    before.docs.lemma_shape();
    after.docs.lemma_shape();
    let a = after.docs.keys();
    let b = before.docs.keys();
    assert(a.to_set() =~= b.to_set()) by {
        assert forall|k: Seq<char>| a.contains(k) == b.contains(k) by {
            assert(after@.contains_key(k) == before@.contains_key(k));
        }
    }
    a.unique_seq_to_set();
    b.unique_seq_to_set();
}

/// A store made from nothing is empty.
pub proof fn lemma_store_of_nothing(s: RagStore)
    requires
        s.wf(),
        s@ == stored(Map::empty(), Seq::empty()),
    ensures
        s@ == Map::<Seq<char>, DocChunk>::empty(),
        s.chunks().len() == 0,
{
    s.docs.lemma_shape();
    if s.docs.keys().len() > 0 {
        assert(s@.contains_key(s.docs.keys()[0]));
    }
}

/// No more hits come than were asked for, and each is the text of a chunk that
/// scores above zero.
pub proof fn lemma_hits_score(
    chunks: Seq<DocChunk>,
    scores: Seq<u32>,
    order: Seq<int>,
    k: nat,
    i: int,
)
    requires
        chunks.len() == scores.len(),
        is_ranking(order, scores),
        0 <= i < best_texts(chunks, order, k).len(),
    ensures
        best_texts(chunks, order, k).len() <= k,
        exists|p: int|
            0 <= p < chunks.len() && is_positive(#[trigger] scores[p]) && best_texts(
                chunks,
                order,
                k,
            )[i] == chunks[p].text@,
{
    let p = order[i];
    assert(is_positive(scores[p]));
    assert(best_texts(chunks, order, k)[i] == chunks[p].text@);
}

/// A chunk is left out only where it does not score above zero or enough others
/// come before it: where fewer hits come than were asked for, every chunk that
/// scores above zero is among them.
pub proof fn lemma_few_hits_are_all(
    chunks: Seq<DocChunk>,
    scores: Seq<u32>,
    order: Seq<int>,
    k: nat,
    p: int,
)
    requires
        chunks.len() == scores.len(),
        is_ranking(order, scores),
        best_texts(chunks, order, k).len() < k,
        0 <= p < scores.len(),
        is_positive(scores[p]),
    ensures
        best_texts(chunks, order, k).contains(chunks[p].text@),
{
    assert(order.contains(p));
    let i = choose|i: int| 0 <= i < order.len() && order[i] == p;
    assert(best_texts(chunks, order, k)[i] == chunks[p].text@);
}

/// Storing and searching are about the same chunks: what was stored last under
/// an identifier is what is found under it.
pub proof fn lemma_stored_last(
    m: Map<Seq<char>, DocChunk>,
    chunks: Seq<DocChunk>,
    i: int,
)
    requires
        0 <= i < chunks.len(),
        forall|j: int| i < j < chunks.len() ==> (#[trigger] chunks[j]).id@ != chunks[i].id@,
    ensures
        stored(m, chunks).contains_key(chunks[i].id@),
        stored(m, chunks)[chunks[i].id@] == chunks[i],
    decreases chunks.len(),
{
    if i < chunks.len() - 1 {
        assert(chunks[chunks.len() - 1].id@ != chunks[i].id@);
        assert forall|j: int| i < j < chunks.drop_last().len() implies (
        #[trigger] chunks.drop_last()[j]).id@ != chunks.drop_last()[i].id@ by {
            assert(chunks[j].id@ != chunks[i].id@);
        }
        lemma_stored_last(m, chunks.drop_last(), i);
    }
}

/// Nothing that was stored is lost: an identifier is known afterwards exactly
/// where it was known before or one of the chunks has it.
pub proof fn lemma_stored_keys(m: Map<Seq<char>, DocChunk>, chunks: Seq<DocChunk>, id: Seq<char>)
    ensures
        stored(m, chunks).contains_key(id) <==> m.contains_key(id) || exists|i: int|
            0 <= i < chunks.len() && (#[trigger] chunks[i]).id@ == id,
    decreases chunks.len(),
{
    if chunks.len() > 0 {
        let d = chunks.drop_last();
        lemma_stored_keys(m, d, id);
        if exists|i: int| 0 <= i < d.len() && (#[trigger] d[i]).id@ == id {
            let i = choose|i: int| 0 <= i < d.len() && (#[trigger] d[i]).id@ == id;
            assert(chunks[i].id@ == id);
        }
        if exists|i: int| 0 <= i < chunks.len() && (#[trigger] chunks[i]).id@ == id {
            let i = choose|i: int| 0 <= i < chunks.len() && (#[trigger] chunks[i]).id@ == id;
            if i < d.len() {
                assert(d[i].id@ == id);
            }
        }
        if chunks.last().id@ == id {
            assert(chunks[chunks.len() - 1].id@ == id);
        }
    }
}

} // verus!
