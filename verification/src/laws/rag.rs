//! Laws of the knowledge base.

use crate::laws;
use crate::outside;
use crate::rag;
use crate::rag::{chunk_text, rank, term_counts, terms, tokenize, DocChunk, RagStore};
use crate::store::Store;
use crate::text;
use vstd::prelude::*;
use vstd::utf8::*;

verus! {

// ── Terms ──

/// A text is cut at a character exactly where that is neither a letter nor a
/// digit: the terms on both sides of such a character are those of the whole, and
/// what holds none is a term by itself, where it has more than one byte.
pub proof fn law_terms_cut(a: Seq<char>, c: char, b: Seq<char>)
    ensures
        !outside::alphanumeric(c) ==> rag::terms_of(a.push(c) + b) == rag::terms_of(a)
            + rag::terms_of(b),
        (forall|i: int| 0 <= i < a.len() ==> outside::alphanumeric(#[trigger] a[i]))
            && encode_utf8(a).len() > 1 ==> rag::terms_of(a) == seq![a],
        (forall|i: int| 0 <= i < a.len() ==> outside::alphanumeric(#[trigger] a[i]))
            && encode_utf8(a).len() <= 1 ==> rag::terms_of(a) == Seq::<Seq<char>>::empty(),
{
    let cut = rag::separates();
    let long = |t: Seq<char>| encode_utf8(t).len() > 1;
    laws::text::law_split_at_cut(a, c, b, cut);
    if !outside::alphanumeric(c) {
        lemma_long_additive(text::split_where(a, cut), text::split_where(b, cut));
    }
    if forall|i: int| 0 <= i < a.len() ==> outside::alphanumeric(#[trigger] a[i]) {
        assert(forall|i: int| 0 <= i < a.len() ==> !cut(#[trigger] a[i]));
        assert(text::split_where(a, cut) == seq![a]);
        reveal(Seq::filter);
        let s = seq![a];
        assert(s.drop_last() =~= Seq::<Seq<char>>::empty());
        assert(s.drop_last().filter(long) =~= Seq::<Seq<char>>::empty());
        assert(Seq::<Seq<char>>::empty().push(a) =~= s);
    }
}

proof fn lemma_long_additive(a: Seq<Seq<char>>, b: Seq<Seq<char>>)
    ensures
        (a + b).filter(|t: Seq<char>| encode_utf8(t).len() > 1) == a.filter(
            |t: Seq<char>| encode_utf8(t).len() > 1,
        ) + b.filter(|t: Seq<char>| encode_utf8(t).len() > 1),
    decreases b.len(),
{
    reveal(Seq::filter);
    let long = |t: Seq<char>| encode_utf8(t).len() > 1;
    if b.len() == 0 {
        assert(a + b =~= a);
        assert(a.filter(long) + b.filter(long) =~= a.filter(long));
    } else {
        lemma_long_additive(a, b.drop_last());
        assert((a + b).drop_last() =~= a + b.drop_last());
        assert((a + b).last() == b.last());
        assert((a + b).filter(long) =~= a.filter(long) + b.filter(long));
    }
}

/// The terms of a text in lower case: a run of letters and digits is one term,
/// whole, and a character that is neither parts the terms before it from those
/// behind it, with none lost and in order.
pub proof fn law_terms(
    s: &str,
    left: &str,
    right: &str,
    c: char,
    r: Vec<String>,
    x: Vec<String>,
    y: Vec<String>,
)
    requires
        call_ensures(terms, (s,), r),
        call_ensures(terms, (left,), x),
        call_ensures(terms, (right,), y),
    ensures
        (forall|i: int| 0 <= i < s@.len() ==> outside::alphanumeric(#[trigger] s@[i]))
            && encode_utf8(s@).len() > 1 ==> r@.len() == 1 && r@[0]@ == s@,
        (forall|i: int| 0 <= i < s@.len() ==> outside::alphanumeric(#[trigger] s@[i]))
            && encode_utf8(s@).len() <= 1 ==> r@.len() == 0,
        !outside::alphanumeric(c) && s@ == left@.push(c) + right@ ==> text::views(r@)
            == text::views(x@) + text::views(y@),
        forall|i: int, j: int|
            #![trigger r@[i]@[j]]
            0 <= i < r@.len() && 0 <= j < r@[i]@.len() ==> outside::alphanumeric(r@[i]@[j]),
{
    let v = text::views(r@);
    assert(v.len() == r@.len());
    law_terms_cut(s@, c, s@);
    law_terms_cut(left@, c, right@);
    if r@.len() > 0 {
        assert(v[0] == r@[0]@);
    }
    assert forall|i: int, j: int|
        #![trigger r@[i]@[j]]
        0 <= i < r@.len() && 0 <= j < r@[i]@.len() implies outside::alphanumeric(r@[i]@[j]) by {
        assert(v[i] == r@[i]@);
        rag::lemma_terms_are_words(s@, i);
    }
}

/// The terms of a text are those of the text in lower case.
pub proof fn law_tokenize(s: &str, lower: &str, r: Vec<String>, x: Vec<String>)
    requires
        call_ensures(tokenize, (s,), r),
        call_ensures(terms, (lower,), x),
        lower@ == outside::lowercase(s@),
    ensures
        text::views(r@) == text::views(x@),
        (forall|i: int| 0 <= i < lower@.len() ==> outside::alphanumeric(#[trigger] lower@[i]))
            && encode_utf8(lower@).len() > 1 ==> r@.len() == 1 && r@[0]@ == lower@,
{
    let v = text::views(r@);
    assert(v.len() == r@.len());
    law_terms_cut(lower@, ' ', lower@);
    if r@.len() > 0 {
        assert(v[0] == r@[0]@);
    }
}

/// Terms are counted one by one, and documents too.
pub proof fn law_counting(
    a: Seq<Seq<char>>,
    b: Seq<Seq<char>>,
    docs: Seq<Seq<Seq<char>>>,
    more: Seq<Seq<Seq<char>>>,
    t: Seq<char>,
    u: Seq<char>,
)
    ensures
        rag::occurrences(a + b, t) == rag::occurrences(a, t) + rag::occurrences(b, t),
        rag::occurrences(seq![t], t) == 1,
        u != t ==> rag::occurrences(seq![u], t) == 0,
        rag::documents_with(docs + more, t) == rag::documents_with(docs, t) + rag::documents_with(
            more,
            t,
        ),
        a.contains(t) ==> rag::documents_with(seq![a], t) == 1,
        !a.contains(t) ==> rag::documents_with(seq![a], t) == 0,
{
    lemma_occurrences_additive(a, b, t);
    lemma_documents_additive(docs, more, t);
    assert(seq![t].drop_last() =~= Seq::<Seq<char>>::empty());
    assert(seq![u].drop_last() =~= Seq::<Seq<char>>::empty());
    assert(seq![a].drop_last() =~= Seq::<Seq<Seq<char>>>::empty());
    assert(rag::occurrences(seq![t].drop_last(), t) == 0);
    assert(rag::occurrences(seq![u].drop_last(), t) == 0);
    assert(rag::documents_with(seq![a].drop_last(), t) == 0);
}

proof fn lemma_occurrences_additive(a: Seq<Seq<char>>, b: Seq<Seq<char>>, t: Seq<char>)
    ensures
        rag::occurrences(a + b, t) == rag::occurrences(a, t) + rag::occurrences(b, t),
    decreases b.len(),
{
    if b.len() == 0 {
        assert(a + b =~= a);
    } else {
        lemma_occurrences_additive(a, b.drop_last(), t);
        assert((a + b).drop_last() =~= a + b.drop_last());
        assert((a + b).last() == b.last());
    }
}

proof fn lemma_documents_additive(
    a: Seq<Seq<Seq<char>>>,
    b: Seq<Seq<Seq<char>>>,
    t: Seq<char>,
)
    ensures
        rag::documents_with(a + b, t) == rag::documents_with(a, t) + rag::documents_with(b, t),
    decreases b.len(),
{
    if b.len() == 0 {
        assert(a + b =~= a);
    } else {
        lemma_documents_additive(a, b.drop_last(), t);
        assert((a + b).drop_last() =~= a + b.drop_last());
        assert((a + b).last() == b.last());
    }
}

/// One more term in a list is counted once more, and the count of every other
/// term stays.
pub proof fn law_term_counts(
    tokens: &Vec<String>,
    more: &Vec<String>,
    x: String,
    r: Store<usize>,
    s: Store<usize>,
    t: Seq<char>,
)
    requires
        call_ensures(term_counts, (tokens,), r),
        call_ensures(term_counts, (more,), s),
        more@ == tokens@.push(x),
    ensures
        s@.contains_key(x@),
        s@[x@] == if r@.contains_key(x@) {
            r@[x@] + 1
        } else {
            1
        },
        t != x@ ==> s@.contains_key(t) == r@.contains_key(t),
        t != x@ && r@.contains_key(t) ==> s@[t] == r@[t],
        tokens@.len() == 0 ==> !r@.contains_key(t),
{
    let a = text::views(tokens@);
    let b = text::views(more@);
    assert(b =~= a.push(x@));
    assert(b.drop_last() =~= a);
    let f = |t: Seq<char>| rag::occurrences(a, t);
    let g = |t: Seq<char>| rag::occurrences(b, t);
    assert(rag::counts(r@, f));
    assert(rag::counts(s@, g));
    assert(r@.contains_key(x@) <==> f(x@) > 0);
    assert(s@.contains_key(x@) <==> g(x@) > 0);
    assert(r@.contains_key(t) <==> f(t) > 0);
    assert(s@.contains_key(t) <==> g(t) > 0);
}

/// Every chunk of the store that holds a term counts for it, once.
pub proof fn law_document_counts(s: &RagStore, r: Store<usize>, t: Seq<char>)
    requires
        s.wf(),
        call_ensures(RagStore::document_counts, (s,), r),
    ensures
        r@.contains_key(t) ==> r@[t] == rag::documents_with(rag::chunk_terms(s.chunks()), t),
        r@.contains_key(t) <==> exists|i: int|
            0 <= i < s.chunks().len() && rag::terms_of(
                outside::lowercase((#[trigger] s.chunks()[i]).text@),
            ).contains(t),
{
    let docs = rag::chunk_terms(s.chunks());
    let f = |t: Seq<char>| rag::documents_with(docs, t);
    assert(r@.contains_key(t) <==> f(t) > 0);
    lemma_documents_positive(docs, t);
    if exists|i: int| 0 <= i < docs.len() && (#[trigger] docs[i]).contains(t) {
        let i = choose|i: int| 0 <= i < docs.len() && (#[trigger] docs[i]).contains(t);
        assert(docs[i] == rag::terms_of(outside::lowercase(s.chunks()[i].text@)));
    }
    if exists|i: int|
        0 <= i < s.chunks().len() && rag::terms_of(
            outside::lowercase((#[trigger] s.chunks()[i]).text@),
        ).contains(t) {
        let i = choose|i: int|
            0 <= i < s.chunks().len() && rag::terms_of(
                outside::lowercase((#[trigger] s.chunks()[i]).text@),
            ).contains(t);
        assert(docs[i] == rag::terms_of(outside::lowercase(s.chunks()[i].text@)));
        assert(docs[i].contains(t));
    }
}

proof fn lemma_documents_positive(docs: Seq<Seq<Seq<char>>>, t: Seq<char>)
    ensures
        rag::documents_with(docs, t) > 0 <==> exists|i: int|
            0 <= i < docs.len() && (#[trigger] docs[i]).contains(t),
    decreases docs.len(),
{
    if docs.len() > 0 {
        let d = docs.drop_last();
        lemma_documents_positive(d, t);
        if exists|i: int| 0 <= i < d.len() && (#[trigger] d[i]).contains(t) {
            let i = choose|i: int| 0 <= i < d.len() && (#[trigger] d[i]).contains(t);
            assert(docs[i].contains(t));
        }
        if exists|i: int| 0 <= i < docs.len() && (#[trigger] docs[i]).contains(t) {
            let i = choose|i: int| 0 <= i < docs.len() && (#[trigger] docs[i]).contains(t);
            if i < d.len() {
                assert(d[i].contains(t));
            }
        }
        if docs.last().contains(t) {
            assert(docs[docs.len() - 1].contains(t));
        }
    }
}

// ── Chunks ──

/// A document that fits into a chunk is one chunk, of all its words. A longer one
/// begins with a chunk of the first words, as many as a chunk holds, each further
/// chunk repeats the last words of the one before and goes on behind them, and the
/// last one ends with the last word. All of them name the document.
pub proof fn law_chunks(
    s: &str,
    size: usize,
    overlap: usize,
    source: &str,
    r: Vec<DocChunk>,
    i: int,
)
    requires
        text::words(s@).len() <= size || overlap < size,
        call_ensures(chunk_text, (s, size, overlap, source), r),
    ensures
        r@.len() == 0 <==> text::words(s@).len() == 0,
        0 <= i < r@.len() ==> r@[i].source@ == source@ && r@[i].chunk_idx == i
            && r@[i].embedding@.len() == 0,
        0 < text::words(s@).len() <= size ==> r@.len() == 1 && r@[0].text@ == text::joined(
            text::words(s@),
            " "@,
        ),
        0 <= i < r@.len() - 1 ==> r@[i].text@ == text::joined(
            text::words(s@).subrange(i * (size - overlap), i * (size - overlap) + size),
            " "@,
        ),
        0 <= i < r@.len() - 1 ==> i * (size - overlap) + size < text::words(s@).len(),
        0 <= i == r@.len() - 1 ==> r@[i].text@ == text::joined(
            text::words(s@).skip(i * (size - overlap)),
            " "@,
        ),
        0 <= i == r@.len() - 1 ==> text::words(s@).len() <= i * (size - overlap) + size,
{
    assert(rag::makes_chunks(
        text::words(s@).len() as int,
        size as int,
        overlap as int,
        r@.len() as int,
    ));
    if 0 <= i < r@.len() {
        lemma_chunk(text::words(s@), size as int, overlap as int, r@, i);
    }
    if 0 < text::words(s@).len() <= size {
        lemma_chunk(text::words(s@), size as int, overlap as int, r@, 0);
    }
}

pub(crate) proof fn lemma_chunk(
    w: Seq<Seq<char>>,
    size: int,
    overlap: int,
    r: Seq<DocChunk>,
    i: int,
)
    requires
        0 <= size,
        0 <= overlap,
        w.len() <= size || overlap < size,
        rag::makes_chunks(w.len() as int, size, overlap, r.len() as int),
        0 <= i < r.len(),
        forall|j: int| 0 <= j < r.len() ==> rag::is_chunk(#[trigger] r[j], w, size, overlap, j),
    ensures
        w.len() <= size ==> r.len() == 1 && r[0].text@ == text::joined(w, " "@),
        i < r.len() - 1 ==> r[i].text@ == text::joined(
            w.subrange(i * (size - overlap), i * (size - overlap) + size),
            " "@,
        ),
        i < r.len() - 1 ==> i * (size - overlap) + size < w.len(),
        i == r.len() - 1 ==> r[i].text@ == text::joined(w.skip(i * (size - overlap)), " "@),
        i == r.len() - 1 ==> w.len() <= i * (size - overlap) + size,
{
    let n = w.len() as int;
    assert(rag::is_chunk(r[i], w, size, overlap, i));
    assert(rag::chunk_start(0, size, overlap) == 0) by (nonlinear_arith);
    if n <= size {
        if r.len() > 1 {
            assert(rag::chunk_start(0, size, overlap) + size < n);
        }
        assert(rag::is_chunk(r[0], w, size, overlap, 0));
        assert(w.subrange(0, n) =~= w);
        assert(r.len() == 1);
        assert(i == 0);
    }
    let from = rag::chunk_start(i, size, overlap);
    assert(from == i * (size - overlap));
    if i < r.len() - 1 {
        assert(from + size < n);
    } else {
        assert(from + size >= n);
        if overlap < size {
            assert(0 <= i * (size - overlap)) by (nonlinear_arith)
                requires
                    0 <= i,
                    overlap < size,
            ;
        }
        if from <= n {
            assert(w.subrange(from, n) =~= w.skip(from));
        } else {
            assert(i > 0);
            assert(rag::chunk_start(i - 1, size, overlap) + size < n);
            assert(i * (size - overlap) == (i - 1) * (size - overlap) + (size - overlap))
                by (nonlinear_arith);
        }
    }
}

// ── Search ──

/// The ranking holds every place with a score above zero up to infinity, and no
/// other, none twice; no score in it is above one that comes earlier, and equal
/// ones keep their order.
pub proof fn law_rank(scores: &Vec<u32>, r: Vec<usize>, i: int, j: int, p: int)
    requires
        call_ensures(rank, (scores,), r),
    ensures
        0 <= i < j < r@.len() ==> scores@[r@[i] as int] >= scores@[r@[j] as int],
        0 <= i < j < r@.len() && scores@[r@[i] as int] == scores@[r@[j] as int] ==> r@[i] < r@[j],
        0 <= i < j < r@.len() ==> r@[i] != r@[j],
        0 <= i < r@.len() ==> r@[i] < scores@.len() && 0 < scores@[r@[i] as int] <= 0x7f80_0000,
        0 <= p < scores@.len() && 0 < scores@[p] <= 0x7f80_0000 ==> exists|k: int|
            0 <= k < r@.len() && #[trigger] r@[k] == p,
{
    let order = rag::places(r@);
    assert(order.len() == r@.len());
    if 0 <= i < r@.len() {
        assert(order[i] == r@[i]);
    }
    if 0 <= j < r@.len() {
        assert(order[j] == r@[j]);
    }
    if 0 <= i < j < r@.len() {
        assert(rag::ranks_before(scores@, order[i], order[j]));
    }
    if 0 <= p < scores@.len() && 0 < scores@[p] <= 0x7f80_0000 {
        assert(rag::is_positive(scores@[p]));
        assert(order.contains(p));
        let k = choose|k: int| 0 <= k < order.len() && order[k] == p;
        assert(r@[k] == p);
    }
}

/// A search gives the texts of the chunks in the order of their ranking, as many
/// as were asked for or as there are.
pub proof fn law_search(
    s: &RagStore,
    scores: &Vec<u32>,
    k: usize,
    order: Vec<usize>,
    r: Vec<String>,
    again: Vec<String>,
    i: int,
)
    requires
        s.wf(),
        scores@.len() == s.chunks().len(),
        call_ensures(rank, (scores,), order),
        call_ensures(RagStore::search, (s, scores, k), r),
        call_ensures(RagStore::search_sync, (s, scores, k), again),
    ensures
        r@.len() == if k < order@.len() {
            k as nat
        } else {
            order@.len()
        },
        0 <= i < r@.len() ==> r@[i]@ == s.chunks()[order@[i] as int].text@,
        text::views(again@) == text::views(r@),
{
    let o = rag::places(order@);
    assert(o.len() == order@.len());
    let a = choose|a: Seq<int>| #[trigger]
        rag::is_ranking(a, scores@) && text::views(r@) == rag::best_texts(s.chunks(), a, k as nat);
    let b = choose|b: Seq<int>| #[trigger]
        rag::is_ranking(b, scores@) && text::views(again@) == rag::best_texts(
            s.chunks(),
            b,
            k as nat,
        );
    rag::lemma_one_ranking(a, o, scores@);
    rag::lemma_one_ranking(b, o, scores@);
    let v = text::views(r@);
    assert(v.len() == r@.len());
    if 0 <= i < r@.len() {
        assert(v[i] == r@[i]@);
        assert(o[i] == order@[i]);
    }
}

// ── What is kept ──

/// A chunk that is stored is found under its identifier, with its text, its
/// source and its place, and with its embedding where one was to be had. What is
/// stored under another identifier stays.
pub proof fn law_documents_added(
    s: &mut RagStore,
    chunks: Vec<(DocChunk, Option<Vec<u32>>)>,
    i: int,
    id: Seq<char>,
)
    requires
        old(s).wf(),
        call_ensures(RagStore::add_documents, (s, chunks), ()),
    ensures
        0 <= i < chunks@.len() && (forall|j: int|
            i < j < chunks@.len() ==> (#[trigger] chunks@[j]).0.id@ != chunks@[i].0.id@) ==> {
            let c = final(s)@[chunks@[i].0.id@];
            &&& final(s)@.contains_key(chunks@[i].0.id@)
            &&& c.text == chunks@[i].0.text
            &&& c.source == chunks@[i].0.source
            &&& c.chunk_idx == chunks@[i].0.chunk_idx
            &&& chunks@[i].1 matches Some(e) ==> c.embedding == e
            &&& chunks@[i].1 is None ==> c.embedding == chunks@[i].0.embedding
        },
        old(s)@.contains_key(id) ==> final(s)@.contains_key(id),
        old(s)@.contains_key(id) && (forall|j: int|
            0 <= j < chunks@.len() ==> (#[trigger] chunks@[j]).0.id@ != id) ==> final(s)@[id]
            == old(s)@[id],
        final(s)@.contains_key(id) ==> old(s)@.contains_key(id) || exists|j: int|
            0 <= j < chunks@.len() && (#[trigger] chunks@[j]).0.id@ == id,
        final(s).settings() == old(s).settings(),
{
    let all = rag::all_embedded(chunks@);
    assert forall|j: int| 0 <= j < all.len() implies (#[trigger] all[j]).id@
        == chunks@[j].0.id@ by {
    }
    if 0 <= i < chunks@.len() && (forall|j: int|
        i < j < chunks@.len() ==> (#[trigger] chunks@[j]).0.id@ != chunks@[i].0.id@) {
        assert forall|j: int| i < j < all.len() implies (#[trigger] all[j]).id@ != all[i].id@ by {
            assert(chunks@[j].0.id@ != chunks@[i].0.id@);
        }
        rag::lemma_stored_last(old(s)@, all, i);
    }
    rag::lemma_stored_keys(old(s)@, all, id);
    if forall|j: int| 0 <= j < chunks@.len() ==> (#[trigger] chunks@[j]).0.id@ != id {
        assert forall|j: int| 0 <= j < all.len() implies (#[trigger] all[j]).id@ != id by {
            assert(chunks@[j].0.id@ != id);
        }
        lemma_stored_stays(old(s)@, all, id);
    }
    if exists|j: int| 0 <= j < all.len() && (#[trigger] all[j]).id@ == id {
        let j = choose|j: int| 0 <= j < all.len() && (#[trigger] all[j]).id@ == id;
        assert(chunks@[j].0.id@ == id);
    }
}

proof fn lemma_stored_stays(m: Map<Seq<char>, DocChunk>, chunks: Seq<DocChunk>, id: Seq<char>)
    requires
        forall|j: int| 0 <= j < chunks.len() ==> (#[trigger] chunks[j]).id@ != id,
    ensures
        rag::stored(m, chunks)[id] == m[id],
    decreases chunks.len(),
{
    if chunks.len() > 0 {
        let d = chunks.drop_last();
        assert forall|j: int| 0 <= j < d.len() implies (#[trigger] d[j]).id@ != id by {
            assert(chunks[j].id@ != id);
        }
        lemma_stored_stays(m, d, id);
        assert(chunks[chunks.len() - 1].id@ != id);
    }
}

/// The index stands beside the database, under its name without the endings of a
/// database.
pub proof fn law_index_path(
    db: &str,
    base: &str,
    r: String,
    s: String,
)
    requires
        call_ensures(rag::index_path, (db,), r),
        call_ensures(rag::index_path, (base,), s),
        db@ == base@ + ".db"@,
    ensures
        r@ == s@,
        !(base@.len() >= 3 && base@.skip(base@.len() - 3) == ".db"@) ==> s@ == base@
            + ".rag.json"@,
{
    reveal_strlit(".db");
    assert(db@.skip(db@.len() - 3) =~= ".db"@);
    assert(db@.take(db@.len() - 3) =~= base@);
}

/// Embeddings are asked of the model that was chosen, and of `nomic-embed-text`
/// where none was, at the address that was given.
pub proof fn law_embed_request(
    db: &str,
    url: &str,
    model: &Option<String>,
    loaded: Vec<DocChunk>,
    s: RagStore,
    r: (String, String),
    file: &String,
    path: String,
)
    requires
        call_ensures(RagStore::new, (db, url, model, loaded), s),
        call_ensures(RagStore::embed_request, (&s,), r),
        call_ensures(RagStore::index_file, (&s,), file),
        call_ensures(rag::index_path, (db,), path),
    ensures
        r.0@ == url@ + "/api/embeddings"@,
        model matches Some(m) ==> r.1@ == m@,
        model is None ==> r.1@ == "nomic-embed-text"@,
        file@ == path@,
{
}

/// The chunks that are counted are those that are stored, each in a place of its
/// own and under its identifier.
pub proof fn law_chunks_counted(s: &RagStore, n: usize, i: usize, c: &DocChunk)
    requires
        s.wf(),
        call_ensures(RagStore::count, (s,), n),
        i < n,
        call_ensures(RagStore::chunk_at, (s, i), c),
    ensures
        s@.contains_key(c.id@),
        s@[c.id@] == *c,
        n == s.chunks().len(),
{
    s.lemma_chunks_are_stored();
    assert(s.chunks()[i as int] == *c);
}

} // verus!
