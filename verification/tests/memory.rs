use hexai::memory::{session_key, PersistentMemory, Turn};
use hexai::rag::{
    chunk_text, index_path, rank, term_counts, terms, tokenize, DocChunk, RagStore, EMBED_MODEL,
};

fn turn(u: &str, a: &str) -> Turn {
    Turn { user: u.to_string(), assistant: a.to_string() }
}

fn chunk(id: &str, text: &str) -> DocChunk {
    DocChunk {
        id: id.to_string(),
        text: text.to_string(),
        source: "s".to_string(),
        chunk_idx: 0,
        embedding: vec![],
    }
}

fn users(h: &[Turn]) -> Vec<String> {
    h.iter().map(|t| t.user.clone()).collect()
}

#[test]
fn turns_are_remembered_in_order() {
    let mut m = PersistentMemory::new(60, 4096);
    assert_eq!(m.ttl(), 60);
    assert!(m.get_history("s", vec![], vec![]).is_empty());
    m.add_message("s", "a", "b");
    m.add_message("s", "c", "d");
    m.add_message("t", "e", "f");
    let h = m.get_history("s", vec![], vec![]);
    assert_eq!(users(&h), vec!["a", "c"]);
    assert_eq!(h[1].assistant, "d");
    assert_eq!(users(&m.get_history("t", vec![], vec![])), vec!["e"]);
}

#[test]
fn cache_goes_before_database_and_memory() {
    let mut m = PersistentMemory::new(60, 4096);
    m.add_message("s", "ram", "x");
    assert_eq!(users(&m.get_history("s", vec![turn("cache", "")], vec![turn("db", "")])), vec!["cache"]);
    assert_eq!(users(&m.get_history("s", vec![], vec![turn("db", "")])), vec!["db"]);
    assert_eq!(users(&m.get_history("s", vec![], vec![])), vec!["ram"]);
}

#[test]
fn memory_of_a_session_is_bounded() {
    let mut m = PersistentMemory::new(60, 4096);
    for i in 0..100 {
        m.add_message("s", &format!("{i}"), "");
    }
    assert_eq!(m.get_history("s", vec![], vec![]).len(), 100);
    m.add_message("s", "100", "");
    let h = m.get_history("s", vec![], vec![]);
    assert_eq!(h.len(), 51);
    assert_eq!(h[0].user, "50");
    assert_eq!(h[50].user, "100");
}

#[test]
fn trimmed_history_fits() {
    let mut m = PersistentMemory::new(60, 3);
    m.add_message("s", "aaaa", "bbbb");
    m.add_message("s", "cccc", "dddd");
    let h = m.get_trimmed_history("s", vec![], vec![]);
    assert_eq!(h, vec![("cccc".to_string(), "dddd".to_string())]);
}

#[test]
fn sessions_are_listed_once_and_cleared() {
    let mut m = PersistentMemory::new(60, 4096);
    m.add_message("a", "x", "y");
    m.add_message("b", "x", "y");
    assert_eq!(m.list_sessions(vec!["c".to_string(), "a".to_string()]), vec!["c", "a", "b"]);
    m.clear_session("a");
    assert!(m.get_history("a", vec![], vec![]).is_empty());
    assert_eq!(m.get_history("b", vec![], vec![]).len(), 1);
    assert_eq!(m.list_sessions(vec![]), vec!["b"]);
    assert_eq!(session_key("a"), "session:a");
}

#[test]
fn chunks_overlap_and_cover() {
    let text = "a b c d e f g";
    let c = chunk_text(text, 3, 1, "src");
    let texts: Vec<&str> = c.iter().map(|x| x.text.as_str()).collect();
    assert_eq!(texts, vec!["a b c", "c d e", "e f g"]);
    for (i, x) in c.iter().enumerate() {
        assert_eq!(x.chunk_idx, i);
        assert_eq!(x.source, "src");
        assert!(x.embedding.is_empty());
        assert_eq!(x.id.len(), 36);
        assert_eq!(x.id.as_bytes()[14], b'4');
    }
    assert_ne!(c[0].id, c[1].id);
}

#[test]
fn chunks_at_the_edges() {
    assert!(chunk_text(" \n ", 3, 1, "s").is_empty());
    assert!(chunk_text("", 0, 0, "s").is_empty());
    assert_eq!(chunk_text("a b c", 3, 2, "s").len(), 1);
    assert_eq!(chunk_text("a b", 500, 900, "s").len(), 1);
    assert_eq!(chunk_text("a  b\tc d", 2, 0, "s")[1].text, "c d");
    assert_eq!(chunk_text("a b", usize::MAX, usize::MAX, "s")[0].text, "a b");
}

#[test]
fn terms_of_a_text() {
    assert_eq!(tokenize("Ala MA kota-2, i ŻÓŁWIA!"), vec!["ala", "ma", "kota", "żółwia"]);
    assert_eq!(terms("a bc ż"), vec!["bc", "ż"]);
    assert!(tokenize("...").is_empty());
}

#[test]
fn terms_are_counted() {
    let t: Vec<String> = ["aa", "bb", "aa"].iter().map(|s| s.to_string()).collect();
    let c = term_counts(&t);
    assert_eq!(c.len(), 2);
    assert_eq!(c.get("aa"), Some(&2));
    assert_eq!(c.get("bb"), Some(&1));
    assert_eq!(c.get("cc"), None);
}

#[test]
fn index_lies_beside_the_database() {
    assert_eq!(index_path("./hexai.db"), "./hexai.rag.json");
    assert_eq!(index_path("x.db.db"), "x.rag.json");
    assert_eq!(index_path("data"), "data.rag.json");
}

#[test]
fn ranking_is_by_score() {
    let bits = |f: f32| f.to_bits();
    let scores = vec![bits(0.5), bits(0.0), bits(2.0), bits(-1.0), bits(0.5), bits(f32::NAN), bits(f32::INFINITY)];
    assert_eq!(rank(&scores), vec![6, 2, 0, 4]);
    assert!(rank(&vec![]).is_empty());
    assert!(rank(&vec![bits(-0.0), bits(f32::NEG_INFINITY)]).is_empty());
    assert_eq!(rank(&vec![bits(f32::MIN_POSITIVE), bits(1e-45)]), vec![0, 1]);
}

#[test]
fn knowledge_base_stores_and_searches() {
    let mut r = RagStore::new("d.db", "http://o", &None, vec![chunk("1", "one")]);
    assert_eq!(r.count(), 1);
    assert_eq!(r.index_file(), "d.rag.json");
    assert_eq!(r.embed_request(), ("http://o/api/embeddings".to_string(), EMBED_MODEL.to_string()));
    r.add_documents(vec![
        (chunk("2", "two"), Some(vec![1, 2])),
        (chunk("3", "three"), None),
        (chunk("1", "uno"), None),
    ]);
    assert_eq!(r.count(), 3);
    assert_eq!(r.chunk_at(0).text, "uno");
    assert_eq!(r.chunk_at(1).embedding, vec![1, 2]);
    let one = 1.0f32.to_bits();
    let two = 2.0f32.to_bits();
    assert_eq!(r.search(&vec![one, two, 0], 3), vec!["two", "uno"]);
    assert_eq!(r.search(&vec![one, two, one], 2), vec!["two", "uno"]);
    assert!(r.search(&vec![one, two, one], 0).is_empty());
}

#[test]
fn a_store_comes_back() {
    let mut r = RagStore::new("d.db", "http://o", &None, vec![]);
    assert_eq!(r.count(), 0);
    r.add_documents(vec![
        (chunk("1", "one"), Some(vec![7])),
        (chunk("2", "two"), None),
        (chunk("1", "uno"), Some(vec![8])),
    ]);
    let kept: Vec<DocChunk> = (0..r.count()).rev().map(|i| r.chunk_at(i).clone()).collect();
    let again = RagStore::new("d.db", "http://o", &None, kept);
    assert_eq!(again.count(), 2);
    for i in 0..again.count() {
        let c = again.chunk_at(i);
        let old = (0..r.count()).map(|j| r.chunk_at(j)).find(|o| o.id == c.id).unwrap();
        assert_eq!((&c.text, &c.embedding), (&old.text, &old.embedding));
    }
    let one = 1.0f32.to_bits();
    assert_eq!(r.search_sync(&vec![0, one], 5), vec!["two"]);
    assert!(r.search_sync(&vec![0, 0], 5).is_empty());
}

#[test]
fn history_over_the_rows() {
    let mut m = PersistentMemory::new(60, 4096);
    m.add_message("s", "a", "b");
    let rows = vec![turn("a", "b")];
    assert_eq!(users(&m.get_history("s", vec![], rows)), vec!["a"]);
    m.add_message("s", "c", "d");
    let rows = vec![turn("a", "b"), turn("c", "d")];
    assert_eq!(users(&m.get_history("s", vec![], rows)), vec!["a", "c"]);
    m.clear_session("s");
    assert!(m.get_history("s", vec![], vec![]).is_empty());
}

#[test]
fn documents_with_a_term_are_counted() {
    let r = RagStore::new(
        "d.db",
        "http://o",
        &Some("m".to_string()),
        vec![chunk("1", "Ala ala kot"), chunk("2", "kot pies"), chunk("3", "-")],
    );
    let c = r.document_counts();
    assert_eq!(c.len(), 3);
    assert_eq!(c.get("ala"), Some(&1));
    assert_eq!(c.get("kot"), Some(&2));
    assert_eq!(c.get("pies"), Some(&1));
    assert_eq!(r.embed_request().1, "m");
}
