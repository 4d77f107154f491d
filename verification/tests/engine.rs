//! End-to-end tests of the engine: normalization, index building, lookup
//! and conjunctive search.

use cercami::norm::tokenize;
use cercami::postings::ordered_ids;
use cercami::{Config, Document, Index};

fn doc(id: u32, text: &str) -> Document {
    Document {
        title: format!("title {}", id),
        url: format!("https://example.test/{}", id),
        text: text.to_string(),
        id,
    }
}

/// The three-document corpus used by several scenarios.
fn corpus() -> Vec<Document> {
    vec![
        doc(0, "The quick brown fox"),
        doc(1, "quick dog runs"),
        doc(2, "brown fox jumps"),
    ]
}

fn search_ids(ix: &Index, query: &str) -> Vec<u32> {
    ordered_ids(&ix.search(query))
}

#[test]
fn config_from_full_args() {
    let args = vec![
        "prog".to_string(),
        "corpus.xml".to_string(),
        "quick fox".to_string(),
    ];
    let config = Config::new(&args).unwrap();
    assert_eq!(config.db_path, "corpus.xml");
    assert_eq!(config.query, "quick fox");
}

#[test]
fn config_missing_db_path() {
    let args = vec!["prog".to_string()];
    assert_eq!(Config::new(&args).unwrap_err(), "Didn't get a db path");
}

#[test]
fn config_missing_query() {
    let args = vec!["prog".to_string(), "corpus.xml".to_string()];
    assert_eq!(Config::new(&args).unwrap_err(), "Didn't get a query");
}

#[test]
fn tokenize_drops_stopwords_and_keeps_order() {
    assert_eq!(tokenize("The quick brown fox"), vec!["quick", "brown", "fox"]);
}

#[test]
fn tokenize_empty_input() {
    assert_eq!(tokenize(""), Vec::<String>::new());
}

#[test]
fn tokenize_stopwords_only() {
    assert_eq!(tokenize("the of"), Vec::<String>::new());
}

#[test]
fn tokenize_lowercases() {
    // If lowercasing were skipped, "THE" would not match the stopword list
    // and "QUICK" would not equal the indexed form of "quick".
    assert_eq!(tokenize("THE QUICK"), vec!["quick"]);
}

#[test]
fn tokenize_strips_punctuation() {
    assert_eq!(tokenize("fox!!! (brown)"), vec!["fox", "brown"]);
}

#[test]
fn tokenize_drops_tokens_left_empty() {
    // A token of only punctuation must vanish, not become a zero-length term.
    assert_eq!(tokenize("--- fox ..."), vec!["fox"]);
}

#[test]
fn tokenize_stems() {
    assert_eq!(tokenize("running jumps"), vec!["run", "jump"]);
}

#[test]
fn build_gives_expected_postings() {
    let ix = Index::new(&corpus());
    let quick = tokenize("quick").remove(0);
    let fox = tokenize("fox").remove(0);
    let brown = tokenize("brown").remove(0);
    assert_eq!(ix.lookup(&quick).unwrap(), vec![0, 1]);
    assert_eq!(ix.lookup(&fox).unwrap(), vec![0, 2]);
    assert_eq!(ix.lookup(&brown).unwrap(), vec![0, 2]);
}

#[test]
fn lookup_absent_term() {
    let ix = Index::new(&corpus());
    assert!(ix.lookup("elephant").is_none());
}

#[test]
fn postings_strictly_ascending() {
    let ix = Index::new(&corpus());
    for term in ["quick", "fox", "brown", "dog", "run", "jump"] {
        let normalized = tokenize(term).remove(0);
        let posting = ix.lookup(&normalized).unwrap();
        for pair in posting.windows(2) {
            assert!(pair[0] < pair[1]);
        }
    }
}

#[test]
fn search_conjunctive_two_terms() {
    let ix = Index::new(&corpus());
    assert_eq!(search_ids(&ix, "quick fox"), vec![0]);
}

#[test]
fn search_absent_term_gives_nothing() {
    let ix = Index::new(&corpus());
    assert_eq!(search_ids(&ix, "elephant"), Vec::<u32>::new());
    // An absent term empties the result even beside a present one.
    assert_eq!(search_ids(&ix, "quick elephant"), Vec::<u32>::new());
}

#[test]
fn search_single_term() {
    let ix = Index::new(&corpus());
    assert_eq!(search_ids(&ix, "brown"), vec![0, 2]);
}

#[test]
fn search_single_term_matches_lookup() {
    let ix = Index::new(&corpus());
    let brown = tokenize("brown").remove(0);
    assert_eq!(search_ids(&ix, "brown"), ix.lookup(&brown).unwrap());
}

#[test]
fn search_is_case_insensitive() {
    let docs = vec![doc(0, "apple pie"), doc(1, "pear tart"), doc(2, "apple tart")];
    let ix = Index::new(&docs);
    let upper = search_ids(&ix, "Apple");
    let lower = search_ids(&ix, "apple");
    assert_eq!(upper, lower);
    assert_eq!(lower, vec![0, 2]);
}

#[test]
fn search_stopword_only_query_matches_nothing() {
    let ix = Index::new(&corpus());
    assert_eq!(search_ids(&ix, "the of"), Vec::<u32>::new());
    assert_eq!(search_ids(&ix, ""), Vec::<u32>::new());
}

#[test]
fn add_twice_does_not_duplicate_ids() {
    let mut ix = Index::empty();
    let record = doc(7, "quick brown fox");
    ix.add(&record);
    ix.add(&record);
    let quick = tokenize("quick").remove(0);
    assert_eq!(ix.lookup(&quick).unwrap(), vec![7]);
}

#[test]
fn term_count_counts_distinct_terms() {
    let ix = Index::new(&corpus());
    // quick, brown, fox, dog, run, jump
    assert_eq!(ix.term_count(), 6);
}

#[test]
fn doc_count_and_document_text() {
    let ix = Index::new(&corpus());
    assert_eq!(ix.doc_count(), 3);
    assert_eq!(ix.document_text(1).unwrap(), "quick dog runs");
    assert!(ix.document_text(9).is_none());
}

#[test]
fn empty_index_answers_nothing() {
    let ix = Index::empty();
    assert_eq!(ix.term_count(), 0);
    assert_eq!(ix.doc_count(), 0);
    assert_eq!(search_ids(&ix, "fox"), Vec::<u32>::new());
    assert!(ix.lookup("fox").is_none());
}
