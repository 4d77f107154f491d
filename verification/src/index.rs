//! The inverted index: a map from normalized term to the postings list of
//! documents that contain it, together with the document store used to
//! render results.
//!
//! Contracts are stated over a mathematical model: the term map
//! `Map<Seq<char>, Set<u32>>` and the document map `Map<u32, Seq<char>>`.

use std::collections::HashMap;
use vstd::prelude::*;

use crate::norm::normalize_spec;
use crate::norm::str_eq;
use crate::norm::tokenize;
use crate::postings::bm_and;
use crate::postings::bm_clone;
use crate::postings::bm_insert;
use crate::postings::bm_new;
use crate::postings::bm_to_vec;
use crate::postings::ids;
use crate::postings::strictly_ascending;

verus! {

broadcast use vstd::std_specs::hash::group_hash_axioms;

/// One corpus record: the payload and the id the index knows it by.
pub struct Document {
    pub title: String,
    pub url: String,
    pub text: String,
    pub id: u32,
}

/// The term map a sequence of (term, postings) entries denotes.
pub open spec fn entries_map(s: Seq<(String, croaring::Bitmap)>) -> Map<Seq<char>, Set<u32>>
    decreases s.len(),
{
    if s.len() == 0 {
        Map::empty()
    } else {
        entries_map(s.drop_last()).insert(s.last().0@, ids(s.last().1))
    }
}

/// No term is keyed twice among the entries.
pub open spec fn distinct_keys(s: Seq<(String, croaring::Bitmap)>) -> bool {
    forall|i: int, j: int| 0 <= i < j < s.len() ==> s[i].0@ != s[j].0@
}

proof fn lemma_distinct_drop_last(s: Seq<(String, croaring::Bitmap)>)
    requires
        distinct_keys(s),
        s.len() > 0,
    ensures
        distinct_keys(s.drop_last()),
{
    assert forall|i: int, j: int|
        0 <= i < j < s.drop_last().len() implies s.drop_last()[i].0@ != s.drop_last()[j].0@ by {
        assert(s.drop_last()[i] == s[i]);
        assert(s.drop_last()[j] == s[j]);
    }
}

proof fn lemma_entries_contains(s: Seq<(String, croaring::Bitmap)>, t: Seq<char>)
    ensures
        entries_map(s).contains_key(t) <==> exists|i: int| 0 <= i < s.len() && s[i].0@ == t,
    decreases s.len(),
{
    if s.len() == 0 {
    } else {
        lemma_entries_contains(s.drop_last(), t);
        if s.last().0@ == t {
            assert(s[s.len() - 1].0@ == t);
        } else {
            if entries_map(s).contains_key(t) {
                let i = choose|i: int|
                    0 <= i < s.drop_last().len() && s.drop_last()[i].0@ == t;
                assert(s[i].0@ == t);
            }
            if exists|i: int| 0 <= i < s.len() && s[i].0@ == t {
                let i = choose|i: int| 0 <= i < s.len() && s[i].0@ == t;
                assert(i < s.len() - 1);
                assert(s.drop_last()[i].0@ == t);
            }
        }
    }
}

proof fn lemma_entries_value(s: Seq<(String, croaring::Bitmap)>, i: int)
    requires
        distinct_keys(s),
        0 <= i < s.len(),
    ensures
        entries_map(s).contains_key(s[i].0@),
        entries_map(s)[s[i].0@] == ids(s[i].1),
    decreases s.len(),
{
    if i == s.len() - 1 {
    } else {
        lemma_distinct_drop_last(s);
        assert(s.drop_last()[i] == s[i]);
        lemma_entries_value(s.drop_last(), i);
        assert(s[i].0@ != s.last().0@);
    }
}

proof fn lemma_entries_update(
    s: Seq<(String, croaring::Bitmap)>,
    j: int,
    e: (String, croaring::Bitmap),
)
    requires
        distinct_keys(s),
        0 <= j < s.len(),
        e.0@ == s[j].0@,
    ensures
        entries_map(s.update(j, e)) == entries_map(s).insert(s[j].0@, ids(e.1)),
        distinct_keys(s.update(j, e)),
    decreases s.len(),
{
    let su = s.update(j, e);
    assert forall|a: int, b: int| 0 <= a < b < su.len() implies su[a].0@ != su[b].0@ by {
        assert(s[a].0@ != s[b].0@);
    }
    if j == s.len() - 1 {
        assert(su.drop_last() =~= s.drop_last());
        assert(su.last() == e);
        assert(entries_map(su) =~= entries_map(s).insert(s[j].0@, ids(e.1)));
    } else {
        lemma_distinct_drop_last(s);
        assert(s.drop_last()[j] == s[j]);
        lemma_entries_update(s.drop_last(), j, e);
        assert(su.drop_last() =~= s.drop_last().update(j, e));
        assert(su.last() == s.last());
        assert(s[j].0@ != s.last().0@);
        assert(entries_map(su) =~= entries_map(s).insert(s[j].0@, ids(e.1)));
    }
}

proof fn lemma_entries_push(s: Seq<(String, croaring::Bitmap)>, e: (String, croaring::Bitmap))
    requires
        distinct_keys(s),
        forall|i: int| 0 <= i < s.len() ==> s[i].0@ != e.0@,
    ensures
        entries_map(s.push(e)) == entries_map(s).insert(e.0@, ids(e.1)),
        distinct_keys(s.push(e)),
{
    assert(s.push(e).drop_last() =~= s);
    assert(s.push(e).last() == e);
    assert forall|a: int, b: int|
        0 <= a < b < s.push(e).len() implies s.push(e)[a].0@ != s.push(e)[b].0@ by {
        if b < s.len() {
            assert(s[a].0@ != s[b].0@);
        } else {
            assert(s[a].0@ != e.0@);
        }
    }
}

proof fn lemma_entries_dom_len(s: Seq<(String, croaring::Bitmap)>)
    requires
        distinct_keys(s),
    ensures
        entries_map(s).dom().finite(),
        entries_map(s).dom().len() == s.len(),
    decreases s.len(),
{
    if s.len() == 0 {
        assert(entries_map(s).dom() =~= Set::<Seq<char>>::empty());
    } else {
        lemma_distinct_drop_last(s);
        lemma_entries_dom_len(s.drop_last());
        lemma_entries_contains(s.drop_last(), s.last().0@);
        assert(!entries_map(s.drop_last()).contains_key(s.last().0@)) by {
            if exists|i: int| 0 <= i < s.drop_last().len() && s.drop_last()[i].0@ == s.last().0@ {
                let i = choose|i: int|
                    0 <= i < s.drop_last().len() && s.drop_last()[i].0@ == s.last().0@;
                assert(s[i].0@ == s[s.len() - 1].0@);
            }
        }
        assert(entries_map(s).dom() =~= entries_map(s.drop_last()).dom().insert(s.last().0@));
    }
}

/// One term's postings after a document id joins it.
pub open spec fn add_term(m: Map<Seq<char>, Set<u32>>, t: Seq<char>, id: u32) -> Map<
    Seq<char>,
    Set<u32>,
> {
    m.insert(
        t,
        (if m.contains_key(t) {
            m[t]
        } else {
            Set::empty()
        }).insert(id),
    )
}

/// The term map after one document's terms are folded in, front to back.
pub open spec fn add_terms(m: Map<Seq<char>, Set<u32>>, ts: Seq<Seq<char>>, id: u32) -> Map<
    Seq<char>,
    Set<u32>,
>
    decreases ts.len(),
{
    if ts.len() == 0 {
        m
    } else {
        add_terms(add_term(m, ts[0], id), ts.drop_first(), id)
    }
}

/// Folds the remaining terms' postings into the accumulator; an absent term
/// empties the result.
pub open spec fn conj_rest(m: Map<Seq<char>, Set<u32>>, ts: Seq<Seq<char>>, acc: Set<u32>) -> Set<
    u32,
>
    decreases ts.len(),
{
    if ts.len() == 0 {
        acc
    } else if !m.contains_key(ts[0]) {
        Set::empty()
    } else {
        conj_rest(m, ts.drop_first(), acc.intersect(m[ts[0]]))
    }
}

/// The conjunctive result of a term sequence against a term map: every term
/// must be present, and the result is the intersection of their postings.
pub open spec fn query_result(m: Map<Seq<char>, Set<u32>>, ts: Seq<Seq<char>>) -> Set<u32> {
    if ts.len() == 0 {
        Set::empty()
    } else if !m.contains_key(ts[0]) {
        Set::empty()
    } else {
        conj_rest(m, ts.drop_first(), m[ts[0]])
    }
}

/// The texts of a corpus, in record order.
pub open spec fn corpus_texts(docs: Seq<Document>) -> Seq<Seq<char>> {
    docs.map_values(|d: Document| d.text@)
}

/// The term map and document map a corpus builds: each record's id is its
/// zero-based position.
pub open spec fn build_state(texts: Seq<Seq<char>>) -> (Map<Seq<char>, Set<u32>>, Map<
    u32,
    Seq<char>,
>)
    decreases texts.len(),
{
    if texts.len() == 0 {
        (Map::empty(), Map::empty())
    } else {
        let prev = build_state(texts.drop_last());
        let id = (texts.len() - 1) as u32;
        (add_terms(prev.0, normalize_spec(texts.last()), id), prev.1.insert(id, texts.last()))
    }
}

/// The inverted index and its companion document store.
pub struct Index {
    index: Vec<(String, croaring::Bitmap)>,
    documents: HashMap<u32, String>,
}

impl Index {
    /// The term map: each indexed term's set of document ids.
    pub closed spec fn terms(&self) -> Map<Seq<char>, Set<u32>> {
        entries_map(self.index@)
    }

    /// The document store: each id's stored text.
    pub closed spec fn docs(&self) -> Map<u32, Seq<char>> {
        self.documents@.map_values(|s: String| s@)
    }

    /// Structural well-formedness: no term is keyed twice, and no term is
    /// ever left keyed to an empty postings list.
    pub closed spec fn wf(&self) -> bool {
        &&& distinct_keys(self.index@)
        &&& forall|i: int|
            0 <= i < self.index@.len() ==> #[trigger] ids(self.index@[i].1)
                != Set::<u32>::empty()
    }

    /// The position of a term among the entries, if it is indexed.
    fn find_term(&self, term: &str) -> (r: Option<usize>)
        ensures
            match r {
                Some(j) => j < self.index@.len() && self.index@[j as int].0@ == term@,
                None => forall|i: int| 0 <= i < self.index@.len() ==> self.index@[i].0@ != term@,
            },
    {
        let mut k: usize = 0;
        while k < self.index.len()
            invariant
                k <= self.index@.len(),
                forall|i: int| 0 <= i < k ==> self.index@[i].0@ != term@,
            decreases self.index@.len() - k,
        {
            if str_eq(self.index[k].0.as_str(), term) {
                return Some(k);
            }
            k = k + 1;
        }
        None
    }

    /// An empty index over an empty document store.
    pub fn empty() -> (r: Index)
        ensures
            r.wf(),
            r.terms() == Map::<Seq<char>, Set<u32>>::empty(),
            r.docs() == Map::<u32, Seq<char>>::empty(),
    {
        let r = Index { index: Vec::new(), documents: HashMap::new() };
        proof {
            assert(r.terms() =~= Map::<Seq<char>, Set<u32>>::empty());
            assert(r.docs() =~= Map::<u32, Seq<char>>::empty());
        }
        r
    }

    /// Builds an index from a corpus in one pass; each record is indexed
    /// under its zero-based position, whatever id the record carries.
    pub fn new(docs: &Vec<Document>) -> (r: Index)
        requires
            docs@.len() <= u32::MAX,
        ensures
            r.wf(),
            r.terms() == build_state(corpus_texts(docs@)).0,
            r.docs() == build_state(corpus_texts(docs@)).1,
    {
        let mut ix = Index::empty();
        proof {
            assert(corpus_texts(docs@).take(0) =~= Seq::<Seq<char>>::empty());
        }
        let mut idx: usize = 0;
        while idx < docs.len()
            invariant
                docs@.len() <= u32::MAX,
                idx <= docs@.len(),
                ix.wf(),
                ix.terms() == build_state(corpus_texts(docs@).take(idx as int)).0,
                ix.docs() == build_state(corpus_texts(docs@).take(idx as int)).1,
            decreases docs@.len() - idx,
        {
            let d = &docs[idx];
            let document = Document {
                title: d.title.clone(),
                id: idx as u32,
                text: d.text.clone(),
                url: d.url.clone(),
            };
            ix.add(&document);
            proof {
                let texts = corpus_texts(docs@);
                assert(texts.take(idx as int + 1).drop_last() =~= texts.take(idx as int));
                assert(texts.take(idx as int + 1).last() == texts[idx as int]);
                assert(texts[idx as int] == docs@[idx as int].text@);
            }
            idx = idx + 1;
        }
        proof {
            assert(corpus_texts(docs@).take(docs@.len() as int) =~= corpus_texts(docs@));
        }
        ix
    }

    /// Indexes one document: every term of its normalized text gains the
    /// document's id, and the document store records its text.
    pub fn add(&mut self, doc: &Document)
        requires
            old(self).wf(),
        ensures
            final(self).wf(),
            final(self).terms() == add_terms(
                old(self).terms(),
                normalize_spec(doc.text@),
                doc.id,
            ),
            final(self).docs() == old(self).docs().insert(doc.id, doc.text@),
    {
        let text_copy = doc.text.clone();
        self.documents.insert(doc.id, text_copy);
        proof {
            assert(self.docs() =~= old(self).docs().insert(doc.id, doc.text@));
        }
        let tokens = tokenize(doc.text.as_str());
        let ghost all = tokens.deep_view();
        proof {
            assert(all.skip(0) =~= all);
        }
        let mut k: usize = 0;
        while k < tokens.len()
            invariant
                self.wf(),
                tokens.deep_view() == all,
                k <= tokens@.len(),
                tokens@.len() == all.len(),
                add_terms(old(self).terms(), all, doc.id) == add_terms(
                    self.terms(),
                    all.skip(k as int),
                    doc.id,
                ),
                self.docs() == old(self).docs().insert(doc.id, doc.text@),
            decreases tokens@.len() - k,
        {
            let ghost pre = self.index@;
            let t: &String = &tokens[k];
            proof {
                assert(all[k as int] == t@);
                assert(all.skip(k as int)[0] == all[k as int]);
                assert(all.skip(k as int).drop_first() =~= all.skip(k as int + 1));
            }
            match self.find_term(t.as_str()) {
                Some(j) => {
                    proof {
                        lemma_entries_value(pre, j as int);
                    }
                    let entry = self.index.remove(j);
                    let key = entry.0;
                    let mut bm = entry.1;
                    bm_insert(&mut bm, doc.id);
                    self.index.insert(j, (key, bm));
                    proof {
                        assert(self.index@ =~= pre.update(j as int, (pre[j as int].0, bm)));
                        lemma_entries_update(pre, j as int, (pre[j as int].0, bm));
                        assert(entries_map(self.index@) == add_term(entries_map(pre), t@, doc.id));
                        assert(ids(bm).contains(doc.id));
                        assert forall|i: int|
                            0 <= i < self.index@.len() implies #[trigger] ids(self.index@[i].1)
                            != Set::<u32>::empty() by {
                            if i != j {
                                assert(self.index@[i] == pre[i]);
                            }
                        }
                    }
                },
                None => {
                    proof {
                        lemma_entries_contains(pre, t@);
                    }
                    let mut bm = bm_new();
                    bm_insert(&mut bm, doc.id);
                    self.index.push((t.clone(), bm));
                    proof {
                        lemma_entries_push(pre, (self.index@.last().0, bm));
                        assert(self.index@ =~= pre.push((self.index@.last().0, bm)));
                        assert(entries_map(self.index@) == add_term(entries_map(pre), t@, doc.id));
                        assert(ids(bm).contains(doc.id));
                        assert forall|i: int|
                            0 <= i < self.index@.len() implies #[trigger] ids(self.index@[i].1)
                            != Set::<u32>::empty() by {
                            if i < pre.len() {
                                assert(self.index@[i] == pre[i]);
                            }
                        }
                    }
                },
            }
            k = k + 1;
        }
        proof {
            assert(all.skip(all.len() as int) =~= Seq::<Seq<char>>::empty());
        }
    }

    /// Answers a conjunctive query: normalizes it and intersects the postings
    /// of every term; an empty or all-stopword query, or any absent term,
    /// gives an empty result.
    pub fn search(&self, query: &str) -> (r: croaring::Bitmap)
        requires
            self.wf(),
        ensures
            ids(r) == query_result(self.terms(), normalize_spec(query@)),
    {
        let tokens = tokenize(query);
        let ghost all = tokens.deep_view();
        if tokens.len() == 0 {
            return bm_new();
        }
        proof {
            assert(all[0] == tokens@[0]@);
        }
        let first = match self.find_term(tokens[0].as_str()) {
            Some(j) => j,
            None => {
                proof {
                    lemma_entries_contains(self.index@, all[0]);
                }
                return bm_new();
            },
        };
        proof {
            lemma_entries_value(self.index@, first as int);
            assert(all.skip(1) =~= all.drop_first());
        }
        let mut acc = bm_clone(&self.index[first].1);
        let mut k: usize = 1;
        while k < tokens.len()
            invariant
                self.wf(),
                tokens.deep_view() == all,
                all == normalize_spec(query@),
                1 <= k <= all.len(),
                tokens@.len() == all.len(),
                query_result(self.terms(), all) == conj_rest(
                    self.terms(),
                    all.skip(k as int),
                    ids(acc),
                ),
            decreases all.len() - k,
        {
            let t: &String = &tokens[k];
            proof {
                assert(all[k as int] == t@);
                assert(all.skip(k as int)[0] == all[k as int]);
                assert(all.skip(k as int).drop_first() =~= all.skip(k as int + 1));
            }
            match self.find_term(t.as_str()) {
                Some(j) => {
                    proof {
                        lemma_entries_value(self.index@, j as int);
                    }
                    acc = bm_and(&acc, &self.index[j].1);
                },
                None => {
                    proof {
                        lemma_entries_contains(self.index@, all[k as int]);
                    }
                    return bm_new();
                },
            }
            k = k + 1;
        }
        proof {
            assert(all.skip(all.len() as int) =~= Seq::<Seq<char>>::empty());
        }
        acc
    }

    /// The postings of an exact, already-normalized term: its document ids in
    /// strictly ascending order, or nothing if the term was never indexed.
    pub fn lookup(&self, term: &str) -> (r: Option<Vec<u32>>)
        requires
            self.wf(),
        ensures
            r is Some <==> self.terms().contains_key(term@),
            r matches Some(v) ==> strictly_ascending(v@) && v@.to_set() == self.terms()[term@],
    {
        proof {
            lemma_entries_contains(self.index@, term@);
        }
        match self.find_term(term) {
            Some(j) => {
                proof {
                    lemma_entries_value(self.index@, j as int);
                }
                Some(bm_to_vec(&self.index[j].1))
            },
            None => None,
        }
    }

    /// How many distinct terms are indexed.
    pub fn term_count(&self) -> (r: usize)
        requires
            self.wf(),
        ensures
            r == self.terms().dom().len(),
    {
        proof {
            lemma_entries_dom_len(self.index@);
        }
        self.index.len()
    }

    /// How many documents the store holds.
    pub fn doc_count(&self) -> (r: usize)
        ensures
            r == self.docs().dom().len(),
    {
        proof {
            assert(self.docs().dom() =~= self.documents@.dom());
        }
        self.documents.len()
    }

    /// The stored text of a document id, if the id was ever added.
    pub fn document_text(&self, id: u32) -> (r: Option<&String>)
        ensures
            r is Some <==> self.docs().contains_key(id),
            r matches Some(s) ==> s@ == self.docs()[id],
    {
        self.documents.get(&id)
    }
}

} // verus!
