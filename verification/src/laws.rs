//! General laws of the engine, stated over the same model the contracts use:
//! the term map `Map<Seq<char>, Set<u32>>` and the normalized term sequence
//! of a query.

use vstd::prelude::*;

use crate::index::add_term;
use crate::index::add_terms;
use crate::index::conj_rest;
use crate::index::query_result;
use crate::norm::lower_of;
use crate::norm::normalize_spec;

verus! {

proof fn lemma_add_terms_facts(m: Map<Seq<char>, Set<u32>>, ts: Seq<Seq<char>>, id: u32)
    ensures
        forall|t: Seq<char>| #[trigger]
            add_terms(m, ts, id).contains_key(t) ==> m.contains_key(t) || ts.contains(t),
        forall|t: Seq<char>| #[trigger]
            m.contains_key(t) ==> add_terms(m, ts, id).contains_key(t),
        forall|t: Seq<char>| #[trigger] ts.contains(t) ==> add_terms(m, ts, id).contains_key(t),
        forall|t: Seq<char>| #[trigger]
            ts.contains(t) ==> add_terms(m, ts, id)[t] == (if m.contains_key(t) {
                m[t]
            } else {
                Set::<u32>::empty()
            }).insert(id),
        forall|t: Seq<char>|
            !ts.contains(t) && #[trigger] m.contains_key(t) ==> add_terms(m, ts, id)[t] == m[t],
    decreases ts.len(),
{
    if ts.len() == 0 {
        assert forall|t: Seq<char>| #[trigger]
            add_terms(m, ts, id).contains_key(t) implies m.contains_key(t) || ts.contains(t) by {
            assert(add_terms(m, ts, id) == m);
        }
    } else {
        let h = ts[0];
        let m1 = add_term(m, h, id);
        let rest = ts.drop_first();
        let r = add_terms(m, ts, id);
        assert(r == add_terms(m1, rest, id));
        lemma_add_terms_facts(m1, rest, id);
        assert(ts.contains(h)) by {
            assert(ts[0] == h);
        }
        assert forall|t: Seq<char>| #[trigger] r.contains_key(t) implies m.contains_key(t)
            || ts.contains(t) by {
            assert(add_terms(m1, rest, id).contains_key(t));
            if m1.contains_key(t) {
                if t == h {
                    assert(ts.contains(t));
                }
            } else {
                assert(rest.contains(t));
                let i = choose|i: int| 0 <= i < rest.len() && rest[i] == t;
                assert(ts[i + 1] == t);
                assert(ts.contains(t));
            }
        }
        assert forall|t: Seq<char>| #[trigger] m.contains_key(t) implies r.contains_key(t) by {
            assert(m1.contains_key(t));
            assert(add_terms(m1, rest, id).contains_key(t));
        }
        assert forall|t: Seq<char>| #[trigger] ts.contains(t) implies r.contains_key(t) by {
            let i = choose|i: int| 0 <= i < ts.len() && ts[i] == t;
            if i == 0 {
                assert(t == h);
                assert(m1.contains_key(t));
            } else {
                assert(rest[i - 1] == t);
                assert(rest.contains(t));
            }
            assert(add_terms(m1, rest, id).contains_key(t));
        }
        assert forall|t: Seq<char>| #[trigger] ts.contains(t) implies r[t] == (if m.contains_key(
            t,
        ) {
            m[t]
        } else {
            Set::<u32>::empty()
        }).insert(id) by {
            let p = if m.contains_key(t) {
                m[t]
            } else {
                Set::<u32>::empty()
            };
            if rest.contains(t) {
                let p1 = if m1.contains_key(t) {
                    m1[t]
                } else {
                    Set::<u32>::empty()
                };
                assert(add_terms(m1, rest, id)[t] == p1.insert(id));
                if t == h {
                    assert(p1 == p.insert(id));
                    assert(p.insert(id).insert(id) =~= p.insert(id));
                } else {
                    assert(m1.contains_key(t) == m.contains_key(t));
                    assert(p1 == p);
                }
            } else {
                let i = choose|i: int| 0 <= i < ts.len() && ts[i] == t;
                if i > 0 {
                    assert(rest[i - 1] == t);
                    assert(rest.contains(t));
                }
                assert(t == h);
                assert(m1.contains_key(t));
                assert(add_terms(m1, rest, id)[t] == m1[t]);
                assert(m1[t] == p.insert(id));
            }
        }
        assert forall|t: Seq<char>| !ts.contains(t) && #[trigger] m.contains_key(t) implies r[t]
            == m[t] by {
            assert(t != h) by {
                if t == h {
                    assert(ts[0] == t);
                    assert(ts.contains(t));
                }
            }
            assert(!rest.contains(t)) by {
                if rest.contains(t) {
                    let i = choose|i: int| 0 <= i < rest.len() && rest[i] == t;
                    assert(ts[i + 1] == t);
                    assert(ts.contains(t));
                }
            }
            assert(m1.contains_key(t));
            assert(m1[t] == m[t]);
            assert(add_terms(m1, rest, id)[t] == m1[t]);
        }
    }
}

/// Adding a document's terms under an id is idempotent: folding the same
/// term sequence in a second time with the same id leaves the term map as
/// the first addition left it.
pub proof fn lemma_add_idempotent(m: Map<Seq<char>, Set<u32>>, ts: Seq<Seq<char>>, id: u32)
    ensures
        add_terms(add_terms(m, ts, id), ts, id) == add_terms(m, ts, id),
{
    let m1 = add_terms(m, ts, id);
    let m2 = add_terms(m1, ts, id);
    lemma_add_terms_facts(m, ts, id);
    lemma_add_terms_facts(m1, ts, id);
    assert forall|t: Seq<char>| #[trigger] m2.contains_key(t) implies m1.contains_key(t) && m2[t]
        == m1[t] by {
        assert(m1.contains_key(t) || ts.contains(t));
        if ts.contains(t) {
            let p = if m.contains_key(t) {
                m[t]
            } else {
                Set::<u32>::empty()
            };
            assert(m1.contains_key(t));
            assert(m1[t] == p.insert(id));
            assert(m2[t] == m1[t].insert(id));
            assert(p.insert(id).insert(id) =~= p.insert(id));
        } else {
            assert(m1.contains_key(t));
            assert(m2[t] == m1[t]);
        }
    }
    assert forall|t: Seq<char>| #[trigger] m1.contains_key(t) implies m2.contains_key(t) by {
        assert(add_terms(m1, ts, id).contains_key(t));
    }
    assert(m2 =~= m1);
}

/// A query that normalizes to a single term returns exactly that term's
/// postings, or nothing when the term is absent.
pub proof fn lemma_single_term_query(m: Map<Seq<char>, Set<u32>>, q: Seq<char>)
    requires
        normalize_spec(q).len() == 1,
    ensures
        query_result(m, normalize_spec(q)) == (if m.contains_key(normalize_spec(q)[0]) {
            m[normalize_spec(q)[0]]
        } else {
            Set::<u32>::empty()
        }),
{
    let ts = normalize_spec(q);
    if m.contains_key(ts[0]) {
        assert(ts.drop_first().len() == 0);
        assert(conj_rest(m, ts.drop_first(), m[ts[0]]) == m[ts[0]]);
    }
}

/// Intersection of postings is commutative.
pub proof fn lemma_intersect_commutative(x: Set<u32>, y: Set<u32>)
    ensures
        x.intersect(y) == y.intersect(x),
{
    assert(x.intersect(y) =~= y.intersect(x));
}

/// Intersection of postings is associative.
pub proof fn lemma_intersect_associative(x: Set<u32>, y: Set<u32>, z: Set<u32>)
    ensures
        x.intersect(y).intersect(z) == x.intersect(y.intersect(z)),
{
    assert(x.intersect(y).intersect(z) =~= x.intersect(y.intersect(z)));
}

/// Intersecting a postings set with itself changes nothing.
pub proof fn lemma_intersect_self(x: Set<u32>)
    ensures
        x.intersect(x) == x,
{
    assert(x.intersect(x) =~= x);
}

/// Intersecting with the empty postings set gives the empty set.
pub proof fn lemma_intersect_empty(x: Set<u32>)
    ensures
        x.intersect(Set::<u32>::empty()) == Set::<u32>::empty(),
{
    assert(x.intersect(Set::<u32>::empty()) =~= Set::<u32>::empty());
}

/// Case-insensitivity: two queries with the same lowercase form produce
/// identical results against any term map.
pub proof fn lemma_case_insensitive(m: Map<Seq<char>, Set<u32>>, q1: Seq<char>, q2: Seq<char>)
    requires
        lower_of(q1) == lower_of(q2),
    ensures
        query_result(m, normalize_spec(q1)) == query_result(m, normalize_spec(q2)),
{
}

/// A query that normalizes to no terms — empty or all stopwords — matches
/// nothing, never everything.
pub proof fn lemma_empty_query(m: Map<Seq<char>, Set<u32>>, q: Seq<char>)
    requires
        normalize_spec(q).len() == 0,
    ensures
        query_result(m, normalize_spec(q)) == Set::<u32>::empty(),
{
}

} // verus!
