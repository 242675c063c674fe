//! Scope lists: package names without repeats, in lexicographic order.

use vstd::prelude::*;

use crate::text::{
    lemma_seq_lt_irreflexive, lemma_seq_lt_total, lemma_seq_lt_transitive, seq_lt, str_lt, views,
};

verus! {

/// Each element comes strictly before the next, so none repeats.
pub open spec fn strictly_sorted(s: Seq<Seq<char>>) -> bool {
    forall|i: int, j: int| 0 <= i < j < s.len() ==> seq_lt(#[trigger] s[i], #[trigger] s[j])
}

/// Two strictly sorted sequences that hold the same elements are equal:
/// a set has one sorted listing.
pub proof fn lemma_sorted_listing_unique(a: Seq<Seq<char>>, b: Seq<Seq<char>>)
    requires
        strictly_sorted(a),
        strictly_sorted(b),
        a.to_set() == b.to_set(),
    ensures
        a == b,
    decreases a.len(),
{
    if a.len() == 0 {
        if b.len() > 0 {
            assert(b.to_set().contains(b[0]));
        }
        assert(a =~= b);
    } else if b.len() == 0 {
        assert(a.to_set().contains(a[0]));
    } else {
        assert(b.to_set().contains(a[0]));
        let j = choose|j: int| 0 <= j < b.len() && b[j] == a[0];
        assert(a.to_set().contains(b[0]));
        let k = choose|k: int| 0 <= k < a.len() && a[k] == b[0];
        if j > 0 {
            assert(seq_lt(b[0], a[0]));
            if k > 0 {
                assert(seq_lt(a[0], b[0]));
                lemma_seq_lt_transitive(a[0], b[0], a[0]);
            }
            lemma_seq_lt_irreflexive(a[0]);
        }
        assert(a[0] == b[0]);
        let ra = a.drop_first();
        let rb = b.drop_first();
        assert forall|e: Seq<char>| ra.to_set().contains(e) implies rb.to_set().contains(e) by {
            let p = choose|p: int| 0 <= p < ra.len() && ra[p] == e;
            assert(a[p + 1] == e);
            assert(b.to_set().contains(e));
            let q = choose|q: int| 0 <= q < b.len() && b[q] == e;
            if q == 0 {
                assert(seq_lt(a[0], a[p + 1]));
                lemma_seq_lt_irreflexive(e);
            }
            assert(rb[q - 1] == e);
        }
        assert forall|e: Seq<char>| rb.to_set().contains(e) implies ra.to_set().contains(e) by {
            let p = choose|p: int| 0 <= p < rb.len() && rb[p] == e;
            assert(b[p + 1] == e);
            assert(a.to_set().contains(e));
            let q = choose|q: int| 0 <= q < a.len() && a[q] == e;
            if q == 0 {
                assert(seq_lt(b[0], b[p + 1]));
                lemma_seq_lt_irreflexive(e);
            }
            assert(ra[q - 1] == e);
        }
        assert(ra.to_set() =~= rb.to_set());
        lemma_sorted_listing_unique(ra, rb);
        assert(a =~= seq![a[0]] + ra);
        assert(b =~= seq![b[0]] + rb);
    }
}

/// A strictly sorted sequence is as long as the set of its elements.
pub proof fn lemma_sorted_listing_len(a: Seq<Seq<char>>)
    requires
        strictly_sorted(a),
    ensures
        a.len() == a.to_set().len(),
{
    assert forall|i: int, j: int| 0 <= i < a.len() && 0 <= j < a.len() && i != j implies a[i]
        != a[j] by {
        if i < j {
            assert(seq_lt(a[i], a[j]));
        } else {
            assert(seq_lt(a[j], a[i]));
        }
        lemma_seq_lt_irreflexive(a[i]);
    }
    a.unique_seq_to_set();
}

/// Adds `x` to the sorted list `v`, where it does not hold it yet.
pub fn insert_sorted(v: &mut Vec<String>, x: String)
    requires
        strictly_sorted(views(old(v)@)),
    ensures
        strictly_sorted(views(final(v)@)),
        views(final(v)@).to_set() == views(old(v)@).to_set().insert(x@),
{
    let ghost old_views = views(v@);
    let mut i: usize = 0;
    while i < v.len() && str_lt(v[i].as_str(), x.as_str())
        invariant
            i <= v.len(),
            v@ == old(v)@,
            old_views == views(v@),
            forall|k: int| 0 <= k < i ==> seq_lt(#[trigger] old_views[k], x@),
        decreases v.len() - i,
    {
        i += 1;
    }
    if i < v.len() && !str_lt(x.as_str(), v[i].as_str()) {
        proof {
            lemma_seq_lt_total(old_views[i as int], x@);
            assert(old_views[i as int] == x@);
            assert(views(v@).to_set() =~= old_views.to_set().insert(x@));
        }
        return ;
    }
    let ghost xv = x@;
    v.insert(i, x);
    proof {
        let nv = views(v@);
        assert(nv =~= old_views.insert(i as int, xv));
        assert forall|a: int, b: int| 0 <= a < b < nv.len() implies seq_lt(
            #[trigger] nv[a],
            #[trigger] nv[b],
        ) by {
            if b < i {
                assert(nv[a] == old_views[a] && nv[b] == old_views[b]);
            } else if b == i {
                assert(nv[a] == old_views[a]);
            } else if a > i {
                assert(nv[a] == old_views[a - 1] && nv[b] == old_views[b - 1]);
            } else if a == i {
                assert(nv[b] == old_views[b - 1]);
                if b - 1 > i {
                    assert(seq_lt(old_views[i as int], old_views[b - 1]));
                    lemma_seq_lt_transitive(xv, old_views[i as int], old_views[b - 1]);
                }
            } else {
                assert(nv[a] == old_views[a] && nv[b] == old_views[b - 1]);
                assert(seq_lt(old_views[a], xv));
                if b - 1 > i {
                    assert(seq_lt(old_views[i as int], old_views[b - 1]));
                    lemma_seq_lt_transitive(xv, old_views[i as int], old_views[b - 1]);
                }
                lemma_seq_lt_transitive(old_views[a], xv, old_views[b - 1]);
            }
        }
        assert forall|e: Seq<char>| nv.to_set().contains(e) <==> old_views.to_set().insert(
            xv,
        ).contains(e) by {
            if old_views.to_set().contains(e) && e != xv {
                let p = choose|p: int| 0 <= p < old_views.len() && old_views[p] == e;
                if p < i {
                    assert(nv[p] == e);
                } else {
                    assert(nv[p + 1] == e);
                }
            }
            if nv.to_set().contains(e) {
                let p = choose|p: int| 0 <= p < nv.len() && nv[p] == e;
                if p < i {
                    assert(old_views[p] == e);
                } else if p > i {
                    assert(old_views[p - 1] == e);
                }
            }
            if e == xv {
                assert(nv[i as int] == xv);
            }
        }
        assert(nv.to_set() =~= old_views.to_set().insert(xv));
    }
}

} // verus!
