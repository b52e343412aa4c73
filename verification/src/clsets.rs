//! Small list operations on changelist labels that the command flows rely
//! on: keep-first deduplication, and the difference of two label lists.
//! Both compare labels by their text.

use vstd::prelude::*;
use crate::tracklist::spec_tracks;

verus! {

/// `v` with every later repetition removed: the first occurrence of each
/// label survives, in order.
pub open spec fn spec_dedup(v: Seq<Seq<char>>) -> Seq<Seq<char>>
    decreases v.len(),
{
    if v.len() == 0 {
        Seq::empty()
    } else {
        let pre = spec_dedup(v.drop_last());
        if spec_tracks(v.drop_last(), v.last()) {
            pre
        } else {
            pre.push(v.last())
        }
    }
}

/// Whether the label `x` occurs among the first `n` entries of `v`.
fn occurs_before(v: &Vec<String>, n: usize, x: &String) -> (r: bool)
    requires
        n <= v@.len(),
    ensures
        r == spec_tracks(v.deep_view().take(n as int), x@),
{
    let mut j: usize = 0;
    while j < n
        invariant
            n <= v@.len(),
            v@.len() == v.deep_view().len(),
            j <= n,
            forall|t: int| 0 <= t < j ==> #[trigger] v.deep_view()[t] != x@,
        decreases n - j,
    {
        if v[j].eq(x) {
            proof {
                assert(v.deep_view()[j as int] == v@[j as int]@);
                assert(v.deep_view().take(n as int)[j as int] == v.deep_view()[j as int]);
            }
            return true;
        }
        proof {
            assert(v.deep_view()[j as int] == v@[j as int]@);
        }
        j = j + 1;
    }
    proof {
        assert(forall|t: int|
            0 <= t < n ==> #[trigger] v.deep_view().take(n as int)[t] == v.deep_view()[t]);
    }
    false
}

/// Remove later repetitions: the first occurrence of each label survives,
/// in order.
pub fn dedup_strings(v: &Vec<String>) -> (r: Vec<String>)
    ensures
        r.deep_view() == spec_dedup(v.deep_view()),
{
    let ghost dv = v.deep_view();
    let mut r: Vec<String> = Vec::new();
    let mut i: usize = 0;
    proof {
        assert(dv.take(0) =~= Seq::<Seq<char>>::empty());
        assert(r.deep_view() =~= Seq::<Seq<char>>::empty());
    }
    while i < v.len()
        invariant
            dv == v.deep_view(),
            dv.len() == v@.len(),
            i <= v@.len(),
            r.deep_view() == spec_dedup(dv.take(i as int)),
        decreases v@.len() - i,
    {
        proof {
            let nxt = dv.take(i as int + 1);
            assert(nxt.drop_last() =~= dv.take(i as int));
            assert(nxt.last() == dv[i as int]);
            assert(dv[i as int] == v@[i as int]@);
        }
        let seen: bool = occurs_before(v, i, &v[i]);
        if !seen {
            let ghost r0 = r.deep_view();
            let e: String = v[i].clone();
            r.push(e);
            proof {
                assert(r.deep_view() =~= r0.push(v@[i as int]@));
            }
        }
        i = i + 1;
    }
    proof {
        assert(dv.take(dv.len() as int) =~= dv);
    }
    r
}

/// Whether the label `x` occurs anywhere in `v`.
pub fn contains_string(v: &Vec<String>, x: &String) -> (r: bool)
    ensures
        r == spec_tracks(v.deep_view(), x@),
{
    let n: usize = v.len();
    let r: bool = occurs_before(v, n, x);
    proof {
        assert(v.deep_view().take(v.deep_view().len() as int) =~= v.deep_view());
    }
    r
}

/// Keeps the labels that do not occur in `b`.
pub open spec fn spec_absent_pred(b: Seq<Seq<char>>) -> spec_fn(Seq<char>) -> bool {
    |s: Seq<char>| !spec_tracks(b, s)
}

/// The entries of `a` whose label does not occur in `b`, in order: the
/// tracked changelists that have no opened files, or the files on one side
/// of a shelf comparison only.
pub fn missing_from(a: &Vec<String>, b: &Vec<String>) -> (r: Vec<String>)
    ensures
        r.deep_view() == a.deep_view().filter(spec_absent_pred(b.deep_view())),
{
    let ghost dv = a.deep_view();
    let ghost pred = spec_absent_pred(b.deep_view());
    let mut r: Vec<String> = Vec::new();
    let mut i: usize = 0;
    proof {
        assert(dv.take(0) =~= Seq::<Seq<char>>::empty());
        Seq::<Seq<char>>::empty().lemma_all_neg_filter_empty(pred);
        assert(r.deep_view() =~= Seq::<Seq<char>>::empty());
    }
    while i < a.len()
        invariant
            dv == a.deep_view(),
            dv.len() == a@.len(),
            i <= a@.len(),
            r.deep_view() == dv.take(i as int).filter(spec_absent_pred(b.deep_view())),
        decreases a@.len() - i,
    {
        proof {
            let nxt = dv.take(i as int + 1);
            assert(nxt.drop_last() =~= dv.take(i as int));
            assert(nxt.last() == dv[i as int]);
            assert(dv[i as int] == a@[i as int]@);
            dv.take(i as int).lemma_filter_push(dv[i as int], spec_absent_pred(b.deep_view()));
            assert(spec_absent_pred(b.deep_view())(dv[i as int]) == !spec_tracks(
                b.deep_view(),
                dv[i as int],
            ));
        }
        let inside: bool = contains_string(b, &a[i]);
        if !inside {
            let ghost r0 = r.deep_view();
            let e: String = a[i].clone();
            r.push(e);
            proof {
                assert(r.deep_view() =~= r0.push(a@[i as int]@));
            }
        }
        proof {
            assert(dv.take(i as int + 1) == dv.take(i as int).push(dv[i as int])) by {
                assert(dv.take(i as int + 1) =~= dv.take(i as int).push(dv[i as int]));
            }
        }
        i = i + 1;
    }
    proof {
        assert(dv.take(dv.len() as int) =~= dv);
    }
    r
}

} // verus!
