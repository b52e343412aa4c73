//! The tracked-changelist list. Reading and writing the configuration file
//! that persists the list is the caller's business; these functions compute
//! what the new list is.

use vstd::prelude::*;

verus! {

/// Whether some entry of `cls` spells exactly `cl`.
pub open spec fn spec_tracks(cls: Seq<Seq<char>>, cl: Seq<char>) -> bool {
    exists|i: int| 0 <= i < cls.len() && cls[i] == cl
}

/// A copy of `cls`: the same strings in the same order.
fn copy_all(cls: &Vec<String>) -> (r: Vec<String>)
    ensures
        r@ == cls@,
{
    let mut r: Vec<String> = Vec::new();
    let mut i: usize = 0;
    while i < cls.len()
        invariant
            i <= cls@.len(),
            r@ == cls@.take(i as int),
        decreases cls@.len() - i,
    {
        let e: String = cls[i].clone();
        r.push(e);
        proof {
            assert(cls@.take(i as int).push(cls@[i as int]) =~= cls@.take(i as int + 1));
        }
        i = i + 1;
    }
    proof {
        assert(cls@.take(cls@.len() as int) =~= cls@);
    }
    r
}

/// The tracked list with `cl` added: appended at the end when it was not yet
/// tracked, the list unchanged when it was.
pub fn add_tracked_cl(cls: &Vec<String>, cl: &String) -> (r: Vec<String>)
    ensures
        spec_tracks(cls.deep_view(), cl@) ==> r.deep_view() == cls.deep_view(),
        !spec_tracks(cls.deep_view(), cl@) ==> r.deep_view() == cls.deep_view().push(cl@),
{
    let mut found: bool = false;
    let mut i: usize = 0;
    while i < cls.len()
        invariant
            i <= cls@.len(),
            found == (exists|k: int| 0 <= k < i && #[trigger] cls.deep_view()[k] == cl@),
        decreases cls@.len() - i,
    {
        if cls[i].eq(cl) {
            proof {
                assert(cls.deep_view()[i as int] == cls@[i as int]@);
            }
            found = true;
        }
        i = i + 1;
    }
    if found {
        let r: Vec<String> = copy_all(cls);
        proof {
            assert(r.deep_view() =~= cls.deep_view());
        }
        r
    } else {
        let mut r: Vec<String> = copy_all(cls);
        r.push(cl.clone());
        proof {
            assert(forall|k: int|
                0 <= k < cls.deep_view().len() ==> #[trigger] cls.deep_view()[k] == cls@[k]@);
            assert(r.deep_view() =~= cls.deep_view().push(cl@));
        }
        r
    }
}

/// The tracked list with every entry spelling `cl` removed.
pub fn remove_tracked_cl(cls: &Vec<String>, cl: &String) -> (r: Vec<String>)
    ensures
        r.deep_view() == cls.deep_view().filter(|s: Seq<char>| s != cl@),
{
    let ghost pred = |s: Seq<char>| s != cl@;
    let mut r: Vec<String> = Vec::new();
    let mut i: usize = 0;
    proof {
        assert(cls.deep_view().take(0) =~= Seq::<Seq<char>>::empty());
        Seq::<Seq<char>>::empty().lemma_all_neg_filter_empty(pred);
        assert(r.deep_view() =~= Seq::<Seq<char>>::empty());
    }
    while i < cls.len()
        invariant
            i <= cls@.len(),
            cls@.len() == cls.deep_view().len(),
            r.deep_view() == cls.deep_view().take(i as int).filter(|s: Seq<char>| s != cl@),
        decreases cls@.len() - i,
    {
        let ghost pre = cls.deep_view().take(i as int);
        proof {
            assert(cls.deep_view()[i as int] == cls@[i as int]@);
            assert(pre.push(cls.deep_view()[i as int]) =~= cls.deep_view().take(i as int + 1));
            pre.lemma_filter_push(cls.deep_view()[i as int], |s: Seq<char>| s != cl@);
        }
        if !cls[i].eq(cl) {
            let ghost r0 = r.deep_view();
            let e: String = cls[i].clone();
            r.push(e);
            proof {
                assert(r.deep_view() =~= r0.push(cls@[i as int]@));
            }
        }
        i = i + 1;
    }
    proof {
        assert(cls.deep_view().take(cls.deep_view().len() as int) =~= cls.deep_view());
    }
    r
}

} // verus!
