//! The flat item sequence of the selectable list: group headers interleaved
//! with leaves, in display order. The sequence is built once from per-leaf
//! group labels (one header in front of each run of equal adjacent labels)
//! and is both the rendering order and the navigation order; no tree is kept.

use vstd::prelude::*;

verus! {

/// One row of the flat item sequence: a group header or a leaf.
#[derive(Clone, Copy, Debug, PartialEq, Eq, Structural)]
pub enum Item {
    Header { group: usize },
    Leaf { group: usize, index: usize },
}

pub open spec fn spec_is_header(it: Item) -> bool {
    match it {
        Item::Header { .. } => true,
        Item::Leaf { .. } => false,
    }
}

pub open spec fn spec_group(it: Item) -> int {
    match it {
        Item::Header { group } => group as int,
        Item::Leaf { group, .. } => group as int,
    }
}

pub open spec fn spec_leaf_index(it: Item) -> int {
    match it {
        Item::Leaf { index, .. } => index as int,
        Item::Header { .. } => 0,
    }
}

/// How many runs of equal adjacent labels `cls` holds.
pub open spec fn spec_run_count(cls: Seq<Seq<char>>) -> int
    decreases cls.len(),
{
    if cls.len() == 0 {
        0
    } else if cls.len() == 1 {
        1
    } else if cls[cls.len() - 1] == cls[cls.len() - 2] {
        spec_run_count(cls.drop_last())
    } else {
        spec_run_count(cls.drop_last()) + 1
    }
}

/// The flat item sequence for per-leaf group labels `cls`: a header opens
/// each run of equal adjacent labels, and every label becomes one leaf.
pub open spec fn spec_build_items(cls: Seq<Seq<char>>) -> Seq<Item>
    decreases cls.len(),
{
    if cls.len() == 0 {
        Seq::empty()
    } else {
        let pre = spec_build_items(cls.drop_last());
        let n = cls.len() - 1;
        let g = (spec_run_count(cls) - 1) as usize;
        if n == 0 || cls[n] != cls[n - 1] {
            pre + seq![
                Item::Header { group: g },
                Item::Leaf { group: g, index: n as usize },
            ]
        } else {
            pre.push(Item::Leaf { group: g, index: n as usize })
        }
    }
}

pub proof fn lemma_run_count_bounds(cls: Seq<Seq<char>>)
    ensures
        0 <= spec_run_count(cls) <= cls.len(),
        cls.len() > 0 ==> 1 <= spec_run_count(cls),
    decreases cls.len(),
{
    if cls.len() > 1 {
        lemma_run_count_bounds(cls.drop_last());
    }
}

/// Every leaf of the built sequence points below `cls.len()`, and a
/// non-empty label list yields a non-empty item sequence.
pub proof fn lemma_build_items_wf(cls: Seq<Seq<char>>)
    ensures
        forall|k: int|
            0 <= k < spec_build_items(cls).len() && !spec_is_header(
                #[trigger] spec_build_items(cls)[k],
            ) ==> 0 <= spec_leaf_index(spec_build_items(cls)[k]) < cls.len(),
        cls.len() > 0 ==> spec_build_items(cls).len() > 0,
    decreases cls.len(),
{
    if cls.len() > 0 {
        lemma_build_items_wf(cls.drop_last());
        let pre = spec_build_items(cls.drop_last());
        let whole = spec_build_items(cls);
        assert forall|k: int|
            0 <= k < whole.len() && !spec_is_header(#[trigger] whole[k]) implies 0
            <= spec_leaf_index(whole[k]) < cls.len() by {
            if k < pre.len() {
                assert(whole[k] == pre[k]);
            }
        }
    }
}

/// Build the flat item sequence for the given group labels. Returns the
/// items and the number of groups.
pub fn build_items(cls: &Vec<String>) -> (r: (Vec<Item>, usize))
    ensures
        r.0@ == spec_build_items(cls.deep_view()),
        r.1 as int == spec_run_count(cls.deep_view()),
{
    let ghost dv = cls.deep_view();
    let mut items: Vec<Item> = Vec::new();
    let mut runs: usize = 0;
    let mut i: usize = 0;
    proof {
        assert(dv.len() == cls@.len());
        assert(dv.take(0) =~= Seq::<Seq<char>>::empty());
        assert(items@ =~= spec_build_items(dv.take(0)));
    }
    while i < cls.len()
        invariant
            dv == cls.deep_view(),
            dv.len() == cls@.len(),
            i <= cls@.len(),
            runs as int == spec_run_count(dv.take(i as int)),
            runs <= i,
            items@ == spec_build_items(dv.take(i as int)),
        decreases cls@.len() - i,
    {
        proof {
            assert(dv[i as int] == cls@[i as int]@);
            if i > 0 {
                assert(dv[i as int - 1] == cls@[i as int - 1]@);
            }
            assert(dv.take(i as int + 1).drop_last() =~= dv.take(i as int));
            lemma_run_count_bounds(dv.take(i as int + 1));
        }
        let newrun: bool = i == 0 || !cls[i].eq(&cls[i - 1]);
        if newrun {
            let g: usize = runs;
            runs = runs + 1;
            items.push(Item::Header { group: g });
            items.push(Item::Leaf { group: g, index: i });
            proof {
                assert(items@ =~= spec_build_items(dv.take(i as int)) + seq![
                    Item::Header { group: g },
                    Item::Leaf { group: g, index: i },
                ]);
                assert(items@ =~= spec_build_items(dv.take(i as int + 1)));
            }
        } else {
            let g: usize = runs - 1;
            items.push(Item::Leaf { group: g, index: i });
            proof {
                assert(items@ =~= spec_build_items(dv.take(i as int + 1)));
            }
        }
        i = i + 1;
    }
    proof {
        assert(dv.take(dv.len() as int) =~= dv);
    }
    (items, runs)
}

} // verus!
