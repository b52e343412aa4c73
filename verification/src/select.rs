//! The selectable list widget: a cursor over the flat item sequence that
//! wraps at both ends, jumps between headers, and a per-leaf selection set
//! whose header checkboxes (empty / partial / full) are always derived from
//! the leaves. One keystroke is one step of a pure state machine; the caller
//! runs the redraw/input loop and performs the terminal work.

use vstd::prelude::*;
use crate::items::{Item, spec_is_header, spec_group, spec_leaf_index, spec_build_items,
    build_items, lemma_build_items_wf};
use vstd::arithmetic::div_mod::{lemma_small_mod, lemma_mod_self_0, lemma_add_mod_noop};

verus! {

/// One keystroke, as the widgets understand it.
#[derive(Clone, Copy, Debug)]
pub enum Key {
    Up,
    Down,
    Tab,
    BackTab,
    Enter,
    Esc,
    Backspace,
    PageUp,
    PageDown,
    Home,
    End,
    Char(char),
    Other,
}

/// What a finished selection returned: nothing (cancelled), the item the
/// cursor stood on (single-select), or the set of chosen leaves, possibly
/// empty (multi-select). A confirmed empty set is distinct from cancellation.
#[derive(Debug, Clone)]
pub enum SelectOutcome {
    Cancelled,
    ChosenIndex(usize),
    ChosenSet(Vec<usize>),
}

/// Leaf `i` belongs to group `g` somewhere in the item sequence.
pub open spec fn spec_leaf_in_group(items: Seq<Item>, i: int, g: int) -> bool {
    exists|k: int|
        0 <= k < items.len() && !spec_is_header(#[trigger] items[k]) && spec_group(items[k]) == g
            && spec_leaf_index(items[k]) == i
}

/// Every leaf of group `g` is selected.
pub open spec fn spec_group_full(items: Seq<Item>, sel: Seq<bool>, g: int) -> bool {
    forall|k: int|
        0 <= k < items.len() && !spec_is_header(#[trigger] items[k]) && spec_group(items[k]) == g
            ==> sel[spec_leaf_index(items[k])]
}

/// Some leaf of group `g` is selected.
pub open spec fn spec_group_some(items: Seq<Item>, sel: Seq<bool>, g: int) -> bool {
    exists|k: int|
        0 <= k < items.len() && !spec_is_header(#[trigger] items[k]) && spec_group(items[k]) == g
            && sel[spec_leaf_index(items[k])]
}

/// Toggling a header: every leaf of the group becomes selected unless all
/// of them already were, in which case all become unselected. A partial
/// group therefore always fills, never empties. Other leaves are untouched.
pub open spec fn spec_toggle_group(items: Seq<Item>, sel: Seq<bool>, g: int) -> Seq<bool> {
    Seq::new(
        sel.len(),
        |i: int|
            if spec_leaf_in_group(items, i, g) {
                !spec_group_full(items, sel, g)
            } else {
                sel[i]
            },
    )
}

/// Toggling a leaf flips its flag alone.
pub open spec fn spec_toggle_leaf(sel: Seq<bool>, i: int) -> Seq<bool> {
    sel.update(i, !sel[i])
}

/// The earliest header position in `[lo, hi)`, if there is one.
pub open spec fn spec_first_header_in(items: Seq<Item>, lo: int, hi: int) -> Option<int>
    decreases hi - lo,
{
    if lo < 0 || lo >= hi || hi > items.len() {
        None
    } else if spec_is_header(items[lo]) {
        Some(lo)
    } else {
        spec_first_header_in(items, lo + 1, hi)
    }
}

/// The latest header position in `[lo, hi)`, if there is one.
pub open spec fn spec_last_header_in(items: Seq<Item>, lo: int, hi: int) -> Option<int>
    decreases hi - lo,
{
    if lo < 0 || lo >= hi || hi > items.len() {
        None
    } else if spec_is_header(items[hi - 1]) {
        Some(hi - 1)
    } else {
        spec_last_header_in(items, lo, hi - 1)
    }
}

/// Where Tab puts the cursor: the next header after `c`, wrapping to the
/// first header at or before `c`; the cursor stays if there is no header.
pub open spec fn spec_next_header(items: Seq<Item>, c: int) -> int {
    match spec_first_header_in(items, c + 1, items.len() as int) {
        Some(k) => k,
        None => match spec_first_header_in(items, 0, c + 1) {
            Some(k) => k,
            None => c,
        },
    }
}

/// Where Shift-Tab puts the cursor: the last header before `c`, wrapping to
/// the last header at or after `c`; the cursor stays if there is no header.
pub open spec fn spec_prev_header(items: Seq<Item>, c: int) -> int {
    match spec_last_header_in(items, 0, c) {
        Some(k) => k,
        None => match spec_last_header_in(items, c, items.len() as int) {
            Some(k) => k,
            None => c,
        },
    }
}

/// The selected leaf indices, in ascending order.
pub open spec fn spec_selected_indices(sel: Seq<bool>) -> Seq<usize>
    decreases sel.len(),
{
    if sel.len() == 0 {
        Seq::empty()
    } else {
        let pre = spec_selected_indices(sel.drop_last());
        if sel.last() {
            pre.push((sel.len() - 1) as usize)
        } else {
            pre
        }
    }
}

/// The selectable list widget's whole mutable state.
pub struct SelectState {
    pub items: Vec<Item>,
    pub num_leaves: usize,
    pub selected: Vec<bool>,
    pub cursor: usize,
    pub multi: bool,
}

/// One keystroke's effect on the selection widget: cursor movement wraps,
/// Space toggles at the cursor, Enter confirms (the current set in
/// multi-select, the cursor position in single-select), Esc and `q` cancel,
/// and any other key changes nothing.
pub open spec fn spec_select_step(
    pre: SelectState,
    key: Key,
    post: SelectState,
    out: Option<SelectOutcome>,
) -> bool {
    let l = pre.items@.len() as int;
    &&& post.items@ == pre.items@
    &&& post.num_leaves == pre.num_leaves
    &&& post.multi == pre.multi
    &&& (match key {
        Key::Up => post.cursor as int == (pre.cursor + l - 1) % l && post.selected@
            == pre.selected@ && out is None,
        Key::Down => post.cursor as int == (pre.cursor + 1) % l && post.selected@ == pre.selected@
            && out is None,
        Key::Tab => post.cursor as int == spec_next_header(pre.items@, pre.cursor as int)
            && post.selected@ == pre.selected@ && out is None,
        Key::BackTab => post.cursor as int == spec_prev_header(pre.items@, pre.cursor as int)
            && post.selected@ == pre.selected@ && out is None,
        Key::Char(c) => {
            if c == ' ' {
                &&& post.cursor == pre.cursor
                &&& out is None
                &&& (if spec_is_header(pre.items@[pre.cursor as int]) {
                    post.selected@ == spec_toggle_group(
                        pre.items@,
                        pre.selected@,
                        spec_group(pre.items@[pre.cursor as int]),
                    )
                } else {
                    post.selected@ == spec_toggle_leaf(
                        pre.selected@,
                        spec_leaf_index(pre.items@[pre.cursor as int]),
                    )
                })
            } else if c == 'q' {
                post.cursor == pre.cursor && post.selected@ == pre.selected@ && out == Some(
                    SelectOutcome::Cancelled,
                )
            } else {
                post.cursor == pre.cursor && post.selected@ == pre.selected@ && out is None
            }
        },
        Key::Enter => {
            &&& post.cursor == pre.cursor
            &&& post.selected@ == pre.selected@
            &&& (if pre.multi {
                out matches Some(SelectOutcome::ChosenSet(v)) && v@ == spec_selected_indices(
                    pre.selected@,
                )
            } else {
                out == Some(SelectOutcome::ChosenIndex(pre.cursor))
            })
        },
        Key::Esc => post.cursor == pre.cursor && post.selected@ == pre.selected@ && out == Some(
            SelectOutcome::Cancelled,
        ),
        _ => post.cursor == pre.cursor && post.selected@ == pre.selected@ && out is None,
    })
}

proof fn lemma_first_header_none(items: Seq<Item>, lo: int, hi: int)
    requires
        0 <= lo,
        hi <= items.len(),
        forall|k: int| lo <= k < hi ==> spec_is_header(#[trigger] items[k]) == false,
    ensures
        spec_first_header_in(items, lo, hi) is None,
    decreases hi - lo,
{
    if !(lo < 0 || lo >= hi || hi > items.len()) {
        lemma_first_header_none(items, lo + 1, hi);
    }
}

proof fn lemma_first_header_found(items: Seq<Item>, lo: int, i: int, hi: int)
    requires
        0 <= lo <= i < hi <= items.len(),
        forall|k: int| lo <= k < i ==> spec_is_header(#[trigger] items[k]) == false,
        spec_is_header(items[i]),
    ensures
        spec_first_header_in(items, lo, hi) == Some(i),
    decreases i - lo,
{
    if lo < i {
        lemma_first_header_found(items, lo + 1, i, hi);
    }
}

proof fn lemma_last_header_none(items: Seq<Item>, lo: int, hi: int)
    requires
        0 <= lo,
        hi <= items.len(),
        forall|k: int| lo <= k < hi ==> spec_is_header(#[trigger] items[k]) == false,
    ensures
        spec_last_header_in(items, lo, hi) is None,
    decreases hi - lo,
{
    if !(lo < 0 || lo >= hi || hi > items.len()) {
        lemma_last_header_none(items, lo, hi - 1);
    }
}

proof fn lemma_last_header_found(items: Seq<Item>, lo: int, i: int, hi: int)
    requires
        0 <= lo <= i < hi <= items.len(),
        forall|k: int| i < k < hi ==> spec_is_header(#[trigger] items[k]) == false,
        spec_is_header(items[i]),
    ensures
        spec_last_header_in(items, lo, hi) == Some(i),
    decreases hi - i,
{
    if i < hi - 1 {
        lemma_last_header_found(items, lo, i, hi - 1);
    }
}

impl SelectState {
    /// Well-formed: at least one item, the cursor inside the sequence, one
    /// selection flag per leaf, every leaf referring to a valid flag.
    pub open spec fn wf(self) -> bool {
        &&& self.items@.len() > 0
        &&& (self.cursor as int) < self.items@.len()
        &&& self.selected@.len() == self.num_leaves
        &&& forall|k: int|
            0 <= k < self.items@.len() && !spec_is_header(#[trigger] self.items@[k]) ==> 0
                <= spec_leaf_index(self.items@[k]) < self.num_leaves
    }

    /// A fresh widget over `items`: cursor on the first row, every leaf's
    /// flag set to `preselect_all`.
    pub fn new(items: Vec<Item>, num_leaves: usize, multi: bool, preselect_all: bool) -> (s:
        SelectState)
        requires
            items@.len() > 0,
            forall|k: int|
                0 <= k < items@.len() && !spec_is_header(#[trigger] items@[k]) ==> 0
                    <= spec_leaf_index(items@[k]) < num_leaves,
        ensures
            s.wf(),
            s.items@ == items@,
            s.num_leaves == num_leaves,
            s.multi == multi,
            s.cursor == 0,
            forall|i: int| 0 <= i < num_leaves ==> #[trigger] s.selected@[i] == preselect_all,
    {
        let mut selected: Vec<bool> = Vec::new();
        let mut i: usize = 0;
        while i < num_leaves
            invariant
                i <= num_leaves,
                selected@.len() == i,
                forall|j: int| 0 <= j < i ==> #[trigger] selected@[j] == preselect_all,
            decreases num_leaves - i,
        {
            selected.push(preselect_all);
            i = i + 1;
        }
        SelectState { items, num_leaves, selected, cursor: 0, multi }
    }

    /// A fresh widget built from per-leaf group labels: a header opens each
    /// run of equal adjacent labels (the callers sort beforehand, so a group
    /// is one run).
    pub fn from_groups(cls: &Vec<String>, multi: bool, preselect_all: bool) -> (s: SelectState)
        requires
            cls@.len() > 0,
        ensures
            s.wf(),
            s.items@ == spec_build_items(cls.deep_view()),
            s.num_leaves == cls@.len(),
            s.multi == multi,
            s.cursor == 0,
            forall|i: int| 0 <= i < cls@.len() ==> #[trigger] s.selected@[i] == preselect_all,
    {
        proof {
            assert(cls.deep_view().len() == cls@.len());
            lemma_build_items_wf(cls.deep_view());
        }
        let (items, _groups) = build_items(cls);
        SelectState::new(items, cls.len(), multi, preselect_all)
    }

    /// A fresh flat widget of `n` leaves and no headers: the plain list
    /// the single-select flows use.
    pub fn flat(n: usize, multi: bool) -> (s: SelectState)
        requires
            n > 0,
        ensures
            s.wf(),
            s.cursor == 0,
            s.multi == multi,
            s.num_leaves == n,
            s.items@.len() == n,
            forall|k: int|
                0 <= k < n ==> #[trigger] s.items@[k] == (Item::Leaf {
                    group: k as usize,
                    index: k as usize,
                }),
            forall|i: int| 0 <= i < n ==> !(#[trigger] s.selected@[i]),
    {
        let mut items: Vec<Item> = Vec::new();
        let mut i: usize = 0;
        while i < n
            invariant
                i <= n,
                items@.len() == i,
                forall|k: int|
                    0 <= k < i ==> #[trigger] items@[k] == (Item::Leaf {
                        group: k as usize,
                        index: k as usize,
                    }),
            decreases n - i,
        {
            items.push(Item::Leaf { group: i, index: i });
            i = i + 1;
        }
        SelectState::new(items, n, multi, false)
    }

    /// The tri-state a header of group `g` displays: whether every leaf of
    /// the group is selected, and whether any is.
    pub fn group_state(&self, g: usize) -> (r: (bool, bool))
        requires
            self.wf(),
        ensures
            r.0 == spec_group_full(self.items@, self.selected@, g as int),
            r.1 == spec_group_some(self.items@, self.selected@, g as int),
    {
        let n: usize = self.items.len();
        let mut full: bool = true;
        let mut some: bool = false;
        let mut k: usize = 0;
        while k < n
            invariant
                self.wf(),
                n == self.items@.len(),
                k <= n,
                full == spec_group_full(self.items@.take(k as int), self.selected@, g as int),
                some == spec_group_some(self.items@.take(k as int), self.selected@, g as int),
            decreases n - k,
        {
            let ghost pret = self.items@.take(k as int);
            let ghost nxt = self.items@.take(k as int + 1);
            proof {
                assert(nxt =~= pret.push(self.items@[k as int]));
                assert(forall|t: int| 0 <= t < nxt.len() ==> nxt[t] == #[trigger] self.items@[t]);
                assert(forall|t: int| 0 <= t < pret.len() ==> pret[t] == #[trigger] self.items@[t]);
            }
            let it: Item = self.items[k];
            match it {
                Item::Leaf { group, index } => {
                    if group == g {
                        if self.selected[index] {
                            some = true;
                        } else {
                            full = false;
                        }
                    }
                },
                Item::Header { .. } => {},
            }
            proof {
                assert(full == spec_group_full(nxt, self.selected@, g as int)) by {
                    if full {
                        assert forall|t: int|
                            0 <= t < nxt.len() && !spec_is_header(#[trigger] nxt[t]) && spec_group(
                                nxt[t],
                            ) == g as int implies self.selected@[spec_leaf_index(nxt[t])] by {
                            if t < pret.len() {
                                assert(pret[t] == nxt[t]);
                            }
                        }
                    } else {
                        if !spec_group_full(pret, self.selected@, g as int) {
                            let w = choose|t: int|
                                0 <= t < pret.len() && !spec_is_header(#[trigger] pret[t])
                                    && spec_group(pret[t]) == g as int && !self.selected@[
                                spec_leaf_index(pret[t])];
                            assert(nxt[w] == pret[w]);
                        }
                    }
                }
                assert(some == spec_group_some(nxt, self.selected@, g as int)) by {
                    if some {
                        if spec_group_some(pret, self.selected@, g as int) {
                            let w = choose|t: int|
                                0 <= t < pret.len() && !spec_is_header(#[trigger] pret[t])
                                    && spec_group(pret[t]) == g as int && self.selected@[
                                spec_leaf_index(pret[t])];
                            assert(nxt[w] == pret[w]);
                        }
                    } else {
                        assert forall|t: int|
                            0 <= t < nxt.len() && !spec_is_header(#[trigger] nxt[t]) && spec_group(
                                nxt[t],
                            ) == g as int implies !self.selected@[spec_leaf_index(nxt[t])] by {
                            if t < pret.len() {
                                assert(pret[t] == nxt[t]);
                            }
                        }
                    }
                }
            }
            k = k + 1;
        }
        proof {
            assert(self.items@.take(n as int) =~= self.items@);
        }
        (full, some)
    }

    /// The selected leaf indices, ascending.
    pub fn selected_leaves(&self) -> (v: Vec<usize>)
        ensures
            v@ == spec_selected_indices(self.selected@),
    {
        let mut v: Vec<usize> = Vec::new();
        let mut i: usize = 0;
        proof {
            assert(self.selected@.take(0) =~= Seq::<bool>::empty());
        }
        while i < self.selected.len()
            invariant
                i <= self.selected@.len(),
                v@ == spec_selected_indices(self.selected@.take(i as int)),
            decreases self.selected@.len() - i,
        {
            proof {
                let nxt = self.selected@.take(i as int + 1);
                assert(nxt.drop_last() =~= self.selected@.take(i as int));
                assert(nxt.last() == self.selected@[i as int]);
            }
            if self.selected[i] {
                v.push(i);
            }
            i = i + 1;
        }
        proof {
            assert(self.selected@.take(self.selected@.len() as int) =~= self.selected@);
        }
        v
    }

    /// Toggle every leaf of group `g`: select all unless all are already
    /// selected, else deselect all.
    fn toggle_group(&mut self, g: usize)
        requires
            old(self).wf(),
        ensures
            final(self).wf(),
            final(self).items@ == old(self).items@,
            final(self).cursor == old(self).cursor,
            final(self).num_leaves == old(self).num_leaves,
            final(self).multi == old(self).multi,
            final(self).selected@ == spec_toggle_group(
                old(self).items@,
                old(self).selected@,
                g as int,
            ),
    {
        let (full, _some) = self.group_state(g);
        let target: bool = !full;
        let ghost items0 = self.items@;
        let ghost sel0 = self.selected@;
        let n: usize = self.items.len();
        let mut k: usize = 0;
        proof {
            assert(items0.take(0) =~= Seq::<Item>::empty());
        }
        while k < n
            invariant
                self.wf(),
                n == self.items@.len(),
                k <= n,
                self.items@ == items0,
                self.cursor == old(self).cursor,
                self.num_leaves == old(self).num_leaves,
                self.multi == old(self).multi,
                self.selected@.len() == sel0.len(),
                target == !spec_group_full(items0, sel0, g as int),
                forall|i: int|
                    0 <= i < sel0.len() ==> #[trigger] self.selected@[i] == (if spec_leaf_in_group(
                        items0.take(k as int),
                        i,
                        g as int,
                    ) {
                        target
                    } else {
                        sel0[i]
                    }),
            decreases n - k,
    {
            let ghost pret = items0.take(k as int);
            let ghost nxt = items0.take(k as int + 1);
            proof {
                assert(nxt =~= pret.push(items0[k as int]));
                assert(forall|t: int| 0 <= t < nxt.len() ==> nxt[t] == #[trigger] items0[t]);
            }
            let it: Item = self.items[k];
            match it {
                Item::Leaf { group, index } => {
                    if group == g {
                        self.selected.set(index, target);
                    }
                },
                Item::Header { .. } => {},
            }
            proof {
                assert forall|i: int| 0 <= i < sel0.len() implies #[trigger] self.selected@[i] == (
                if spec_leaf_in_group(nxt, i, g as int) {
                    target
                } else {
                    sel0[i]
                }) by {
                    if spec_leaf_in_group(nxt, i, g as int) {
                        let w = choose|t: int|
                            0 <= t < nxt.len() && !spec_is_header(#[trigger] nxt[t]) && spec_group(
                                nxt[t],
                            ) == g as int && spec_leaf_index(nxt[t]) == i;
                        if w < pret.len() {
                            assert(pret[w] == nxt[w]);
                            assert(spec_leaf_in_group(pret, i, g as int));
                        }
                    } else {
                        if spec_leaf_in_group(pret, i, g as int) {
                            let w = choose|t: int|
                                0 <= t < pret.len() && !spec_is_header(#[trigger] pret[t])
                                    && spec_group(pret[t]) == g as int && spec_leaf_index(pret[t])
                                    == i;
                            assert(nxt[w] == pret[w]);
                        }
                    }
                }
            }
            k = k + 1;
        }
        proof {
            assert(items0.take(n as int) =~= items0);
            assert(self.selected@ =~= spec_toggle_group(items0, sel0, g as int));
        }
    }

    /// Apply one keystroke; `Some` means the widget is finished.
    #[verifier::loop_isolation(false)]
    pub fn handle_key(&mut self, key: Key) -> (out: Option<SelectOutcome>)
        requires
            old(self).wf(),
        ensures
            final(self).wf(),
            spec_select_step(*old(self), key, *final(self), out),
    {
        let l: usize = self.items.len();
        match key {
            Key::Up => {
                if self.cursor > 0 {
                    self.cursor = self.cursor - 1;
                } else {
                    self.cursor = l - 1;
                }
                proof {
                    let c = old(self).cursor as int;
                    let li = l as int;
                    if c > 0 {
                        assert((c + li - 1) % li == (c - 1) % li + 0) by {
                            lemma_add_mod_noop(c - 1, li, li);
                            lemma_mod_self_0(li);
                            lemma_small_mod((c - 1) as nat, li as nat);
                        }
                        lemma_small_mod((c - 1) as nat, li as nat);
                    } else {
                        lemma_small_mod((li - 1) as nat, li as nat);
                    }
                }
                None
            },
            Key::Down => {
                if self.cursor < l - 1 {
                    self.cursor = self.cursor + 1;
                } else {
                    self.cursor = 0;
                }
                proof {
                    let c = old(self).cursor as int;
                    let li = l as int;
                    if c < li - 1 {
                        lemma_small_mod((c + 1) as nat, li as nat);
                    } else {
                        lemma_mod_self_0(li);
                    }
                }
                None
            },
            Key::Tab => {
                let c: usize = self.cursor;
                let mut i: usize = c + 1;
                while i < l
                    invariant
                        self == old(self),
                        l == self.items@.len(),
                        c == self.cursor,
                        (c as int) < l as int,
                        c + 1 <= i <= l,
                        forall|k: int|
                            c + 1 <= k < i ==> spec_is_header(#[trigger] self.items@[k]) == false,
                    decreases l - i,
                {
                    let it: Item = self.items[i];
                    match it {
                        Item::Header { .. } => {
                            proof {
                                lemma_first_header_found(
                                    self.items@,
                                    c as int + 1,
                                    i as int,
                                    l as int,
                                );
                            }
                            self.cursor = i;
                            return None;
                        },
                        Item::Leaf { .. } => {},
                    }
                    i = i + 1;
                }
                proof {
                    lemma_first_header_none(self.items@, c as int + 1, l as int);
                }
                let mut j: usize = 0;
                while j <= c
                    invariant
                        self == old(self),
                        l == self.items@.len(),
                        c == self.cursor,
                        (c as int) < l as int,
                        j <= c + 1,
                        spec_first_header_in(self.items@, c as int + 1, l as int) is None,
                        forall|k: int|
                            0 <= k < j ==> spec_is_header(#[trigger] self.items@[k]) == false,
                    decreases c - j + 1,
                {
                    let it: Item = self.items[j];
                    match it {
                        Item::Header { .. } => {
                            proof {
                                lemma_first_header_found(self.items@, 0, j as int, c as int + 1);
                            }
                            self.cursor = j;
                            return None;
                        },
                        Item::Leaf { .. } => {},
                    }
                    j = j + 1;
                }
                proof {
                    lemma_first_header_none(self.items@, 0, c as int + 1);
                }
                None
            },
            Key::BackTab => {
                let c: usize = self.cursor;
                let mut i: usize = c;
                while i > 0
                    invariant
                        self == old(self),
                        l == self.items@.len(),
                        c == self.cursor,
                        (c as int) < l as int,
                        i <= c,
                        forall|k: int|
                            i <= k < c ==> spec_is_header(#[trigger] self.items@[k]) == false,
                    decreases i,
                {
                    i = i - 1;
                    let it: Item = self.items[i];
                    match it {
                        Item::Header { .. } => {
                            proof {
                                lemma_last_header_found(self.items@, 0, i as int, c as int);
                            }
                            self.cursor = i;
                            return None;
                        },
                        Item::Leaf { .. } => {},
                    }
                }
                proof {
                    lemma_last_header_none(self.items@, 0, c as int);
                }
                let mut j: usize = l;
                while j > c
                    invariant
                        self == old(self),
                        l == self.items@.len(),
                        c == self.cursor,
                        (c as int) < l as int,
                        c <= j <= l,
                        spec_last_header_in(self.items@, 0, c as int) is None,
                        forall|k: int|
                            j <= k < l ==> spec_is_header(#[trigger] self.items@[k]) == false,
                    decreases j,
                {
                    j = j - 1;
                    let it: Item = self.items[j];
                    match it {
                        Item::Header { .. } => {
                            proof {
                                lemma_last_header_found(self.items@, c as int, j as int, l as int);
                            }
                            self.cursor = j;
                            return None;
                        },
                        Item::Leaf { .. } => {},
                    }
                }
                proof {
                    lemma_last_header_none(self.items@, c as int, l as int);
                }
                None
            },
            Key::Enter => {
                if self.multi {
                    let v: Vec<usize> = self.selected_leaves();
                    Some(SelectOutcome::ChosenSet(v))
                } else {
                    Some(SelectOutcome::ChosenIndex(self.cursor))
                }
            },
            Key::Esc => Some(SelectOutcome::Cancelled),
            Key::Char(c) => {
                if c == ' ' {
                    let it: Item = self.items[self.cursor];
                    match it {
                        Item::Header { group } => {
                            self.toggle_group(group);
                        },
                        Item::Leaf { group: _, index } => {
                            let cur: bool = self.selected[index];
                            self.selected.set(index, !cur);
                        },
                    }
                    None
                } else if c == 'q' {
                    Some(SelectOutcome::Cancelled)
                } else {
                    None
                }
            },
            _ => None,
        }
    }
}

/// Law: starting at the top of a list of `l` items, `n` presses of Down put
/// the cursor at `n % l` — one Down is one `(cursor + 1) % l` step, exactly
/// as `spec_select_step` prescribes for `Key::Down`.
pub open spec fn spec_down_n(l: int, n: nat) -> int
    decreases n,
{
    if n == 0 {
        0
    } else {
        (spec_down_n(l, (n - 1) as nat) + 1) % l
    }
}

pub proof fn lemma_down_wraps(l: int, n: nat)
    requires
        l >= 1,
    ensures
        spec_down_n(l, n) == n as int % l,
    decreases n,
{
    if n == 0 {
        lemma_small_mod(0, l as nat);
    } else {
        lemma_down_wraps(l, (n - 1) as nat);
        lemma_add_mod_noop(n as int - 1, 1, l);
        if l == 1 {
            lemma_mod_self_0(1);
        } else {
            lemma_small_mod(1, l as nat);
        }
    }
}

/// Law: toggling a header whose group is not fully selected (partial or
/// empty) selects every leaf of the group; it never empties a partial group.
pub proof fn lemma_toggle_fills_partial_group(items: Seq<Item>, sel: Seq<bool>, g: int)
    requires
        forall|k: int|
            0 <= k < items.len() && !spec_is_header(#[trigger] items[k]) ==> 0 <= spec_leaf_index(
                items[k],
            ) < sel.len(),
        !spec_group_full(items, sel, g),
    ensures
        spec_group_full(items, spec_toggle_group(items, sel, g), g),
{
    let toggled = spec_toggle_group(items, sel, g);
    assert forall|k: int|
        0 <= k < items.len() && !spec_is_header(#[trigger] items[k]) && spec_group(items[k])
            == g implies toggled[spec_leaf_index(items[k])] by {
        assert(spec_leaf_in_group(items, spec_leaf_index(items[k]), g));
    }
}

/// Law: toggling a header whose group is fully selected deselects every
/// leaf of the group.
pub proof fn lemma_toggle_empties_full_group(items: Seq<Item>, sel: Seq<bool>, g: int)
    requires
        forall|k: int|
            0 <= k < items.len() && !spec_is_header(#[trigger] items[k]) ==> 0 <= spec_leaf_index(
                items[k],
            ) < sel.len(),
        spec_group_full(items, sel, g),
    ensures
        !spec_group_some(items, spec_toggle_group(items, sel, g), g),
{
    let toggled = spec_toggle_group(items, sel, g);
    assert forall|k: int|
        0 <= k < items.len() && !spec_is_header(#[trigger] items[k]) && spec_group(items[k])
            == g implies !toggled[spec_leaf_index(items[k])] by {
        assert(spec_leaf_in_group(items, spec_leaf_index(items[k]), g));
    }
}

/// Law: an all-unselected multi-select confirms to a present, empty set —
/// and that is a different outcome from cancellation.
pub proof fn lemma_empty_set_selected_indices(sel: Seq<bool>)
    requires
        forall|i: int| 0 <= i < sel.len() ==> !#[trigger] sel[i],
    ensures
        spec_selected_indices(sel) == Seq::<usize>::empty(),
    decreases sel.len(),
{
    if sel.len() > 0 {
        assert(sel.last() == sel[sel.len() - 1]);
        assert(forall|i: int| 0 <= i < sel.drop_last().len() ==> !#[trigger] sel.drop_last()[i]);
        lemma_empty_set_selected_indices(sel.drop_last());
    }
}

} // verus!
