//! The pager widget: a viewport over a fixed ordered line sequence, with
//! clamped scrolling, an incremental search sub-mode, and wrapping match
//! navigation that re-centers the viewport. One keystroke is one step of a
//! pure state machine; the caller runs the redraw/input loop.

use vstd::prelude::*;
use crate::records::AnnotateLine;
use crate::strings::{spec_contains_sub, str_contains, string_of};
use crate::select::Key;
use crate::anchor::spec_sat_sub;
use vstd::arithmetic::div_mod::{lemma_small_mod, lemma_mod_self_0, lemma_add_mod_noop};

verus! {

/// Relies on str::to_lowercase: the lowercase form of a string. The result
/// depends on the characters alone (Unicode case mapping, without locale
/// tailoring), so it may be given a name.
pub uninterp spec fn lower_of(s: Seq<char>) -> Seq<char>;

/// Relies on str::to_lowercase (see `lower_of`).
#[verifier::external_body]
pub(crate) fn lowercase(s: &str) -> (r: String)
    ensures
        r@ == lower_of(s@),
{
    s.to_lowercase()
}

/// A line matches a folded query when any of its four fields contains it
/// after case folding.
pub open spec fn spec_line_matches(l: AnnotateLine, q: Seq<char>) -> bool {
    ||| spec_contains_sub(lower_of(l.cl_number@), q)
    ||| spec_contains_sub(lower_of(l.username@), q)
    ||| spec_contains_sub(lower_of(l.date@), q)
    ||| spec_contains_sub(lower_of(l.line_content@), q)
}

/// Indices of the lines matching `q`, in ascending order.
pub open spec fn spec_matches(lines: Seq<AnnotateLine>, q: Seq<char>) -> Seq<usize>
    decreases lines.len(),
{
    if lines.len() == 0 {
        Seq::empty()
    } else {
        let pre = spec_matches(lines.drop_last(), q);
        if spec_line_matches(lines.last(), q) {
            pre.push((lines.len() - 1) as usize)
        } else {
            pre
        }
    }
}

/// The match list is ascending and stays below the line count.
pub proof fn lemma_matches_sorted(lines: Seq<AnnotateLine>, q: Seq<char>)
    requires
        lines.len() <= usize::MAX,
    ensures
        forall|i: int|
            0 <= i < spec_matches(lines, q).len() ==> (#[trigger] spec_matches(lines, q)[i] as int)
                < lines.len(),
        forall|i: int, j: int|
            0 <= i < j < spec_matches(lines, q).len() ==> spec_matches(lines, q)[i]
                < spec_matches(lines, q)[j],
    decreases lines.len(),
{
    if lines.len() > 0 {
        lemma_matches_sorted(lines.drop_last(), q);
        let pre = spec_matches(lines.drop_last(), q);
        let whole = spec_matches(lines, q);
        assert(forall|i: int| 0 <= i < pre.len() ==> pre[i] == #[trigger] whole[i]);
        assert forall|i: int, j: int| 0 <= i < j < whole.len() implies whole[i] < whole[j] by {
            if j < pre.len() {
                assert(pre[i] < pre[j]);
            } else {
                assert(spec_line_matches(lines.last(), q));
                assert(whole =~= pre.push((lines.len() - 1) as usize));
                assert((pre[i] as int) < lines.drop_last().len());
                assert(whole[j] == (lines.len() - 1) as usize);
            }
        }
    }
}

/// Whether one line matches the folded query `query`.
pub fn line_matches(l: &AnnotateLine, query: &str) -> (r: bool)
    ensures
        r == spec_line_matches(*l, query@),
{
    let a: String = lowercase(l.cl_number.as_str());
    if str_contains(a.as_str(), query) {
        return true;
    }
    let b: String = lowercase(l.username.as_str());
    if str_contains(b.as_str(), query) {
        return true;
    }
    let c: String = lowercase(l.date.as_str());
    if str_contains(c.as_str(), query) {
        return true;
    }
    let d: String = lowercase(l.line_content.as_str());
    str_contains(d.as_str(), query)
}

/// Indices of the lines whose fields contain the folded query, ascending.
pub fn find_search_matches(lines: &Vec<AnnotateLine>, query: &str) -> (r: Vec<usize>)
    ensures
        r@ == spec_matches(lines@, query@),
{
    let mut r: Vec<usize> = Vec::new();
    let mut i: usize = 0;
    proof {
        assert(lines@.take(0) =~= Seq::<AnnotateLine>::empty());
    }
    while i < lines.len()
        invariant
            i <= lines@.len(),
            r@ == spec_matches(lines@.take(i as int), query@),
        decreases lines@.len() - i,
    {
        proof {
            let nxt = lines@.take(i as int + 1);
            assert(nxt.drop_last() =~= lines@.take(i as int));
            assert(nxt.last() == lines@[i as int]);
        }
        if line_matches(&lines[i], query) {
            r.push(i);
        }
        i = i + 1;
    }
    proof {
        assert(lines@.take(lines@.len() as int) =~= lines@);
    }
    r
}

/// Where the viewport jumps so that line `m` is centered: half a viewport
/// above the match, floored at the top and clamped so the invariant
/// `top <= max(0, total - height)` is kept.
pub open spec fn spec_center_top(m: int, h: int, total: int) -> int {
    let c = spec_sat_sub(m, h / 2);
    let maxtop = spec_sat_sub(total, h);
    if c <= maxtop {
        c
    } else {
        maxtop
    }
}

/// The viewport top after a scroll key, or `None` when the key does not
/// scroll: single lines and pages move by 1 and by the viewport height,
/// both clamped; Home and End jump to the ends.
pub open spec fn spec_scrolled_top(key: Key, top: int, h: int, total: int) -> Option<int> {
    let maxtop = spec_sat_sub(total, h);
    match key {
        Key::Down => Some(if top + 1 <= maxtop { top + 1 } else { maxtop }),
        Key::Up => Some(spec_sat_sub(top, 1)),
        Key::PageDown => Some(if top + h <= maxtop { top + h } else { maxtop }),
        Key::PageUp => Some(spec_sat_sub(top, h)),
        Key::Home => Some(0),
        Key::End => Some(maxtop),
        Key::Char(c) => if c == 'j' {
            Some(if top + 1 <= maxtop { top + 1 } else { maxtop })
        } else if c == 'k' {
            Some(spec_sat_sub(top, 1))
        } else if c == ' ' {
            Some(if top + h <= maxtop { top + h } else { maxtop })
        } else if c == 'g' {
            Some(0)
        } else if c == 'G' {
            Some(maxtop)
        } else {
            None
        },
        _ => None,
    }
}

/// The pager widget's whole mutable state. `lines` is fixed at entry.
/// While the search sub-mode is open (`entry_open`), `entry` is the search
/// text being typed; `query` is the committed, already-folded query.
pub struct PagerState {
    pub lines: Vec<AnnotateLine>,
    pub height: usize,
    pub top: usize,
    pub query: Option<String>,
    pub matches: Vec<usize>,
    pub cur_match: Option<usize>,
    pub entry_open: bool,
    pub entry: Vec<char>,
}

/// The committed search state is untouched between `pre` and `post`.
pub open spec fn spec_same_search(pre: PagerState, post: PagerState) -> bool {
    &&& post.query == pre.query
    &&& post.matches@ == pre.matches@
    &&& post.cur_match == pre.cur_match
}

/// Everything but the viewport top is untouched between `pre` and `post`.
pub open spec fn spec_only_top_differs(pre: PagerState, post: PagerState) -> bool {
    &&& post.lines@ == pre.lines@
    &&& post.height == pre.height
    &&& spec_same_search(pre, post)
    &&& post.entry_open == pre.entry_open
    &&& post.entry@ == pre.entry@
}

impl PagerState {
    /// Well-formed: the viewport top never overscrolls, the match list is
    /// exactly what the committed query matches, and the match cursor is in
    /// range (absent when there are no matches).
    pub open spec fn wf(self) -> bool {
        &&& self.top as int <= spec_sat_sub(self.lines@.len() as int, self.height as int)
        &&& (match self.query {
            Some(q) => self.matches@ == spec_matches(self.lines@, q@),
            None => self.matches@.len() == 0,
        })
        &&& (match self.cur_match {
            Some(c) => (c as int) < self.matches@.len(),
            None => true,
        })
        &&& (self.matches@.len() == 0 ==> self.cur_match is None)
    }

    /// A fresh pager over `lines` with a viewport of `height` rows.
    pub fn new(lines: Vec<AnnotateLine>, height: usize) -> (s: PagerState)
        ensures
            s.wf(),
            s.lines@ == lines@,
            s.height == height,
            s.top == 0,
            s.query is None,
            !s.entry_open,
            s.cur_match is None,
            s.matches@.len() == 0,
    {
        PagerState {
            lines,
            height,
            top: 0,
            query: None,
            matches: Vec::new(),
            cur_match: None,
            entry_open: false,
            entry: Vec::new(),
        }
    }

    /// The viewport was re-measured: keep the state but clamp the top to
    /// the new height.
    pub fn set_height(&mut self, height: usize)
        requires
            old(self).wf(),
        ensures
            final(self).wf(),
            final(self).lines@ == old(self).lines@,
            final(self).height == height,
            spec_same_search(*old(self), *final(self)),
            final(self).entry_open == old(self).entry_open,
            final(self).entry@ == old(self).entry@,
            final(self).top as int == (if old(self).top as int <= spec_sat_sub(
                old(self).lines@.len() as int,
                height as int,
            ) {
                old(self).top as int
            } else {
                spec_sat_sub(old(self).lines@.len() as int, height as int)
            }),
    {
        let maxtop: usize = self.max_top_for(height);
        if self.top > maxtop {
            self.top = maxtop;
        }
        self.height = height;
    }

    fn max_top_for(&self, height: usize) -> (r: usize)
        ensures
            r as int == spec_sat_sub(self.lines@.len() as int, height as int),
    {
        let total: usize = self.lines.len();
        if total > height {
            total - height
        } else {
            0
        }
    }

    fn max_top(&self) -> (r: usize)
        ensures
            r as int == spec_sat_sub(self.lines@.len() as int, self.height as int),
    {
        self.max_top_for(self.height)
    }
}

/// One keystroke's effect on the pager. Outside the search sub-mode:
/// scroll keys move the clamped viewport, `/` opens the sub-mode, `n` and
/// `p`/`N` step through the matches with wraparound and re-center, `q` and
/// Esc finish the widget. Inside the sub-mode: characters and Backspace
/// edit the pending text, Esc abandons it leaving the committed query and
/// matches untouched, and Enter commits a non-empty text: the folded query
/// is searched, and on a hit the viewport centers the first match.
pub open spec fn spec_pager_step(pre: PagerState, key: Key, post: PagerState, done: bool) -> bool {
    let total = pre.lines@.len() as int;
    let h = pre.height as int;
    &&& post.lines@ == pre.lines@
    &&& post.height == pre.height
    &&& (if !pre.entry_open {
        (match spec_scrolled_top(key, pre.top as int, h, total) {
            Some(t) => {
                &&& spec_same_search(pre, post)
                &&& !post.entry_open
                &&& post.top as int == t
                &&& !done
            },
            None => (match key {
                Key::Esc => post == pre && done,
                Key::Char(c) => {
                    if c == 'q' {
                        post == pre && done
                    } else if c == '/' {
                        &&& spec_same_search(pre, post)
                        &&& post.top == pre.top
                        &&& post.entry_open
                        &&& post.entry@ == Seq::<char>::empty()
                        &&& !done
                    } else if c == 'n' {
                        &&& !done
                        &&& !post.entry_open
                        &&& post.query == pre.query
                        &&& post.matches@ == pre.matches@
                        &&& (match pre.cur_match {
                            Some(ci) => {
                                let ni = (ci + 1) % pre.matches@.len() as int;
                                &&& post.cur_match == Some(ni as usize)
                                &&& post.top as int == spec_center_top(
                                    pre.matches@[ni] as int,
                                    h,
                                    total,
                                )
                            },
                            None => post.cur_match is None && post.top == pre.top,
                        })
                    } else if c == 'p' || c == 'N' {
                        &&& !done
                        &&& !post.entry_open
                        &&& post.query == pre.query
                        &&& post.matches@ == pre.matches@
                        &&& (match pre.cur_match {
                            Some(ci) => {
                                let ni = (ci + pre.matches@.len() - 1) % pre.matches@.len() as int;
                                &&& post.cur_match == Some(ni as usize)
                                &&& post.top as int == spec_center_top(
                                    pre.matches@[ni] as int,
                                    h,
                                    total,
                                )
                            },
                            None => post.cur_match is None && post.top == pre.top,
                        })
                    } else {
                        post == pre && !done
                    }
                },
                _ => post == pre && !done,
            }),
        })
    } else {
        &&& !done
        &&& (match key {
            Key::Esc => {
                &&& spec_same_search(pre, post)
                &&& post.top == pre.top
                &&& !post.entry_open
            },
            Key::Backspace => {
                &&& spec_same_search(pre, post)
                &&& post.top == pre.top
                &&& post.entry_open
                &&& post.entry@ == (if pre.entry@.len() > 0 {
                    pre.entry@.drop_last()
                } else {
                    pre.entry@
                })
            },
            Key::Char(c) => {
                &&& spec_same_search(pre, post)
                &&& post.top == pre.top
                &&& post.entry_open
                &&& post.entry@ == pre.entry@.push(c)
            },
            Key::Enter => {
                &&& !post.entry_open
                &&& (if pre.entry@.len() == 0 {
                    spec_same_search(pre, post) && post.top == pre.top
                } else {
                    let q = lower_of(pre.entry@);
                    let ms = spec_matches(pre.lines@, q);
                    &&& (post.query matches Some(qq) && qq@ == q)
                    &&& post.matches@ == ms
                    &&& (if ms.len() > 0 {
                        post.cur_match == Some(0usize) && post.top as int == spec_center_top(
                            ms[0] as int,
                            h,
                            total,
                        )
                    } else {
                        post.cur_match is None && post.top == pre.top
                    })
                })
            },
            _ => {
                &&& spec_same_search(pre, post)
                &&& post.top == pre.top
                &&& post.entry_open
                &&& post.entry@ == pre.entry@
            },
        })
    })
}

impl PagerState {
    /// Jump so that line `m` is centered, clamped to the scroll range.
    fn center_on(&mut self, m: usize)
        requires
            old(self).wf(),
        ensures
            spec_only_top_differs(*old(self), *final(self)),
            final(self).top as int == spec_center_top(
                m as int,
                old(self).height as int,
                old(self).lines@.len() as int,
            ),
            final(self).wf(),
    {
        let half: usize = self.height / 2;
        let c: usize = if m > half {
            m - half
        } else {
            0
        };
        let maxtop: usize = self.max_top();
        self.top = if c <= maxtop {
            c
        } else {
            maxtop
        };
    }

    fn scroll_down_by(&mut self, delta: usize)
        requires
            old(self).wf(),
        ensures
            spec_only_top_differs(*old(self), *final(self)),
            final(self).top as int == (if old(self).top + delta <= spec_sat_sub(
                old(self).lines@.len() as int,
                old(self).height as int,
            ) {
                old(self).top + delta
            } else {
                spec_sat_sub(old(self).lines@.len() as int, old(self).height as int)
            }),
            final(self).wf(),
    {
        let maxtop: usize = self.max_top();
        self.top = if delta <= maxtop - self.top {
            self.top + delta
        } else {
            maxtop
        };
    }

    fn scroll_up_by(&mut self, delta: usize)
        requires
            old(self).wf(),
        ensures
            spec_only_top_differs(*old(self), *final(self)),
            final(self).top as int == spec_sat_sub(old(self).top as int, delta as int),
            final(self).wf(),
    {
        self.top = if self.top > delta {
            self.top - delta
        } else {
            0
        };
    }

    fn next_match(&mut self)
        requires
            old(self).wf(),
        ensures
            final(self).wf(),
            final(self).lines@ == old(self).lines@,
            final(self).height == old(self).height,
            final(self).entry_open == old(self).entry_open,
            final(self).entry@ == old(self).entry@,
            final(self).query == old(self).query,
            final(self).matches@ == old(self).matches@,
            (match old(self).cur_match {
                Some(ci) => {
                    let ni = (ci + 1) % old(self).matches@.len() as int;
                    &&& final(self).cur_match == Some(ni as usize)
                    &&& final(self).top as int == spec_center_top(
                        old(self).matches@[ni] as int,
                        old(self).height as int,
                        old(self).lines@.len() as int,
                    )
                },
                None => final(self).cur_match is None && final(self).top == old(self).top,
            }),
    {
        match self.cur_match {
            Some(ci) => {
                let len: usize = self.matches.len();
                let ni: usize = if ci + 1 < len {
                    ci + 1
                } else {
                    0
                };
                proof {
                    if ci + 1 < len {
                        lemma_small_mod((ci + 1) as nat, len as nat);
                    } else {
                        lemma_mod_self_0(len as int);
                    }
                }
                self.cur_match = Some(ni);
                let m: usize = self.matches[ni];
                self.center_on(m);
            },
            None => {},
        }
    }

    fn prev_match(&mut self)
        requires
            old(self).wf(),
        ensures
            final(self).wf(),
            final(self).lines@ == old(self).lines@,
            final(self).height == old(self).height,
            final(self).entry_open == old(self).entry_open,
            final(self).entry@ == old(self).entry@,
            final(self).query == old(self).query,
            final(self).matches@ == old(self).matches@,
            (match old(self).cur_match {
                Some(ci) => {
                    let ni = (ci + old(self).matches@.len() - 1) % old(self).matches@.len() as int;
                    &&& final(self).cur_match == Some(ni as usize)
                    &&& final(self).top as int == spec_center_top(
                        old(self).matches@[ni] as int,
                        old(self).height as int,
                        old(self).lines@.len() as int,
                    )
                },
                None => final(self).cur_match is None && final(self).top == old(self).top,
            }),
    {
        match self.cur_match {
            Some(ci) => {
                let len: usize = self.matches.len();
                let ni: usize = if ci > 0 {
                    ci - 1
                } else {
                    len - 1
                };
                proof {
                    let li = len as int;
                    let c = ci as int;
                    if c > 0 {
                        lemma_add_mod_noop(c - 1, li, li);
                        lemma_mod_self_0(li);
                        lemma_small_mod((c - 1) as nat, li as nat);
                    } else {
                        lemma_small_mod((li - 1) as nat, li as nat);
                    }
                }
                self.cur_match = Some(ni);
                let m: usize = self.matches[ni];
                self.center_on(m);
            },
            None => {},
        }
    }

    /// Apply one keystroke; `true` means the pager is finished.
    pub fn handle_key(&mut self, key: Key) -> (done: bool)
        requires
            old(self).wf(),
        ensures
            final(self).wf(),
            spec_pager_step(*old(self), key, *final(self), done),
    {
        if self.entry_open {
            match key {
                Key::Esc => {
                    self.entry_open = false;
                    false
                },
                Key::Backspace => {
                    let _popped: Option<char> = self.entry.pop();
                    false
                },
                Key::Char(c) => {
                    self.entry.push(c);
                    false
                },
                Key::Enter => {
                    self.entry_open = false;
                    if self.entry.len() == 0 {
                        false
                    } else {
                        let typed: String = string_of(&self.entry);
                        let folded: String = lowercase(typed.as_str());
                        let total_lines: usize = self.lines.len();
                        let ms: Vec<usize> = find_search_matches(&self.lines, folded.as_str());
                        proof {
                            assert(self.lines@.len() == total_lines);
                            lemma_matches_sorted(self.lines@, folded@);
                        }
                        self.query = Some(folded);
                        if ms.len() > 0 {
                            let m0: usize = ms[0];
                            self.matches = ms;
                            self.cur_match = Some(0);
                            self.center_on(m0);
                        } else {
                            self.matches = ms;
                            self.cur_match = None;
                        }
                        false
                    }
                },
                _ => false,
            }
        } else {
            match key {
                Key::Esc => true,
                Key::Down => {
                    self.scroll_down_by(1);
                    false
                },
                Key::Up => {
                    self.scroll_up_by(1);
                    false
                },
                Key::PageDown => {
                    let h: usize = self.height;
                    self.scroll_down_by(h);
                    false
                },
                Key::PageUp => {
                    let h: usize = self.height;
                    self.scroll_up_by(h);
                    false
                },
                Key::Home => {
                    self.top = 0;
                    false
                },
                Key::End => {
                    self.top = self.max_top();
                    false
                },
                Key::Char(c) => {
                    if c == 'q' {
                        true
                    } else if c == 'j' {
                        self.scroll_down_by(1);
                        false
                    } else if c == 'k' {
                        self.scroll_up_by(1);
                        false
                    } else if c == ' ' {
                        let h: usize = self.height;
                        self.scroll_down_by(h);
                        false
                    } else if c == 'g' {
                        self.top = 0;
                        false
                    } else if c == 'G' {
                        self.top = self.max_top();
                        false
                    } else if c == '/' {
                        self.entry_open = true;
                        self.entry = Vec::new();
                        false
                    } else if c == 'n' {
                        self.next_match();
                        false
                    } else if c == 'p' || c == 'N' {
                        self.prev_match();
                        false
                    } else {
                        false
                    }
                },
                _ => false,
            }
        }
    }
}

} // verus!
