//! Text metrics: the rendered column width of styled text. Styling escape
//! sequences measure zero columns; each remaining codepoint contributes its
//! terminal cell width (0 for combining and control characters, 1 for narrow,
//! 2 for wide glyphs). Lines are truncated to a column budget without ever
//! splitting a glyph, with a single-column ellipsis in place of the cut tail.

use vstd::prelude::*;

verus! {

/// Columns of a character outside the ranges this module pins down itself;
/// the value comes from the Unicode width tables.
pub uninterp spec fn char_cols_ext(c: char) -> nat;

/// Terminal cell width of one codepoint: control characters take zero
/// columns, printable ASCII takes one, everything else is as the Unicode
/// width tables say.
pub open spec fn char_cols(c: char) -> nat {
    if 0x20 <= c as u32 && c as u32 <= 0x7e {
        1
    } else if (c as u32) < 0x20 || (0x7f <= c as u32 && (c as u32) < 0xa0) {
        0
    } else {
        char_cols_ext(c)
    }
}

/// Relies on unicode_width::UnicodeWidthChar::width: the displayed width of
/// one character in columns, `None` for a control character (a control
/// character is measured here as zero columns).
#[verifier::external_body]
pub(crate) fn char_width(c: char) -> (w: usize)
    ensures
        w as nat == char_cols(c),
        c as u32 >= 0xa0 ==> w as nat == char_cols_ext(c),
{
    unicode_width::UnicodeWidthChar::width(c).unwrap_or(0)
}

/// Total column width of a run of characters.
pub open spec fn spec_width(s: Seq<char>) -> nat
    decreases s.len(),
{
    if s.len() == 0 {
        0
    } else {
        spec_width(s.drop_last()) + char_cols(s.last())
    }
}

/// A prefix is never wider than the whole.
pub proof fn lemma_width_take_le(s: Seq<char>, k: int)
    requires
        0 <= k <= s.len(),
    ensures
        spec_width(s.take(k)) <= spec_width(s),
    decreases s.len(),
{
    if k < s.len() {
        assert(s.drop_last().take(k) =~= s.take(k));
        lemma_width_take_le(s.drop_last(), k);
    } else {
        assert(s.take(k) =~= s);
    }
}

/// Widths add over concatenation's last element: convenience unfolding.
pub proof fn lemma_width_take_succ(s: Seq<char>, i: int)
    requires
        0 <= i < s.len(),
    ensures
        spec_width(s.take(i + 1)) == spec_width(s.take(i)) + char_cols(s[i]),
{
    assert(s.take(i + 1).drop_last() =~= s.take(i));
    assert(s.take(i + 1).last() == s[i]);
}

/// A parameter character of a styling escape sequence: a digit or `;`.
pub open spec fn spec_is_sgr_param(c: char) -> bool {
    (0x30 <= c as u32 && c as u32 <= 0x39) || c == ';'
}

/// One past the end of the `m`-terminated parameter run of `s` beginning at
/// `j`, if the run is properly terminated.
pub open spec fn spec_sgr_scan(s: Seq<char>, j: int) -> Option<int>
    decreases s.len() - j,
{
    if j < 0 || j >= s.len() {
        None
    } else if s[j] == 'm' {
        Some(j + 1)
    } else if spec_is_sgr_param(s[j]) {
        spec_sgr_scan(s, j + 1)
    } else {
        None
    }
}

/// Length of the styling escape sequence standing at the head of `s`, if
/// any: ESC, `[`, parameter characters, `m`.
pub open spec fn spec_sgr_len(s: Seq<char>) -> Option<int> {
    if s.len() >= 2 && s[0] == '\u{1b}' && s[1] == '[' {
        spec_sgr_scan(s, 2)
    } else {
        None
    }
}

pub proof fn lemma_sgr_scan_bounds(s: Seq<char>, j: int)
    requires
        0 <= j,
    ensures
        (match spec_sgr_scan(s, j) {
            Some(k) => j < k <= s.len(),
            None => true,
        }),
    decreases s.len() - j,
{
    if j < s.len() && s[j] != 'm' && spec_is_sgr_param(s[j]) {
        lemma_sgr_scan_bounds(s, j + 1);
    }
}

/// `s` with every styling escape sequence removed.
pub open spec fn spec_strip_sgr(s: Seq<char>) -> Seq<char>
    decreases s.len(),
    via spec_strip_sgr_decreases
{
    if s.len() == 0 {
        s
    } else {
        match spec_sgr_len(s) {
            Some(k) => spec_strip_sgr(s.skip(k)),
            None => seq![s[0]] + spec_strip_sgr(s.skip(1)),
        }
    }
}

#[via_fn]
proof fn spec_strip_sgr_decreases(s: Seq<char>) {
    if s.len() > 0 {
        if s.len() >= 2 && s[0] == '\u{1b}' && s[1] == '[' {
            lemma_sgr_scan_bounds(s, 2);
        }
    }
}

/// Remove the styling escape sequences from `v`.
pub fn strip_sgr(v: &Vec<char>) -> (out: Vec<char>)
    ensures
        out@ == spec_strip_sgr(v@),
{
    let n: usize = v.len();
    let mut out: Vec<char> = Vec::new();
    let mut i: usize = 0;
    proof {
        assert(v@.skip(0) =~= v@);
        assert(out@ + spec_strip_sgr(v@) =~= spec_strip_sgr(v@));
    }
    while i < n
        invariant
            n == v@.len(),
            i <= n,
            out@ + spec_strip_sgr(v@.skip(i as int)) == spec_strip_sgr(v@),
        decreases n - i,
    {
        let ghost s = v@.skip(i as int);
        let mut consumed: usize = 0;
        if i + 1 < n && v[i] == '\u{1b}' && v[i + 1] == '[' {
            // Scan the parameter run for its `m` terminator.
            let mut j: usize = i + 2;
            let mut done: bool = false;
            let mut end: usize = 0;
            while !done
                invariant
                    n == v@.len(),
                    s == v@.skip(i as int),
                    i + 2 <= j <= n,
                    i < n,
                    !done ==> spec_sgr_scan(s, 2) == spec_sgr_scan(s, j - i),
                    !done ==> end == 0,
                    done ==> (if end == 0 {
                        spec_sgr_scan(s, 2) is None
                    } else {
                        i + 2 < end <= n && spec_sgr_scan(s, 2) == Some(end - i as int)
                    }),
                decreases n - j, (if done { 0int } else { 1int }),
            {
                if j >= n {
                    proof {
                        assert(j - i >= s.len());
                    }
                    done = true;
                } else {
                    let c: char = v[j];
                    proof {
                        assert(s[j - i] == v@[j as int]);
                    }
                    if c == 'm' {
                        end = j + 1;
                        done = true;
                    } else if (0x30 <= c as u32 && c as u32 <= 0x39) || c == ';' {
                        j = j + 1;
                    } else {
                        done = true;
                    }
                }
            }
            if end > 0 {
                consumed = end - i;
            }
            proof {
                assert(s.len() >= 2 && s[0] == '\u{1b}' && s[1] == '[');
                if end > 0 {
                    assert(spec_sgr_len(s) == Some(consumed as int));
                } else {
                    assert(spec_sgr_len(s) is None);
                }
            }
        } else {
            proof {
                if i + 1 < n {
                    assert(s[0] == v@[i as int] && s[1] == v@[i as int + 1]);
                } else {
                    assert(s.len() <= 1);
                }
                assert(spec_sgr_len(s) is None);
            }
        }
        if consumed > 0 {
            // An escape sequence: contributes nothing to the stripped text.
            proof {
                assert(spec_strip_sgr(s) == spec_strip_sgr(s.skip(consumed as int)));
                assert(s.skip(consumed as int) =~= v@.skip(i as int + consumed as int));
            }
            i = i + consumed;
        } else {
            // An ordinary character: kept.
            let ghost out0 = out@;
            out.push(v[i]);
            proof {
                assert(spec_strip_sgr(s) == seq![s[0]] + spec_strip_sgr(s.skip(1)));
                assert(s[0] == v@[i as int]);
                assert(s.skip(1) =~= v@.skip(i as int + 1));
                assert(out@ + spec_strip_sgr(v@.skip(i as int + 1)) =~= out0 + spec_strip_sgr(s));
            }
            i = i + 1;
        }
    }
    proof {
        assert(v@.skip(n as int) =~= Seq::<char>::empty());
        assert(out@ + spec_strip_sgr(Seq::<char>::empty()) =~= out@);
    }
    out
}

/// `spec_width`, capped at `cap`.
pub open spec fn spec_width_capped(s: Seq<char>, cap: nat) -> nat {
    if spec_width(s) <= cap {
        spec_width(s)
    } else {
        cap
    }
}

/// Rendered column width of `s`: styling escape sequences are stripped, the
/// remaining codepoints' cell widths are summed (saturating at usize::MAX).
pub fn visual_width(s: &str) -> (w: usize)
    ensures
        w as nat == spec_width_capped(spec_strip_sgr(s@), usize::MAX as nat),
{
    let cv: Vec<char> = crate::strings::chars_of(s);
    let stripped: Vec<char> = strip_sgr(&cv);
    let ghost t = stripped@;
    let mut w: usize = 0;
    let mut i: usize = 0;
    proof {
        assert(t.take(0) =~= Seq::<char>::empty());
    }
    while i < stripped.len()
        invariant
            t == stripped@,
            i <= t.len(),
            w as nat == spec_width_capped(t.take(i as int), usize::MAX as nat),
        decreases t.len() - i,
    {
        let cw: usize = char_width(stripped[i]);
        proof {
            lemma_width_take_succ(t, i as int);
        }
        if cw <= usize::MAX - w {
            w = w + cw;
        } else {
            w = usize::MAX;
        }
        i = i + 1;
    }
    proof {
        assert(t.take(t.len() as int) =~= t);
    }
    w
}

/// Length of the longest prefix of `s` not wider than `budget` columns.
pub open spec fn spec_fit_len(s: Seq<char>, budget: int) -> int
    decreases s.len(),
{
    if s.len() == 0 || spec_width(s) <= budget {
        s.len() as int
    } else {
        spec_fit_len(s.drop_last(), budget)
    }
}

pub proof fn lemma_fit_len_neg(s: Seq<char>, budget: int)
    requires
        budget < 0,
    ensures
        spec_fit_len(s, budget) == 0,
    decreases s.len(),
{
    if s.len() > 0 {
        lemma_fit_len_neg(s.drop_last(), budget);
    }
}

/// The fit length is the unique cut `l` whose prefix fits while the next
/// character (if any) would overflow the budget.
pub proof fn lemma_fit_len_unique(s: Seq<char>, budget: int, l: int)
    requires
        budget >= 0,
        0 <= l <= s.len(),
        spec_width(s.take(l)) <= budget,
        l < s.len() ==> spec_width(s.take(l + 1)) > budget,
    ensures
        l == spec_fit_len(s, budget),
    decreases s.len(),
{
    if s.len() == 0 || spec_width(s) <= budget {
        if l < s.len() {
            lemma_width_take_le(s, l + 1);
        }
        assert(s.take(s.len() as int) =~= s);
    } else {
        assert(l < s.len()) by {
            assert(s.take(s.len() as int) =~= s);
        }
        let d = s.drop_last();
        assert(d.take(l) =~= s.take(l));
        if l < d.len() {
            assert(d.take(l + 1) =~= s.take(l + 1));
        }
        lemma_fit_len_unique(d, budget, l);
    }
}

/// `s` truncated to a budget of `budget` columns: unchanged when it fits,
/// otherwise the longest prefix that leaves room for a trailing ellipsis.
pub open spec fn spec_truncate_cols(s: Seq<char>, budget: int) -> Seq<char> {
    if spec_width(s) <= budget {
        s
    } else {
        s.take(spec_fit_len(s, budget - 1)).push('\u{2026}')
    }
}

/// Longest prefix of `v` within `budget` columns, returned together with its
/// width and whether the whole of `v` fitted.
fn scan_fit(v: &Vec<char>, budget: usize) -> (r: (usize, usize, bool))
    ensures
        r.0 <= v@.len(),
        r.2 == (spec_width(v@) <= budget as int),
        r.2 ==> r.0 == v@.len() && r.1 as nat == spec_width(v@),
        !r.2 ==> r.0 == spec_fit_len(v@, budget as int) && r.1 as nat == spec_width(
            v@.take(r.0 as int),
        ),
{
    let mut w: usize = 0;
    let mut i: usize = 0;
    proof {
        assert(v@.take(0) =~= Seq::<char>::empty());
    }
    while i < v.len()
        invariant
            i <= v@.len(),
            w as nat == spec_width(v@.take(i as int)),
            w <= budget,
        decreases v@.len() - i,
    {
        let cw: usize = char_width(v[i]);
        proof {
            lemma_width_take_succ(v@, i as int);
        }
        if cw <= budget - w {
            w = w + cw;
            i = i + 1;
        } else {
            proof {
                lemma_fit_len_unique(v@, budget as int, i as int);
                lemma_width_take_le(v@, i as int + 1);
                assert(spec_width(v@) > budget as int);
            }
            return (i, w, false);
        }
    }
    proof {
        assert(v@.take(v@.len() as int) =~= v@);
    }
    (v.len(), w, true)
}

/// Truncate `v` to at most `budget` columns, appending a single-column
/// ellipsis when anything was cut, and never splitting a glyph.
pub fn truncate_to_cols(v: &Vec<char>, budget: usize) -> (out: Vec<char>)
    ensures
        out@ == spec_truncate_cols(v@, budget as int),
{
    let (_fit, _w, fits) = scan_fit(v, budget);
    if fits {
        let mut out: Vec<char> = Vec::new();
        let mut i: usize = 0;
        while i < v.len()
            invariant
                i <= v@.len(),
                out@ == v@.take(i as int),
            decreases v@.len() - i,
        {
            out.push(v[i]);
            proof {
                assert(v@.take(i as int).push(v@[i as int]) =~= v@.take(i as int + 1));
            }
            i = i + 1;
        }
        proof {
            assert(v@.take(v@.len() as int) =~= v@);
        }
        out
    } else {
        let keep: usize = if budget == 0 {
            proof {
                lemma_fit_len_neg(v@, -1);
            }
            0
        } else {
            let (fit1, _w1, fits1) = scan_fit(v, budget - 1);
            proof {
                if fits1 {
                    lemma_width_take_le(v@, v@.len() as int);
                    assert(v@.take(v@.len() as int) =~= v@);
                    lemma_fit_len_unique(v@, budget as int - 1, v@.len() as int);
                }
            }
            fit1
        };
        let mut out: Vec<char> = Vec::new();
        let mut i: usize = 0;
        while i < keep
            invariant
                keep <= v@.len(),
                i <= keep,
                out@ == v@.take(i as int),
            decreases keep - i,
        {
            out.push(v[i]);
            proof {
                assert(v@.take(i as int).push(v@[i as int]) =~= v@.take(i as int + 1));
            }
            i = i + 1;
        }
        out.push('\u{2026}');
        out
    }
}

} // verus!
