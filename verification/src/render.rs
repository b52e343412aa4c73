//! Plain-text rendering of widget rows. Columns are aligned to the widest
//! value of each column across the whole dataset, each finished row is cut
//! to the terminal's column budget without splitting a glyph, and the
//! status line is padded or cut to exactly the terminal width. The caller
//! applies colors and bold to the returned text.

use vstd::prelude::*;
use crate::records::AnnotateLine;
use crate::pager::PagerState;
use crate::strings::{
    spec_pad_right, spec_pad_left, spec_dec_str, spec_pad_trunc_chars, push_padded_right,
    push_padded_left, push_decimal, push_str_chars, pad_trunc_chars, string_of,
};
use crate::text::{spec_truncate_cols, truncate_to_cols};

verus! {

/// Visual category of a pager row: the active match, another match, or an
/// unmatched line. The caller maps these to three distinct styles.
#[derive(Clone, Copy, Debug, PartialEq, Eq, Structural)]
pub enum RowStyle {
    Plain,
    MatchRow,
    CurrentMatchRow,
}

/// Widest change-number column over the whole dataset, at least 8.
pub open spec fn spec_cl_col(lines: Seq<AnnotateLine>) -> int
    decreases lines.len(),
{
    if lines.len() == 0 {
        8
    } else {
        let p = spec_cl_col(lines.drop_last());
        if lines.last().cl_number@.len() > p {
            lines.last().cl_number@.len() as int
        } else {
            p
        }
    }
}

/// Widest author column over the whole dataset, at least 10.
pub open spec fn spec_user_col(lines: Seq<AnnotateLine>) -> int
    decreases lines.len(),
{
    if lines.len() == 0 {
        10
    } else {
        let p = spec_user_col(lines.drop_last());
        if lines.last().username@.len() > p {
            lines.last().username@.len() as int
        } else {
            p
        }
    }
}

/// The two column widths the annotate rows align to: the widest change
/// number and the widest author name of the whole dataset, not just the
/// visible window.
pub fn annotate_col_widths(lines: &Vec<AnnotateLine>) -> (r: (usize, usize))
    ensures
        r.0 as int == spec_cl_col(lines@),
        r.1 as int == spec_user_col(lines@),
{
    let mut cl_w: usize = 8;
    let mut user_w: usize = 10;
    let mut i: usize = 0;
    proof {
        assert(lines@.take(0) =~= Seq::<AnnotateLine>::empty());
    }
    while i < lines.len()
        invariant
            i <= lines@.len(),
            cl_w as int == spec_cl_col(lines@.take(i as int)),
            user_w as int == spec_user_col(lines@.take(i as int)),
        decreases lines@.len() - i,
    {
        proof {
            let nxt = lines@.take(i as int + 1);
            assert(nxt.drop_last() =~= lines@.take(i as int));
            assert(nxt.last() == lines@[i as int]);
        }
        let cl_len: usize = crate::strings::chars_of(lines[i].cl_number.as_str()).len();
        if cl_len > cl_w {
            cl_w = cl_len;
        }
        let user_len: usize = crate::strings::chars_of(lines[i].username.as_str()).len();
        if user_len > user_w {
            user_w = user_len;
        }
        i = i + 1;
    }
    proof {
        assert(lines@.take(lines@.len() as int) =~= lines@);
    }
    (cl_w, user_w)
}

/// One annotate row: right-aligned change number, left-aligned author,
/// date, text — cut to the terminal's column budget.
pub open spec fn spec_annotate_row(l: AnnotateLine, cl_w: int, user_w: int, term_w: int) -> Seq<
    char,
> {
    spec_truncate_cols(
        spec_pad_left(l.cl_number@, cl_w) + seq![' '] + spec_pad_right(l.username@, user_w)
            + seq![' '] + l.date@ + seq![' '] + l.line_content@,
        term_w,
    )
}

/// Render one annotate row.
pub fn render_annotate_row(l: &AnnotateLine, cl_w: usize, user_w: usize, term_w: usize) -> (r:
    String)
    ensures
        r@ == spec_annotate_row(*l, cl_w as int, user_w as int, term_w as int),
{
    let mut out: Vec<char> = Vec::new();
    push_padded_left(&mut out, l.cl_number.as_str(), cl_w);
    out.push(' ');
    push_padded_right(&mut out, l.username.as_str(), user_w);
    out.push(' ');
    push_str_chars(&mut out, l.date.as_str());
    out.push(' ');
    push_str_chars(&mut out, l.line_content.as_str());
    proof {
        assert(out@ =~= spec_pad_left(l.cl_number@, cl_w as int) + seq![' '] + spec_pad_right(
            l.username@,
            user_w as int,
        ) + seq![' '] + l.date@ + seq![' '] + l.line_content@);
    }
    let cut: Vec<char> = truncate_to_cols(&out, term_w);
    string_of(&cut)
}

/// The style of row `i`: the active match, another match, or plain.
pub open spec fn spec_row_style(i: int, matches: Seq<usize>, cur: Option<usize>) -> RowStyle {
    if (match cur {
        Some(ci) => 0 <= ci < matches.len() && matches[ci as int] as int == i,
        None => false,
    }) {
        RowStyle::CurrentMatchRow
    } else if (exists|k: int| 0 <= k < matches.len() && #[trigger] matches[k] as int == i) {
        RowStyle::MatchRow
    } else {
        RowStyle::Plain
    }
}

/// The style of row `i` under the given match list and active match.
#[verifier::loop_isolation(false)]
pub fn row_style(i: usize, matches: &Vec<usize>, cur: Option<usize>) -> (r: RowStyle)
    ensures
        r == spec_row_style(i as int, matches@, cur),
{
    match cur {
        Some(ci) => {
            if ci < matches.len() && matches[ci] == i {
                return RowStyle::CurrentMatchRow;
            }
        },
        None => {},
    }
    let mut k: usize = 0;
    while k < matches.len()
        invariant
            k <= matches@.len(),
            forall|t: int| 0 <= t < k ==> #[trigger] matches@[t] as int != i as int,
        decreases matches@.len() - k,
    {
        if matches[k] == i {
            proof {
                assert(matches@[k as int] as int == i as int);
            }
            return RowStyle::MatchRow;
        }
        k = k + 1;
    }
    RowStyle::Plain
}

/// The query as the status line shows it.
pub open spec fn spec_query_view(q: Option<String>) -> Option<Seq<char>> {
    match q {
        Some(s) => Some(s@),
        None => None,
    }
}

/// The first line past the visible window.
pub open spec fn spec_view_end(top: int, height: int, total: int) -> int {
    if top + height <= total {
        top + height
    } else {
        total
    }
}

/// The status text before padding: the visible range and total, and — with
/// a committed query — the query and the match position, or a no-match
/// notice; key hints close the line.
pub open spec fn spec_status_base(
    top: int,
    end: int,
    total: int,
    query: Option<Seq<char>>,
    cur: Option<usize>,
    nmatches: int,
) -> Seq<char> {
    let head = "Lines "@ + spec_dec_str((top + 1) as nat) + "-"@ + spec_dec_str(end as nat) + "/"@
        + spec_dec_str(total as nat);
    match query {
        Some(q) => match cur {
            Some(ci) => head + " | Search: '"@ + q + "' ("@ + spec_dec_str((ci + 1) as nat) + "/"@
                + spec_dec_str(nmatches as nat) + " matches) | q:quit /:search n:next p:prev"@,
            None => head + " | Search: '"@ + q + "' (no matches) | q:quit /:search"@,
        },
        None => head + " | q:quit /:search \u{2191}\u{2193}:scroll PgUp/PgDn:page"@,
    }
}

/// The pager's status line, padded or cut to exactly `term_w` characters.
pub fn status_line(p: &PagerState, term_w: usize) -> (r: String)
    requires
        p.wf(),
        p.lines@.len() < usize::MAX,
    ensures
        r@ == spec_pad_trunc_chars(
            spec_status_base(
                p.top as int,
                spec_view_end(p.top as int, p.height as int, p.lines@.len() as int),
                p.lines@.len() as int,
                spec_query_view(p.query),
                p.cur_match,
                p.matches@.len() as int,
            ),
            term_w as int,
        ),
        r@.len() == term_w,
{
    let total: usize = p.lines.len();
    proof {
        assert(p.top as int <= crate::anchor::spec_sat_sub(
            p.lines@.len() as int,
            p.height as int,
        ));
    }
    let end: usize = if p.height <= total - p.top {
        p.top + p.height
    } else {
        total
    };
    let nm: usize = p.matches.len();
    let mut out: Vec<char> = Vec::new();
    push_str_chars(&mut out, "Lines ");
    push_decimal(&mut out, p.top + 1);
    push_str_chars(&mut out, "-");
    push_decimal(&mut out, end);
    push_str_chars(&mut out, "/");
    push_decimal(&mut out, total);
    match &p.query {
        Some(q) => {
            push_str_chars(&mut out, " | Search: '");
            push_str_chars(&mut out, q.as_str());
            match p.cur_match {
                Some(ci) => {
                    proof {
                        assert((ci as int) < p.matches@.len());
                    }
                    push_str_chars(&mut out, "' (");
                    push_decimal(&mut out, ci + 1);
                    push_str_chars(&mut out, "/");
                    push_decimal(&mut out, nm);
                    push_str_chars(&mut out, " matches) | q:quit /:search n:next p:prev");
                },
                None => {
                    push_str_chars(&mut out, "' (no matches) | q:quit /:search");
                },
            }
        },
        None => {
            push_str_chars(&mut out, " | q:quit /:search \u{2191}\u{2193}:scroll PgUp/PgDn:page");
        },
    }
    proof {
        assert(out@ =~= spec_status_base(
            p.top as int,
            spec_view_end(p.top as int, p.height as int, p.lines@.len() as int),
            p.lines@.len() as int,
            spec_query_view(p.query),
            p.cur_match,
            p.matches@.len() as int,
        ));
    }
    let fitted: Vec<char> = pad_trunc_chars(&out, term_w);
    string_of(&fitted)
}

/// The tri-state checkbox a header shows: full, half-filled, or empty.
pub open spec fn spec_checkbox(full: bool, some: bool) -> Seq<char> {
    if full {
        "[\u{2713}]"@
    } else if some {
        "[\u{25d0}]"@
    } else {
        "[ ]"@
    }
}

/// The checkbox text for a group's derived tri-state.
pub fn checkbox_label(full: bool, some: bool) -> (r: &'static str)
    ensures
        r@ == spec_checkbox(full, some),
{
    if full {
        "[\u{2713}]"
    } else if some {
        "[\u{25d0}]"
    } else {
        "[ ]"
    }
}

/// A header row of the file selector: cursor arrow, tri-state checkbox,
/// group label, optional description, and the member count.
pub open spec fn spec_header_row(
    cursor_here: bool,
    full: bool,
    some: bool,
    label: Seq<char>,
    desc: Option<Seq<char>>,
    count: int,
) -> Seq<char> {
    (if cursor_here {
        "\u{2192}"@
    } else {
        " "@
    }) + "  "@ + spec_checkbox(full, some) + " \u{1f4cb} CL "@ + label + (match desc {
        Some(d) => " - "@ + d,
        None => Seq::<char>::empty(),
    }) + " \u{2014} "@ + spec_dec_str(count as nat) + " file(s)"@
}

/// Render a header row of the file selector.
pub fn render_header_row(
    cursor_here: bool,
    full: bool,
    some: bool,
    label: &str,
    desc: Option<&str>,
    count: usize,
) -> (r: String)
    ensures
        r@ == spec_header_row(
            cursor_here,
            full,
            some,
            label@,
            (match desc {
                Some(d) => Some(d@),
                None => None,
            }),
            count as int,
        ),
{
    let mut out: Vec<char> = Vec::new();
    if cursor_here {
        push_str_chars(&mut out, "\u{2192}");
    } else {
        push_str_chars(&mut out, " ");
    }
    push_str_chars(&mut out, "  ");
    push_str_chars(&mut out, checkbox_label(full, some));
    push_str_chars(&mut out, " \u{1f4cb} CL ");
    push_str_chars(&mut out, label);
    match desc {
        Some(d) => {
            push_str_chars(&mut out, " - ");
            push_str_chars(&mut out, d);
        },
        None => {},
    }
    push_str_chars(&mut out, " \u{2014} ");
    push_decimal(&mut out, count);
    push_str_chars(&mut out, " file(s)");
    proof {
        assert(out@ =~= spec_header_row(
            cursor_here,
            full,
            some,
            label@,
            (match desc {
                Some(d) => Some(d@),
                None => None,
            }),
            count as int,
        ));
    }
    string_of(&out)
}

/// A leaf row of the file selector: indent, cursor arrow, checkbox, path.
pub open spec fn spec_file_row(cursor_here: bool, checked: bool, path: Seq<char>) -> Seq<char> {
    "  "@ + (if cursor_here {
        "\u{2192}"@
    } else {
        " "@
    }) + "  "@ + (if checked {
        "[\u{2713}]"@
    } else {
        "[ ]"@
    }) + "     "@ + path
}

/// Render a leaf row of the file selector.
pub fn render_file_row(cursor_here: bool, checked: bool, path: &str) -> (r: String)
    ensures
        r@ == spec_file_row(cursor_here, checked, path@),
{
    let mut out: Vec<char> = Vec::new();
    push_str_chars(&mut out, "  ");
    if cursor_here {
        push_str_chars(&mut out, "\u{2192}");
    } else {
        push_str_chars(&mut out, " ");
    }
    push_str_chars(&mut out, "  ");
    if checked {
        push_str_chars(&mut out, "[\u{2713}]");
    } else {
        push_str_chars(&mut out, "[ ]");
    }
    push_str_chars(&mut out, "     ");
    push_str_chars(&mut out, path);
    proof {
        assert(out@ =~= spec_file_row(cursor_here, checked, path@));
    }
    string_of(&out)
}

/// The selector footer: how many leaves are currently selected.
pub open spec fn spec_select_footer(count: int) -> Seq<char> {
    "Selected: "@ + spec_dec_str(count as nat) + " file(s)"@
}

/// Render the selector footer.
pub fn render_select_footer(count: usize) -> (r: String)
    ensures
        r@ == spec_select_footer(count as int),
{
    let mut out: Vec<char> = Vec::new();
    push_str_chars(&mut out, "Selected: ");
    push_decimal(&mut out, count);
    push_str_chars(&mut out, " file(s)");
    proof {
        assert(out@ =~= spec_select_footer(count as int));
    }
    string_of(&out)
}

} // verus!
