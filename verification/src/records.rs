//! The data records the widgets display: one opened file per row for the
//! selector, one annotation line per row for the pager, and the plain-text
//! rendering of an opened-file row.

use vstd::prelude::*;
use crate::strings::{spec_pad_right, push_padded_right, str_eq, string_of};

verus! {

/// One file opened in the version-control workspace.
#[derive(Debug, Clone)]
pub struct OpenedFile {
    pub changelist: String,
    pub depot_file: String,
    pub action: String,
    pub workrev: Option<String>,
}

/// One line of an annotated file: the change that introduced it, its author
/// and date, and the line's text.
#[derive(Debug, Clone)]
pub struct AnnotateLine {
    pub cl_number: String,
    pub username: String,
    pub date: String,
    pub line_content: String,
}

/// The pictogram shown for a file action.
pub open spec fn spec_action_emoji(a: Seq<char>) -> Seq<char> {
    if a == "edit"@ {
        "\u{270f}\u{fe0f}"@
    } else if a == "add"@ {
        "\u{2795}"@
    } else if a == "delete"@ {
        "\u{1f5d1}\u{fe0f}"@
    } else if a == "integrate"@ {
        "\u{1f500}"@
    } else if a == "branch"@ {
        "\u{1f33f}"@
    } else if a == "move/add"@ {
        "\u{1f4e6}"@
    } else if a == "move/delete"@ {
        "\u{1f4e4}"@
    } else {
        "\u{1f4c4}"@
    }
}

/// Pictogram for a file action; unknown actions get a generic page marker.
pub fn action_emoji(action: &str) -> (r: &str)
    ensures
        r@ == spec_action_emoji(action@),
{
    if str_eq(action, "edit") {
        "\u{270f}\u{fe0f}"
    } else if str_eq(action, "add") {
        "\u{2795}"
    } else if str_eq(action, "delete") {
        "\u{1f5d1}\u{fe0f}"
    } else if str_eq(action, "integrate") {
        "\u{1f500}"
    } else if str_eq(action, "branch") {
        "\u{1f33f}"
    } else if str_eq(action, "move/add") {
        "\u{1f4e6}"
    } else if str_eq(action, "move/delete") {
        "\u{1f4e4}"
    } else {
        "\u{1f4c4}"
    }
}

/// The text shown in the revision column: the working revision, or `-`.
pub open spec fn spec_workrev_text(w: Option<String>) -> Seq<char> {
    match w {
        Some(r) => r@,
        None => "-"@,
    }
}

/// One opened-file row: pictogram, action padded to 10 columns, a `rev`
/// label padded to 6, the working revision padded to 4, and the depot path.
pub open spec fn spec_render_opened_line(f: OpenedFile) -> Seq<char> {
    spec_action_emoji(f.action@) + seq![' '] + spec_pad_right(f.action@, 10) + seq![' ']
        + spec_pad_right("rev"@, 6) + seq![' '] + spec_pad_right(spec_workrev_text(f.workrev), 4)
        + seq![' '] + f.depot_file@
}

/// Render one opened-file row as plain text.
pub fn render_opened_line(f: &OpenedFile) -> (r: String)
    ensures
        r@ == spec_render_opened_line(*f),
{
    let mut out: Vec<char> = Vec::new();
    let emoji: &str = action_emoji(f.action.as_str());
    push_padded_right(&mut out, emoji, 0);
    out.push(' ');
    push_padded_right(&mut out, f.action.as_str(), 10);
    out.push(' ');
    push_padded_right(&mut out, "rev", 6);
    out.push(' ');
    match &f.workrev {
        Some(r) => push_padded_right(&mut out, r.as_str(), 4),
        None => push_padded_right(&mut out, "-", 4),
    }
    out.push(' ');
    push_padded_right(&mut out, f.depot_file.as_str(), 0);
    proof {
        assert(out@ =~= spec_render_opened_line(*f));
    }
    string_of(&out)
}

} // verus!
