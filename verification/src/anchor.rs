//! Anchored frame placement: a widget redraws a block of text repeatedly at a
//! fixed terminal coordinate. The anchor is planned once before the first
//! frame and corrected at most once, right after the first frame, if the
//! terminal auto-scrolled while the frame was printed.

use vstd::prelude::*;

verus! {

/// `a - b` floored at zero.
pub open spec fn spec_sat_sub(a: int, b: int) -> int {
    if a >= b {
        a - b
    } else {
        0
    }
}

/// The terminal coordinate at which a widget's frame begins, fixed for one
/// widget invocation. `corrected` records whether the one-time scroll
/// correction has already been applied.
pub struct Anchor {
    pub col: u16,
    pub row: u16,
    pub corrected: bool,
}

/// Whether a block of `height` rows fails to fit below the cursor row, so
/// that the anchor must be relocated before the first frame.
pub open spec fn spec_needs_relocation(cur_row: int, term_rows: int, height: int) -> bool {
    term_rows - cur_row < height
}

/// Where the anchor must be placed before the first frame: at the current
/// cursor position if `height` rows fit below it, otherwise relocated so the
/// block fits against the bottom of the terminal without relying on scroll.
pub open spec fn spec_planned_row(cur_row: int, term_rows: int, height: int) -> int {
    if spec_needs_relocation(cur_row, term_rows, height) {
        spec_sat_sub(term_rows, height)
    } else {
        cur_row
    }
}

impl Anchor {
    /// Plan the anchor for a block of `height` rows when the cursor stands at
    /// `(cur_col, cur_row)` in a terminal of `term_rows` rows. The second
    /// component reports whether the cursor had to be relocated (the caller
    /// then moves the cursor there and clears downward before drawing).
    pub fn plan(cur_col: u16, cur_row: u16, term_rows: u16, height: u16) -> (r: (Anchor, bool))
        ensures
            r.0.row == spec_planned_row(cur_row as int, term_rows as int, height as int),
            r.1 == spec_needs_relocation(cur_row as int, term_rows as int, height as int),
            r.1 ==> r.0.col == 0,
            !r.1 ==> r.0.col == cur_col,
            !r.0.corrected,
    {
        let relocate: bool = if cur_row <= term_rows {
            term_rows - cur_row < height
        } else {
            true
        };
        if relocate {
            let row: u16 = if term_rows >= height {
                term_rows - height
            } else {
                0
            };
            (
                Anchor { col: 0, row, corrected: false },
                true,
            )
        } else {
            (
                Anchor { col: cur_col, row: cur_row, corrected: false },
                false,
            )
        }
    }

    /// The anchor row after the one-time scroll compensation: unchanged when
    /// the frame ended where the anchor predicted, otherwise moved up so that
    /// the frame's actual end row stays `lines_printed` rows below the anchor.
    pub open spec fn spec_corrected_row(self, lines_printed: int, actual_end_row: int) -> int {
        if actual_end_row == self.row + lines_printed {
            self.row as int
        } else {
            spec_sat_sub(actual_end_row, lines_printed)
        }
    }

    /// Apply the scroll compensation after the first frame: `lines_printed`
    /// rows were written and the cursor actually ended on `actual_end_row`.
    /// Once an anchor is corrected, later calls leave it untouched, so the
    /// compensation can never be applied twice to one invocation.
    pub fn note_frame_end(&mut self, lines_printed: u16, actual_end_row: u16)
        ensures
            final(self).corrected,
            final(self).col == old(self).col,
            old(self).corrected ==> final(self).row == old(self).row,
            !old(self).corrected ==> final(self).row as int == old(self).spec_corrected_row(
                lines_printed as int,
                actual_end_row as int,
            ),
    {
        if !self.corrected {
            let expected_end: u32 = self.row as u32 + lines_printed as u32;
            if actual_end_row as u32 != expected_end {
                self.row = if actual_end_row >= lines_printed {
                    actual_end_row - lines_printed
                } else {
                    0
                };
            }
            self.corrected = true;
        }
    }
}

} // verus!
