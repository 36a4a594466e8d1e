//! What the file list draws: which entries lie in (or near) the scrolled
//! view, how each row is marked, and its label. Pixel geometry stays with
//! the window toolkit, which hands over whole rows and columns.
use vstd::prelude::*;
use vstd::arithmetic::div_mod::{lemma_fundamental_div_mod, lemma_fundamental_div_mod_converse_div};

use crate::paths::{components, paths_equal};
use crate::selection::PathSet;
use crate::text::{format_safe_name, safe_name};
use crate::types::{FileEntry, SortDirection, SortKey};

verus! {

/// Rows drawn beyond each edge of the view: fewer for the taller grid
/// cells.
pub open spec fn spare_rows(is_grid: bool) -> nat {
    if is_grid {
        2
    } else {
        4
    }
}

/// The positions (in the filtered list) of the entries drawn: whole rows
/// of `columns` entries, from `spare_rows` rows above the first row in
/// view (`first_row`) to as many below the last (`rows_in_view` rows are
/// in view), and never past the last entry. As a pair: first position,
/// and one past the last (the first may exceed the last when the view was
/// scrolled beyond the end; then nothing is drawn).
pub open spec fn drawn_range(total: nat, columns: nat, first_row: nat, rows_in_view: nat, is_grid: bool) -> (int, int) {
    let total_rows = (total + columns - 1) / columns as int;
    let spare = spare_rows(is_grid);
    let start_row: int = if first_row > spare {
        first_row - spare
    } else {
        0
    };
    let wanted_end = start_row + rows_in_view + 2 * spare;
    let end_row = if wanted_end < total_rows {
        wanted_end
    } else {
        total_rows
    };
    let end = if end_row * columns < total {
        end_row * columns
    } else {
        total as int
    };
    (start_row * columns, end)
}

/// The rows that `t` entries fill, `c` to a row, and how they bound `t`.
proof fn lemma_rows(t: int, c: int)
    requires
        c >= 1,
        t >= 0,
    ensures
        ({
            let rows = t / c + if t % c > 0 { 1int } else { 0int };
            &&& rows == (t + c - 1) / c
            &&& rows * c >= t
            &&& rows * c < t + c
            &&& (rows - 1) * c < t
        }),
{
    let q = t / c;
    let r = t % c;
    lemma_fundamental_div_mod(t, c);
    assert(c * q == q * c) by (nonlinear_arith);
    assert((q + 1) * c == q * c + c) by (nonlinear_arith);
    if r > 0 {
        lemma_fundamental_div_mod_converse_div(t + c - 1, c, q + 1, r - 1);
    } else {
        lemma_fundamental_div_mod_converse_div(t + c - 1, c, q, c - 1);
    }
    assert((q - 1) * c == q * c - c) by (nonlinear_arith);
}

/// The entries drawn, as [`drawn_range`] states; the first position is
/// brought down to the end when it lies beyond it, which draws the same
/// (nothing).
pub fn shown_range(total: usize, columns: usize, first_row: usize, rows_in_view: usize, is_grid: bool) -> (r: (usize, usize))
    requires
        columns >= 1,
    ensures
        r.1 == drawn_range(total as nat, columns as nat, first_row as nat, rows_in_view as nat, is_grid).1,
        r.0 == if drawn_range(total as nat, columns as nat, first_row as nat, rows_in_view as nat, is_grid).0
            <= r.1 {
            drawn_range(total as nat, columns as nat, first_row as nat, rows_in_view as nat, is_grid).0
        } else {
            r.1 as int
        },
{
    proof {
        assert(total % columns > 0 ==> total / columns < usize::MAX) by (nonlinear_arith)
            requires
                columns >= 1,
                total <= usize::MAX,
        {
            if total % columns > 0 {
                assert(columns >= 2);
                assert(total / columns <= total / 2);
            }
        }
    }
    let total_rows = total / columns + if total % columns > 0 { 1 } else { 0 };
    proof {
        lemma_rows(total as int, columns as int);
    }
    let spare: usize = if is_grid { 2 } else { 4 };
    let start_row = if first_row > spare { first_row - spare } else { 0 };
    // end_row = min(start_row + rows_in_view + 2 * spare, total_rows),
    // worked out without overflow.
    let end_row = if start_row >= total_rows {
        total_rows
    } else {
        let room = total_rows - start_row;
        if rows_in_view >= room || room - rows_in_view <= 2 * spare {
            total_rows
        } else {
            start_row + rows_in_view + 2 * spare
        }
    };
    // end = min(end_row * columns, total): end_row * columns overflows
    // only when it is at least total.
    let end = if end_row == total_rows {
        total
    } else {
        proof {
            assert(end_row * columns <= total) by (nonlinear_arith)
                requires
                    end_row + 1 <= total_rows,
                    columns >= 1,
                    total_rows * columns < total + columns,
            {
                assert((end_row + 1) * columns <= total_rows * columns);
            }
        }
        end_row * columns
    };
    // start = start_row * columns, brought down to end when beyond it:
    // from a row before end_row it lies before the last entry.
    let start = if start_row >= end_row {
        proof {
            assert(start_row * columns >= end_row * columns) by (nonlinear_arith)
                requires
                    start_row >= end_row,
            ;
        }
        end
    } else {
        proof {
            let c = columns as int;
            assert(start_row * c <= (total_rows - 1) * c) by (nonlinear_arith)
                requires
                    start_row + 1 <= total_rows,
                    c >= 1,
            ;
            assert(start_row * c < end_row * c) by (nonlinear_arith)
                requires
                    start_row < end_row,
                    c >= 1,
            ;
        }
        start_row * columns
    };
    (start, end)
}

/// How a row of the file list is marked.
#[derive(Clone, Copy, Debug, PartialEq, Eq)]
pub struct RowMarks {
    pub selected: bool,
    /// Items are being dragged onto this folder, which is not among them.
    pub drop_target: bool,
    /// The pointer rests on the row while nothing is being dragged.
    pub hovered: bool,
    /// The entry is on the clipboard to be moved.
    pub cut: bool,
}

/// Whether a path of `clipboard` is `p` (compared as paths).
pub open spec fn on_clipboard(clipboard: Seq<String>, p: Seq<char>) -> bool {
    exists|i: int| 0 <= i < clipboard.len() && components(#[trigger] clipboard[i]@) == components(p)
}

/// Marks the row at position `idx`, showing `entry`: selected when the
/// selection holds its path; a drop target when items are dragged, the
/// pointer is on this row, and it is a folder outside the selection;
/// hovered when the pointer is on it and no drag nor rubber band is under
/// way (`band_anchored`: a rubber band was started); cut when the
/// clipboard (holding something) is to be moved and holds its path.
pub fn row_marks(
    idx: usize,
    entry: &FileEntry,
    selection: &PathSet,
    hovered_row: Option<usize>,
    dragging_items: bool,
    dragging_band: bool,
    band_anchored: bool,
    clipboard_cut: bool,
    clipboard: &[String],
) -> (m: RowMarks)
    ensures
        m.selected == selection.view().contains(components(entry.path@)),
        m.drop_target == (dragging_items && hovered_row == Some(idx) && entry.is_dir
            && !selection.view().contains(components(entry.path@))),
        m.hovered == (hovered_row == Some(idx) && !dragging_band && !dragging_items
            && !band_anchored),
        m.cut == (clipboard_cut && clipboard@.len() > 0 && on_clipboard(clipboard@, entry.path@)),
{
    let selected = selection.contains(entry.path.as_str());
    let under_pointer = match hovered_row {
        Some(h) => h == idx,
        None => false,
    };
    let drop_target = dragging_items && under_pointer && entry.is_dir && !selected;
    let hovered = under_pointer && !dragging_band && !dragging_items && !band_anchored;
    let mut cut = false;
    if clipboard_cut && clipboard.len() > 0 {
        let n = clipboard.len();
        let mut i: usize = 0;
        while i < n && !cut
            invariant
                i <= n,
                n == clipboard@.len(),
                cut == on_clipboard(clipboard@.take(i as int), entry.path@),
            decreases n - i,
        {
            proof {
                assert forall|k: int| 0 <= k < i implies clipboard@.take(i + 1)[k] == clipboard@.take(
                    i as int,
                )[k] by {}
            }
            if paths_equal(clipboard[i].as_str(), entry.path.as_str()) {
                cut = true;
                assert(clipboard@.take(i + 1)[i as int] == clipboard@[i as int]);
            } else {
                proof {
                    if on_clipboard(clipboard@.take(i + 1), entry.path@) {
                        let k = choose|k: int|
                            0 <= k < clipboard@.take(i + 1).len() && components(
                                #[trigger] clipboard@.take(i + 1)[k]@,
                            ) == components(entry.path@);
                        assert(k != i);
                        assert(clipboard@.take(i as int)[k] == clipboard@[k]);
                    }
                }
            }
            i = i + 1;
        }
        proof {
            if cut {
                let k = choose|k: int|
                    0 <= k < clipboard@.take(i as int).len() && components(
                        #[trigger] clipboard@.take(i as int)[k]@,
                    ) == components(entry.path@);
                assert(clipboard@[k] == clipboard@.take(i as int)[k]);
            } else {
                assert(clipboard@.take(i as int) =~= clipboard@);
            }
        }
    }
    RowMarks { selected, drop_target, hovered, cut }
}

/// How a row is highlighted: the first of selected, hovered, drop target
/// that holds.
#[derive(Clone, Copy, Debug, PartialEq, Eq)]
pub enum Highlight {
    Selected,
    Hovered,
    DropTarget,
    Plain,
}

/// The highlight of a row marked `m`.
pub fn highlight(m: RowMarks) -> (h: Highlight)
    ensures
        h == if m.selected {
            Highlight::Selected
        } else if m.hovered {
            Highlight::Hovered
        } else if m.drop_target {
            Highlight::DropTarget
        } else {
            Highlight::Plain
        },
{
    if m.selected {
        Highlight::Selected
    } else if m.hovered {
        Highlight::Hovered
    } else if m.drop_target {
        Highlight::DropTarget
    } else {
        Highlight::Plain
    }
}

/// Grid cells show at most this many characters of a name.
pub const GRID_LABEL_MAX: usize = 15;

/// The label of `entry` in the list: in the grid its short name within
/// [`GRID_LABEL_MAX`] characters, otherwise its name within `list_max`
/// (which the list's width allows), each made unbreakable as
/// [`safe_name`] states.
pub fn row_label(entry: &FileEntry, is_grid: bool, list_max: usize) -> (s: String)
    ensures
        s@ == if is_grid {
            safe_name(entry.grid_name@, GRID_LABEL_MAX as nat)
        } else {
            safe_name(entry.name@, list_max as nat)
        },
{
    if is_grid {
        format_safe_name(entry.grid_name.as_str(), GRID_LABEL_MAX)
    } else {
        format_safe_name(entry.name.as_str(), list_max)
    }
}

/// The icon beside the header of the list column `column`: the sort
/// direction's icon on the column the list is sorted by (`key`), none on
/// the others. The grid has no headers.
pub open spec fn sort_icon(column: SortKey, key: SortKey, dir: SortDirection) -> Option<Seq<char>> {
    if column != key {
        None
    } else if dir == SortDirection::Asc {
        Some("view-sort-ascending-symbolic"@)
    } else {
        Some("view-sort-descending-symbolic"@)
    }
}

/// The icon beside a column header, as [`sort_icon`] states.
pub fn sort_indicator(column: SortKey, key: SortKey, dir: SortDirection) -> (r: Option<&'static str>)
    ensures
        match r {
            Some(s) => sort_icon(column, key, dir) == Some(s@),
            None => sort_icon(column, key, dir) is None,
        },
{
    if column != key {
        None
    } else if dir == SortDirection::Asc {
        Some("view-sort-ascending-symbolic")
    } else {
        Some("view-sort-descending-symbolic")
    }
}

} // verus!
