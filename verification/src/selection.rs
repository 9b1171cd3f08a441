//! Cell indexes of a two-dimensional model, and the selection of cells that item views keep:
//! which cells are selected, the current cell and the anchor of range selections.

use vstd::prelude::*;

verus! {

/// A cell of a table model, or no cell (invalid).
#[derive(Debug, Clone, Copy, PartialEq, Eq, Structural)]
pub struct ModelIndex {
    row: usize,
    column: usize,
    valid: bool,
}

impl ModelIndex {
    pub closed spec fn spec_row(self) -> int {
        self.row as int
    }

    pub closed spec fn spec_column(self) -> int {
        self.column as int
    }

    pub closed spec fn spec_valid(self) -> bool {
        self.valid
    }

    /// The index of the cell at `row` and `column`.
    pub closed spec fn spec_new(row: int, column: int) -> ModelIndex {
        ModelIndex { row: row as usize, column: column as usize, valid: true }
    }

    /// The index of no cell.
    pub closed spec fn spec_invalid() -> ModelIndex {
        ModelIndex { row: 0, column: 0, valid: false }
    }

    /// A cell index names the row and column it was made with.
    pub proof fn lemma_new(row: usize, column: usize)
        ensures
            Self::spec_new(row as int, column as int).spec_row() == row,
            Self::spec_new(row as int, column as int).spec_column() == column,
            Self::spec_new(row as int, column as int).spec_valid(),
            !Self::spec_invalid().spec_valid(),
    {
    }

    /// The index of the cell at `row` and `column`.
    pub fn new(row: usize, column: usize) -> (r: ModelIndex)
        ensures
            r == Self::spec_new(row as int, column as int),
            r.spec_row() == row,
            r.spec_column() == column,
            r.spec_valid(),
    {
        ModelIndex { row, column, valid: true }
    }

    /// The index of no cell.
    pub fn invalid() -> (r: ModelIndex)
        ensures
            r == Self::spec_invalid(),
            !r.spec_valid(),
    {
        ModelIndex { row: 0, column: 0, valid: false }
    }

    /// Whether this index names a cell.
    pub fn is_valid(&self) -> (r: bool)
        ensures
            r == self.spec_valid(),
    {
        self.valid
    }

    /// The row of the cell (0 for no cell).
    pub fn row(&self) -> (r: usize)
        ensures
            r == self.spec_row(),
    {
        self.row
    }

    /// The column of the cell (0 for no cell).
    pub fn column(&self) -> (r: usize)
        ensures
            r == self.spec_column(),
    {
        self.column
    }
}

/// How many cells a view lets the user select.
#[derive(Debug, Clone, Copy, PartialEq, Eq, Structural)]
pub enum SelectionMode {
    /// Nothing can be selected.
    NoSelection,
    /// One item at a time.
    SingleSelection,
    /// Clicking toggles items in and out of the selection.
    MultiSelection,
    /// Clicking selects one item; Control toggles, Shift selects a range.
    ExtendedSelection,
}

/// What a click selects: a cell, its row or its column.
#[derive(Debug, Clone, Copy, PartialEq, Eq, Structural)]
pub enum SelectionBehavior {
    SelectItems,
    SelectRows,
    SelectColumns,
}

/// What an update of the selection does: clear it first, select or toggle cells, and move
/// the current cell and the anchor.
#[derive(Debug, Clone, Copy, PartialEq, Eq, Structural)]
pub struct SelectionFlags {
    pub clear: bool,
    pub select: bool,
    pub toggle: bool,
    pub current: bool,
    pub anchor: bool,
}

impl SelectionFlags {
    /// Change nothing.
    pub fn none() -> (r: Self)
        ensures
            r == (SelectionFlags { clear: false, select: false, toggle: false, current: false, anchor: false }),
    {
        SelectionFlags { clear: false, select: false, toggle: false, current: false, anchor: false }
    }

    /// Add cells to the selection.
    pub fn select() -> (r: Self)
        ensures
            r == (SelectionFlags { clear: false, select: true, toggle: false, current: false, anchor: false }),
    {
        SelectionFlags { clear: false, select: true, toggle: false, current: false, anchor: false }
    }

    /// Flip cells in or out of the selection.
    pub fn toggle() -> (r: Self)
        ensures
            r == (SelectionFlags { clear: false, select: false, toggle: true, current: false, anchor: false }),
    {
        SelectionFlags { clear: false, select: false, toggle: true, current: false, anchor: false }
    }

    /// Move the current cell only.
    pub fn current() -> (r: Self)
        ensures
            r == (SelectionFlags { clear: false, select: false, toggle: false, current: true, anchor: false }),
    {
        SelectionFlags { clear: false, select: false, toggle: false, current: true, anchor: false }
    }

    /// Replace the selection with the cells given.
    pub fn clear_and_select() -> (r: Self)
        ensures
            r == (SelectionFlags { clear: true, select: true, toggle: false, current: false, anchor: false }),
    {
        SelectionFlags { clear: true, select: true, toggle: false, current: false, anchor: false }
    }

    /// Replace the selection with the cell given, which becomes current.
    pub fn clear_select_current() -> (r: Self)
        ensures
            r == (SelectionFlags { clear: true, select: true, toggle: false, current: true, anchor: false }),
    {
        SelectionFlags { clear: true, select: true, toggle: false, current: true, anchor: false }
    }

    /// These flags, also moving the anchor.
    pub fn with_anchor(self) -> (r: Self)
        ensures
            r == (SelectionFlags { anchor: true, ..self }),
    {
        SelectionFlags { anchor: true, ..self }
    }

    /// These flags, also moving the current cell.
    pub fn with_current(self) -> (r: Self)
        ensures
            r == (SelectionFlags { current: true, ..self }),
    {
        SelectionFlags { current: true, ..self }
    }
}

/// A rectangle of cells (bounds included) selected or deselected as a whole.
#[derive(Debug, Clone, Copy)]
struct SelRange {
    top: usize,
    left: usize,
    bottom: usize,
    right: usize,
    select: bool,
}

/// The cells of the rectangle from (`top`, `left`) to (`bottom`, `right`), bounds included.
pub open spec fn rect_cells(top: int, left: int, bottom: int, right: int) -> Set<(int, int)> {
    Set::new(|p: (int, int)| top <= p.0 <= bottom && left <= p.1 <= right)
}

/// The cells of the rectangle spanned by two corners, in either order.
pub open spec fn span_cells(r1: int, c1: int, r2: int, c2: int) -> Set<(int, int)> {
    rect_cells(
        if r1 <= r2 {
            r1
        } else {
            r2
        },
        if c1 <= c2 {
            c1
        } else {
            c2
        },
        if r1 <= r2 {
            r2
        } else {
            r1
        },
        if c1 <= c2 {
            c2
        } else {
            c1
        },
    )
}

spec fn covers(r: SelRange, row: int, col: int) -> bool {
    r.top <= row <= r.bottom && r.left <= col <= r.right
}

/// Whether a cell is selected after the updates in `ranges`, the last one covering it deciding.
spec fn selected_in(ranges: Seq<SelRange>, row: int, col: int) -> bool
    decreases ranges.len(),
{
    if ranges.len() == 0 {
        false
    } else if covers(ranges.last(), row, col) {
        ranges.last().select
    } else {
        selected_in(ranges.drop_last(), row, col)
    }
}

/// The selection of a view.
#[derive(Debug)]
pub struct SelectionModel {
    mode: SelectionMode,
    behavior: SelectionBehavior,
    ranges: Vec<SelRange>,
    current: ModelIndex,
    anchor: ModelIndex,
}

impl SelectionModel {
    /// The selected cells.
    pub closed spec fn selected(&self) -> Set<(int, int)> {
        Set::new(|p: (int, int)| selected_in(self.ranges@, p.0, p.1))
    }

    pub closed spec fn spec_mode(&self) -> SelectionMode {
        self.mode
    }

    pub closed spec fn spec_behavior(&self) -> SelectionBehavior {
        self.behavior
    }

    pub closed spec fn spec_current(&self) -> ModelIndex {
        self.current
    }

    pub closed spec fn spec_anchor(&self) -> ModelIndex {
        self.anchor
    }

    /// The selection after updating the cells `cells` with `flags` (clear first, then select
    /// or toggle them), from `before`.
    pub open spec fn updated_cells(before: Set<(int, int)>, cells: Set<(int, int)>, flags: SelectionFlags) -> Set<(int, int)> {
        let base = if flags.clear {
            Set::<(int, int)>::empty()
        } else {
            before
        };
        if flags.select {
            base.union(cells)
        } else if flags.toggle {
            base.difference(cells).union(cells.difference(base))
        } else {
            base
        }
    }

    /// Mode, behavior, current cell and anchor agree with `other`.
    pub open spec fn same_settings(&self, other: &Self) -> bool {
        &&& self.spec_mode() == other.spec_mode()
        &&& self.spec_behavior() == other.spec_behavior()
        &&& self.spec_current() == other.spec_current()
        &&& self.spec_anchor() == other.spec_anchor()
    }

    /// Extended selection of items, nothing selected, no current cell and no anchor.
    pub fn new() -> (r: Self)
        ensures
            r.selected() == Set::<(int, int)>::empty(),
            r.spec_mode() == SelectionMode::ExtendedSelection,
            r.spec_behavior() == SelectionBehavior::SelectItems,
            r.spec_current() == ModelIndex::spec_invalid(),
            r.spec_anchor() == ModelIndex::spec_invalid(),
    {
        let r = SelectionModel {
            mode: SelectionMode::ExtendedSelection,
            behavior: SelectionBehavior::SelectItems,
            ranges: Vec::new(),
            current: ModelIndex::invalid(),
            anchor: ModelIndex::invalid(),
        };
        assert(r.selected() =~= Set::<(int, int)>::empty());
        r
    }

    /// How many cells the user may select.
    pub fn selection_mode(&self) -> (r: SelectionMode)
        ensures
            r == self.spec_mode(),
    {
        self.mode
    }

    /// Set how many cells the user may select.
    pub fn set_selection_mode(&mut self, mode: SelectionMode)
        ensures
            final(self).spec_mode() == mode,
            final(self).selected() == old(self).selected(),
            final(self).spec_behavior() == old(self).spec_behavior(),
            final(self).spec_current() == old(self).spec_current(),
            final(self).spec_anchor() == old(self).spec_anchor(),
    {
        self.mode = mode;
    }

    /// What a click selects.
    pub fn selection_behavior(&self) -> (r: SelectionBehavior)
        ensures
            r == self.spec_behavior(),
    {
        self.behavior
    }

    /// Set what a click selects.
    pub fn set_selection_behavior(&mut self, behavior: SelectionBehavior)
        ensures
            final(self).spec_behavior() == behavior,
            final(self).selected() == old(self).selected(),
            final(self).spec_mode() == old(self).spec_mode(),
            final(self).spec_current() == old(self).spec_current(),
            final(self).spec_anchor() == old(self).spec_anchor(),
    {
        self.behavior = behavior;
    }

    /// The current cell.
    pub fn current_index(&self) -> (r: ModelIndex)
        ensures
            r == self.spec_current(),
    {
        self.current
    }

    /// The anchor of range selections.
    pub fn anchor_index(&self) -> (r: ModelIndex)
        ensures
            r == self.spec_anchor(),
    {
        self.anchor
    }

    /// Whether the cell at `row`, `column` is selected.
    pub fn is_selected(&self, row: usize, column: usize) -> (r: bool)
        ensures
            r == self.selected().contains((row as int, column as int)),
    {
        let mut i = self.ranges.len();
        assert(self.ranges@.subrange(0, i as int) =~= self.ranges@);
        while i > 0
            invariant
                i <= self.ranges@.len(),
                selected_in(self.ranges@, row as int, column as int) == selected_in(
                    self.ranges@.subrange(0, i as int),
                    row as int,
                    column as int,
                ),
            decreases i,
        {
            let r = self.ranges[i - 1];
            proof {
                assert(self.ranges@.subrange(0, i as int).drop_last() =~= self.ranges@.subrange(0, i - 1));
            }
            if r.top <= row && row <= r.bottom && r.left <= column && column <= r.right {
                return r.select;
            }
            i = i - 1;
        }
        false
    }

    /// Deselect every cell.
    pub fn clear_selection(&mut self)
        ensures
            final(self).selected() == Set::<(int, int)>::empty(),
            final(self).same_settings(old(self)),
    {
        self.ranges = Vec::new();
        assert(self.selected() =~= Set::<(int, int)>::empty());
    }

    /// Deselect every cell and forget the current cell and the anchor.
    pub fn reset(&mut self)
        ensures
            final(self).selected() == Set::<(int, int)>::empty(),
            final(self).spec_current() == ModelIndex::spec_invalid(),
            final(self).spec_anchor() == ModelIndex::spec_invalid(),
            final(self).spec_mode() == old(self).spec_mode(),
            final(self).spec_behavior() == old(self).spec_behavior(),
    {
        self.clear_selection();
        self.current = ModelIndex::invalid();
        self.anchor = ModelIndex::invalid();
    }

    fn push_range(&mut self, top: usize, left: usize, bottom: usize, right: usize, select: bool)
        ensures
            final(self).selected() == (if select {
                old(self).selected().union(rect_cells(top as int, left as int, bottom as int, right as int))
            } else {
                old(self).selected().difference(rect_cells(top as int, left as int, bottom as int, right as int))
            }),
            final(self).same_settings(old(self)),
    {
        let r = SelRange { top, left, bottom, right, select };
        self.ranges.push(r);
        proof {
            assert(self.ranges@.drop_last() =~= old(self).ranges@);
            assert(self.ranges@.last() == r);
        }
        if select {
            assert(self.selected() =~= old(self).selected().union(
                rect_cells(top as int, left as int, bottom as int, right as int),
            ));
        } else {
            assert(self.selected() =~= old(self).selected().difference(
                rect_cells(top as int, left as int, bottom as int, right as int),
            ));
        }
    }

    /// Update the cells of the rectangle from (`top`, `left`) to (`bottom`, `right`) with
    /// `flags` (clear, then select or toggle); the current cell and the anchor stay.
    fn update_rect(&mut self, top: usize, left: usize, bottom: usize, right: usize, flags: SelectionFlags)
        requires
            top <= bottom,
            left <= right,
        ensures
            final(self).selected() == Self::updated_cells(
                old(self).selected(),
                rect_cells(top as int, left as int, bottom as int, right as int),
                flags,
            ),
            final(self).same_settings(old(self)),
    {
        if flags.clear {
            self.clear_selection();
        }
        if flags.select {
            self.push_range(top, left, bottom, right, true);
        } else if flags.toggle {
            if top == bottom && left == right {
                let was = self.is_selected(top, left);
                self.push_range(top, left, bottom, right, !was);
                proof {
                    let cells = rect_cells(top as int, left as int, bottom as int, right as int);
                    let base = if flags.clear {
                        Set::<(int, int)>::empty()
                    } else {
                        old(self).selected()
                    };
                    assert(cells =~= set![(top as int, left as int)]);
                    assert(self.selected() =~= base.difference(cells).union(cells.difference(base)));
                }
            } else {
                self.toggle_rect(top, left, bottom, right);
            }
        }
    }

    /// Flip every cell of a rectangle, row by row and cell by cell.
    fn toggle_rect(&mut self, top: usize, left: usize, bottom: usize, right: usize)
        requires
            top <= bottom,
            left <= right,
        ensures
            ({
                let cells = rect_cells(top as int, left as int, bottom as int, right as int);
                final(self).selected() == old(self).selected().difference(cells).union(
                    cells.difference(old(self).selected()),
                )
            }),
            final(self).same_settings(old(self)),
    {
        let ghost before = self.selected();
        let mut r = top;
        loop
            invariant
                top <= r <= bottom,
                left <= right,
                self.same_settings(old(self)),
                before == old(self).selected(),
                forall|p: (int, int)| #[trigger]
                    self.selected().contains(p) == if top <= p.0 < r && left <= p.1 <= right {
                        !before.contains(p)
                    } else {
                        before.contains(p)
                    },
            decreases bottom - r,
        {
            let mut c = left;
            loop
                invariant_except_break
                    left <= c <= right,
                    forall|p: (int, int)| #[trigger]
                        self.selected().contains(p) == if (top <= p.0 < r && left <= p.1 <= right) || (p.0
                            == r && left <= p.1 < c) {
                            !before.contains(p)
                        } else {
                            before.contains(p)
                        },
                invariant
                    top <= r <= bottom,
                    left <= right,
                    self.same_settings(old(self)),
                ensures
                    forall|p: (int, int)| #[trigger]
                        self.selected().contains(p) == if (top <= p.0 < r && left <= p.1 <= right) || (p.0
                            == r && left <= p.1 <= right) {
                            !before.contains(p)
                        } else {
                            before.contains(p)
                        },
                decreases right - c,
            {
                let was = self.is_selected(r, c);
                let ghost mid = self.selected();
                self.push_range(r, c, r, c, !was);
                proof {
                    assert forall|p: (int, int)| #[trigger]
                        self.selected().contains(p) == if (top <= p.0 < r && left <= p.1 <= right) || (
                        p.0 == r && left <= p.1 <= c) {
                            !before.contains(p)
                        } else {
                            before.contains(p)
                        } by {
                        if p == (r as int, c as int) {
                            assert(rect_cells(r as int, c as int, r as int, c as int).contains(p));
                        } else {
                            assert(!rect_cells(r as int, c as int, r as int, c as int).contains(p));
                            assert(self.selected().contains(p) == mid.contains(p));
                        }
                    }
                }
                if c == right {
                    break;
                }
                c = c + 1;
            }
            if r == bottom {
                proof {
                    let cells = rect_cells(top as int, left as int, bottom as int, right as int);
                    assert(self.selected() =~= before.difference(cells).union(cells.difference(before)));
                }
                return;
            }
            r = r + 1;
        }
    }

    /// Update the cell `index` with `flags`; it becomes current (and the anchor) when the
    /// flags say so. An invalid index changes the selection of no cell.
    pub fn set_current_index(&mut self, index: ModelIndex, flags: SelectionFlags)
        ensures
            final(self).selected() == (if index.spec_valid() {
                Self::updated_cells(
                    old(self).selected(),
                    set![(index.spec_row(), index.spec_column())],
                    flags,
                )
            } else if flags.clear {
                Set::<(int, int)>::empty()
            } else {
                old(self).selected()
            }),
            final(self).spec_current() == (if flags.current {
                index
            } else {
                old(self).spec_current()
            }),
            final(self).spec_anchor() == (if flags.anchor {
                index
            } else {
                old(self).spec_anchor()
            }),
            final(self).spec_mode() == old(self).spec_mode(),
            final(self).spec_behavior() == old(self).spec_behavior(),
    {
        if index.is_valid() {
            let r = index.row();
            let c = index.column();
            self.update_rect(r, c, r, c, flags);
            assert(rect_cells(r as int, c as int, r as int, c as int) =~= set![(r as int, c as int)]);
        } else if flags.clear {
            self.clear_selection();
        }
        if flags.current {
            self.current = index;
        }
        if flags.anchor {
            self.anchor = index;
        }
    }

    /// Update the cell `index` with `flags`, leaving the current cell and the anchor.
    pub fn select(&mut self, index: ModelIndex, flags: SelectionFlags)
        ensures
            final(self).selected() == (if index.spec_valid() {
                Self::updated_cells(
                    old(self).selected(),
                    set![(index.spec_row(), index.spec_column())],
                    flags,
                )
            } else if flags.clear {
                Set::<(int, int)>::empty()
            } else {
                old(self).selected()
            }),
            final(self).same_settings(old(self)),
    {
        if index.is_valid() {
            let r = index.row();
            let c = index.column();
            self.update_rect(r, c, r, c, flags);
            assert(rect_cells(r as int, c as int, r as int, c as int) =~= set![(r as int, c as int)]);
        } else if flags.clear {
            self.clear_selection();
        }
    }

    /// Update the rectangle spanned by two corner cells with `flags`.
    pub fn select_range_2d(&mut self, r1: usize, c1: usize, r2: usize, c2: usize, flags: SelectionFlags)
        ensures
            final(self).selected() == Self::updated_cells(
                old(self).selected(),
                span_cells(r1 as int, c1 as int, r2 as int, c2 as int),
                flags,
            ),
            final(self).same_settings(old(self)),
    {
        let top = if r1 <= r2 {
            r1
        } else {
            r2
        };
        let bottom = if r1 <= r2 {
            r2
        } else {
            r1
        };
        let left = if c1 <= c2 {
            c1
        } else {
            c2
        };
        let right = if c1 <= c2 {
            c2
        } else {
            c1
        };
        self.update_rect(top, left, bottom, right, flags);
    }

    /// Update every cell of the rows from `r1` to `r2` (either order) with `flags`.
    pub fn select_range(&mut self, r1: usize, r2: usize, flags: SelectionFlags)
        ensures
            final(self).selected() == Self::updated_cells(
                old(self).selected(),
                span_cells(r1 as int, 0, r2 as int, usize::MAX as int),
                flags,
            ),
            final(self).same_settings(old(self)),
    {
        self.select_range_2d(r1, 0, r2, usize::MAX, flags);
    }

    /// Update the `column_count` cells of row `row` with `flags` (only clearing, if asked, when
    /// there are no columns).
    pub fn select_row(&mut self, row: usize, column_count: usize, flags: SelectionFlags)
        ensures
            final(self).selected() == Self::updated_cells(
                old(self).selected(),
                rect_cells(row as int, 0, row as int, column_count - 1),
                flags,
            ),
            final(self).same_settings(old(self)),
    {
        if column_count > 0 {
            self.update_rect(row, 0, row, column_count - 1, flags);
        } else {
            if flags.clear {
                self.clear_selection();
            }
            proof {
                let cells = rect_cells(row as int, 0, row as int, column_count - 1);
                assert(cells =~= Set::<(int, int)>::empty());
                let base = if flags.clear {
                    Set::<(int, int)>::empty()
                } else {
                    old(self).selected()
                };
                assert(base.union(cells) =~= base);
                assert(base.difference(cells).union(cells.difference(base)) =~= base);
            }
        }
    }

    /// Update the `row_count` cells of column `column` with `flags` (only clearing, if asked,
    /// when there are no rows).
    pub fn select_column(&mut self, column: usize, row_count: usize, flags: SelectionFlags)
        ensures
            final(self).selected() == Self::updated_cells(
                old(self).selected(),
                rect_cells(0, column as int, row_count - 1, column as int),
                flags,
            ),
            final(self).same_settings(old(self)),
    {
        if row_count > 0 {
            self.update_rect(0, column, row_count - 1, column, flags);
        } else {
            if flags.clear {
                self.clear_selection();
            }
            proof {
                let cells = rect_cells(0, column as int, row_count - 1, column as int);
                assert(cells =~= Set::<(int, int)>::empty());
                let base = if flags.clear {
                    Set::<(int, int)>::empty()
                } else {
                    old(self).selected()
                };
                assert(base.union(cells) =~= base);
                assert(base.difference(cells).union(cells.difference(base)) =~= base);
            }
        }
    }
}


/// Toggling the same cells twice gives back the selection.
pub proof fn law_toggle_twice(before: Set<(int, int)>, cells: Set<(int, int)>)
    ensures
        ({
            let toggle = SelectionFlags { clear: false, select: false, toggle: true, current: false, anchor: false };
            SelectionModel::updated_cells(SelectionModel::updated_cells(before, cells, toggle), cells, toggle)
                == before
        }),
{
    let toggle = SelectionFlags { clear: false, select: false, toggle: true, current: false, anchor: false };
    let once = SelectionModel::updated_cells(before, cells, toggle);
    assert(SelectionModel::updated_cells(once, cells, toggle) =~= before);
}

/// Selecting cells selects them and keeps what was selected, unless clearing first.
pub proof fn law_select_adds(before: Set<(int, int)>, cells: Set<(int, int)>, clear: bool)
    ensures
        ({
            let flags = SelectionFlags { clear: clear, select: true, toggle: false, current: false, anchor: false };
            let after = SelectionModel::updated_cells(before, cells, flags);
            &&& cells.subset_of(after)
            &&& !clear ==> before.subset_of(after)
            &&& clear ==> after == cells
        }),
{
    let flags = SelectionFlags { clear: clear, select: true, toggle: false, current: false, anchor: false };
    if clear {
        assert(SelectionModel::updated_cells(before, cells, flags) =~= cells);
    }
}

} // verus!
