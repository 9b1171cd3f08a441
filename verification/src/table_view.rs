//! The table view's model: grid and drag-and-drop settings, frozen sections, scrolling, and
//! the decisions of its mouse and keyboard handling over the selection of cells.

use vstd::prelude::*;

use crate::char_format::Color;
use crate::utf8_text::lines_joined;

use crate::selection::{
    ModelIndex, SelectionBehavior, SelectionFlags, SelectionMode, SelectionModel, rect_cells,
    span_cells,
};

verus! {

/// Grid line style for TableView.
#[derive(Debug, Clone, Copy, PartialEq, Eq, Structural)]
pub enum GridStyle {
    /// Show both horizontal and vertical grid lines.
    Both,
    /// Show only horizontal grid lines.
    Horizontal,
    /// Show only vertical grid lines.
    Vertical,
    /// No grid lines.
    NoLines,
}

impl Default for GridStyle {
    fn default() -> (r: Self)
        ensures
            r == GridStyle::Both,
    {
        GridStyle::Both
    }
}

/// Drag and drop mode for TableView.
#[derive(Debug, Clone, Copy, PartialEq, Eq, Structural)]
pub enum TableDragDropMode {
    /// No drag or drop support (default).
    NoDragDrop,
    /// View can only drag items.
    DragOnly,
    /// View can only accept drops.
    DropOnly,
    /// Full drag and drop support.
    DragDrop,
    /// Internal move only (reorder items within the same view).
    InternalMove,
}

impl Default for TableDragDropMode {
    fn default() -> (r: Self)
        ensures
            r == TableDragDropMode::NoDragDrop,
    {
        TableDragDropMode::NoDragDrop
    }
}

/// Whether a mode lets items be dragged out of the view.
pub open spec fn mode_drags(m: TableDragDropMode) -> bool {
    m == TableDragDropMode::DragOnly || m == TableDragDropMode::DragDrop || m
        == TableDragDropMode::InternalMove
}

/// Whether a mode lets items be dropped onto the view.
pub open spec fn mode_drops(m: TableDragDropMode) -> bool {
    m == TableDragDropMode::DropOnly || m == TableDragDropMode::DragDrop || m
        == TableDragDropMode::InternalMove
}

/// Location where a context menu was requested in a TableView.
#[derive(Debug, Clone, Copy, PartialEq, Eq, Structural)]
pub enum TableContextMenuLocation {
    /// Context menu requested on a cell (an invalid index for empty space in the cell area).
    Cell(ModelIndex),
    /// Context menu requested on a column header (the logical column).
    ColumnHeader(usize),
    /// Context menu requested on a row header (the row).
    RowHeader(usize),
    /// Context menu requested on the corner between row and column headers.
    Corner,
    /// Context menu requested on empty space (outside data area).
    Empty,
}

/// The order a column is sorted in.
#[derive(Debug, Clone, Copy, PartialEq, Eq, Structural)]
pub enum SortOrder {
    Ascending,
    Descending,
}

/// Keys the table handles.
#[derive(Debug, Clone, Copy, PartialEq, Eq, Structural)]
pub enum TableKey {
    ArrowUp,
    ArrowDown,
    ArrowLeft,
    ArrowRight,
    PageUp,
    PageDown,
    Home,
    End,
    Enter,
    /// The letter A (select all with Control).
    A,
    Other,
}

/// A notification the table owes its listeners.
#[derive(Debug, Clone, Copy, PartialEq, Eq, Structural)]
pub enum TableEvent {
    /// A cell was clicked.
    Clicked(ModelIndex),
    /// A cell was double-clicked.
    DoubleClicked(ModelIndex),
    /// A cell was activated (Enter or double-click).
    Activated(ModelIndex),
    /// A column header was clicked.
    HeaderClicked(usize),
    /// A context menu was asked for at this location.
    ContextMenuRequested(TableContextMenuLocation),
}

/// Where dropped data goes relative to the item under the pointer.
#[derive(Debug, Clone, Copy, PartialEq, Eq, Structural)]
pub enum DropPosition {
    OnItem,
    AboveItem,
    BelowItem,
}


/// The text a drag of cells carries: the display texts of the dragged cells that have one,
/// one per line; nothing when none has.
pub fn drag_text(texts: &Vec<String>) -> (r: Option<String>)
    ensures
        match r {
            Some(t) => texts@.len() > 0 && t@ == lines_joined(texts@.map_values(|s: String| s@)),
            None => texts@.len() == 0,
        },
{
    if texts.len() == 0 {
        return None;
    }
    let ghost views = texts@.map_values(|s: String| s@);
    let mut out = texts[0].clone();
    let mut i: usize = 1;
    proof {
        assert(views.take(1) =~= seq![views[0]]);
    }
    while i < texts.len()
        invariant
            1 <= i <= texts@.len(),
            views == texts@.map_values(|s: String| s@),
            out@ == lines_joined(views.take(i as int)),
        decreases texts@.len() - i,
    {
        out.append("\n");
        out.append(texts[i].as_str());
        proof {
            reveal_strlit("\n");
            let next = views.take(i + 1);
            assert(next.drop_last() =~= views.take(i as int));
            assert(next.last() == texts@[i as int]@);
        }
        i = i + 1;
    }
    proof {
        assert(views.take(texts@.len() as int) =~= views);
    }
    Some(out)
}

/// The table as a value.
#[verifier::ext_equal]
pub struct TableViewState {
    pub has_model: bool,
    pub rows: int,
    pub cols: int,
    pub mode: SelectionMode,
    pub behavior: SelectionBehavior,
    pub selected: Set<(int, int)>,
    pub current: ModelIndex,
    pub anchor: ModelIndex,
    pub show_horizontal_header: bool,
    pub show_vertical_header: bool,
    pub frozen_rows: int,
    pub frozen_cols: int,
    pub show_grid: bool,
    pub grid_style: GridStyle,
    pub sorting: bool,
    pub sort: Option<(int, SortOrder)>,
    pub alternate_rows: bool,
    pub drag_drop: TableDragDropMode,
    pub scroll_x: int,
    pub scroll_y: int,
    pub pressed: Option<(int, int)>,
    pub hovered: Option<(int, int)>,
    pub last_click: Option<(int, int)>,
    pub events: Seq<TableEvent>,
    pub grid_color: Color,
    /// The columns that are hidden.
    pub hidden_columns: Set<int>,
}

/// The state after updating cell `index` with `flags`, as the selection does it.
pub open spec fn with_current_set(v: TableViewState, index: ModelIndex, flags: SelectionFlags) -> TableViewState {
    TableViewState {
        selected: if index.spec_valid() {
            SelectionModel::updated_cells(v.selected, set![(index.spec_row(), index.spec_column())], flags)
        } else if flags.clear {
            Set::empty()
        } else {
            v.selected
        },
        current: if flags.current {
            index
        } else {
            v.current
        },
        anchor: if flags.anchor {
            index
        } else {
            v.anchor
        },
        ..v
    }
}

/// The cells a range selection from the anchor to (`row`, `col`) covers: the rectangle for
/// items, whole rows for rows, and whole columns (of the rows there are) for columns.
pub open spec fn range_cells(behavior: SelectionBehavior, anchor: ModelIndex, row: int, col: int, rows: int) -> Set<(int, int)> {
    match behavior {
        SelectionBehavior::SelectItems => span_cells(anchor.spec_row(), anchor.spec_column(), row, col),
        SelectionBehavior::SelectRows => span_cells(anchor.spec_row(), 0, row, usize::MAX as int),
        SelectionBehavior::SelectColumns => rect_cells(
            0,
            if anchor.spec_column() <= col {
                anchor.spec_column()
            } else {
                col
            },
            rows - 1,
            if anchor.spec_column() <= col {
                col
            } else {
                anchor.spec_column()
            },
        ),
    }
}

/// Flags to clear the selection, select the cell, and make it current and the anchor.
pub open spec fn csc_anchor() -> SelectionFlags {
    SelectionFlags { clear: true, select: true, toggle: false, current: true, anchor: true }
}

/// Flags to make a cell current only.
pub open spec fn current_only() -> SelectionFlags {
    SelectionFlags { clear: false, select: false, toggle: false, current: true, anchor: false }
}

/// The state after the keyboard moves the current cell to (`row`, `col`): with Shift the
/// range from the anchor is selected (when there is an anchor) and the cell becomes current;
/// with Control it only becomes current; else it alone is selected, current and the anchor.
pub open spec fn with_moved(v: TableViewState, row: int, col: int, shift: bool, ctrl: bool) -> TableViewState {
    let index = ModelIndex::spec_new(row, col);
    if shift {
        let v2 = if v.anchor.spec_valid() {
            TableViewState {
                selected: range_cells(v.behavior, v.anchor, row, col, v.rows),
                ..v
            }
        } else {
            v
        };
        with_current_set(v2, index, current_only())
    } else if ctrl {
        with_current_set(v, index, current_only())
    } else {
        with_current_set(v, index, csc_anchor())
    }
}

/// The state after a press on cell (`row`, `col`), per the selection mode and behavior.
pub open spec fn with_cell_pressed(v: TableViewState, row: int, col: int, ctrl: bool, shift: bool) -> TableViewState {
    let v = TableViewState { pressed: Some((row, col)), ..v };
    let index = ModelIndex::spec_new(row, col);
    let toggle_current = SelectionFlags { clear: false, select: false, toggle: true, current: true, anchor: false };
    let none = SelectionFlags { clear: false, select: false, toggle: false, current: false, anchor: false };
    if v.mode == SelectionMode::ExtendedSelection && !ctrl && shift && v.anchor.spec_valid() {
        with_current_set(
            TableViewState { selected: range_cells(v.behavior, v.anchor, row, col, v.rows), ..v },
            index,
            current_only(),
        )
    } else {
        let flags = match v.mode {
            SelectionMode::NoSelection => none,
            SelectionMode::SingleSelection => csc_anchor(),
            _ => if ctrl {
                toggle_current
            } else {
                csc_anchor()
            },
        };
        match v.behavior {
            SelectionBehavior::SelectItems => with_current_set(v, index, flags),
            SelectionBehavior::SelectRows => with_current_set(
                TableViewState {
                    selected: (if flags.clear {
                        Set::empty()
                    } else {
                        v.selected
                    }).union(rect_cells(row, 0, row, v.cols - 1)),
                    ..v
                },
                ModelIndex::spec_new(row, 0),
                SelectionFlags { current: true, anchor: true, ..none },
            ),
            SelectionBehavior::SelectColumns => with_current_set(
                TableViewState {
                    selected: (if flags.clear {
                        Set::empty()
                    } else {
                        v.selected
                    }).union(rect_cells(0, col, v.rows - 1, col)),
                    ..v
                },
                ModelIndex::spec_new(0, col),
                SelectionFlags { current: true, anchor: true, ..none },
            ),
        }
    }
}

/// The cell a key moves to from (`r`, `c`) in a table of `rows` by `cols` cells (`page` rows
/// to a page, at least one), or `None` for a key that moves nothing.
pub open spec fn key_target(key: TableKey, ctrl: bool, r: int, c: int, rows: int, cols: int, page: int) -> Option<(int, int)> {
    let step = if page > 1 {
        page
    } else {
        1
    };
    match key {
        TableKey::ArrowUp => Some((if r > 0 {
            r - 1
        } else {
            0
        }, c)),
        TableKey::ArrowDown => Some((if r + 1 < rows - 1 {
            r + 1
        } else {
            rows - 1
        }, c)),
        TableKey::ArrowLeft => Some((r, if c > 0 {
            c - 1
        } else {
            0
        })),
        TableKey::ArrowRight => Some((r, if c + 1 < cols - 1 {
            c + 1
        } else {
            cols - 1
        })),
        TableKey::PageUp => Some((if r > step {
            r - step
        } else {
            0
        }, c)),
        TableKey::PageDown => Some((if r + step < rows - 1 {
            r + step
        } else {
            rows - 1
        }, c)),
        TableKey::Home => if ctrl {
            Some((0, 0))
        } else {
            Some((r, 0))
        },
        TableKey::End => if ctrl {
            Some((rows - 1, cols - 1))
        } else {
            Some((r, cols - 1))
        },
        _ => None,
    }
}

/// The state and whether the key was consumed after a key press.
pub open spec fn after_key(v: TableViewState, key: TableKey, ctrl: bool, shift: bool, page: int) -> (TableViewState, bool) {
    let r = v.current.spec_row();
    let c = v.current.spec_column();
    if !v.current.spec_valid() || v.rows == 0 || v.cols == 0 {
        (v, false)
    } else {
        match key_target(key, ctrl, r, c, v.rows, v.cols, page) {
            Some(t) => (with_moved(v, t.0, t.1, shift, ctrl), true),
            None => if key == TableKey::Enter {
                (
                    TableViewState {
                        events: v.events.push(TableEvent::Activated(ModelIndex::spec_new(r, c))),
                        ..v
                    },
                    true,
                )
            } else if key == TableKey::A && ctrl {
                (with_all_selected(v), true)
            } else {
                (v, false)
            },
        }
    }
}

/// The state after a press on the header of column `col`: the click is notified and, with
/// sorting enabled, the column is sorted ascending, or the other way round when it already
/// is sorted ascending.
pub open spec fn with_header_pressed(v: TableViewState, col: int) -> TableViewState {
    TableViewState {
        events: v.events.push(TableEvent::HeaderClicked(col as usize)),
        sort: if v.sorting {
            Some(
                (
                    col,
                    if v.sort == Some((col, SortOrder::Ascending)) {
                        SortOrder::Descending
                    } else {
                        SortOrder::Ascending
                    },
                ),
            )
        } else {
            v.sort
        },
        ..v
    }
}

/// A press on a column header, with sorting enabled, notifies the click once and sorts by
/// that column: ascending when it was not the sorted column, else in the other order; the
/// selection and the current cell are left alone.
pub proof fn law_header_press_sorts(v: TableViewState, col: int)
    requires
        v.sorting,
        0 <= col <= usize::MAX,
    ensures
        with_header_pressed(v, col).events == v.events.push(TableEvent::HeaderClicked(col as usize)),
        with_header_pressed(v, col).sort == Some(
            (
                col,
                match v.sort {
                    Some((c, o)) => if c == col {
                        match o {
                            SortOrder::Ascending => SortOrder::Descending,
                            SortOrder::Descending => SortOrder::Ascending,
                        }
                    } else {
                        SortOrder::Ascending
                    },
                    None => SortOrder::Ascending,
                },
            ),
        ),
        with_header_pressed(v, col).selected == v.selected,
        with_header_pressed(v, col).current == v.current,
        with_header_pressed(v, col).anchor == v.anchor,
{
}

/// Plain arrow keys, Home and End move the current cell one step, clamped to the table, or
/// to the row's ends, and are consumed, when there is a current cell in a non-empty table;
/// otherwise no key is consumed and nothing changes.
pub proof fn law_plain_keys_move_current(v: TableViewState, key: TableKey, page: int)
    requires
        v.rows >= 0,
        v.cols >= 0,
        key == TableKey::ArrowUp || key == TableKey::ArrowDown || key == TableKey::ArrowLeft
            || key == TableKey::ArrowRight || key == TableKey::Home || key == TableKey::End,
    ensures
        ({
            let w = after_key(v, key, false, false, page).0;
            let consumed = after_key(v, key, false, false, page).1;
            let r = v.current.spec_row();
            let c = v.current.spec_column();
            if v.current.spec_valid() && v.rows > 0 && v.cols > 0 {
                &&& consumed
                &&& w.current == ModelIndex::spec_new(
                    match key {
                        TableKey::ArrowUp => if r > 0 { r - 1 } else { 0 },
                        TableKey::ArrowDown => if r + 1 < v.rows - 1 { r + 1 } else { v.rows - 1 },
                        _ => r as int,
                    },
                    match key {
                        TableKey::ArrowLeft => if c > 0 { c - 1 } else { 0 },
                        TableKey::ArrowRight => if c + 1 < v.cols - 1 { c + 1 } else { v.cols - 1 },
                        TableKey::Home => 0,
                        TableKey::End => v.cols - 1,
                        _ => c as int,
                    },
                )
            } else {
                &&& !consumed
                &&& w == v
            }
        }),
{
    let r = v.current.spec_row();
    let c = v.current.spec_column();
    if v.current.spec_valid() && v.rows > 0 && v.cols > 0 {
        let t = key_target(key, false, r, c, v.rows, v.cols, page);
        assert(t is Some);
        let (tr, tc) = t->0;
        let w = with_moved(v, tr, tc, false, false);
        assert(w == with_current_set(v, ModelIndex::spec_new(tr, tc), csc_anchor()));
        assert(w.current == ModelIndex::spec_new(tr, tc));
    }
}

/// Page Up and Page Down move the current cell a page of rows (at least one) up or down in
/// its column, stopping at the first or the last row, whatever modifiers are held; the key
/// is consumed. Nothing moves, and the key is not consumed, without a current cell or cells.
pub proof fn law_page_keys_move_current(v: TableViewState, key: TableKey, ctrl: bool, shift: bool, page: int)
    requires
        v.rows >= 0,
        v.cols >= 0,
        key == TableKey::PageUp || key == TableKey::PageDown,
    ensures
        ({
            let w = after_key(v, key, ctrl, shift, page).0;
            let consumed = after_key(v, key, ctrl, shift, page).1;
            let r = v.current.spec_row();
            let c = v.current.spec_column();
            let rows_per_page: int = if page < 1 { 1 } else { page };
            if v.current.spec_valid() && v.rows > 0 && v.cols > 0 {
                &&& consumed
                &&& w.current == ModelIndex::spec_new(
                    if key == TableKey::PageUp {
                        if r - rows_per_page < 0 { 0 } else { r - rows_per_page }
                    } else {
                        if r + rows_per_page > v.rows - 1 { v.rows - 1 } else { r + rows_per_page }
                    },
                    c,
                )
            } else {
                &&& !consumed
                &&& w == v
            }
        }),
{
    let r = v.current.spec_row();
    let c = v.current.spec_column();
    if v.current.spec_valid() && v.rows > 0 && v.cols > 0 {
        let t = key_target(key, ctrl, r, c, v.rows, v.cols, page);
        assert(t is Some);
        let (tr, tc) = t->0;
        let w = with_moved(v, tr, tc, shift, ctrl);
        assert(w.current == ModelIndex::spec_new(tr, tc));
    }
}

/// Control+Home moves the current cell to the first cell of the table and Control+End to
/// the last, Shift held or not; the key is consumed when there is a current cell and cells.
pub proof fn law_ctrl_home_end_move_to_corner(v: TableViewState, key: TableKey, shift: bool, page: int)
    requires
        v.current.spec_valid(),
        v.rows > 0,
        v.cols > 0,
        key == TableKey::Home || key == TableKey::End,
    ensures
        after_key(v, key, true, shift, page).1,
        after_key(v, key, true, shift, page).0.current == (if key == TableKey::Home {
            ModelIndex::spec_new(0, 0)
        } else {
            ModelIndex::spec_new(v.rows - 1, v.cols - 1)
        }),
{
    let t = key_target(key, true, v.current.spec_row(), v.current.spec_column(), v.rows, v.cols, page);
    let (tr, tc) = t->0;
    assert(with_moved(v, tr, tc, shift, true).current == ModelIndex::spec_new(tr, tc));
}

/// The state with every cell of the model selected (nothing without a model).
pub open spec fn with_all_selected(v: TableViewState) -> TableViewState {
    if v.has_model {
        TableViewState { selected: v.selected.union(rect_cells(0, 0, v.rows - 1, v.cols - 1)), ..v }
    } else {
        v
    }
}

/// Where a context menu request lands: the corner when both headers show and the point is
/// over both; a column header (or empty space) over the column header band; a row header (or
/// empty space) over the row header band; else a cell (an invalid index over empty space).
pub open spec fn context_location(
    show_h: bool,
    show_v: bool,
    in_row_header_band: bool,
    in_header_band: bool,
    header_column: Option<usize>,
    header_row: Option<usize>,
    cell: Option<ModelIndex>,
) -> TableContextMenuLocation {
    if show_h && show_v && in_row_header_band && in_header_band {
        TableContextMenuLocation::Corner
    } else if show_h && in_header_band {
        match header_column {
            Some(c) => TableContextMenuLocation::ColumnHeader(c),
            None => TableContextMenuLocation::Empty,
        }
    } else if show_v && in_row_header_band {
        match header_row {
            Some(r) => TableContextMenuLocation::RowHeader(r),
            None => TableContextMenuLocation::Empty,
        }
    } else {
        match cell {
            Some(i) => TableContextMenuLocation::Cell(i),
            None => TableContextMenuLocation::Cell(ModelIndex::spec_invalid()),
        }
    }
}

/// The scroll offset that brings an item spanning `[start, end)` into a viewport at `offset`
/// of length `len`: to its start when it begins above, so that its end shows when it ends
/// below, else unchanged.
pub open spec fn offset_to_show(start: int, end: int, offset: int, len: int) -> int {
    if start < offset {
        start
    } else if end > offset + len {
        end - len
    } else {
        offset
    }
}

/// The scroll offset that brings an item into view (see `offset_to_show`).
pub fn scroll_offset_to_show(start: i32, end: i32, offset: i32, len: i32) -> (r: i32)
    requires
        0 <= len,
        offset + len <= i32::MAX,
        end - len >= i32::MIN,
    ensures
        r == offset_to_show(start as int, end as int, offset as int, len as int),
{
    if start < offset {
        start
    } else if end > offset + len {
        end - len
    } else {
        offset
    }
}

/// `x` brought into `[0, max]` (`0` when `max` is negative).
pub open spec fn clamp_scroll(x: int, max: int) -> int {
    if x > max {
        if max < 0 {
            0
        } else {
            max
        }
    } else if x < 0 {
        0
    } else {
        x
    }
}

/// A table view of a two-dimensional model.
pub struct TableView {
    has_model: bool,
    rows: usize,
    cols: usize,
    selection: SelectionModel,
    show_horizontal_header: bool,
    show_vertical_header: bool,
    frozen_row_count: usize,
    frozen_column_count: usize,
    show_grid: bool,
    grid_style: GridStyle,
    sorting_enabled: bool,
    sort: Option<(usize, SortOrder)>,
    alternate_row_colors: bool,
    drag_drop_mode: TableDragDropMode,
    scroll_x: i32,
    scroll_y: i32,
    pressed_cell: Option<(usize, usize)>,
    hovered_cell: Option<(usize, usize)>,
    last_click_cell: Option<(usize, usize)>,
    events: Vec<TableEvent>,
    grid_color: Color,
    hidden_columns: Vec<usize>,
}

pub open spec fn opt_cell(c: Option<(usize, usize)>) -> Option<(int, int)> {
    match c {
        Some(p) => Some((p.0 as int, p.1 as int)),
        None => None,
    }
}

pub open spec fn opt_sort(s: Option<(usize, SortOrder)>) -> Option<(int, SortOrder)> {
    match s {
        Some(p) => Some((p.0 as int, p.1)),
        None => None,
    }
}

impl View for TableView {
    type V = TableViewState;

    closed spec fn view(&self) -> TableViewState {
        TableViewState {
            has_model: self.has_model,
            rows: self.rows as int,
            cols: self.cols as int,
            mode: self.selection.spec_mode(),
            behavior: self.selection.spec_behavior(),
            selected: self.selection.selected(),
            current: self.selection.spec_current(),
            anchor: self.selection.spec_anchor(),
            show_horizontal_header: self.show_horizontal_header,
            show_vertical_header: self.show_vertical_header,
            frozen_rows: self.frozen_row_count as int,
            frozen_cols: self.frozen_column_count as int,
            show_grid: self.show_grid,
            grid_style: self.grid_style,
            sorting: self.sorting_enabled,
            sort: opt_sort(self.sort),
            alternate_rows: self.alternate_row_colors,
            drag_drop: self.drag_drop_mode,
            scroll_x: self.scroll_x as int,
            scroll_y: self.scroll_y as int,
            pressed: opt_cell(self.pressed_cell),
            hovered: opt_cell(self.hovered_cell),
            last_click: opt_cell(self.last_click_cell),
            events: self.events@,
            grid_color: self.grid_color,
            hidden_columns: Set::new(|c: int| 0 <= c <= usize::MAX && self.hidden_columns@.contains(c as usize)),
        }
    }
}

impl TableView {
    /// An empty table: no model, rows selected by an extended selection, the column header
    /// shown and the row header hidden, grid of both lines, no frozen sections, no sorting,
    /// alternating row colors, no drag and drop, not scrolled.
    pub fn new() -> (r: Self)
        ensures
            r@ == (TableViewState {
                has_model: false,
                rows: 0,
                cols: 0,
                mode: SelectionMode::ExtendedSelection,
                behavior: SelectionBehavior::SelectRows,
                selected: Set::empty(),
                current: ModelIndex::spec_invalid(),
                anchor: ModelIndex::spec_invalid(),
                show_horizontal_header: true,
                show_vertical_header: false,
                frozen_rows: 0,
                frozen_cols: 0,
                show_grid: true,
                grid_style: GridStyle::Both,
                sorting: false,
                sort: None,
                alternate_rows: true,
                drag_drop: TableDragDropMode::NoDragDrop,
                scroll_x: 0,
                scroll_y: 0,
                pressed: None,
                hovered: None,
                last_click: None,
                events: Seq::empty(),
                grid_color: Color { r: 220, g: 220, b: 220, a: 255 },
                hidden_columns: Set::empty(),
            }),
    {
        let mut selection = SelectionModel::new();
        selection.set_selection_behavior(SelectionBehavior::SelectRows);
        let r = TableView {
            has_model: false,
            rows: 0,
            cols: 0,
            selection,
            show_horizontal_header: true,
            show_vertical_header: false,
            frozen_row_count: 0,
            frozen_column_count: 0,
            show_grid: true,
            grid_style: GridStyle::Both,
            sorting_enabled: false,
            sort: None,
            alternate_row_colors: true,
            drag_drop_mode: TableDragDropMode::NoDragDrop,
            scroll_x: 0,
            scroll_y: 0,
            pressed_cell: None,
            hovered_cell: None,
            last_click_cell: None,
            events: Vec::new(),
            grid_color: Color::from_rgb8(220, 220, 220),
            hidden_columns: Vec::new(),
        };
        let ghost current = ModelIndex::spec_invalid();
        assert(r@ =~= (TableViewState {
            has_model: false,
            rows: 0,
            cols: 0,
            mode: SelectionMode::ExtendedSelection,
            behavior: SelectionBehavior::SelectRows,
            selected: Set::empty(),
            current: r.selection.spec_current(),
            anchor: r.selection.spec_anchor(),
            show_horizontal_header: true,
            show_vertical_header: false,
            frozen_rows: 0,
            frozen_cols: 0,
            show_grid: true,
            grid_style: GridStyle::Both,
            sorting: false,
            sort: None,
            alternate_rows: true,
            drag_drop: TableDragDropMode::NoDragDrop,
            scroll_x: 0,
            scroll_y: 0,
            pressed: None,
            hovered: None,
            last_click: None,
            events: Seq::empty(),
            grid_color: Color { r: 220, g: 220, b: 220, a: 255 },
            hidden_columns: Set::empty(),
        }));
        r
    }

    /// Take the notifications owed, in the order they arose.
    pub fn take_events(&mut self) -> (r: Vec<TableEvent>)
        ensures
            r@ == old(self)@.events,
            final(self)@ == (TableViewState { events: Seq::empty(), ..old(self)@ }),
    {
        let mut out: Vec<TableEvent> = Vec::new();
        std::mem::swap(&mut out, &mut self.events);
        assert(self@ =~= (TableViewState { events: Seq::empty(), ..old(self)@ }));
        out
    }

    /// Show a model of `rows` by `cols` cells; the selection is reset.
    pub fn set_model(&mut self, rows: usize, cols: usize)
        ensures
            final(self)@ == (TableViewState {
                has_model: true,
                rows: rows as int,
                cols: cols as int,
                selected: Set::empty(),
                current: ModelIndex::spec_invalid(),
                anchor: ModelIndex::spec_invalid(),
                ..old(self)@
            }),
    {
        self.has_model = true;
        self.rows = rows;
        self.cols = cols;
        self.selection.reset();
        assert(self@ =~= (TableViewState {
            has_model: true,
            rows: rows as int,
            cols: cols as int,
            selected: Set::empty(),
            current: ModelIndex::spec_invalid(),
            anchor: ModelIndex::spec_invalid(),
            ..old(self)@
        }));
    }

    /// This table showing a model of `rows` by `cols` cells (see `set_model`).
    pub fn with_model(self, rows: usize, cols: usize) -> (r: Self)
        ensures
            r@ == (TableViewState {
                has_model: true,
                rows: rows as int,
                cols: cols as int,
                selected: Set::empty(),
                current: ModelIndex::spec_invalid(),
                anchor: ModelIndex::spec_invalid(),
                ..self@
            }),
    {
        let mut r = self;
        r.set_model(rows, cols);
        r
    }

    /// Show no model; the selection is reset.
    pub fn clear_model(&mut self)
        ensures
            final(self)@ == (TableViewState {
                has_model: false,
                rows: 0,
                cols: 0,
                selected: Set::empty(),
                current: ModelIndex::spec_invalid(),
                anchor: ModelIndex::spec_invalid(),
                ..old(self)@
            }),
    {
        self.has_model = false;
        self.rows = 0;
        self.cols = 0;
        self.selection.reset();
        assert(self@ =~= (TableViewState {
            has_model: false,
            rows: 0,
            cols: 0,
            selected: Set::empty(),
            current: ModelIndex::spec_invalid(),
            anchor: ModelIndex::spec_invalid(),
            ..old(self)@
        }));
    }

    /// Whether a model is shown.
    pub fn has_model(&self) -> (r: bool)
        ensures
            r == self@.has_model,
    {
        self.has_model
    }

    /// The number of rows (0 without a model).
    pub fn row_count(&self) -> (r: usize)
        ensures
            r == self@.rows,
    {
        self.rows
    }

    /// The number of columns (0 without a model).
    pub fn column_count(&self) -> (r: usize)
        ensures
            r == self@.cols,
    {
        self.cols
    }

    /// The selection.
    pub fn selection_model(&self) -> (r: &SelectionModel)
        ensures
            r.selected() == self@.selected,
            r.spec_mode() == self@.mode,
            r.spec_behavior() == self@.behavior,
            r.spec_current() == self@.current,
            r.spec_anchor() == self@.anchor,
    {
        &self.selection
    }

    /// This table with the given selection mode.
    pub fn with_selection_mode(self, mode: SelectionMode) -> (r: Self)
        ensures
            r@ == (TableViewState { mode: mode, ..self@ }),
    {
        let mut s = self;
        s.selection.set_selection_mode(mode);
        assert(s@ =~= (TableViewState { mode: mode, ..self@ }));
        s
    }

    /// This table with the given selection behavior.
    pub fn with_selection_behavior(self, behavior: SelectionBehavior) -> (r: Self)
        ensures
            r@ == (TableViewState { behavior: behavior, ..self@ }),
    {
        let mut s = self;
        s.selection.set_selection_behavior(behavior);
        assert(s@ =~= (TableViewState { behavior: behavior, ..self@ }));
        s
    }

    /// The current cell.
    pub fn current_index(&self) -> (r: ModelIndex)
        ensures
            r == self@.current,
    {
        self.selection.current_index()
    }

    /// Make `index` the current cell, alone selected.
    pub fn set_current_index(&mut self, index: ModelIndex)
        ensures
            final(self)@ == with_current_set(
                old(self)@,
                index,
                SelectionFlags { clear: true, select: true, toggle: false, current: true, anchor: false },
            ),
    {
        self.selection.set_current_index(index, SelectionFlags::clear_select_current());
        assert(self@ =~= with_current_set(
            old(self)@,
            index,
            SelectionFlags { clear: true, select: true, toggle: false, current: true, anchor: false },
        ));
    }

    /// Deselect every cell.
    pub fn clear_selection(&mut self)
        ensures
            final(self)@ == (TableViewState { selected: Set::empty(), ..old(self)@ }),
    {
        self.selection.clear_selection();
        assert(self@ =~= (TableViewState { selected: Set::empty(), ..old(self)@ }));
    }

    /// Select every cell of the model.
    pub fn select_all(&mut self)
        ensures
            final(self)@ == with_all_selected(old(self)@),
    {
        if self.has_model {
            if self.rows > 0 && self.cols > 0 {
                self.selection.select_range_2d(0, 0, self.rows - 1, self.cols - 1, SelectionFlags::select());
            } else {
                assert(rect_cells(0, 0, self.rows - 1, self.cols - 1) =~= Set::<(int, int)>::empty());
                assert(self@.selected.union(rect_cells(0, 0, self.rows - 1, self.cols - 1)) =~= self@.selected);
            }
        }
        assert(self@ =~= with_all_selected(old(self)@));
    }

    /// Select row `row` alone (with a model).
    pub fn select_row(&mut self, row: usize)
        ensures
            final(self)@ == (if old(self)@.has_model {
                TableViewState { selected: rect_cells(row as int, 0, row as int, old(self)@.cols - 1), ..old(self)@ }
            } else {
                old(self)@
            }),
    {
        if self.has_model {
            self.selection.select_row(row, self.cols, SelectionFlags::clear_and_select());
            assert(Set::<(int, int)>::empty().union(rect_cells(row as int, 0, row as int, self.cols - 1))
                =~= rect_cells(row as int, 0, row as int, self.cols - 1));
        }
        assert(self@ =~= (if old(self)@.has_model {
            TableViewState { selected: rect_cells(row as int, 0, row as int, old(self)@.cols - 1), ..old(self)@ }
        } else {
            old(self)@
        }));
    }

    /// Select column `column` alone (with a model).
    pub fn select_column(&mut self, column: usize)
        ensures
            final(self)@ == (if old(self)@.has_model {
                TableViewState {
                    selected: rect_cells(0, column as int, old(self)@.rows - 1, column as int),
                    ..old(self)@
                }
            } else {
                old(self)@
            }),
    {
        if self.has_model {
            self.selection.select_column(column, self.rows, SelectionFlags::clear_and_select());
            assert(Set::<(int, int)>::empty().union(rect_cells(0, column as int, self.rows - 1, column as int))
                =~= rect_cells(0, column as int, self.rows - 1, column as int));
        }
        assert(self@ =~= (if old(self)@.has_model {
            TableViewState {
                selected: rect_cells(0, column as int, old(self)@.rows - 1, column as int),
                ..old(self)@
            }
        } else {
            old(self)@
        }));
    }

    /// Show or hide the column header.
    pub fn set_horizontal_header_visible(&mut self, visible: bool)
        ensures
            final(self)@ == (TableViewState { show_horizontal_header: visible, ..old(self)@ }),
    {
        self.show_horizontal_header = visible;
        assert(self@ =~= (TableViewState { show_horizontal_header: visible, ..old(self)@ }));
    }

    /// Show or hide the row header.
    pub fn set_vertical_header_visible(&mut self, visible: bool)
        ensures
            final(self)@ == (TableViewState { show_vertical_header: visible, ..old(self)@ }),
    {
        self.show_vertical_header = visible;
        assert(self@ =~= (TableViewState { show_vertical_header: visible, ..old(self)@ }));
    }

    /// The number of frozen rows.
    pub fn frozen_row_count(&self) -> (r: usize)
        ensures
            r == self@.frozen_rows,
    {
        self.frozen_row_count
    }

    /// Set the number of frozen rows.
    pub fn set_frozen_row_count(&mut self, count: usize)
        ensures
            final(self)@ == (TableViewState { frozen_rows: count as int, ..old(self)@ }),
    {
        self.frozen_row_count = count;
        assert(self@ =~= (TableViewState { frozen_rows: count as int, ..old(self)@ }));
    }

    /// The number of frozen columns.
    pub fn frozen_column_count(&self) -> (r: usize)
        ensures
            r == self@.frozen_cols,
    {
        self.frozen_column_count
    }

    /// Set the number of frozen columns.
    pub fn set_frozen_column_count(&mut self, count: usize)
        ensures
            final(self)@ == (TableViewState { frozen_cols: count as int, ..old(self)@ }),
    {
        self.frozen_column_count = count;
        assert(self@ =~= (TableViewState { frozen_cols: count as int, ..old(self)@ }));
    }

    /// Whether grid lines are drawn.
    pub fn show_grid(&self) -> (r: bool)
        ensures
            r == self@.show_grid,
    {
        self.show_grid
    }

    /// Draw or hide the grid lines.
    pub fn set_show_grid(&mut self, show: bool)
        ensures
            final(self)@ == (TableViewState { show_grid: show, ..old(self)@ }),
    {
        self.show_grid = show;
        assert(self@ =~= (TableViewState { show_grid: show, ..old(self)@ }));
    }

    /// Which grid lines are drawn.
    pub fn grid_style(&self) -> (r: GridStyle)
        ensures
            r == self@.grid_style,
    {
        self.grid_style
    }

    /// Set which grid lines are drawn.
    pub fn set_grid_style(&mut self, style: GridStyle)
        ensures
            final(self)@ == (TableViewState { grid_style: style, ..old(self)@ }),
    {
        self.grid_style = style;
        assert(self@ =~= (TableViewState { grid_style: style, ..old(self)@ }));
    }

    /// Set the grid line color.
    pub fn set_grid_color(&mut self, color: Color)
        ensures
            final(self)@ == (TableViewState { grid_color: color, ..old(self)@ }),
    {
        self.grid_color = color;
        assert(self@ =~= (TableViewState { grid_color: color, ..old(self)@ }));
    }

    /// Whether column `column` is hidden.
    pub fn is_column_hidden(&self, column: usize) -> (r: bool)
        ensures
            r == self@.hidden_columns.contains(column as int),
    {
        let mut i: usize = 0;
        while i < self.hidden_columns.len()
            invariant
                i <= self.hidden_columns@.len(),
                forall|j: int| 0 <= j < i ==> self.hidden_columns@[j] != column,
            decreases self.hidden_columns@.len() - i,
        {
            if self.hidden_columns[i] == column {
                assert(self.hidden_columns@.contains(column));
                return true;
            }
            i = i + 1;
        }
        false
    }

    /// Hide (`hidden`) or show column `column`.
    pub fn set_column_hidden(&mut self, column: usize, hidden: bool)
        ensures
            final(self)@ == (TableViewState {
                hidden_columns: if hidden {
                    old(self)@.hidden_columns.insert(column as int)
                } else {
                    old(self)@.hidden_columns.remove(column as int)
                },
                ..old(self)@
            }),
    {
        let ghost before = old(self)@.hidden_columns;
        let ghost all = self.hidden_columns@;
        let ghost pred = |c: usize| c != column;
        let mut kept: Vec<usize> = Vec::new();
        let mut i: usize = 0;
        while i < self.hidden_columns.len()
            invariant
                i <= all.len(),
                all == self.hidden_columns@,
                forall|d: usize| #[trigger] pred(d) == (d != column),
                kept@ == all.take(i as int).filter(pred),
            decreases all.len() - i,
        {
            let c = self.hidden_columns[i];
            proof {
                let next = all.take(i + 1);
                assert(next.drop_last() =~= all.take(i as int));
                assert(next.last() == c);
                reveal(Seq::filter);
                assert(next.filter(pred) == (if pred(c) {
                    all.take(i as int).filter(pred).push(c)
                } else {
                    all.take(i as int).filter(pred)
                }));
            }
            if c != column {
                kept.push(c);
            }
            assert(pred(c) == (c != column));
            i = i + 1;
        }
        if hidden {
            kept.push(column);
        }
        proof {
            assert(all.take(all.len() as int) =~= all);
            let f = all.filter(pred);
            assert forall|c: usize| f.contains(c) <==> (all.contains(c) && c != column) by {
                if f.contains(c) {
                    all.lemma_filter_contains_rev(pred, c);
                    let k = choose|k: int| 0 <= k < f.len() && f[k] == c;
                    all.lemma_filter_pred(pred, k);
                }
                if all.contains(c) && c != column {
                    let j = choose|j: int| 0 <= j < all.len() && all[j] == c;
                    all.lemma_filter_contains(pred, j);
                }
            }
        }
        self.hidden_columns = kept;
        let ghost target = if hidden {
            before.insert(column as int)
        } else {
            before.remove(column as int)
        };
        assert forall|c: int| self@.hidden_columns.contains(c) <==> target.contains(c) by {
            if 0 <= c <= usize::MAX {
                let u = c as usize;
                if hidden && u == column {
                    assert(self.hidden_columns@.last() == u);
                }
                if self.hidden_columns@.contains(u) && !(hidden && u == column) {
                    let k = choose|k: int| 0 <= k < self.hidden_columns@.len() && self.hidden_columns@[k] == u;
                    if hidden {
                        assert(k < self.hidden_columns@.len() - 1);
                        assert(all.filter(pred)[k] == u);
                    }
                    assert(all.filter(pred).contains(u));
                }
                if all.filter(pred).contains(u) {
                    let k = choose|k: int| 0 <= k < all.filter(pred).len() && all.filter(pred)[k] == u;
                    assert(self.hidden_columns@[k] == u);
                }
            }
        }
        assert(self@.hidden_columns =~= target);
        assert(self@ =~= (TableViewState { hidden_columns: target, ..old(self)@ }));
    }

    /// Show column `column`.
    pub fn show_column(&mut self, column: usize)
        ensures
            final(self)@ == (TableViewState { hidden_columns: old(self)@.hidden_columns.remove(column as int), ..old(self)@ }),
    {
        self.set_column_hidden(column, false);
    }

    /// Hide column `column`.
    pub fn hide_column(&mut self, column: usize)
        ensures
            final(self)@ == (TableViewState { hidden_columns: old(self)@.hidden_columns.insert(column as int), ..old(self)@ }),
    {
        self.set_column_hidden(column, true);
    }

    /// The drag and drop mode.
    pub fn drag_drop_mode(&self) -> (r: TableDragDropMode)
        ensures
            r == self@.drag_drop,
    {
        self.drag_drop_mode
    }

    /// Set the drag and drop mode.
    pub fn set_drag_drop_mode(&mut self, mode: TableDragDropMode)
        ensures
            final(self)@ == (TableViewState { drag_drop: mode, ..old(self)@ }),
    {
        self.drag_drop_mode = mode;
        assert(self@ =~= (TableViewState { drag_drop: mode, ..old(self)@ }));
    }

    /// This table with the given drag and drop mode.
    pub fn with_drag_drop_mode(self, mode: TableDragDropMode) -> (r: Self)
        ensures
            r@ == (TableViewState { drag_drop: mode, ..self@ }),
    {
        let mut s = self;
        s.set_drag_drop_mode(mode);
        s
    }

    /// Whether items can be dragged out of the table.
    pub fn drag_enabled(&self) -> (r: bool)
        ensures
            r == mode_drags(self@.drag_drop),
    {
        match self.drag_drop_mode {
            TableDragDropMode::DragOnly | TableDragDropMode::DragDrop | TableDragDropMode::InternalMove => true,
            _ => false,
        }
    }

    /// Whether items can be dropped onto the table.
    pub fn drop_enabled(&self) -> (r: bool)
        ensures
            r == mode_drops(self@.drag_drop),
    {
        match self.drag_drop_mode {
            TableDragDropMode::DropOnly | TableDragDropMode::DragDrop | TableDragDropMode::InternalMove => true,
            _ => false,
        }
    }

    /// Whether a drag entering the table is accepted (and a drop taken): when drops are
    /// enabled and the dragged data holds text or URLs.
    pub fn accepts_drop(&self, has_text: bool, has_urls: bool) -> (r: bool)
        ensures
            r == (mode_drops(self@.drag_drop) && (has_text || has_urls)),
    {
        self.drop_enabled() && (has_text || has_urls)
    }

    /// Where a drop lands: on the row under the pointer (`hit`: its row, column and whether
    /// the pointer is in the row's upper half), above or below it; elsewhere below the first
    /// cell of the last row; nowhere in an empty table.
    pub fn drop_target(&self, hit: Option<(usize, usize, bool)>) -> (r: (Option<(usize, usize)>, DropPosition))
        ensures
            r == (match hit {
                Some((row, col, upper)) => (Some((row, col)), if upper {
                    DropPosition::AboveItem
                } else {
                    DropPosition::BelowItem
                }),
                None => if self@.rows > 0 {
                    (Some(((self@.rows - 1) as usize, 0usize)), DropPosition::BelowItem)
                } else {
                    (None, DropPosition::OnItem)
                },
            }),
    {
        match hit {
            Some((row, col, upper)) => {
                if upper {
                    (Some((row, col)), DropPosition::AboveItem)
                } else {
                    (Some((row, col)), DropPosition::BelowItem)
                }
            },
            None => {
                if self.rows > 0 {
                    (Some((self.rows - 1, 0)), DropPosition::BelowItem)
                } else {
                    (None, DropPosition::OnItem)
                }
            },
        }
    }

    /// Whether clicking a column header sorts by it.
    pub fn is_sorting_enabled(&self) -> (r: bool)
        ensures
            r == self@.sorting,
    {
        self.sorting_enabled
    }

    /// Let clicks on column headers sort, or not.
    pub fn set_sorting_enabled(&mut self, enabled: bool)
        ensures
            final(self)@ == (TableViewState { sorting: enabled, ..old(self)@ }),
    {
        self.sorting_enabled = enabled;
        assert(self@ =~= (TableViewState { sorting: enabled, ..old(self)@ }));
    }

    /// This table with sorting by header clicks enabled or not.
    pub fn with_sorting_enabled(self, enabled: bool) -> (r: Self)
        ensures
            r@ == (TableViewState { sorting: enabled, ..self@ }),
    {
        let mut s = self;
        s.set_sorting_enabled(enabled);
        s
    }

    /// This table with alternating row colors or not.
    pub fn with_alternate_row_colors(self, enabled: bool) -> (r: Self)
        ensures
            r@ == (TableViewState { alternate_rows: enabled, ..self@ }),
    {
        let mut s = self;
        s.alternate_row_colors = enabled;
        assert(s@ =~= (TableViewState { alternate_rows: enabled, ..self@ }));
        s
    }

    /// Show the sort indicator on `column` in `order`.
    pub fn set_sort_indicator(&mut self, column: usize, order: SortOrder)
        ensures
            final(self)@ == (TableViewState { sort: Some((column as int, order)), ..old(self)@ }),
    {
        self.sort = Some((column, order));
        assert(self@ =~= (TableViewState { sort: Some((column as int, order)), ..old(self)@ }));
    }

    /// The column sorted by and its order, if any.
    pub fn sort_indicator(&self) -> (r: Option<(usize, SortOrder)>)
        ensures
            opt_sort(r) == self@.sort,
    {
        self.sort
    }

    /// The horizontal scroll position.
    pub fn scroll_x(&self) -> (r: i32)
        ensures
            r == self@.scroll_x,
    {
        self.scroll_x
    }

    /// The vertical scroll position.
    pub fn scroll_y(&self) -> (r: i32)
        ensures
            r == self@.scroll_y,
    {
        self.scroll_y
    }

    /// Whether the cell of `index` is among the visible rows `rows` and columns `cols` (first
    /// and last of each, as the layout finds them); an invalid index is not.
    pub fn is_index_visible(&self, index: ModelIndex, rows: (usize, usize), cols: (usize, usize)) -> (r: bool)
        ensures
            r == (index.spec_valid() && rows.0 <= index.spec_row() <= rows.1 && cols.0 <= index.spec_column()
                <= cols.1),
    {
        if !index.is_valid() {
            return false;
        }
        let row = index.row();
        let col = index.column();
        row >= rows.0 && row <= rows.1 && col >= cols.0 && col <= cols.1
    }

    /// Scroll so that the cell of `index` shows: `cell` is its box (left, top, right,
    /// bottom) in content pixels, `view` the viewport's width and height, and `max_x`,
    /// `max_y` the largest offsets the layout allows. Each direction moves only as far as
    /// needed (see `offset_to_show`); an invalid index scrolls nowhere.
    pub fn scroll_to(&mut self, index: ModelIndex, cell: (i32, i32, i32, i32), view: (i32, i32), max_x: i32, max_y: i32)
        requires
            0 <= view.0,
            0 <= view.1,
            old(self)@.scroll_x + view.0 <= i32::MAX,
            old(self)@.scroll_y + view.1 <= i32::MAX,
            cell.2 - view.0 >= i32::MIN,
            cell.3 - view.1 >= i32::MIN,
        ensures
            final(self)@ == (if !index.spec_valid() {
                old(self)@
            } else {
                TableViewState {
                    scroll_x: clamp_scroll(
                        offset_to_show(cell.0 as int, cell.2 as int, old(self)@.scroll_x, view.0 as int),
                        max_x as int,
                    ),
                    scroll_y: clamp_scroll(
                        offset_to_show(cell.1 as int, cell.3 as int, old(self)@.scroll_y, view.1 as int),
                        max_y as int,
                    ),
                    ..old(self)@
                }
            }),
    {
        if !index.is_valid() {
            return;
        }
        let x = scroll_offset_to_show(cell.0, cell.2, self.scroll_x, view.0);
        let y = scroll_offset_to_show(cell.1, cell.3, self.scroll_y, view.1);
        self.set_scroll_position(x, y, max_x, max_y);
    }

    /// Scroll to (`x`, `y`), each brought into `[0, max]` for the maxima the layout allows.
    pub fn set_scroll_position(&mut self, x: i32, y: i32, max_x: i32, max_y: i32)
        ensures
            final(self)@ == (TableViewState {
                scroll_x: clamp_scroll(x as int, max_x as int),
                scroll_y: clamp_scroll(y as int, max_y as int),
                ..old(self)@
            }),
    {
        let nx = if x > max_x {
            if max_x < 0 {
                0
            } else {
                max_x
            }
        } else if x < 0 {
            0
        } else {
            x
        };
        let ny = if y > max_y {
            if max_y < 0 {
                0
            } else {
                max_y
            }
        } else if y < 0 {
            0
        } else {
            y
        };
        self.scroll_x = nx;
        self.scroll_y = ny;
        assert(self@ =~= (TableViewState {
            scroll_x: clamp_scroll(x as int, max_x as int),
            scroll_y: clamp_scroll(y as int, max_y as int),
            ..old(self)@
        }));
    }

    fn set_current(&mut self, index: ModelIndex, flags: SelectionFlags)
        ensures
            final(self)@ == with_current_set(old(self)@, index, flags),
    {
        self.selection.set_current_index(index, flags);
        assert(self@ =~= with_current_set(old(self)@, index, flags));
    }

    fn select_range_from_anchor(&mut self, row: usize, col: usize)
        requires
            old(self)@.anchor.spec_valid(),
        ensures
            final(self)@ == (TableViewState {
                selected: range_cells(old(self)@.behavior, old(self)@.anchor, row as int, col as int, old(self)@.rows),
                ..old(self)@
            }),
    {
        let anchor = self.selection.anchor_index();
        let ghost base = Set::<(int, int)>::empty();
        match self.selection.selection_behavior() {
            SelectionBehavior::SelectItems => {
                self.selection.select_range_2d(
                    anchor.row(),
                    anchor.column(),
                    row,
                    col,
                    SelectionFlags::clear_and_select(),
                );
                assert(base.union(span_cells(anchor.spec_row(), anchor.spec_column(), row as int, col as int))
                    =~= span_cells(anchor.spec_row(), anchor.spec_column(), row as int, col as int));
            },
            SelectionBehavior::SelectRows => {
                self.selection.select_range(anchor.row(), row, SelectionFlags::clear_and_select());
                assert(base.union(span_cells(anchor.spec_row(), 0, row as int, usize::MAX as int))
                    =~= span_cells(anchor.spec_row(), 0, row as int, usize::MAX as int));
            },
            SelectionBehavior::SelectColumns => {
                let ghost cells = range_cells(
                    SelectionBehavior::SelectColumns,
                    anchor,
                    row as int,
                    col as int,
                    self.rows as int,
                );
                if self.rows > 0 {
                    self.selection.select_range_2d(
                        0,
                        anchor.column(),
                        self.rows - 1,
                        col,
                        SelectionFlags::clear_and_select(),
                    );
                    assert(span_cells(0, anchor.spec_column(), self.rows - 1, col as int) =~= cells);
                    assert(base.union(cells) =~= cells);
                } else {
                    self.selection.clear_selection();
                    assert(cells =~= Set::<(int, int)>::empty());
                }
            },
        }
        assert(self@ =~= (TableViewState {
            selected: range_cells(old(self)@.behavior, old(self)@.anchor, row as int, col as int, old(self)@.rows),
            ..old(self)@
        }));
    }

    /// Move the current cell to (`row`, `col`) from the keyboard (see `with_moved`).
    pub fn move_to_cell(&mut self, row: usize, col: usize, shift: bool, ctrl: bool)
        ensures
            final(self)@ == with_moved(old(self)@, row as int, col as int, shift, ctrl),
    {
        let index = ModelIndex::new(row, col);
        if shift {
            let anchor = self.selection.anchor_index();
            if anchor.is_valid() {
                self.select_range_from_anchor(row, col);
            }
            self.set_current(index, SelectionFlags::current());
        } else if ctrl {
            self.set_current(index, SelectionFlags::current());
        } else {
            self.set_current(index, SelectionFlags::clear_select_current().with_anchor());
        }
    }

    /// Handle a key press (`page` rows to a page, Control and Shift held or not): the arrows,
    /// Page Up/Down, Home and End move the current cell, Enter activates it, Control+A selects
    /// all; nothing happens without a current cell or cells.
    pub fn handle_key(&mut self, key: TableKey, ctrl: bool, shift: bool, page: usize) -> (consumed: bool)
        ensures
            (final(self)@, consumed) == after_key(old(self)@, key, ctrl, shift, page as int),
    {
        let current = self.selection.current_index();
        if !current.is_valid() || self.rows == 0 || self.cols == 0 {
            return false;
        }
        let r = current.row();
        let c = current.column();
        let rows = self.rows;
        let cols = self.cols;
        let step: usize = if page > 1 {
            page
        } else {
            1
        };
        let target: Option<(usize, usize)> = match key {
            TableKey::ArrowUp => Some((if r > 0 {
                r - 1
            } else {
                0
            }, c)),
            TableKey::ArrowDown => Some((if r < rows - 1 && r + 1 < rows - 1 {
                r + 1
            } else {
                rows - 1
            }, c)),
            TableKey::ArrowLeft => Some((r, if c > 0 {
                c - 1
            } else {
                0
            })),
            TableKey::ArrowRight => Some((r, if c < cols - 1 && c + 1 < cols - 1 {
                c + 1
            } else {
                cols - 1
            })),
            TableKey::PageUp => Some((if r > step {
                r - step
            } else {
                0
            }, c)),
            TableKey::PageDown => Some((if r < rows - 1 && step < (rows - 1) - r {
                r + step
            } else {
                rows - 1
            }, c)),
            TableKey::Home => if ctrl {
                Some((0, 0))
            } else {
                Some((r, 0))
            },
            TableKey::End => if ctrl {
                Some((rows - 1, cols - 1))
            } else {
                Some((r, cols - 1))
            },
            _ => None,
        };
        match target {
            Some(t) => {
                self.move_to_cell(t.0, t.1, shift, ctrl);
                true
            },
            None => {
                if key == TableKey::Enter {
                    self.events.push(TableEvent::Activated(ModelIndex::new(r, c)));
                    assert(self@ =~= (TableViewState {
                        events: old(self)@.events.push(TableEvent::Activated(ModelIndex::spec_new(r as int, c as int))),
                        ..old(self)@
                    }));
                    true
                } else if key == TableKey::A && ctrl {
                    self.select_all();
                    true
                } else {
                    false
                }
            },
        }
    }

    /// Handle a press of the primary button on cell (`row`, `col`), per the selection mode
    /// and behavior (see `with_cell_pressed`); the press is consumed.
    pub fn handle_cell_press(&mut self, row: usize, col: usize, ctrl: bool, shift: bool) -> (consumed: bool)
        ensures
            consumed,
            final(self)@ == with_cell_pressed(old(self)@, row as int, col as int, ctrl, shift),
    {
        self.pressed_cell = Some((row, col));
        let index = ModelIndex::new(row, col);
        let mode = self.selection.selection_mode();
        let behavior = self.selection.selection_behavior();
        if mode == SelectionMode::ExtendedSelection && !ctrl && shift {
            let anchor = self.selection.anchor_index();
            if anchor.is_valid() {
                self.select_range_from_anchor(row, col);
                self.set_current(index, SelectionFlags::current());
                return true;
            }
        }
        let flags = match mode {
            SelectionMode::NoSelection => SelectionFlags::none(),
            SelectionMode::SingleSelection => SelectionFlags::clear_select_current().with_anchor(),
            _ => if ctrl {
                SelectionFlags::toggle().with_current()
            } else {
                SelectionFlags::clear_select_current().with_anchor()
            },
        };
        match behavior {
            SelectionBehavior::SelectItems => {
                self.set_current(index, flags);
            },
            SelectionBehavior::SelectRows => {
                if flags.clear {
                    self.selection.clear_selection();
                }
                self.selection.select_row(row, self.cols, SelectionFlags::select());
                self.set_current(ModelIndex::new(row, 0), SelectionFlags::current().with_anchor());
            },
            SelectionBehavior::SelectColumns => {
                if flags.clear {
                    self.selection.clear_selection();
                }
                self.selection.select_column(col, self.rows, SelectionFlags::select());
                self.set_current(ModelIndex::new(0, col), SelectionFlags::current().with_anchor());
            },
        }
        true
    }

    /// Handle a press of the primary button on the header of column `col`, when the column
    /// header is shown: the click is notified and, with sorting enabled, the column is sorted
    /// ascending, or the other way round when it already is the sorted column. With the
    /// header hidden nothing happens.
    pub fn handle_header_press(&mut self, col: usize) -> (consumed: bool)
        ensures
            consumed == old(self)@.show_horizontal_header,
            !consumed ==> final(self)@ == old(self)@,
            consumed ==> final(self)@ == with_header_pressed(old(self)@, col as int),
    {
        if !self.show_horizontal_header {
            return false;
        }
        self.events.push(TableEvent::HeaderClicked(col));
        if self.sorting_enabled {
            let order = match self.sort {
                Some((c, SortOrder::Ascending)) => if c == col {
                    SortOrder::Descending
                } else {
                    SortOrder::Ascending
                },
                _ => SortOrder::Ascending,
            };
            self.sort = Some((col, order));
        }
        assert(self@ =~= (TableViewState {
            events: old(self)@.events.push(TableEvent::HeaderClicked(col)),
            sort: if old(self)@.sorting {
                Some(
                    (
                        col as int,
                        if old(self)@.sort == Some((col as int, SortOrder::Ascending)) {
                            SortOrder::Descending
                        } else {
                            SortOrder::Ascending
                        },
                    ),
                )
            } else {
                old(self)@.sort
            },
            ..old(self)@
        }));
        true
    }

    /// Handle a release of the primary button over `cell` (`None`: over no cell), with
    /// `quick` telling whether it comes within the double-click time of the last click: a
    /// release on the cell pressed clicks it, and a click on the cell last clicked, quick
    /// enough, double-clicks and activates it. The press is forgotten; the release consumed.
    pub fn handle_release(&mut self, cell: Option<(usize, usize)>, quick: bool) -> (consumed: bool)
        ensures
            consumed,
            final(self)@ == ({
                let v = TableViewState { pressed: None, ..old(self)@ };
                match (old(self)@.pressed, opt_cell(cell)) {
                    (Some(p), Some(q)) => if p == q {
                        let i = ModelIndex::spec_new(p.0, p.1);
                        let clicked = v.events.push(TableEvent::Clicked(i));
                        if v.last_click == Some(p) && quick {
                            TableViewState {
                                events: clicked.push(TableEvent::DoubleClicked(i)).push(TableEvent::Activated(i)),
                                last_click: None,
                                ..v
                            }
                        } else {
                            TableViewState { events: clicked, last_click: Some(p), ..v }
                        }
                    } else {
                        v
                    },
                    _ => v,
                }
            }),
    {
        let pressed = self.pressed_cell;
        self.pressed_cell = None;
        let ghost v = self@;
        match (pressed, cell) {
            (Some(p), Some(q)) => {
                if p.0 == q.0 && p.1 == q.1 {
                    let i = ModelIndex::new(p.0, p.1);
                    self.events.push(TableEvent::Clicked(i));
                    let again = match self.last_click_cell {
                        Some(l) => l.0 == p.0 && l.1 == p.1,
                        None => false,
                    };
                    if again && quick {
                        self.events.push(TableEvent::DoubleClicked(i));
                        self.events.push(TableEvent::Activated(i));
                        self.last_click_cell = None;
                    } else {
                        self.last_click_cell = Some(p);
                    }
                }
            },
            _ => {},
        }
        assert(self@ =~= ({
            let v = TableViewState { pressed: None, ..old(self)@ };
            match (old(self)@.pressed, opt_cell(cell)) {
                (Some(p), Some(q)) => if p == q {
                    let i = ModelIndex::spec_new(p.0, p.1);
                    let clicked = v.events.push(TableEvent::Clicked(i));
                    if v.last_click == Some(p) && quick {
                        TableViewState {
                            events: clicked.push(TableEvent::DoubleClicked(i)).push(TableEvent::Activated(i)),
                            last_click: None,
                            ..v
                        }
                    } else {
                        TableViewState { events: clicked, last_click: Some(p), ..v }
                    }
                } else {
                    v
                },
                _ => v,
            }
        }));
        true
    }

    /// Record the cell the pointer is over (`None`: none); pointer moves are not consumed.
    pub fn handle_move(&mut self, cell: Option<(usize, usize)>) -> (consumed: bool)
        ensures
            !consumed,
            final(self)@ == (TableViewState { hovered: opt_cell(cell), ..old(self)@ }),
    {
        self.hovered_cell = cell;
        assert(self@ =~= (TableViewState { hovered: opt_cell(cell), ..old(self)@ }));
        false
    }

    /// Handle a context menu request (where it landed, see `context_location`): the location
    /// is notified and the request consumed.
    pub fn handle_context_menu(
        &mut self,
        in_row_header_band: bool,
        in_header_band: bool,
        header_column: Option<usize>,
        header_row: Option<usize>,
        cell: Option<ModelIndex>,
    ) -> (consumed: bool)
        ensures
            consumed,
            final(self)@ == (TableViewState {
                events: old(self)@.events.push(
                    TableEvent::ContextMenuRequested(
                        context_location(
                            old(self)@.show_horizontal_header,
                            old(self)@.show_vertical_header,
                            in_row_header_band,
                            in_header_band,
                            header_column,
                            header_row,
                            cell,
                        ),
                    ),
                ),
                ..old(self)@
            }),
    {
        let location = if self.show_horizontal_header && self.show_vertical_header && in_row_header_band
            && in_header_band {
            TableContextMenuLocation::Corner
        } else if self.show_horizontal_header && in_header_band {
            match header_column {
                Some(c) => TableContextMenuLocation::ColumnHeader(c),
                None => TableContextMenuLocation::Empty,
            }
        } else if self.show_vertical_header && in_row_header_band {
            match header_row {
                Some(r) => TableContextMenuLocation::RowHeader(r),
                None => TableContextMenuLocation::Empty,
            }
        } else {
            match cell {
                Some(i) => TableContextMenuLocation::Cell(i),
                None => TableContextMenuLocation::Cell(ModelIndex::invalid()),
            }
        };
        self.events.push(TableEvent::ContextMenuRequested(location));
        assert(self@ =~= (TableViewState {
            events: old(self)@.events.push(
                TableEvent::ContextMenuRequested(
                    context_location(
                        old(self)@.show_horizontal_header,
                        old(self)@.show_vertical_header,
                        in_row_header_band,
                        in_header_band,
                        header_column,
                        header_row,
                        cell,
                    ),
                ),
            ),
            ..old(self)@
        }));
        true
    }
}

} // verus!
