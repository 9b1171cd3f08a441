//! The table widget's model: a grid of optional items that rows and columns can be inserted
//! into and removed from, with a current cell and a list of selected cells.

use vstd::prelude::*;

use std::collections::HashMap;

use crate::char_format::{Color, HorizontalAlign};
use crate::selection::{SelectionBehavior, SelectionMode};
use crate::utf8_text::owned;

verus! {

/// The check state of a checkable item.
#[derive(Debug, Clone, Copy, PartialEq, Eq, Structural)]
pub enum CheckState {
    Unchecked,
    PartiallyChecked,
    Checked,
}

/// A value an item or a header hands out for a role, or that an item keeps for a role of
/// the application's own.
#[derive(Debug, PartialEq)]
pub enum ItemData {
    /// No value.
    Empty,
    Bool(bool),
    Int(i64),
    String(String),
    CheckState(CheckState),
    Color(Color),
    TextAlignment(HorizontalAlign),
}

/// An item value as a value.
pub enum DataView {
    Empty,
    Bool(bool),
    Int(i64),
    String(Seq<char>),
    CheckState(CheckState),
    Color(Color),
    TextAlignment(HorizontalAlign),
}

impl View for ItemData {
    type V = DataView;

    open spec fn view(&self) -> DataView {
        match self {
            ItemData::Empty => DataView::Empty,
            ItemData::Bool(b) => DataView::Bool(*b),
            ItemData::Int(i) => DataView::Int(*i),
            ItemData::String(s) => DataView::String(s@),
            ItemData::CheckState(c) => DataView::CheckState(*c),
            ItemData::Color(c) => DataView::Color(*c),
            ItemData::TextAlignment(a) => DataView::TextAlignment(*a),
        }
    }
}

impl Clone for ItemData {
    fn clone(&self) -> (r: Self)
        ensures
            r@ == self@,
    {
        match self {
            ItemData::Empty => ItemData::Empty,
            ItemData::Bool(b) => ItemData::Bool(*b),
            ItemData::Int(i) => ItemData::Int(*i),
            ItemData::String(s) => ItemData::String(s.clone()),
            ItemData::CheckState(c) => ItemData::CheckState(*c),
            ItemData::Color(c) => ItemData::Color(*c),
            ItemData::TextAlignment(a) => ItemData::TextAlignment(*a),
        }
    }
}

/// What a view asks of a cell or a header.
#[derive(Debug, Clone, Copy, PartialEq, Eq, Structural)]
pub enum ItemRole {
    /// The text shown.
    Display,
    /// The icon shown beside the text.
    Decoration,
    /// The text to edit.
    Edit,
    ToolTip,
    CheckState,
    BackgroundColor,
    ForegroundColor,
    TextAlignment,
    /// A role of the application's own, by number.
    User(u32),
}

/// The direction of a header: column headers run horizontally, row headers vertically.
#[derive(Debug, Clone, Copy, PartialEq, Eq, Structural)]
pub enum Orientation {
    Horizontal,
    Vertical,
}

/// A table cell's content.
#[derive(Debug)]
pub struct TableWidgetItem {
    text: String,
    tooltip: Option<String>,
    check_state: Option<CheckState>,
    background: Option<Color>,
    foreground: Option<Color>,
    text_alignment: HorizontalAlign,
    data: HashMap<u32, ItemData>,
}

/// An item as a value. The application's own data maps roles to values.
#[verifier::ext_equal]
pub struct ItemView {
    pub text: Seq<char>,
    pub tooltip: Option<Seq<char>>,
    pub check_state: Option<CheckState>,
    pub background: Option<Color>,
    pub foreground: Option<Color>,
    pub text_alignment: HorizontalAlign,
    pub data: Map<u32, DataView>,
}

pub open spec fn opt_str(t: Option<String>) -> Option<Seq<char>> {
    match t {
        Some(s) => Some(s@),
        None => None,
    }
}

/// The value a data map keeps for `role`.
pub open spec fn role_value(d: Map<u32, DataView>, role: u32) -> Option<DataView> {
    if d.contains_key(role) {
        Some(d[role])
    } else {
        None
    }
}

impl View for TableWidgetItem {
    type V = ItemView;

    closed spec fn view(&self) -> ItemView {
        ItemView {
            text: self.text@,
            tooltip: opt_str(self.tooltip),
            check_state: self.check_state,
            background: self.background,
            foreground: self.foreground,
            text_alignment: self.text_alignment,
            data: self.data@.map_values(|d: ItemData| d@),
        }
    }
}

/// An item holding only `text`, aligned left.
pub open spec fn text_item(text: Seq<char>) -> ItemView {
    ItemView {
        text: text,
        tooltip: None,
        check_state: None,
        background: None,
        foreground: None,
        text_alignment: HorizontalAlign::Left,
        data: Map::empty(),
    }
}

impl Clone for TableWidgetItem {
    fn clone(&self) -> (r: Self)
        ensures
            r@ == self@,
    {
        let tooltip = match &self.tooltip {
            Some(t) => Some(t.clone()),
            None => None,
        };
        TableWidgetItem {
            text: self.text.clone(),
            tooltip,
            check_state: self.check_state,
            background: self.background,
            foreground: self.foreground,
            text_alignment: self.text_alignment,
            data: self.data.clone(),
        }
    }
}

impl TableWidgetItem {
    /// An item showing `text`, with nothing else set.
    pub fn new(text: &str) -> (r: Self)
        ensures
            r@ == text_item(text@),
    {
        TableWidgetItem {
            text: owned(text),
            tooltip: None,
            check_state: None,
            background: None,
            foreground: None,
            text_alignment: HorizontalAlign::Left,
            data: HashMap::new(),
        }
    }

    /// The item's text.
    pub fn text(&self) -> (r: &str)
        ensures
            r@ == self@.text,
    {
        self.text.as_str()
    }

    /// Set the item's text.
    pub fn set_text(&mut self, text: &str)
        ensures
            final(self)@ == (ItemView { text: text@, ..old(self)@ }),
    {
        self.text = owned(text);
    }

    /// The item's tooltip, if any.
    pub fn tooltip(&self) -> (r: Option<&str>)
        ensures
            match r {
                Some(t) => self@.tooltip == Some(t@),
                None => self@.tooltip is None,
            },
    {
        match &self.tooltip {
            Some(t) => Some(t.as_str()),
            None => None,
        }
    }

    /// Set or clear the item's tooltip.
    pub fn set_tooltip(&mut self, tooltip: Option<String>)
        ensures
            final(self)@ == (ItemView { tooltip: opt_str(tooltip), ..old(self)@ }),
    {
        self.tooltip = tooltip;
    }

    /// The item's check state, if it is checkable.
    pub fn check_state(&self) -> (r: Option<CheckState>)
        ensures
            r == self@.check_state,
    {
        self.check_state
    }

    /// Set the item's check state (`None`: not checkable).
    pub fn set_check_state(&mut self, state: Option<CheckState>)
        ensures
            final(self)@ == (ItemView { check_state: state, ..old(self)@ }),
    {
        self.check_state = state;
    }

    /// The item's background color, if set.
    pub fn background(&self) -> (r: Option<Color>)
        ensures
            r == self@.background,
    {
        self.background
    }

    /// Set or clear the item's background color.
    pub fn set_background(&mut self, color: Option<Color>)
        ensures
            final(self)@ == (ItemView { background: color, ..old(self)@ }),
    {
        self.background = color;
    }

    /// The item's text color, if set.
    pub fn foreground(&self) -> (r: Option<Color>)
        ensures
            r == self@.foreground,
    {
        self.foreground
    }

    /// Set or clear the item's text color.
    pub fn set_foreground(&mut self, color: Option<Color>)
        ensures
            final(self)@ == (ItemView { foreground: color, ..old(self)@ }),
    {
        self.foreground = color;
    }

    /// The item's text alignment.
    pub fn text_alignment(&self) -> (r: HorizontalAlign)
        ensures
            r == self@.text_alignment,
    {
        self.text_alignment
    }

    /// Set the item's text alignment.
    pub fn set_text_alignment(&mut self, alignment: HorizontalAlign)
        ensures
            final(self)@ == (ItemView { text_alignment: alignment, ..old(self)@ }),
    {
        self.text_alignment = alignment;
    }

    /// The value the item keeps for the application's role `role`, if any.
    pub fn data(&self, role: u32) -> (r: Option<&ItemData>)
        ensures
            match r {
                Some(v) => role_value(self@.data, role) == Some(v@),
                None => role_value(self@.data, role) is None,
            },
    {
        broadcast use vstd::std_specs::hash::group_hash_axioms;
        self.data.get(&role)
    }

    /// Keep `data` for the application's role `role`, in place of any value it had.
    pub fn set_data(&mut self, role: u32, data: ItemData)
        ensures
            final(self)@ == (ItemView { data: old(self)@.data.insert(role, data@), ..old(self)@ }),
    {
        broadcast use vstd::std_specs::hash::group_hash_axioms;
        let ghost v = data@;
        self.data.insert(role, data);
        assert(self@.data =~= old(self)@.data.insert(role, v));
        assert(self@ =~= (ItemView { data: old(self)@.data.insert(role, v), ..old(self)@ }));
    }
}

impl Default for TableWidgetItem {
    fn default() -> (r: Self)
        ensures
            r@ == text_item(Seq::empty()),
    {
        TableWidgetItem {
            text: String::new(),
            tooltip: None,
            check_state: None,
            background: None,
            foreground: None,
            text_alignment: HorizontalAlign::Left,
            data: HashMap::new(),
        }
    }
}

/// A notification the table owes its listeners.
#[derive(Debug, Clone, Copy, PartialEq, Eq)]
pub enum TableWidgetEvent {
    /// A cell was clicked.
    CellClicked(usize, usize),
    /// A cell was activated (Enter).
    CellActivated(usize, usize),
    /// The current cell changed from the first to the second.
    CurrentCellChanged(Option<(usize, usize)>, Option<(usize, usize)>),
    /// A cell's item changed.
    CellChanged(usize, usize),
}

/// Keys the table handles.
#[derive(Debug, Clone, Copy, PartialEq, Eq, Structural)]
pub enum TableWidgetKey {
    ArrowUp,
    ArrowDown,
    ArrowLeft,
    ArrowRight,
    Home,
    End,
    Enter,
    Other,
}

/// The cell contents of a table, row by row.
pub open spec fn cell_views(cells: Seq<Vec<Option<TableWidgetItem>>>) -> Seq<Seq<Option<ItemView>>> {
    cells.map_values(|row: Vec<Option<TableWidgetItem>>| row_view(row@))
}

/// A row of cells as values.
pub open spec fn row_view(row: Seq<Option<TableWidgetItem>>) -> Seq<Option<ItemView>> {
    row.map_values(|c: Option<TableWidgetItem>| cell_view(c))
}

/// A cell as a value.
pub open spec fn cell_view(c: Option<TableWidgetItem>) -> Option<ItemView> {
    match c {
        Some(i) => Some(i@),
        None => None,
    }
}

/// A row of `cols` empty cells.
pub open spec fn empty_row(cols: int) -> Seq<Option<ItemView>> {
    Seq::new(cols as nat, |j: int| None::<ItemView>)
}

/// The table as a value.
#[verifier::ext_equal]
pub struct TableWidgetState {
    pub cells: Seq<Seq<Option<ItemView>>>,
    pub cols: int,
    pub horizontal_headers: Seq<Seq<char>>,
    pub vertical_headers: Seq<Seq<char>>,
    pub show_horizontal_header: bool,
    pub show_vertical_header: bool,
    pub current_row: Option<int>,
    pub current_column: Option<int>,
    pub mode: SelectionMode,
    pub behavior: SelectionBehavior,
    pub selected: Seq<(int, int)>,
    pub pressed: Option<(int, int)>,
    pub events: Seq<TableWidgetEvent>,
}

impl TableWidgetState {
    /// The current cell: the current row and column, when both are set.
    pub open spec fn current_cell(self) -> Option<(int, int)> {
        match (self.current_row, self.current_column) {
            (Some(r), Some(c)) => Some((r, c)),
            _ => None,
        }
    }
}

/// `current` after a row or column is removed at `index` from `count`: the last one left
/// when it was removed and was the last, one back when it came after, none when none is left.
pub open spec fn index_after_removal(current: Option<int>, index: int, count: int) -> Option<int> {
    match current {
        Some(c) => if c == index {
            if count - 1 > 0 {
                Some(if c < count - 2 {
                    c
                } else {
                    count - 2
                })
            } else {
                None
            }
        } else if c > index {
            Some(c - 1)
        } else {
            Some(c)
        },
        None => None,
    }
}

/// `current` after a row or column is inserted at `index`: one on when at or after it.
pub open spec fn index_after_insertion(current: Option<int>, index: int) -> Option<int> {
    match current {
        Some(c) => if c >= index {
            Some(c + 1)
        } else {
            Some(c)
        },
        None => None,
    }
}

/// `current` after the count becomes `count`: the last one when it was past the end.
pub open spec fn index_after_resize(current: Option<int>, count: int) -> Option<int> {
    match current {
        Some(c) => if c >= count {
            if count > 0 {
                Some(count - 1)
            } else {
                None
            }
        } else {
            Some(c)
        },
        None => None,
    }
}

/// `row` grown with empty cells or cut to `count` cells.
pub open spec fn resized_row(row: Seq<Option<ItemView>>, count: int) -> Seq<Option<ItemView>> {
    if count <= row.len() {
        row.take(count)
    } else {
        row + empty_row(count - row.len())
    }
}

/// The state after a click on cell (`row`, `col`) (Control held or not): with a single or
/// no selection it becomes the current cell; with multiple selections its item (or the
/// first cell of its row or column, per the behavior) is toggled in or out of the selected
/// cells with Control, or alone selected without, and it becomes current. The click is
/// notified.
pub open spec fn with_click(v: TableWidgetState, row: int, col: int, ctrl: bool) -> TableWidgetState {
    let after = if v.mode == SelectionMode::NoSelection || v.mode == SelectionMode::SingleSelection {
        with_current_cell(v, row, col)
    } else {
        let cell = match v.behavior {
            SelectionBehavior::SelectItems => (row, col),
            SelectionBehavior::SelectRows => (row, 0),
            SelectionBehavior::SelectColumns => (0, col),
        };
        let selected = if ctrl {
            if v.selected.contains(cell) {
                v.selected.remove_value(cell)
            } else {
                v.selected.push(cell)
            }
        } else {
            seq![cell]
        };
        let old = v.current_cell();
        let moved = TableWidgetState { selected: selected, current_row: Some(row), current_column: Some(col), ..v };
        if old != Some((row, col)) {
            TableWidgetState {
                events: moved.events.push(
                    TableWidgetEvent::CurrentCellChanged(opt_pair(old), Some((row as usize, col as usize))),
                ),
                ..moved
            }
        } else {
            moved
        }
    };
    TableWidgetState { events: after.events.push(TableWidgetEvent::CellClicked(row as usize, col as usize)), ..after }
}

pub open spec fn opt_pair(c: Option<(int, int)>) -> Option<(usize, usize)> {
    match c {
        Some(p) => Some((p.0 as usize, p.1 as usize)),
        None => None,
    }
}

/// The state after asking for (`row`, `col`) to become the current cell: nothing for a cell
/// outside the table; a change is notified and, with single selection, selects it alone.
pub open spec fn with_current_cell(v: TableWidgetState, row: int, col: int) -> TableWidgetState {
    if row < 0 || row >= v.cells.len() || col < 0 || col >= v.cols {
        v
    } else {
        let old = v.current_cell();
        let moved = TableWidgetState { current_row: Some(row), current_column: Some(col), ..v };
        if old != Some((row, col)) {
            TableWidgetState {
                selected: if v.mode == SelectionMode::SingleSelection {
                    seq![(row, col)]
                } else {
                    v.selected
                },
                events: v.events.push(
                    TableWidgetEvent::CurrentCellChanged(opt_pair(old), Some((row as usize, col as usize))),
                ),
                ..moved
            }
        } else {
            moved
        }
    }
}

/// What an item hands out for a role: its text, tooltip, check state, colors and alignment
/// for theirs, the value it keeps for an application role, and nothing where it has none
/// (it holds no icon, and no separate text to edit).
pub open spec fn item_role_value(i: ItemView, role: ItemRole) -> DataView {
    match role {
        ItemRole::Display => DataView::String(i.text),
        ItemRole::ToolTip => match i.tooltip {
            Some(t) => DataView::String(t),
            None => DataView::Empty,
        },
        ItemRole::CheckState => match i.check_state {
            Some(c) => DataView::CheckState(c),
            None => DataView::Empty,
        },
        ItemRole::BackgroundColor => match i.background {
            Some(c) => DataView::Color(c),
            None => DataView::Empty,
        },
        ItemRole::ForegroundColor => match i.foreground {
            Some(c) => DataView::Color(c),
            None => DataView::Empty,
        },
        ItemRole::TextAlignment => DataView::TextAlignment(i.text_alignment),
        ItemRole::User(n) => match role_value(i.data, n) {
            Some(v) => v,
            None => DataView::Empty,
        },
        _ => DataView::Empty,
    }
}

/// What the table hands out for a role of cell (`row`, `col`): the item's value when the
/// cell exists and holds an item, else nothing.
pub open spec fn cell_role_value(v: TableWidgetState, row: int, col: int, role: ItemRole) -> DataView {
    if 0 <= row < v.cells.len() && 0 <= col < v.cols && v.cells[row][col] is Some {
        item_role_value(v.cells[row][col]->0, role)
    } else {
        DataView::Empty
    }
}

/// What a header hands out: the label of its section for the display role, else nothing.
pub open spec fn header_role_value(v: TableWidgetState, section: int, orientation: Orientation, role: ItemRole) -> DataView {
    let labels = match orientation {
        Orientation::Horizontal => v.horizontal_headers,
        Orientation::Vertical => v.vertical_headers,
    };
    if role == ItemRole::Display && 0 <= section < labels.len() {
        DataView::String(labels[section])
    } else {
        DataView::Empty
    }
}

/// How a table is drawn.
#[derive(Debug, Clone, Copy, PartialEq, Eq, Structural)]
pub struct TableAppearance {
    /// Whether rows alternate their background color.
    pub alternate_row_colors: bool,
    /// Whether grid lines are drawn.
    pub show_grid: bool,
    pub grid_color: Color,
    pub background_color: Color,
}

/// Whether cell (`row`, `col`) is selected: it is listed, or (selecting rows or columns) a
/// listed cell shares its row or column.
pub open spec fn cell_selected(v: TableWidgetState, row: int, col: int) -> bool {
    match v.behavior {
        SelectionBehavior::SelectItems => v.selected.contains((row, col)),
        SelectionBehavior::SelectRows => exists|i: int| 0 <= i < v.selected.len() && (#[trigger] v.selected[i]).0 == row,
        SelectionBehavior::SelectColumns => exists|i: int| 0 <= i < v.selected.len() && (#[trigger] v.selected[i]).1 == col,
    }
}

/// The colors cell (`row`, `col`) is drawn in: its background and, when it holds an item,
/// its text color. A selected cell is highlighted with white text; a hovered one is tinted;
/// with alternating rows every odd row is grey; else the item's own background, or the
/// table's. An item's text is in its own color, black by default.
pub open spec fn cell_colors_of(
    v: TableWidgetState,
    a: TableAppearance,
    row: int,
    col: int,
    hovered: bool,
) -> (Color, Option<Color>) {
    let item = if 0 <= row < v.cells.len() && 0 <= col < v.cols {
        v.cells[row][col]
    } else {
        None
    };
    let selected = cell_selected(v, row, col);
    let background = if selected {
        Color { r: 51, g: 153, b: 255, a: 255 }
    } else if hovered {
        Color { r: 229, g: 243, b: 255, a: 255 }
    } else if a.alternate_row_colors && row % 2 == 1 {
        Color { r: 245, g: 245, b: 245, a: 255 }
    } else {
        match item {
            Some(i) => match i.background {
                Some(c) => c,
                None => a.background_color,
            },
            None => a.background_color,
        }
    };
    let text = match item {
        Some(i) => Some(
            if selected {
                Color { r: 255, g: 255, b: 255, a: 255 }
            } else {
                match i.foreground {
                    Some(c) => c,
                    None => Color { r: 0, g: 0, b: 0, a: 255 },
                }
            },
        ),
        None => None,
    };
    (background, text)
}

/// A table widget holding items in a grid of cells.
pub struct TableWidget {
    cells: Vec<Vec<Option<TableWidgetItem>>>,
    column_count: usize,
    horizontal_headers: Vec<String>,
    vertical_headers: Vec<String>,
    show_horizontal_header: bool,
    show_vertical_header: bool,
    current_row: Option<usize>,
    current_column: Option<usize>,
    selection_mode: SelectionMode,
    selection_behavior: SelectionBehavior,
    selected_cells: Vec<(usize, usize)>,
    pressed_cell: Option<(usize, usize)>,
    events: Vec<TableWidgetEvent>,
    appearance: TableAppearance,
}

pub open spec fn opt_int(c: Option<usize>) -> Option<int> {
    match c {
        Some(x) => Some(x as int),
        None => None,
    }
}

pub open spec fn strs(v: Seq<String>) -> Seq<Seq<char>> {
    v.map_values(|s: String| s@)
}

impl View for TableWidget {
    type V = TableWidgetState;

    closed spec fn view(&self) -> TableWidgetState {
        TableWidgetState {
            cells: cell_views(self.cells@),
            cols: self.column_count as int,
            horizontal_headers: strs(self.horizontal_headers@),
            vertical_headers: strs(self.vertical_headers@),
            show_horizontal_header: self.show_horizontal_header,
            show_vertical_header: self.show_vertical_header,
            current_row: opt_int(self.current_row),
            current_column: opt_int(self.current_column),
            mode: self.selection_mode,
            behavior: self.selection_behavior,
            selected: self.selected_cells@.map_values(|p: (usize, usize)| (p.0 as int, p.1 as int)),
            pressed: match self.pressed_cell {
                Some(p) => Some((p.0 as int, p.1 as int)),
                None => None,
            },
            events: self.events@,
        }
    }
}

impl TableWidget {
    #[verifier::type_invariant]
    spec fn inv(self) -> bool {
        &&& forall|i: int| 0 <= i < self.cells@.len() ==> (#[trigger] self.cells@[i])@.len() == self.column_count
        &&& self.current_row matches Some(r) ==> r < self.cells@.len()
        &&& self.current_column matches Some(c) ==> c < self.column_count
    }

    /// How the table is drawn.
    pub closed spec fn spec_appearance(&self) -> TableAppearance {
        self.appearance
    }

    /// Every row holds one cell per column.
    pub open spec fn rectangular(v: TableWidgetState) -> bool {
        forall|i: int| 0 <= i < v.cells.len() ==> (#[trigger] v.cells[i]).len() == v.cols
    }

    /// Every row holds one cell per column.
    pub fn check_rectangular(&self)
        ensures
            Self::rectangular(self@),
    {
        proof {
            use_type_invariant(self);
        }
    }

    fn take(&mut self) -> (r: TableWidget)
        ensures
            r == *old(self),
    {
        let mut r = TableWidget::new(0, 0);
        std::mem::swap(&mut r, self);
        r
    }

    /// A table of `rows` by `columns` empty cells, single selection of items, the column
    /// header shown and the row header hidden.
    pub fn new(rows: usize, columns: usize) -> (r: Self)
        ensures
            r@ == (TableWidgetState {
                cells: Seq::new(rows as nat, |i: int| empty_row(columns as int)),
                cols: columns as int,
                horizontal_headers: Seq::empty(),
                vertical_headers: Seq::empty(),
                show_horizontal_header: true,
                show_vertical_header: false,
                current_row: None,
                current_column: None,
                mode: SelectionMode::SingleSelection,
                behavior: SelectionBehavior::SelectItems,
                selected: Seq::empty(),
                pressed: None,
                events: Seq::empty(),
            }),
            r.spec_appearance() == (TableAppearance {
                alternate_row_colors: true,
                show_grid: true,
                grid_color: Color { r: 220, g: 220, b: 220, a: 255 },
                background_color: Color { r: 255, g: 255, b: 255, a: 255 },
            }),
    {
        let mut cells: Vec<Vec<Option<TableWidgetItem>>> = Vec::new();
        let mut i: usize = 0;
        while i < rows
            invariant
                i <= rows,
                cells@.len() == i,
                forall|k: int| 0 <= k < i ==> (#[trigger] cells@[k])@.len() == columns,
                cell_views(cells@) == Seq::new(i as nat, |k: int| empty_row(columns as int)),
            decreases rows - i,
        {
            let row = Self::empty_cells(columns);
            let ghost before = cells@;
            cells.push(row);
            i = i + 1;
            assert forall|k: int| 0 <= k < i implies cell_views(cells@)[k] == Seq::new(i as nat, |k2: int| empty_row(columns as int))[k] by {
                if k < i - 1 {
                    assert(cells@[k] == before[k]);
                    assert(cell_views(before)[k] == Seq::new((i - 1) as nat, |k2: int| empty_row(columns as int))[k]);
                }
            }
            assert(cell_views(cells@) =~= Seq::new(i as nat, |k: int| empty_row(columns as int)));
        }
        let r = TableWidget {
            cells,
            column_count: columns,
            horizontal_headers: Vec::new(),
            vertical_headers: Vec::new(),
            show_horizontal_header: true,
            show_vertical_header: false,
            current_row: None,
            current_column: None,
            selection_mode: SelectionMode::SingleSelection,
            selection_behavior: SelectionBehavior::SelectItems,
            selected_cells: Vec::new(),
            pressed_cell: None,
            events: Vec::new(),
            appearance: TableAppearance {
                alternate_row_colors: true,
                show_grid: true,
                grid_color: Color::from_rgb8(220, 220, 220),
                background_color: Color::WHITE(),
            },
        };
        assert(r@ =~= (TableWidgetState {
            cells: Seq::new(rows as nat, |i: int| empty_row(columns as int)),
            cols: columns as int,
            horizontal_headers: Seq::empty(),
            vertical_headers: Seq::empty(),
            show_horizontal_header: true,
            show_vertical_header: false,
            current_row: None,
            current_column: None,
            mode: SelectionMode::SingleSelection,
            behavior: SelectionBehavior::SelectItems,
            selected: Seq::empty(),
            pressed: None,
            events: Seq::empty(),
        }));
        r
    }

    fn empty_cells(columns: usize) -> (r: Vec<Option<TableWidgetItem>>)
        ensures
            r@.len() == columns,
            row_view(r@) == empty_row(columns as int),
    {
        let mut row: Vec<Option<TableWidgetItem>> = Vec::new();
        let mut j: usize = 0;
        while j < columns
            invariant
                j <= columns,
                row@.len() == j,
                row_view(row@) == empty_row(j as int),
            decreases columns - j,
        {
            let ghost before = row@;
            row.push(None);
            j = j + 1;
            assert forall|k: int| 0 <= k < j implies row_view(row@)[k] == empty_row(j as int)[k] by {
                if k < j - 1 {
                    assert(row@[k] == before[k]);
                    assert(row_view(before)[k] == empty_row(j - 1)[k]);
                }
            }
            assert(row_view(row@) =~= empty_row(j as int));
        }
        row
    }

    /// Take the notifications owed, in order.
    pub fn take_events(&mut self) -> (r: Vec<TableWidgetEvent>)
        ensures
            r@ == old(self)@.events,
            final(self)@ == (TableWidgetState { events: Seq::empty(), ..old(self)@ }),
            final(self).spec_appearance() == old(self).spec_appearance(),
    {
        proof {
            use_type_invariant(&*self);
        }
        let mut out: Vec<TableWidgetEvent> = Vec::new();
        std::mem::swap(&mut out, &mut self.events);
        assert(self@ =~= (TableWidgetState { events: Seq::empty(), ..old(self)@ }));
        out
    }

    /// The number of rows.
    pub fn row_count(&self) -> (r: usize)
        ensures
            r == self@.cells.len(),
    {
        self.cells.len()
    }

    /// The number of columns.
    pub fn column_count(&self) -> (r: usize)
        ensures
            r == self@.cols,
    {
        self.column_count
    }

    /// The item at (`row`, `column`), if the cell exists and holds one.
    pub fn item(&self, row: usize, column: usize) -> (r: Option<TableWidgetItem>)
        ensures
            match r {
                Some(i) => row < self@.cells.len() && column < self@.cols && self@.cells[row as int][column as int] == Some(i@),
                None => !(row < self@.cells.len() && column < self@.cols) || self@.cells[row as int][column as int] is None,
            },
    {
        proof {
            use_type_invariant(self);
        }
        if row >= self.cells.len() || column >= self.column_count {
            return None;
        }
        match &self.cells[row][column] {
            Some(i) => Some(i.clone()),
            None => None,
        }
    }

    /// What cell (`row`, `column`) hands out for `role` (see `cell_role_value`).
    pub fn cell_data(&self, row: usize, column: usize, role: ItemRole) -> (r: ItemData)
        ensures
            r@ == cell_role_value(self@, row as int, column as int, role),
    {
        proof {
            use_type_invariant(self);
        }
        if row >= self.cells.len() || column >= self.column_count {
            return ItemData::Empty;
        }
        let item = match &self.cells[row][column] {
            Some(i) => i,
            None => {
                return ItemData::Empty;
            },
        };
        assert(self@.cells[row as int][column as int] == Some(item@));
        match role {
            ItemRole::Display => ItemData::String(item.text.clone()),
            ItemRole::ToolTip => match &item.tooltip {
                Some(t) => ItemData::String(t.clone()),
                None => ItemData::Empty,
            },
            ItemRole::CheckState => match item.check_state {
                Some(c) => ItemData::CheckState(c),
                None => ItemData::Empty,
            },
            ItemRole::BackgroundColor => match item.background {
                Some(c) => ItemData::Color(c),
                None => ItemData::Empty,
            },
            ItemRole::ForegroundColor => match item.foreground {
                Some(c) => ItemData::Color(c),
                None => ItemData::Empty,
            },
            ItemRole::TextAlignment => ItemData::TextAlignment(item.text_alignment),
            ItemRole::User(n) => match item.data(n) {
                Some(d) => d.clone(),
                None => ItemData::Empty,
            },
            _ => ItemData::Empty,
        }
    }

    /// What section `section` of a header hands out for `role` (see `header_role_value`).
    pub fn header_data(&self, section: usize, orientation: Orientation, role: ItemRole) -> (r: ItemData)
        ensures
            r@ == header_role_value(self@, section as int, orientation, role),
    {
        if role != ItemRole::Display {
            return ItemData::Empty;
        }
        let labels = match orientation {
            Orientation::Horizontal => &self.horizontal_headers,
            Orientation::Vertical => &self.vertical_headers,
        };
        if section < labels.len() {
            ItemData::String(labels[section].clone())
        } else {
            ItemData::Empty
        }
    }

    fn put(&mut self, row: usize, column: usize, item: Option<TableWidgetItem>)
        requires
            row < old(self)@.cells.len(),
            column < old(self)@.cols,
        ensures
            final(self)@ == (TableWidgetState {
                cells: old(self)@.cells.update(
                    row as int,
                    old(self)@.cells[row as int].update(column as int, cell_view(item)),
                ),
                ..old(self)@
            }),
            final(self).spec_appearance() == old(self).spec_appearance(),
    {
        proof {
            use_type_invariant(&*self);
        }
        let whole = self.take();
        proof {
            use_type_invariant(&whole);
        }
        let TableWidget {
            mut cells,
            column_count,
            horizontal_headers,
            vertical_headers,
            show_horizontal_header,
            show_vertical_header,
            current_row,
            current_column,
            selection_mode,
            selection_behavior,
            selected_cells,
            pressed_cell,
            events,
            appearance,
        } = whole;
        let mut r = cells.remove(row);
        let ghost before_row = r@;
        r.set(column, item);
        cells.insert(row, r);
        *self = TableWidget {
            cells,
            column_count,
            horizontal_headers,
            vertical_headers,
            show_horizontal_header,
            show_vertical_header,
            current_row,
            current_column,
            selection_mode,
            selection_behavior,
            selected_cells,
            pressed_cell,
            events,
            appearance,
        };
        assert(row_view(self.cells@[row as int]@) =~= old(self)@.cells[row as int].update(
            column as int,
            cell_view(item),
        ));
        assert(self@.cells =~= old(self)@.cells.update(
            row as int,
            old(self)@.cells[row as int].update(column as int, cell_view(item)),
        ));
        assert(self@ =~= (TableWidgetState {
            cells: old(self)@.cells.update(
                row as int,
                old(self)@.cells[row as int].update(column as int, cell_view(item)),
            ),
            ..old(self)@
        }));
    }

    fn push_event(&mut self, e: TableWidgetEvent)
        ensures
            final(self)@ == (TableWidgetState { events: old(self)@.events.push(e), ..old(self)@ }),
            final(self).spec_appearance() == old(self).spec_appearance(),
    {
        proof {
            use_type_invariant(&*self);
        }
        let mut ev: Vec<TableWidgetEvent> = Vec::new();
        std::mem::swap(&mut ev, &mut self.events);
        ev.push(e);
        std::mem::swap(&mut ev, &mut self.events);
        assert(self@ =~= (TableWidgetState { events: old(self)@.events.push(e), ..old(self)@ }));
    }

    /// Put `item` at (`row`, `column`) (nothing outside the table); the change is notified.
    pub fn set_item(&mut self, row: usize, column: usize, item: TableWidgetItem)
        ensures
            final(self)@ == (if row < old(self)@.cells.len() && column < old(self)@.cols {
                TableWidgetState {
                    cells: old(self)@.cells.update(
                        row as int,
                        old(self)@.cells[row as int].update(column as int, Some(item@)),
                    ),
                    events: old(self)@.events.push(TableWidgetEvent::CellChanged(row, column)),
                    ..old(self)@
                }
            } else {
                old(self)@
            }),
            final(self).spec_appearance() == old(self).spec_appearance(),
    {
        if row >= self.cells.len() || column >= self.column_count {
            return;
        }
        self.put(row, column, Some(item));
        self.push_event(TableWidgetEvent::CellChanged(row, column));
    }

    /// Take the item out of (`row`, `column`), if the cell exists and holds one; a removal is
    /// notified.
    pub fn take_item(&mut self, row: usize, column: usize) -> (r: Option<TableWidgetItem>)
        ensures
            ({
                let inside = row < old(self)@.cells.len() && column < old(self)@.cols;
                &&& inside ==> cell_view(r) == old(self)@.cells[row as int][column as int]
                &&& !inside ==> r is None
                &&& final(self)@ == (if inside && r is Some {
                    TableWidgetState {
                        cells: old(self)@.cells.update(
                            row as int,
                            old(self)@.cells[row as int].update(column as int, None),
                        ),
                        events: old(self)@.events.push(TableWidgetEvent::CellChanged(row, column)),
                        ..old(self)@
                    }
                } else {
                    old(self)@
                })
            }),
            final(self).spec_appearance() == old(self).spec_appearance(),
    {
        proof {
            use_type_invariant(&*self);
        }
        if row >= self.cells.len() || column >= self.column_count {
            return None;
        }
        let item = match &self.cells[row][column] {
            Some(i) => Some(i.clone()),
            None => None,
        };
        if item.is_some() {
            self.put(row, column, None);
            self.push_event(TableWidgetEvent::CellChanged(row, column));
        }
        item
    }

    /// Put a new item showing `text` at (`row`, `column`) (nothing outside the table).
    pub fn set_cell_text(&mut self, row: usize, column: usize, text: &str)
        ensures
            final(self)@ == (if row < old(self)@.cells.len() && column < old(self)@.cols {
                TableWidgetState {
                    cells: old(self)@.cells.update(
                        row as int,
                        old(self)@.cells[row as int].update(column as int, Some(text_item(text@))),
                    ),
                    events: old(self)@.events.push(TableWidgetEvent::CellChanged(row, column)),
                    ..old(self)@
                }
            } else {
                old(self)@
            }),
            final(self).spec_appearance() == old(self).spec_appearance(),
    {
        self.set_item(row, column, TableWidgetItem::new(text));
    }

    /// The text of the item at (`row`, `column`), if the cell exists and holds one.
    pub fn cell_text(&self, row: usize, column: usize) -> (r: Option<String>)
        ensures
            match r {
                Some(t) => row < self@.cells.len() && column < self@.cols && self@.cells[row as int][column as int] is Some
                    && self@.cells[row as int][column as int]->0.text == t@,
                None => !(row < self@.cells.len() && column < self@.cols) || self@.cells[row as int][column as int] is None,
            },
    {
        match self.item(row, column) {
            Some(i) => Some(i.text.clone()),
            None => None,
        }
    }

    /// Empty every cell, keeping the table's size.
    pub fn clear_contents(&mut self)
        ensures
            final(self)@ == (TableWidgetState {
                cells: Seq::new(old(self)@.cells.len(), |i: int| empty_row(old(self)@.cols)),
                ..old(self)@
            }),
            final(self).spec_appearance() == old(self).spec_appearance(),
    {
        proof {
            use_type_invariant(&*self);
        }
        let whole = self.take();
        proof {
            use_type_invariant(&whole);
        }
        let TableWidget {
            cells,
            column_count,
            horizontal_headers,
            vertical_headers,
            show_horizontal_header,
            show_vertical_header,
            current_row,
            current_column,
            selection_mode,
            selection_behavior,
            selected_cells,
            pressed_cell,
            events,
            appearance,
        } = whole;
        let rows = cells.len();
        let mut fresh: Vec<Vec<Option<TableWidgetItem>>> = Vec::new();
        let mut i: usize = 0;
        while i < rows
            invariant
                i <= rows,
                fresh@.len() == i,
                forall|k: int| 0 <= k < i ==> (#[trigger] fresh@[k])@.len() == column_count,
                cell_views(fresh@) == Seq::new(i as nat, |k: int| empty_row(column_count as int)),
            decreases rows - i,
        {
            let ghost before = fresh@;
            fresh.push(Self::empty_cells(column_count));
            i = i + 1;
            assert forall|k: int| 0 <= k < i implies cell_views(fresh@)[k] == Seq::new(i as nat, |k2: int| empty_row(column_count as int))[k] by {
                if k < i - 1 {
                    assert(fresh@[k] == before[k]);
                    assert(cell_views(before)[k] == Seq::new((i - 1) as nat, |k2: int| empty_row(column_count as int))[k]);
                }
            }
            assert(cell_views(fresh@) =~= Seq::new(i as nat, |k: int| empty_row(column_count as int)));
        }
        *self = TableWidget {
            cells: fresh,
            column_count,
            horizontal_headers,
            vertical_headers,
            show_horizontal_header,
            show_vertical_header,
            current_row,
            current_column,
            selection_mode,
            selection_behavior,
            selected_cells,
            pressed_cell,
            events,
            appearance,
        };
        assert(self@ =~= (TableWidgetState {
            cells: Seq::new(old(self)@.cells.len(), |i: int| empty_row(old(self)@.cols)),
            ..old(self)@
        }));
    }

    /// Remove every row and column; no cell is current or selected.
    pub fn clear(&mut self)
        ensures
            final(self)@ == (TableWidgetState {
                cells: Seq::empty(),
                cols: 0,
                current_row: None,
                current_column: None,
                selected: Seq::empty(),
                ..old(self)@
            }),
            final(self).spec_appearance() == old(self).spec_appearance(),
    {
        proof {
            use_type_invariant(&*self);
        }
        let whole = self.take();
        proof {
            use_type_invariant(&whole);
        }
        let TableWidget {
            cells: _,
            column_count: _,
            horizontal_headers,
            vertical_headers,
            show_horizontal_header,
            show_vertical_header,
            current_row: _,
            current_column: _,
            selection_mode,
            selection_behavior,
            selected_cells: _,
            pressed_cell,
            events,
            appearance,
        } = whole;
        *self = TableWidget {
            cells: Vec::new(),
            column_count: 0,
            horizontal_headers,
            vertical_headers,
            show_horizontal_header,
            show_vertical_header,
            current_row: None,
            current_column: None,
            selection_mode,
            selection_behavior,
            selected_cells: Vec::new(),
            pressed_cell,
            events,
            appearance,
        };
        assert(self@ =~= (TableWidgetState {
            cells: Seq::empty(),
            cols: 0,
            current_row: None,
            current_column: None,
            selected: Seq::empty(),
            ..old(self)@
        }));
    }

    /// Insert an empty row at `row` (at the end past it); the current row moves along.
    pub fn insert_row(&mut self, row: usize)
        ensures
            ({
                let at = if row < old(self)@.cells.len() {
                    row as int
                } else {
                    old(self)@.cells.len() as int
                };
                final(self)@ == (TableWidgetState {
                    cells: old(self)@.cells.insert(at, empty_row(old(self)@.cols)),
                    current_row: index_after_insertion(old(self)@.current_row, at),
                    ..old(self)@
                })
            }),
            final(self).spec_appearance() == old(self).spec_appearance(),
    {
        proof {
            use_type_invariant(&*self);
        }
        let whole = self.take();
        proof {
            use_type_invariant(&whole);
        }
        let TableWidget {
            mut cells,
            column_count,
            horizontal_headers,
            vertical_headers,
            show_horizontal_header,
            show_vertical_header,
            current_row,
            current_column,
            selection_mode,
            selection_behavior,
            selected_cells,
            pressed_cell,
            events,
            appearance,
        } = whole;
        let at = if row < cells.len() {
            row
        } else {
            cells.len()
        };
        let fresh = Self::empty_cells(column_count);
        cells.insert(at, fresh);
        let new_current = match current_row {
            Some(c) => if c >= at {
                Some(c + 1)
            } else {
                Some(c)
            },
            None => None,
        };
        *self = TableWidget {
            cells,
            column_count,
            horizontal_headers,
            vertical_headers,
            show_horizontal_header,
            show_vertical_header,
            current_row: new_current,
            current_column,
            selection_mode,
            selection_behavior,
            selected_cells,
            pressed_cell,
            events,
            appearance,
        };
        assert(self@.cells =~= old(self)@.cells.insert(at as int, empty_row(old(self)@.cols)));
        assert(self@ =~= (TableWidgetState {
            cells: old(self)@.cells.insert(at as int, empty_row(old(self)@.cols)),
            current_row: index_after_insertion(old(self)@.current_row, at as int),
            ..old(self)@
        }));
    }

    /// Remove row `row` (nothing when there is no such row); the current row follows.
    pub fn remove_row(&mut self, row: usize)
        ensures
            final(self)@ == (if row < old(self)@.cells.len() {
                TableWidgetState {
                    cells: old(self)@.cells.remove(row as int),
                    current_row: index_after_removal(old(self)@.current_row, row as int, old(self)@.cells.len() as int),
                    ..old(self)@
                }
            } else {
                old(self)@
            }),
            final(self).spec_appearance() == old(self).spec_appearance(),
    {
        proof {
            use_type_invariant(&*self);
        }
        if row >= self.cells.len() {
            return;
        }
        let whole = self.take();
        proof {
            use_type_invariant(&whole);
        }
        let TableWidget {
            mut cells,
            column_count,
            horizontal_headers,
            vertical_headers,
            show_horizontal_header,
            show_vertical_header,
            current_row,
            current_column,
            selection_mode,
            selection_behavior,
            selected_cells,
            pressed_cell,
            events,
            appearance,
        } = whole;
        let rows = cells.len();
        let _gone = cells.remove(row);
        let new_current = match current_row {
            Some(c) => if c == row {
                if rows - 1 > 0 {
                    Some(if c < rows - 2 {
                        c
                    } else {
                        rows - 2
                    })
                } else {
                    None
                }
            } else if c > row {
                Some(c - 1)
            } else {
                Some(c)
            },
            None => None,
        };
        *self = TableWidget {
            cells,
            column_count,
            horizontal_headers,
            vertical_headers,
            show_horizontal_header,
            show_vertical_header,
            current_row: new_current,
            current_column,
            selection_mode,
            selection_behavior,
            selected_cells,
            pressed_cell,
            events,
            appearance,
        };
        assert(self@.cells =~= old(self)@.cells.remove(row as int));
        assert(self@ =~= (TableWidgetState {
            cells: old(self)@.cells.remove(row as int),
            current_row: index_after_removal(old(self)@.current_row, row as int, old(self)@.cells.len() as int),
            ..old(self)@
        }));
    }

    /// Insert an empty column at `column` (at the end past it); the current column moves
    /// along.
    pub fn insert_column(&mut self, column: usize)
        requires
            old(self)@.cols < usize::MAX,
        ensures
            ({
                let at = if column < old(self)@.cols {
                    column as int
                } else {
                    old(self)@.cols
                };
                final(self)@ == (TableWidgetState {
                    cells: Seq::new(
                        old(self)@.cells.len(),
                        |i: int| old(self)@.cells[i].insert(at, None::<ItemView>),
                    ),
                    cols: old(self)@.cols + 1,
                    current_column: index_after_insertion(old(self)@.current_column, at),
                    ..old(self)@
                })
            }),
            final(self).spec_appearance() == old(self).spec_appearance(),
    {
        proof {
            use_type_invariant(&*self);
        }
        let whole = self.take();
        proof {
            use_type_invariant(&whole);
        }
        let TableWidget {
            cells,
            column_count,
            horizontal_headers,
            vertical_headers,
            show_horizontal_header,
            show_vertical_header,
            current_row,
            current_column,
            selection_mode,
            selection_behavior,
            selected_cells,
            pressed_cell,
            events,
            appearance,
        } = whole;
        let at = if column < column_count {
            column
        } else {
            column_count
        };
        let ghost old_cells = cell_views(cells@);
        let mut rest = cells;
        let mut done: Vec<Vec<Option<TableWidgetItem>>> = Vec::new();
        let n = rest.len();
        let mut k: usize = 0;
        while k < n
            invariant
                k <= n,
                n == old_cells.len(),
                rest@.len() == n - k,
                done@.len() == k,
                at <= column_count,
                forall|i: int| 0 <= i < rest@.len() ==> (#[trigger] rest@[i])@.len() == column_count,
                forall|i: int| 0 <= i < rest@.len() ==> row_view((#[trigger] rest@[i])@) == old_cells[n - rest@.len() + i],
                forall|i: int| 0 <= i < k ==> (#[trigger] done@[i])@.len() == column_count + 1,
                forall|i: int| 0 <= i < k ==> row_view((#[trigger] done@[i])@) == old_cells[i].insert(at as int, None::<ItemView>),
            decreases n - k,
        {
            let mut r = rest.remove(0);
            proof {
                assert(row_view(r@) == old_cells[k as int]);
            }
            r.insert(at, None);
            assert(row_view(r@) =~= old_cells[k as int].insert(at as int, None::<ItemView>));
            done.push(r);
            k = k + 1;
            proof {
                assert forall|i: int| 0 <= i < rest@.len() implies row_view((#[trigger] rest@[i])@) == old_cells[n
                    - rest@.len() + i] by {}
            }
        }
        let new_current = match current_column {
            Some(c) => if c >= at {
                Some(c + 1)
            } else {
                Some(c)
            },
            None => None,
        };
        *self = TableWidget {
            cells: done,
            column_count: column_count + 1,
            horizontal_headers,
            vertical_headers,
            show_horizontal_header,
            show_vertical_header,
            current_row,
            current_column: new_current,
            selection_mode,
            selection_behavior,
            selected_cells,
            pressed_cell,
            events,
            appearance,
        };
        assert(self@.cells =~= Seq::new(
            old(self)@.cells.len(),
            |i: int| old(self)@.cells[i].insert(at as int, None::<ItemView>),
        ));
        assert(self@ =~= (TableWidgetState {
            cells: Seq::new(
                old(self)@.cells.len(),
                |i: int| old(self)@.cells[i].insert(at as int, None::<ItemView>),
            ),
            cols: old(self)@.cols + 1,
            current_column: index_after_insertion(old(self)@.current_column, at as int),
            ..old(self)@
        }));
    }

    /// Remove column `column` (nothing when there is no such column); the current column
    /// follows.
    pub fn remove_column(&mut self, column: usize)
        ensures
            final(self)@ == (if column < old(self)@.cols {
                TableWidgetState {
                    cells: Seq::new(old(self)@.cells.len(), |i: int| old(self)@.cells[i].remove(column as int)),
                    cols: old(self)@.cols - 1,
                    current_column: index_after_removal(old(self)@.current_column, column as int, old(self)@.cols),
                    ..old(self)@
                }
            } else {
                old(self)@
            }),
            final(self).spec_appearance() == old(self).spec_appearance(),
    {
        proof {
            use_type_invariant(&*self);
        }
        if column >= self.column_count {
            return;
        }
        let whole = self.take();
        proof {
            use_type_invariant(&whole);
        }
        let TableWidget {
            cells,
            column_count,
            horizontal_headers,
            vertical_headers,
            show_horizontal_header,
            show_vertical_header,
            current_row,
            current_column,
            selection_mode,
            selection_behavior,
            selected_cells,
            pressed_cell,
            events,
            appearance,
        } = whole;
        let ghost old_cells = cell_views(cells@);
        let mut rest = cells;
        let mut done: Vec<Vec<Option<TableWidgetItem>>> = Vec::new();
        let n = rest.len();
        let mut k: usize = 0;
        while k < n
            invariant
                k <= n,
                n == old_cells.len(),
                rest@.len() == n - k,
                done@.len() == k,
                column < column_count,
                forall|i: int| 0 <= i < rest@.len() ==> (#[trigger] rest@[i])@.len() == column_count,
                forall|i: int| 0 <= i < rest@.len() ==> row_view((#[trigger] rest@[i])@) == old_cells[n - rest@.len() + i],
                forall|i: int| 0 <= i < k ==> (#[trigger] done@[i])@.len() == column_count - 1,
                forall|i: int| 0 <= i < k ==> row_view((#[trigger] done@[i])@) == old_cells[i].remove(column as int),
            decreases n - k,
        {
            let mut r = rest.remove(0);
            proof {
                assert(row_view(r@) == old_cells[k as int]);
            }
            let _gone = r.remove(column);
            assert(row_view(r@) =~= old_cells[k as int].remove(column as int));
            done.push(r);
            k = k + 1;
            proof {
                assert forall|i: int| 0 <= i < rest@.len() implies row_view((#[trigger] rest@[i])@) == old_cells[n
                    - rest@.len() + i] by {}
            }
        }
        let cols = column_count;
        let new_current = match current_column {
            Some(c) => if c == column {
                if cols - 1 > 0 {
                    Some(if c < cols - 2 {
                        c
                    } else {
                        cols - 2
                    })
                } else {
                    None
                }
            } else if c > column {
                Some(c - 1)
            } else {
                Some(c)
            },
            None => None,
        };
        *self = TableWidget {
            cells: done,
            column_count: column_count - 1,
            horizontal_headers,
            vertical_headers,
            show_horizontal_header,
            show_vertical_header,
            current_row,
            current_column: new_current,
            selection_mode,
            selection_behavior,
            selected_cells,
            pressed_cell,
            events,
            appearance,
        };
        assert(self@.cells =~= Seq::new(old(self)@.cells.len(), |i: int| old(self)@.cells[i].remove(column as int)));
        assert(self@ =~= (TableWidgetState {
            cells: Seq::new(old(self)@.cells.len(), |i: int| old(self)@.cells[i].remove(column as int)),
            cols: old(self)@.cols - 1,
            current_column: index_after_removal(old(self)@.current_column, column as int, old(self)@.cols),
            ..old(self)@
        }));
    }

    /// Set the number of rows: new rows are empty, rows past the count go, and a current row
    /// past the end becomes the last row.
    pub fn set_row_count(&mut self, count: usize)
        ensures
            final(self)@ == (if count == old(self)@.cells.len() {
                old(self)@
            } else if count > old(self)@.cells.len() {
                TableWidgetState {
                    cells: old(self)@.cells + Seq::new((count - old(self)@.cells.len()) as nat, |i: int| empty_row(old(self)@.cols)),
                    ..old(self)@
                }
            } else {
                TableWidgetState {
                    cells: old(self)@.cells.take(count as int),
                    current_row: index_after_resize(old(self)@.current_row, count as int),
                    ..old(self)@
                }
            }),
            final(self).spec_appearance() == old(self).spec_appearance(),
    {
        proof {
            use_type_invariant(&*self);
        }
        let old_count = self.cells.len();
        if count == old_count {
            return;
        }
        let whole = self.take();
        proof {
            use_type_invariant(&whole);
        }
        let TableWidget {
            mut cells,
            column_count,
            horizontal_headers,
            vertical_headers,
            show_horizontal_header,
            show_vertical_header,
            current_row,
            current_column,
            selection_mode,
            selection_behavior,
            selected_cells,
            pressed_cell,
            events,
            appearance,
        } = whole;
        let ghost old_cells = cell_views(cells@);
        let mut new_current = current_row;
        if count > old_count {
            let mut i = old_count;
            while i < count
                invariant
                    old_count <= i <= count,
                    old_cells.len() == old_count,
                    cells@.len() == i,
                    forall|k: int| 0 <= k < i ==> (#[trigger] cells@[k])@.len() == column_count,
                    cell_views(cells@) == old_cells + Seq::new((i - old_count) as nat, |k: int| empty_row(column_count as int)),
                decreases count - i,
            {
                let ghost before = cells@;
                cells.push(Self::empty_cells(column_count));
                i = i + 1;
                assert forall|k: int| 0 <= k < i implies cell_views(cells@)[k] == (old_cells + Seq::new((i - old_count) as nat, |k2: int| empty_row(column_count as int)))[k] by {
                    if k < i - 1 {
                        assert(cells@[k] == before[k]);
                        assert(cell_views(before)[k] == (old_cells + Seq::new((i - 1 - old_count) as nat, |k2: int| empty_row(column_count as int)))[k]);
                    }
                }
                assert(cell_views(cells@) =~= old_cells + Seq::new((i - old_count) as nat, |k: int| empty_row(column_count as int)));
            }
        } else {
            cells.truncate(count);
            assert(cell_views(cells@) =~= old_cells.take(count as int));
            new_current = match current_row {
                Some(r) => if r >= count {
                    if count > 0 {
                        Some(count - 1)
                    } else {
                        None
                    }
                } else {
                    Some(r)
                },
                None => None,
            };
        }
        *self = TableWidget {
            cells,
            column_count,
            horizontal_headers,
            vertical_headers,
            show_horizontal_header,
            show_vertical_header,
            current_row: new_current,
            current_column,
            selection_mode,
            selection_behavior,
            selected_cells,
            pressed_cell,
            events,
            appearance,
        };
        proof {
            if count > old_count {
                assert(self@ =~= (TableWidgetState {
                    cells: old(self)@.cells + Seq::new((count - old(self)@.cells.len()) as nat, |i: int| empty_row(old(self)@.cols)),
                    ..old(self)@
                }));
            } else {
                assert(self@ =~= (TableWidgetState {
                    cells: old(self)@.cells.take(count as int),
                    current_row: index_after_resize(old(self)@.current_row, count as int),
                    ..old(self)@
                }));
            }
        }
    }

    /// Set the number of columns: each row grows with empty cells or is cut, and a current
    /// column past the end becomes the last column.
    pub fn set_column_count(&mut self, count: usize)
        ensures
            final(self)@ == (if count == old(self)@.cols {
                old(self)@
            } else {
                TableWidgetState {
                    cells: Seq::new(old(self)@.cells.len(), |i: int| resized_row(old(self)@.cells[i], count as int)),
                    cols: count as int,
                    current_column: index_after_resize(old(self)@.current_column, count as int),
                    ..old(self)@
                }
            }),
            final(self).spec_appearance() == old(self).spec_appearance(),
    {
        proof {
            use_type_invariant(&*self);
        }
        if count == self.column_count {
            return;
        }
        let whole = self.take();
        proof {
            use_type_invariant(&whole);
        }
        let TableWidget {
            cells,
            column_count,
            horizontal_headers,
            vertical_headers,
            show_horizontal_header,
            show_vertical_header,
            current_row,
            current_column,
            selection_mode,
            selection_behavior,
            selected_cells,
            pressed_cell,
            events,
            appearance,
        } = whole;
        let ghost old_cells = cell_views(cells@);
        let mut rest = cells;
        let mut done: Vec<Vec<Option<TableWidgetItem>>> = Vec::new();
        let n = rest.len();
        let mut k: usize = 0;
        while k < n
            invariant
                k <= n,
                n == old_cells.len(),
                rest@.len() == n - k,
                done@.len() == k,
                forall|i: int| 0 <= i < rest@.len() ==> (#[trigger] rest@[i])@.len() == column_count,
                forall|i: int| 0 <= i < rest@.len() ==> row_view((#[trigger] rest@[i])@) == old_cells[n - rest@.len() + i],
                forall|i: int| 0 <= i < k ==> (#[trigger] done@[i])@.len() == count,
                forall|i: int| 0 <= i < k ==> row_view((#[trigger] done@[i])@) == resized_row(old_cells[i], count as int),
            decreases n - k,
        {
            let mut r = rest.remove(0);
            proof {
                assert(row_view(r@) == old_cells[k as int]);
            }
            if count <= r.len() {
                r.truncate(count);
                assert(row_view(r@) =~= resized_row(old_cells[k as int], count as int));
            } else {
                let ghost before = row_view(r@);
                let mut j = r.len();
                while j < count
                    invariant
                        column_count <= j <= count,
                        before.len() == column_count,
                        r@.len() == j,
                        row_view(r@) == before + empty_row(j - column_count),
                    decreases count - j,
                {
                    let ghost prior = r@;
                    r.push(None);
                    j = j + 1;
                    assert forall|m: int| 0 <= m < j implies row_view(r@)[m] == (before + empty_row(j - column_count))[m] by {
                        if m < j - 1 {
                            assert(r@[m] == prior[m]);
                            assert(row_view(prior)[m] == (before + empty_row(j - 1 - column_count))[m]);
                        }
                    }
                    assert(row_view(r@) =~= before + empty_row(j - column_count));
                }
                assert(row_view(r@) =~= resized_row(old_cells[k as int], count as int));
            }
            done.push(r);
            k = k + 1;
            proof {
                assert forall|i: int| 0 <= i < rest@.len() implies row_view((#[trigger] rest@[i])@) == old_cells[n
                    - rest@.len() + i] by {}
            }
        }
        let new_current = match current_column {
            Some(c) => if c >= count {
                if count > 0 {
                    Some(count - 1)
                } else {
                    None
                }
            } else {
                Some(c)
            },
            None => None,
        };
        *self = TableWidget {
            cells: done,
            column_count: count,
            horizontal_headers,
            vertical_headers,
            show_horizontal_header,
            show_vertical_header,
            current_row,
            current_column: new_current,
            selection_mode,
            selection_behavior,
            selected_cells,
            pressed_cell,
            events,
            appearance,
        };
        assert(self@.cells =~= Seq::new(old(self)@.cells.len(), |i: int| resized_row(old(self)@.cells[i], count as int)));
        assert(self@ =~= (TableWidgetState {
            cells: Seq::new(old(self)@.cells.len(), |i: int| resized_row(old(self)@.cells[i], count as int)),
            cols: count as int,
            current_column: index_after_resize(old(self)@.current_column, count as int),
            ..old(self)@
        }));
    }

    /// How the table is drawn.
    pub fn appearance(&self) -> (r: TableAppearance)
        ensures
            r == self.spec_appearance(),
    {
        self.appearance
    }

    /// Set whether rows alternate their background color.
    pub fn set_alternate_row_colors(&mut self, enabled: bool)
        ensures
            final(self)@ == old(self)@,
            final(self).spec_appearance() == (TableAppearance {
                alternate_row_colors: enabled,
                ..old(self).spec_appearance()
            }),
    {
        proof {
            use_type_invariant(&*self);
        }
        self.appearance.alternate_row_colors = enabled;
    }

    /// Set whether grid lines are drawn.
    pub fn set_show_grid(&mut self, show: bool)
        ensures
            final(self)@ == old(self)@,
            final(self).spec_appearance() == (TableAppearance { show_grid: show, ..old(self).spec_appearance() }),
    {
        proof {
            use_type_invariant(&*self);
        }
        self.appearance.show_grid = show;
    }

    /// Set the grid line color.
    pub fn set_grid_color(&mut self, color: Color)
        ensures
            final(self)@ == old(self)@,
            final(self).spec_appearance() == (TableAppearance { grid_color: color, ..old(self).spec_appearance() }),
    {
        proof {
            use_type_invariant(&*self);
        }
        self.appearance.grid_color = color;
    }

    /// Set the background color.
    pub fn set_background_color(&mut self, color: Color)
        ensures
            final(self)@ == old(self)@,
            final(self).spec_appearance() == (TableAppearance {
                background_color: color,
                ..old(self).spec_appearance()
            }),
    {
        proof {
            use_type_invariant(&*self);
        }
        self.appearance.background_color = color;
    }

    /// Set the column header labels.
    pub fn set_horizontal_header_labels(&mut self, labels: Vec<String>)
        ensures
            final(self)@ == (TableWidgetState { horizontal_headers: strs(labels@), ..old(self)@ }),
            final(self).spec_appearance() == old(self).spec_appearance(),
    {
        proof {
            use_type_invariant(&*self);
        }
        self.horizontal_headers = labels;
        assert(self@ =~= (TableWidgetState { horizontal_headers: strs(labels@), ..old(self)@ }));
    }

    /// Set the row header labels.
    pub fn set_vertical_header_labels(&mut self, labels: Vec<String>)
        ensures
            final(self)@ == (TableWidgetState { vertical_headers: strs(labels@), ..old(self)@ }),
            final(self).spec_appearance() == old(self).spec_appearance(),
    {
        proof {
            use_type_invariant(&*self);
        }
        self.vertical_headers = labels;
        assert(self@ =~= (TableWidgetState { vertical_headers: strs(labels@), ..old(self)@ }));
    }

    /// The column header labels.
    pub fn horizontal_header_labels(&self) -> (r: &[String])
        ensures
            strs(r@) == self@.horizontal_headers,
    {
        self.horizontal_headers.as_slice()
    }

    /// Show or hide the column header.
    pub fn set_horizontal_header_visible(&mut self, visible: bool)
        ensures
            final(self)@ == (TableWidgetState { show_horizontal_header: visible, ..old(self)@ }),
            final(self).spec_appearance() == old(self).spec_appearance(),
    {
        proof {
            use_type_invariant(&*self);
        }
        self.show_horizontal_header = visible;
        assert(self@ =~= (TableWidgetState { show_horizontal_header: visible, ..old(self)@ }));
    }

    /// Show or hide the row header.
    pub fn set_vertical_header_visible(&mut self, visible: bool)
        ensures
            final(self)@ == (TableWidgetState { show_vertical_header: visible, ..old(self)@ }),
            final(self).spec_appearance() == old(self).spec_appearance(),
    {
        proof {
            use_type_invariant(&*self);
        }
        self.show_vertical_header = visible;
        assert(self@ =~= (TableWidgetState { show_vertical_header: visible, ..old(self)@ }));
    }

    /// The current cell, when a row and a column are current.
    pub fn current_cell(&self) -> (r: Option<(usize, usize)>)
        ensures
            r == opt_pair(self@.current_cell()),
    {
        match (self.current_row, self.current_column) {
            (Some(r), Some(c)) => Some((r, c)),
            _ => None,
        }
    }

    /// Make (`row`, `column`) the current cell (see `with_current_cell`).
    pub fn set_current_cell(&mut self, row: usize, column: usize)
        ensures
            final(self)@ == with_current_cell(old(self)@, row as int, column as int),
            final(self).spec_appearance() == old(self).spec_appearance(),
    {
        proof {
            use_type_invariant(&*self);
        }
        if row >= self.cells.len() || column >= self.column_count {
            return;
        }
        let prev = self.current_cell();
        let same = match prev {
            Some(p) => p.0 == row && p.1 == column,
            None => false,
        };
        self.current_row = Some(row);
        self.current_column = Some(column);
        if !same {
            if self.selection_mode == SelectionMode::SingleSelection {
                let mut sel: Vec<(usize, usize)> = Vec::new();
                sel.push((row, column));
                self.selected_cells = sel;
            }
            self.push_event(TableWidgetEvent::CurrentCellChanged(prev, Some((row, column))));
        }
        assert(self@ =~= with_current_cell(old(self)@, row as int, column as int));
    }

    /// How many cells may be selected.
    pub fn selection_mode(&self) -> (r: SelectionMode)
        ensures
            r == self@.mode,
    {
        self.selection_mode
    }

    /// Set how many cells may be selected; no selection deselects every cell.
    pub fn set_selection_mode(&mut self, mode: SelectionMode)
        ensures
            final(self)@ == (TableWidgetState {
                mode: mode,
                selected: if mode == SelectionMode::NoSelection {
                    Seq::empty()
                } else {
                    old(self)@.selected
                },
                ..old(self)@
            }),
            final(self).spec_appearance() == old(self).spec_appearance(),
    {
        proof {
            use_type_invariant(&*self);
        }
        self.selection_mode = mode;
        if mode == SelectionMode::NoSelection {
            self.selected_cells = Vec::new();
        }
        assert(self@ =~= (TableWidgetState {
            mode: mode,
            selected: if mode == SelectionMode::NoSelection {
                Seq::empty()
            } else {
                old(self)@.selected
            },
            ..old(self)@
        }));
    }

    /// What a click selects.
    pub fn selection_behavior(&self) -> (r: SelectionBehavior)
        ensures
            r == self@.behavior,
    {
        self.selection_behavior
    }

    /// Set what a click selects.
    pub fn set_selection_behavior(&mut self, behavior: SelectionBehavior)
        ensures
            final(self)@ == (TableWidgetState { behavior: behavior, ..old(self)@ }),
            final(self).spec_appearance() == old(self).spec_appearance(),
    {
        proof {
            use_type_invariant(&*self);
        }
        self.selection_behavior = behavior;
        assert(self@ =~= (TableWidgetState { behavior: behavior, ..old(self)@ }));
    }

    /// Whether the cell at (`row`, `column`) is selected: it is listed, or (selecting rows or
    /// columns) a listed cell shares its row or column.
    pub fn is_cell_selected(&self, row: usize, column: usize) -> (r: bool)
        ensures
            r == cell_selected(self@, row as int, column as int),
    {
        let mut i: usize = 0;
        while i < self.selected_cells.len()
            invariant
                i <= self.selected_cells@.len(),
                self@.selected.len() == self.selected_cells@.len(),
                forall|k: int| 0 <= k < self.selected_cells@.len() ==> (#[trigger] self@.selected[k]) == (
                self.selected_cells@[k].0 as int, self.selected_cells@[k].1 as int),
                forall|k: int|
                    0 <= k < i ==> !match self@.behavior {
                        SelectionBehavior::SelectItems => (#[trigger] self@.selected[k]) == (row as int, column as int),
                        SelectionBehavior::SelectRows => self@.selected[k].0 == row,
                        SelectionBehavior::SelectColumns => self@.selected[k].1 == column,
                    },
            decreases self.selected_cells@.len() - i,
        {
            let (r, c) = self.selected_cells[i];
            let hit = match self.selection_behavior {
                SelectionBehavior::SelectItems => r == row && c == column,
                SelectionBehavior::SelectRows => r == row,
                SelectionBehavior::SelectColumns => c == column,
            };
            if hit {
                assert(self@.selected[i as int] == (r as int, c as int));
                return true;
            }
            i = i + 1;
        }
        false
    }

    /// The colors cell (`row`, `column`) is drawn in (see `cell_colors_of`); `hovered` tells
    /// whether the pointer is over it.
    pub fn cell_colors(&self, row: usize, column: usize, hovered: bool) -> (r: (Color, Option<Color>))
        ensures
            r == cell_colors_of(self@, self.spec_appearance(), row as int, column as int, hovered),
    {
        proof {
            use_type_invariant(self);
        }
        let selected = self.is_cell_selected(row, column);
        let item: Option<&TableWidgetItem> = if row < self.cells.len() && column < self.column_count {
            match &self.cells[row][column] {
                Some(i) => Some(i),
                None => None,
            }
        } else {
            None
        };
        proof {
            if row < self.cells@.len() && column < self.column_count {
                assert(self@.cells[row as int][column as int] == cell_view(self.cells@[row as int]@[column as int]));
            }
        }
        let background = if selected {
            Color::from_rgb8(51, 153, 255)
        } else if hovered {
            Color::from_rgb8(229, 243, 255)
        } else if self.appearance.alternate_row_colors && row % 2 == 1 {
            Color::from_rgb8(245, 245, 245)
        } else {
            match item {
                Some(i) => match i.background {
                    Some(c) => c,
                    None => self.appearance.background_color,
                },
                None => self.appearance.background_color,
            }
        };
        let text = match item {
            Some(i) => Some(
                if selected {
                    Color::WHITE()
                } else {
                    match i.foreground {
                        Some(c) => c,
                        None => Color::BLACK(),
                    }
                },
            ),
            None => None,
        };
        (background, text)
    }

    /// Deselect every cell.
    pub fn clear_selection(&mut self)
        ensures
            final(self)@ == (TableWidgetState { selected: Seq::empty(), ..old(self)@ }),
            final(self).spec_appearance() == old(self).spec_appearance(),
    {
        proof {
            use_type_invariant(&*self);
        }
        self.selected_cells = Vec::new();
        assert(self@ =~= (TableWidgetState { selected: Seq::empty(), ..old(self)@ }));
    }

    fn position_of(&self, cell: (usize, usize)) -> (r: Option<usize>)
        ensures
            match r {
                Some(i) => self@.selected.index_of_first((cell.0 as int, cell.1 as int)) == Some(i as int)
                    && i < self@.selected.len(),
                None => !self@.selected.contains((cell.0 as int, cell.1 as int)),
            },
    {
        let ghost target = (cell.0 as int, cell.1 as int);
        let ghost sel = self@.selected;
        assert(sel.len() == self.selected_cells@.len());
        assert forall|k: int| 0 <= k < sel.len() implies #[trigger] sel[k] == (
        self.selected_cells@[k].0 as int, self.selected_cells@[k].1 as int) by {}
        let mut i: usize = 0;
        while i < self.selected_cells.len()
            invariant
                i <= self.selected_cells@.len(),
                sel == self@.selected,
                target == (cell.0 as int, cell.1 as int),
                sel.len() == self.selected_cells@.len(),
                forall|k: int| 0 <= k < sel.len() ==> #[trigger] sel[k] == (
                self.selected_cells@[k].0 as int, self.selected_cells@[k].1 as int),
                forall|k: int| 0 <= k < i ==> #[trigger] self.selected_cells@[k] != cell,
            decreases self.selected_cells@.len() - i,
        {
            let (r, c) = self.selected_cells[i];
            if r == cell.0 && c == cell.1 {
                proof {
                    assert(sel[i as int] == target);
                    assert(sel.contains(target));
                    sel.index_of_first_ensures(target);
                    assert forall|k: int| 0 <= k < i implies sel[k] != target by {
                        assert(self.selected_cells@[k] != cell);
                    }
                }
                return Some(i);
            }
            i = i + 1;
        }
        proof {
            assert forall|k: int| 0 <= k < sel.len() implies sel[k] != target by {
                assert(self.selected_cells@[k] != cell);
            }
        }
        None
    }

    /// Handle a click of the primary button on cell (`row`, `col`) (see `with_click`).
    pub fn handle_click(&mut self, row: usize, col: usize, ctrl: bool)
        requires
            row < old(self)@.cells.len(),
            col < old(self)@.cols,
        ensures
            final(self)@ == with_click(old(self)@, row as int, col as int, ctrl),
            final(self).spec_appearance() == old(self).spec_appearance(),
    {
        proof {
            use_type_invariant(&*self);
        }
        match self.selection_mode {
            SelectionMode::NoSelection | SelectionMode::SingleSelection => {
                self.set_current_cell(row, col);
            },
            _ => {
                let cell = match self.selection_behavior {
                    SelectionBehavior::SelectItems => (row, col),
                    SelectionBehavior::SelectRows => (row, 0),
                    SelectionBehavior::SelectColumns => (0, col),
                };
                if ctrl {
                    match self.position_of(cell) {
                        Some(pos) => {
                            let ghost before = self@.selected;
                            let mut sel: Vec<(usize, usize)> = Vec::new();
                            std::mem::swap(&mut sel, &mut self.selected_cells);
                            let _gone = sel.remove(pos);
                            std::mem::swap(&mut sel, &mut self.selected_cells);
                            proof {
                                let target = (cell.0 as int, cell.1 as int);
                                before.index_of_first_ensures(target);
                                assert(self@.selected =~= before.remove(pos as int));
                            }
                        },
                        None => {
                            let mut sel: Vec<(usize, usize)> = Vec::new();
                            std::mem::swap(&mut sel, &mut self.selected_cells);
                            sel.push(cell);
                            std::mem::swap(&mut sel, &mut self.selected_cells);
                        },
                    }
                } else {
                    let mut sel: Vec<(usize, usize)> = Vec::new();
                    sel.push(cell);
                    self.selected_cells = sel;
                }
                let prev = self.current_cell();
                self.current_row = Some(row);
                self.current_column = Some(col);
                let same = match prev {
                    Some(p) => p.0 == row && p.1 == col,
                    None => false,
                };
                if !same {
                    self.push_event(TableWidgetEvent::CurrentCellChanged(prev, Some((row, col))));
                }
            },
        }
        self.push_event(TableWidgetEvent::CellClicked(row, col));
        assert(self@.selected =~= with_click(old(self)@, row as int, col as int, ctrl).selected);
        assert(self@ =~= with_click(old(self)@, row as int, col as int, ctrl));
    }

    /// Handle a press of the primary button on cell (`row`, `col`): it is remembered and
    /// clicked; consumed.
    pub fn handle_press(&mut self, row: usize, col: usize, ctrl: bool) -> (consumed: bool)
        requires
            row < old(self)@.cells.len(),
            col < old(self)@.cols,
        ensures
            consumed,
            final(self)@ == with_click(
                TableWidgetState { pressed: Some((row as int, col as int)), ..old(self)@ },
                row as int,
                col as int,
                ctrl,
            ),
            final(self).spec_appearance() == old(self).spec_appearance(),
    {
        proof {
            use_type_invariant(&*self);
        }
        self.pressed_cell = Some((row, col));
        self.handle_click(row, col, ctrl);
        true
    }

    /// Handle a release of the primary button: the press is forgotten; not consumed.
    pub fn handle_release(&mut self) -> (consumed: bool)
        ensures
            !consumed,
            final(self)@ == (TableWidgetState { pressed: None, ..old(self)@ }),
            final(self).spec_appearance() == old(self).spec_appearance(),
    {
        proof {
            use_type_invariant(&*self);
        }
        self.pressed_cell = None;
        assert(self@ =~= (TableWidgetState { pressed: None, ..old(self)@ }));
        false
    }

    /// Handle a key (nothing without cells): the arrows move the current cell within the
    /// table (Down and Right start at the first cell when no row or column is current), Home
    /// and End go to the first and last column of the current row, Enter activates the
    /// current cell; these are consumed.
    pub fn handle_key(&mut self, key: TableWidgetKey) -> (consumed: bool)
        ensures
            ({
                let v = old(self)@;
                let rows = v.cells.len() as int;
                let cols = v.cols;
                let row0 = match v.current_row {
                    Some(r) => r,
                    None => 0,
                };
                let col0 = match v.current_column {
                    Some(c) => c,
                    None => 0,
                };
                if rows == 0 || cols == 0 {
                    !consumed && final(self)@ == v
                } else {
                    &&& consumed == (key != TableWidgetKey::Other)
                    &&& final(self)@ == match key {
                        TableWidgetKey::ArrowUp => match v.current_row {
                            Some(r) => if r > 0 {
                                with_current_cell(v, r - 1, col0)
                            } else {
                                v
                            },
                            None => v,
                        },
                        TableWidgetKey::ArrowDown => match v.current_row {
                            Some(r) => if r + 1 < rows {
                                with_current_cell(v, r + 1, col0)
                            } else {
                                v
                            },
                            None => with_current_cell(v, 0, 0),
                        },
                        TableWidgetKey::ArrowLeft => match v.current_column {
                            Some(c) => if c > 0 {
                                with_current_cell(v, row0, c - 1)
                            } else {
                                v
                            },
                            None => v,
                        },
                        TableWidgetKey::ArrowRight => match v.current_column {
                            Some(c) => if c + 1 < cols {
                                with_current_cell(v, row0, c + 1)
                            } else {
                                v
                            },
                            None => with_current_cell(v, 0, 0),
                        },
                        TableWidgetKey::Home => with_current_cell(v, row0, 0),
                        TableWidgetKey::End => with_current_cell(v, row0, cols - 1),
                        TableWidgetKey::Enter => match v.current_cell() {
                            Some(p) => TableWidgetState {
                                events: v.events.push(TableWidgetEvent::CellActivated(p.0 as usize, p.1 as usize)),
                                ..v
                            },
                            None => v,
                        },
                        TableWidgetKey::Other => v,
                    }
                }
            }),
            final(self).spec_appearance() == old(self).spec_appearance(),
    {
        proof {
            use_type_invariant(&*self);
        }
        let rows = self.cells.len();
        let cols = self.column_count;
        if rows == 0 || cols == 0 {
            return false;
        }
        let row0 = match self.current_row {
            Some(r) => r,
            None => 0,
        };
        let col0 = match self.current_column {
            Some(c) => c,
            None => 0,
        };
        match key {
            TableWidgetKey::ArrowUp => {
                match self.current_row {
                    Some(r) => {
                        if r > 0 {
                            self.set_current_cell(r - 1, col0);
                        }
                    },
                    None => {},
                }
                true
            },
            TableWidgetKey::ArrowDown => {
                match self.current_row {
                    Some(r) => {
                        if r < rows - 1 {
                            self.set_current_cell(r + 1, col0);
                        }
                    },
                    None => {
                        self.set_current_cell(0, 0);
                    },
                }
                true
            },
            TableWidgetKey::ArrowLeft => {
                match self.current_column {
                    Some(c) => {
                        if c > 0 {
                            self.set_current_cell(row0, c - 1);
                        }
                    },
                    None => {},
                }
                true
            },
            TableWidgetKey::ArrowRight => {
                match self.current_column {
                    Some(c) => {
                        if c < cols - 1 {
                            self.set_current_cell(row0, c + 1);
                        }
                    },
                    None => {
                        self.set_current_cell(0, 0);
                    },
                }
                true
            },
            TableWidgetKey::Home => {
                self.set_current_cell(row0, 0);
                true
            },
            TableWidgetKey::End => {
                self.set_current_cell(row0, cols - 1);
                true
            },
            TableWidgetKey::Enter => {
                match self.current_cell() {
                    Some(p) => self.push_event(TableWidgetEvent::CellActivated(p.0, p.1)),
                    None => {},
                }
                true
            },
            TableWidgetKey::Other => false,
        }
    }
}

} // verus!
