use horizon_lattice::selection::{ModelIndex, SelectionBehavior, SelectionMode};
use horizon_lattice::table_view::{
    drag_text, scroll_offset_to_show, DropPosition, GridStyle, SortOrder, TableContextMenuLocation, TableDragDropMode,
    TableEvent, TableKey, TableView,
};

#[test]
fn test_context_menu_location_variants() {
    let cell = TableContextMenuLocation::Cell(ModelIndex::invalid());
    let col = TableContextMenuLocation::ColumnHeader(0);
    let row = TableContextMenuLocation::RowHeader(0);
    let corner = TableContextMenuLocation::Corner;
    let empty = TableContextMenuLocation::Empty;

    assert_eq!(cell, TableContextMenuLocation::Cell(ModelIndex::invalid()));
    assert_eq!(col, TableContextMenuLocation::ColumnHeader(0));
    assert_eq!(row, TableContextMenuLocation::RowHeader(0));
    assert_eq!(corner, TableContextMenuLocation::Corner);
    assert_eq!(empty, TableContextMenuLocation::Empty);
}

#[test]
fn test_table_view_creation() {
    let table = TableView::new();
    assert!(!table.has_model());
    assert_eq!(table.row_count(), 0);
    assert_eq!(table.column_count(), 0);
    assert!(table.show_grid());
}

#[test]
fn test_frozen_sections() {
    let mut table = TableView::new();
    assert_eq!(table.frozen_row_count(), 0);
    assert_eq!(table.frozen_column_count(), 0);
    table.set_frozen_row_count(2);
    table.set_frozen_column_count(1);
    assert_eq!(table.frozen_row_count(), 2);
    assert_eq!(table.frozen_column_count(), 1);
}

#[test]
fn test_grid_style() {
    let mut table = TableView::new();
    assert_eq!(table.grid_style(), GridStyle::Both);
    table.set_grid_style(GridStyle::Horizontal);
    assert_eq!(table.grid_style(), GridStyle::Horizontal);
    table.set_show_grid(false);
    assert!(!table.show_grid());
}

#[test]
fn test_selection_behavior() {
    let table = TableView::new();
    assert_eq!(
        table.selection_model().selection_behavior(),
        SelectionBehavior::SelectRows
    );
}

#[test]
fn test_context_menu_signal() {
    let mut table = TableView::new();
    assert!(table.handle_context_menu(false, false, None, None, None));
    assert_eq!(
        table.take_events(),
        vec![TableEvent::ContextMenuRequested(TableContextMenuLocation::Cell(
            ModelIndex::invalid()
        ))]
    );
}

#[test]
fn test_drag_drop_mode_default() {
    let table = TableView::new();
    assert_eq!(table.drag_drop_mode(), TableDragDropMode::NoDragDrop);
    assert!(!table.drag_enabled());
    assert!(!table.drop_enabled());
}

#[test]
fn test_drag_drop_mode_setter() {
    let mut table = TableView::new();
    table.set_drag_drop_mode(TableDragDropMode::DragOnly);
    assert_eq!(table.drag_drop_mode(), TableDragDropMode::DragOnly);
    assert!(table.drag_enabled());
    assert!(!table.drop_enabled());

    table.set_drag_drop_mode(TableDragDropMode::DropOnly);
    assert_eq!(table.drag_drop_mode(), TableDragDropMode::DropOnly);
    assert!(!table.drag_enabled());
    assert!(table.drop_enabled());

    table.set_drag_drop_mode(TableDragDropMode::DragDrop);
    assert_eq!(table.drag_drop_mode(), TableDragDropMode::DragDrop);
    assert!(table.drag_enabled());
    assert!(table.drop_enabled());

    table.set_drag_drop_mode(TableDragDropMode::InternalMove);
    assert_eq!(table.drag_drop_mode(), TableDragDropMode::InternalMove);
    assert!(table.drag_enabled());
    assert!(table.drop_enabled());
}

#[test]
fn test_drag_drop_mode_builder() {
    let table = TableView::new().with_drag_drop_mode(TableDragDropMode::DragDrop);
    assert_eq!(table.drag_drop_mode(), TableDragDropMode::DragDrop);
    assert!(table.drag_enabled());
    assert!(table.drop_enabled());
}

#[test]
fn table_keyboard_navigation_and_selection() {
    let mut table = TableView::new().with_selection_behavior(SelectionBehavior::SelectItems);
    table.set_model(10, 4);
    // No current cell: keys do nothing.
    assert!(!table.handle_key(TableKey::ArrowDown, false, false, 5));
    table.set_current_index(ModelIndex::new(0, 0));
    assert!(table.selection_model().is_selected(0, 0));
    assert!(table.handle_key(TableKey::ArrowDown, false, false, 5));
    assert_eq!(table.current_index(), ModelIndex::new(1, 0));
    assert!(table.selection_model().is_selected(1, 0));
    assert!(!table.selection_model().is_selected(0, 0));
    assert!(table.handle_key(TableKey::PageDown, false, false, 5));
    assert_eq!(table.current_index(), ModelIndex::new(6, 0));
    assert!(table.handle_key(TableKey::PageDown, false, false, 5));
    assert_eq!(table.current_index(), ModelIndex::new(9, 0));
    assert!(table.handle_key(TableKey::ArrowRight, false, true, 5));
    assert_eq!(table.current_index(), ModelIndex::new(9, 1));
    // Shift extends from the anchor (9, 0).
    assert!(table.selection_model().is_selected(9, 0));
    assert!(table.selection_model().is_selected(9, 1));
    assert!(table.handle_key(TableKey::Home, true, false, 5));
    assert_eq!(table.current_index(), ModelIndex::new(0, 0));
    assert!(table.handle_key(TableKey::End, true, false, 5));
    assert_eq!(table.current_index(), ModelIndex::new(9, 3));
    assert!(table.handle_key(TableKey::Enter, false, false, 5));
    assert_eq!(
        table.take_events().last(),
        Some(&TableEvent::Activated(ModelIndex::new(9, 3)))
    );
    assert!(table.handle_key(TableKey::A, true, false, 5));
    assert!(table.selection_model().is_selected(4, 2));
    assert!(!table.handle_key(TableKey::A, false, false, 5));
}

#[test]
fn table_clicks_select_rows_and_toggle() {
    let mut table = TableView::new();
    table.set_model(5, 3);
    assert!(table.handle_cell_press(2, 1, false, false));
    assert_eq!(table.current_index(), ModelIndex::new(2, 0));
    assert!(table.selection_model().is_selected(2, 0));
    assert!(table.selection_model().is_selected(2, 2));
    assert!(!table.selection_model().is_selected(1, 1));
    // Shift-click selects the rows from the anchor.
    assert!(table.handle_cell_press(4, 0, false, true));
    assert!(table.selection_model().is_selected(3, 1));
    assert!(table.selection_model().is_selected(4, 2));
    assert!(!table.selection_model().is_selected(1, 0));

    let mut items = TableView::new()
        .with_selection_behavior(SelectionBehavior::SelectItems)
        .with_selection_mode(SelectionMode::MultiSelection);
    items.set_model(3, 3);
    items.handle_cell_press(0, 0, true, false);
    items.handle_cell_press(1, 1, true, false);
    assert!(items.selection_model().is_selected(0, 0));
    assert!(items.selection_model().is_selected(1, 1));
    items.handle_cell_press(0, 0, true, false);
    assert!(!items.selection_model().is_selected(0, 0));
}

#[test]
fn table_click_and_double_click() {
    let mut table = TableView::new();
    table.set_model(3, 3);
    table.handle_cell_press(1, 1, false, false);
    assert!(table.handle_release(Some((1, 1)), true));
    table.handle_cell_press(1, 1, false, false);
    assert!(table.handle_release(Some((1, 1)), true));
    let i = ModelIndex::new(1, 1);
    assert_eq!(
        table.take_events(),
        vec![
            TableEvent::Clicked(i),
            TableEvent::Clicked(i),
            TableEvent::DoubleClicked(i),
            TableEvent::Activated(i)
        ]
    );
    // Released elsewhere: no click.
    table.handle_cell_press(0, 0, false, false);
    table.handle_release(Some((2, 2)), true);
    assert!(table.take_events().is_empty());
}

#[test]
fn table_header_sorting() {
    let mut table = TableView::new().with_sorting_enabled(true);
    table.handle_header_press(2);
    assert_eq!(table.sort_indicator(), Some((2, SortOrder::Ascending)));
    table.handle_header_press(2);
    assert_eq!(table.sort_indicator(), Some((2, SortOrder::Descending)));
    table.handle_header_press(2);
    assert_eq!(table.sort_indicator(), Some((2, SortOrder::Ascending)));
    table.handle_header_press(0);
    assert_eq!(table.sort_indicator(), Some((0, SortOrder::Ascending)));
    assert_eq!(
        table.take_events(),
        vec![
            TableEvent::HeaderClicked(2),
            TableEvent::HeaderClicked(2),
            TableEvent::HeaderClicked(2),
            TableEvent::HeaderClicked(0)
        ]
    );
}

#[test]
fn table_context_locations() {
    let mut table = TableView::new();
    table.set_vertical_header_visible(true);
    table.handle_context_menu(true, true, Some(1), Some(2), None);
    table.handle_context_menu(false, true, Some(1), None, None);
    table.handle_context_menu(true, false, None, Some(4), None);
    table.handle_context_menu(false, true, None, None, None);
    table.handle_context_menu(false, false, None, None, Some(ModelIndex::new(3, 1)));
    assert_eq!(
        table.take_events(),
        vec![
            TableEvent::ContextMenuRequested(TableContextMenuLocation::Corner),
            TableEvent::ContextMenuRequested(TableContextMenuLocation::ColumnHeader(1)),
            TableEvent::ContextMenuRequested(TableContextMenuLocation::RowHeader(4)),
            TableEvent::ContextMenuRequested(TableContextMenuLocation::Empty),
            TableEvent::ContextMenuRequested(TableContextMenuLocation::Cell(ModelIndex::new(3, 1))),
        ]
    );
}

#[test]
fn table_scrolling() {
    let mut table = TableView::new();
    table.set_scroll_position(50, -4, 30, 100);
    assert_eq!(table.scroll_x(), 30);
    assert_eq!(table.scroll_y(), 0);
    assert_eq!(scroll_offset_to_show(10, 20, 30, 50), 10);
    assert_eq!(scroll_offset_to_show(90, 100, 30, 50), 50);
    assert_eq!(scroll_offset_to_show(40, 60, 30, 50), 30);
}

#[test]
fn columns_hide_and_show() {
    let mut view = TableView::new().with_model(3, 4);
    assert_eq!(view.row_count(), 3);
    assert_eq!(view.column_count(), 4);
    assert!(!view.is_column_hidden(2));
    view.hide_column(2);
    view.hide_column(2);
    view.set_column_hidden(0, true);
    assert!(view.is_column_hidden(2));
    assert!(view.is_column_hidden(0));
    assert!(!view.is_column_hidden(1));
    view.show_column(2);
    assert!(!view.is_column_hidden(2));
    assert!(view.is_column_hidden(0));
    view.set_column_hidden(0, false);
    assert!(!view.is_column_hidden(0));
}

#[test]
fn drag_text_joins_lines() {
    assert_eq!(drag_text(&vec![]), None);
    assert_eq!(drag_text(&vec!["a".to_string()]), Some("a".to_string()));
    assert_eq!(
        drag_text(&vec!["a".to_string(), "bc".to_string(), "".to_string()]),
        Some("a\nbc\n".to_string())
    );
}

#[test]
fn drops_need_drop_mode_and_data() {
    let view = TableView::new().with_model(3, 2);
    assert!(!view.accepts_drop(true, false));
    let view = view.with_drag_drop_mode(TableDragDropMode::DropOnly);
    assert!(view.accepts_drop(true, false));
    assert!(view.accepts_drop(false, true));
    assert!(!view.accepts_drop(false, false));
    assert_eq!(view.drop_target(Some((1, 1, true))), (Some((1, 1)), DropPosition::AboveItem));
    assert_eq!(view.drop_target(Some((1, 0, false))), (Some((1, 0)), DropPosition::BelowItem));
    assert_eq!(view.drop_target(None), (Some((2, 0)), DropPosition::BelowItem));
    assert_eq!(TableView::new().drop_target(None), (None, DropPosition::OnItem));
}

#[test]
fn scroll_to_brings_a_cell_into_view() {
    let mut view = TableView::new().with_model(100, 5);
    // A cell below the viewport: scroll so that its bottom shows.
    view.scroll_to(ModelIndex::new(20, 0), (0, 480, 100, 504), (300, 200), 1000, 2000);
    assert_eq!(view.scroll_y(), 304);
    assert_eq!(view.scroll_x(), 0);
    // A cell above: scroll to its top.
    view.scroll_to(ModelIndex::new(2, 0), (0, 48, 100, 72), (300, 200), 1000, 2000);
    assert_eq!(view.scroll_y(), 48);
    // Already visible: no change.
    view.scroll_to(ModelIndex::new(3, 0), (0, 72, 100, 96), (300, 200), 1000, 2000);
    assert_eq!(view.scroll_y(), 48);
    // An invalid index scrolls nowhere.
    view.scroll_to(ModelIndex::invalid(), (0, 0, 10, 10), (300, 200), 1000, 2000);
    assert_eq!(view.scroll_y(), 48);
}

#[test]
fn index_visibility_follows_the_visible_ranges() {
    let view = TableView::new().with_model(10, 4);
    assert!(view.is_index_visible(ModelIndex::new(3, 1), (2, 6), (0, 3)));
    assert!(view.is_index_visible(ModelIndex::new(6, 3), (2, 6), (0, 3)));
    assert!(!view.is_index_visible(ModelIndex::new(7, 1), (2, 6), (0, 3)));
    assert!(!view.is_index_visible(ModelIndex::new(3, 4), (2, 6), (0, 3)));
    assert!(!view.is_index_visible(ModelIndex::invalid(), (0, 9), (0, 3)));
}

#[test]
fn hidden_header_takes_no_clicks() {
    let mut table = TableView::new().with_sorting_enabled(true);
    table.set_horizontal_header_visible(false);
    assert!(!table.handle_header_press(1));
    assert_eq!(table.sort_indicator(), None);
    assert!(table.take_events().is_empty());
}
