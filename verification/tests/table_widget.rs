use horizon_lattice::selection::{SelectionBehavior, SelectionMode};
use horizon_lattice::char_format::{Color, HorizontalAlign};
use horizon_lattice::table_widget::{
    CheckState, ItemData, ItemRole, Orientation, TableWidget, TableWidgetEvent, TableWidgetItem,
    TableWidgetKey,
};

#[test]
fn test_table_widget_creation() {
    let widget = TableWidget::new(3, 4);
    assert_eq!(widget.row_count(), 3);
    assert_eq!(widget.column_count(), 4);
}

#[test]
fn test_set_item() {
    let mut widget = TableWidget::new(3, 3);
    widget.set_item(1, 2, TableWidgetItem::new("Hello"));
    let item = widget.item(1, 2);
    assert!(item.is_some());
    assert_eq!(item.unwrap().text(), "Hello");
}

#[test]
fn test_set_cell_text() {
    let mut widget = TableWidget::new(2, 2);
    widget.set_cell_text(0, 0, "Test");
    assert_eq!(widget.cell_text(0, 0), Some("Test".to_string()));
}

#[test]
fn test_dimensions() {
    let mut widget = TableWidget::new(2, 2);
    widget.set_row_count(5);
    assert_eq!(widget.row_count(), 5);
    widget.set_column_count(3);
    assert_eq!(widget.column_count(), 3);
}

#[test]
fn test_insert_remove_row() {
    let mut widget = TableWidget::new(2, 2);
    widget.set_cell_text(0, 0, "A");
    widget.set_cell_text(1, 0, "B");
    widget.insert_row(1);
    assert_eq!(widget.row_count(), 3);
    assert_eq!(widget.cell_text(0, 0), Some("A".to_string()));
    assert_eq!(widget.cell_text(1, 0), None);
    assert_eq!(widget.cell_text(2, 0), Some("B".to_string()));
    widget.remove_row(1);
    assert_eq!(widget.row_count(), 2);
    assert_eq!(widget.cell_text(0, 0), Some("A".to_string()));
    assert_eq!(widget.cell_text(1, 0), Some("B".to_string()));
}

#[test]
fn table_widget_test_clear() {
    let mut widget = TableWidget::new(3, 3);
    widget.set_cell_text(0, 0, "Test");
    widget.clear_contents();
    assert_eq!(widget.row_count(), 3);
    assert!(widget.cell_text(0, 0).is_none());
    widget.set_cell_text(0, 0, "Test");
    widget.clear();
    assert_eq!(widget.row_count(), 0);
    assert_eq!(widget.column_count(), 0);
}

#[test]
fn test_headers() {
    let mut widget = TableWidget::new(2, 3);
    widget.set_horizontal_header_labels(vec!["A".to_string(), "B".to_string(), "C".to_string()]);
    assert_eq!(widget.column_count(), 3);
    assert_eq!(widget.horizontal_header_labels().len(), 3);
}

#[test]
fn table_widget_columns_keep_items() {
    let mut widget = TableWidget::new(2, 2);
    widget.set_cell_text(0, 1, "x");
    widget.insert_column(0);
    assert_eq!(widget.column_count(), 3);
    assert_eq!(widget.cell_text(0, 2), Some("x".to_string()));
    assert_eq!(widget.cell_text(0, 1), None);
    widget.remove_column(0);
    assert_eq!(widget.cell_text(0, 1), Some("x".to_string()));
    widget.set_column_count(1);
    assert_eq!(widget.cell_text(0, 1), None);
    assert_eq!(widget.column_count(), 1);
    widget.set_column_count(4);
    assert_eq!(widget.cell_text(0, 3), None);
    let taken = widget.take_item(0, 0);
    assert!(taken.is_none());
}

#[test]
fn table_widget_current_cell_follows_rows() {
    let mut widget = TableWidget::new(4, 2);
    widget.set_current_cell(3, 1);
    assert_eq!(widget.current_cell(), Some((3, 1)));
    assert!(widget.is_cell_selected(3, 1));
    widget.remove_row(3);
    assert_eq!(widget.current_cell(), Some((2, 1)));
    widget.insert_row(0);
    assert_eq!(widget.current_cell(), Some((3, 1)));
    widget.set_row_count(2);
    assert_eq!(widget.current_cell(), Some((1, 1)));
    widget.set_current_cell(9, 9);
    assert_eq!(widget.current_cell(), Some((1, 1)));
    let events = widget.take_events();
    assert_eq!(events[0], TableWidgetEvent::CurrentCellChanged(None, Some((3, 1))));
}

#[test]
fn table_widget_multi_selection_clicks() {
    let mut widget = TableWidget::new(3, 3);
    widget.set_selection_mode(SelectionMode::MultiSelection);
    widget.set_selection_behavior(SelectionBehavior::SelectRows);
    widget.handle_press(0, 2, false);
    widget.handle_click(2, 1, true);
    assert!(widget.is_cell_selected(0, 0));
    assert!(widget.is_cell_selected(2, 0));
    assert!(!widget.is_cell_selected(1, 1));
    widget.handle_click(0, 0, true);
    assert!(!widget.is_cell_selected(0, 1));
    assert!(!widget.handle_release());
    widget.set_selection_mode(SelectionMode::NoSelection);
    assert!(!widget.is_cell_selected(2, 0));
}

#[test]
fn table_widget_keys() {
    let mut widget = TableWidget::new(2, 3);
    assert!(widget.handle_key(TableWidgetKey::ArrowDown));
    assert_eq!(widget.current_cell(), Some((0, 0)));
    assert!(widget.handle_key(TableWidgetKey::End));
    assert_eq!(widget.current_cell(), Some((0, 2)));
    assert!(widget.handle_key(TableWidgetKey::ArrowRight));
    assert_eq!(widget.current_cell(), Some((0, 2)));
    assert!(widget.handle_key(TableWidgetKey::ArrowDown));
    assert!(widget.handle_key(TableWidgetKey::Home));
    assert_eq!(widget.current_cell(), Some((1, 0)));
    widget.take_events();
    assert!(widget.handle_key(TableWidgetKey::Enter));
    assert_eq!(widget.take_events(), vec![TableWidgetEvent::CellActivated(1, 0)]);
    assert!(!widget.handle_key(TableWidgetKey::Other));
    let mut empty = TableWidget::new(0, 0);
    assert!(!empty.handle_key(TableWidgetKey::ArrowDown));
}

#[test]
fn table_widget_item_properties() {
    let mut item = TableWidgetItem::new("t");
    item.set_check_state(Some(CheckState::Checked));
    item.set_tooltip(Some("tip".to_string()));
    let copy = item.clone();
    assert_eq!(copy.check_state(), Some(CheckState::Checked));
    assert_eq!(copy.tooltip(), Some("tip"));
    item.set_text("u");
    assert_eq!(item.text(), "u");
    assert_eq!(TableWidgetItem::default().text(), "");
}

#[test]
fn item_data_is_replaced_per_role() {
    let mut item = TableWidgetItem::new("x");
    assert_eq!(item.data(7), None);
    item.set_data(7, ItemData::Int(1));
    item.set_data(9, ItemData::String("nine".to_string()));
    item.set_data(7, ItemData::Bool(true));
    assert_eq!(item.data(7), Some(&ItemData::Bool(true)));
    assert_eq!(item.data(9), Some(&ItemData::String("nine".to_string())));
    assert_eq!(item.data(8), None);
}

#[test]
fn cell_data_answers_each_role() {
    let mut widget = TableWidget::new(2, 2);
    let mut item = TableWidgetItem::new("Cell");
    item.set_tooltip(Some("tip".to_string()));
    item.set_check_state(Some(CheckState::Checked));
    item.set_background(Some(Color::from_rgb8(1, 2, 3)));
    item.set_text_alignment(HorizontalAlign::Right);
    item.set_data(3, ItemData::Int(42));
    widget.set_item(0, 1, item);
    assert_eq!(widget.cell_data(0, 1, ItemRole::Display), ItemData::String("Cell".to_string()));
    assert_eq!(widget.cell_data(0, 1, ItemRole::ToolTip), ItemData::String("tip".to_string()));
    assert_eq!(widget.cell_data(0, 1, ItemRole::CheckState), ItemData::CheckState(CheckState::Checked));
    assert_eq!(widget.cell_data(0, 1, ItemRole::BackgroundColor), ItemData::Color(Color::from_rgb8(1, 2, 3)));
    assert_eq!(widget.cell_data(0, 1, ItemRole::ForegroundColor), ItemData::Empty);
    assert_eq!(widget.cell_data(0, 1, ItemRole::TextAlignment), ItemData::TextAlignment(HorizontalAlign::Right));
    assert_eq!(widget.cell_data(0, 1, ItemRole::User(3)), ItemData::Int(42));
    assert_eq!(widget.cell_data(0, 1, ItemRole::User(4)), ItemData::Empty);
    assert_eq!(widget.cell_data(0, 1, ItemRole::Decoration), ItemData::Empty);
    assert_eq!(widget.cell_data(0, 0, ItemRole::Display), ItemData::Empty);
    assert_eq!(widget.cell_data(5, 0, ItemRole::Display), ItemData::Empty);
}

#[test]
fn header_data_gives_labels_for_display_only() {
    let mut widget = TableWidget::new(2, 2);
    widget.set_horizontal_header_labels(vec!["A".to_string(), "B".to_string()]);
    widget.set_vertical_header_labels(vec!["one".to_string()]);
    assert_eq!(widget.header_data(1, Orientation::Horizontal, ItemRole::Display), ItemData::String("B".to_string()));
    assert_eq!(widget.header_data(0, Orientation::Vertical, ItemRole::Display), ItemData::String("one".to_string()));
    assert_eq!(widget.header_data(1, Orientation::Vertical, ItemRole::Display), ItemData::Empty);
    assert_eq!(widget.header_data(0, Orientation::Horizontal, ItemRole::ToolTip), ItemData::Empty);
}

#[test]
fn appearance_setters_change_only_their_setting() {
    let mut widget = TableWidget::new(1, 1);
    let a = widget.appearance();
    assert!(a.alternate_row_colors && a.show_grid);
    assert_eq!(a.grid_color, Color::from_rgb8(220, 220, 220));
    assert_eq!(a.background_color, Color::WHITE());
    widget.set_show_grid(false);
    widget.set_grid_color(Color::BLACK());
    let b = widget.appearance();
    assert!(!b.show_grid && b.alternate_row_colors);
    assert_eq!(b.grid_color, Color::BLACK());
    widget.set_alternate_row_colors(false);
    widget.set_background_color(Color::TRANSPARENT());
    assert!(!widget.appearance().alternate_row_colors);
    assert_eq!(widget.appearance().background_color, Color::TRANSPARENT());
}

#[test]
fn cell_colors_follow_selection_hover_and_rows() {
    let mut widget = TableWidget::new(3, 2);
    let mut item = TableWidgetItem::new("x");
    item.set_background(Some(Color::from_rgb8(1, 2, 3)));
    item.set_foreground(Some(Color::from_rgb8(9, 9, 9)));
    widget.set_item(0, 0, item);
    widget.set_item(2, 1, TableWidgetItem::new("y"));
    // Plain cell with an item: its own colors.
    assert_eq!(widget.cell_colors(0, 0, false), (Color::from_rgb8(1, 2, 3), Some(Color::from_rgb8(9, 9, 9))));
    // Empty odd row with alternating colors: grey, no text.
    assert_eq!(widget.cell_colors(1, 0, false), (Color::from_rgb8(245, 245, 245), None));
    // Hovered.
    assert_eq!(widget.cell_colors(0, 0, true).0, Color::from_rgb8(229, 243, 255));
    // Item without colors: table background, black text.
    assert_eq!(widget.cell_colors(2, 1, false), (Color::WHITE(), Some(Color::BLACK())));
    // Selected (single selection selects the current cell): highlight, white text.
    widget.set_current_cell(2, 1);
    assert!(widget.is_cell_selected(2, 1));
    assert_eq!(widget.cell_colors(2, 1, false), (Color::from_rgb8(51, 153, 255), Some(Color::WHITE())));
}
