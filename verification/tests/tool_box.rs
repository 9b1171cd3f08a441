use horizon_lattice::char_format::Color;
use horizon_lattice::tool_box::{ToolBox, ToolBoxItem, ToolBoxKey};

#[test]
fn test_toolbox_creation() {
    let toolbox = ToolBox::new();
    assert_eq!(toolbox.count(), 0);
    assert_eq!(toolbox.current_index(), -1);
    assert!(toolbox.is_empty());
    assert!(toolbox.current_widget().is_none());
}

#[test]
fn test_add_items() {
    let mut toolbox = ToolBox::new();
    let widget1 = 11;
    let widget2 = 12;
    let idx0 = toolbox.add_item(widget1, "Page 1");
    assert_eq!(idx0, 0);
    assert_eq!(toolbox.count(), 1);
    assert_eq!(toolbox.current_index(), 0);
    assert_eq!(toolbox.current_widget(), Some(widget1));
    assert!(!toolbox.is_empty());
    let idx1 = toolbox.add_item(widget2, "Page 2");
    assert_eq!(idx1, 1);
    assert_eq!(toolbox.count(), 2);
    assert_eq!(toolbox.current_index(), 0);
}

#[test]
fn test_set_current_index() {
    let mut toolbox = ToolBox::new();
    let widget1 = 11;
    let widget2 = 12;
    toolbox.add_item(widget1, "Page 1");
    toolbox.add_item(widget2, "Page 2");
    assert!(toolbox.set_current_index(1));
    assert_eq!(toolbox.current_index(), 1);
    assert_eq!(toolbox.current_widget(), Some(widget2));
    assert!(!toolbox.set_current_index(1));
    assert!(!toolbox.set_current_index(10));
    assert!(!toolbox.set_current_index(-1));
}

#[test]
fn test_remove_item() {
    let mut toolbox = ToolBox::new();
    let widget1 = 11;
    let widget2 = 12;
    toolbox.add_item(widget1, "Page 1");
    toolbox.add_item(widget2, "Page 2");
    let removed = toolbox.remove_item(0);
    assert_eq!(removed, Some(widget1));
    assert_eq!(toolbox.count(), 1);
    assert_eq!(toolbox.current_widget(), Some(widget2));
    assert_eq!(toolbox.current_index(), 0);
}

#[test]
fn test_item_properties() {
    let mut toolbox = ToolBox::new();
    let widget1 = 11;
    toolbox.add_item(widget1, "Original");
    assert_eq!(toolbox.item_text(0), Some("Original"));
    toolbox.set_item_text(0, "Updated");
    assert_eq!(toolbox.item_text(0), Some("Updated"));
    assert!(toolbox.is_item_enabled(0));
    toolbox.set_item_enabled(0, false);
    assert!(!toolbox.is_item_enabled(0));
    let widget2 = 12;
    toolbox.add_item(widget2, "Page 2");
    toolbox.set_current_index(1);
    assert!(!toolbox.set_current_index(0));
    assert_eq!(toolbox.current_index(), 1);
}

#[test]
fn tool_box_test_index_of() {
    let mut toolbox = ToolBox::new();
    let widget1 = 11;
    let widget2 = 12;
    let widget3 = 13;
    toolbox.add_item(widget1, "Page 1");
    toolbox.add_item(widget2, "Page 2");
    assert_eq!(toolbox.index_of(widget1), 0);
    assert_eq!(toolbox.index_of(widget2), 1);
    assert_eq!(toolbox.index_of(widget3), -1);
}

#[test]
fn test_insert_item() {
    let mut toolbox = ToolBox::new();
    let widget1 = 11;
    let widget2 = 12;
    let widget3 = 13;
    toolbox.add_item(widget1, "Page 1");
    toolbox.add_item(widget3, "Page 3");
    let idx = toolbox.insert_item(1, widget2, "Page 2");
    assert_eq!(idx, 1);
    assert_eq!(toolbox.count(), 3);
    assert_eq!(toolbox.widget(0), Some(widget1));
    assert_eq!(toolbox.widget(1), Some(widget2));
    assert_eq!(toolbox.widget(2), Some(widget3));
}

#[test]
fn tool_box_item_new() {
    let item = ToolBoxItem::new("Header");
    let copy = item.clone();
    assert_eq!(format!("{:?}", copy), format!("{:?}", item));
    assert!(format!("{:?}", item).contains("Header"));
}

#[test]
fn tool_box_keyboard_wraps_and_skips_disabled() {
    let mut toolbox = ToolBox::new();
    toolbox.add_item(1, "A");
    toolbox.add_item(2, "B");
    toolbox.add_item(3, "C");
    toolbox.set_item_enabled(1, false);
    assert!(toolbox.handle_key(ToolBoxKey::ArrowDown));
    assert_eq!(toolbox.current_index(), 2);
    assert!(toolbox.handle_key(ToolBoxKey::ArrowDown));
    assert_eq!(toolbox.current_index(), 0);
    assert!(toolbox.handle_key(ToolBoxKey::ArrowUp));
    assert_eq!(toolbox.current_index(), 2);
    assert!(toolbox.handle_key(ToolBoxKey::Home));
    assert_eq!(toolbox.current_index(), 0);
    assert!(toolbox.handle_key(ToolBoxKey::End));
    assert_eq!(toolbox.current_index(), 2);
    assert!(!toolbox.handle_key(ToolBoxKey::Other));
    assert_eq!(toolbox.find_enabled_index(-1, false), Some(0));
    assert_eq!(toolbox.take_events(), vec![0, 2, 0, 2, 0, 2]);
}

#[test]
fn tool_box_remove_current_moves_back_at_end() {
    let mut toolbox = ToolBox::new();
    toolbox.add_item(1, "A");
    toolbox.add_item(2, "B");
    toolbox.add_item_with_icon(3, "c.png", "C");
    assert_eq!(toolbox.item_icon(2), Some("c.png"));
    assert_eq!(toolbox.item_icon(0), None);
    toolbox.set_current_index(2);
    toolbox.take_events();
    assert_eq!(toolbox.remove_item(2), Some(3));
    assert_eq!(toolbox.current_index(), 1);
    assert_eq!(toolbox.remove_item(5), None);
    assert_eq!(toolbox.remove_item(0), Some(1));
    assert_eq!(toolbox.current_index(), 0);
    assert_eq!(toolbox.remove_item(0), Some(2));
    assert_eq!(toolbox.current_index(), -1);
    assert_eq!(toolbox.take_events(), vec![1, 0, -1]);
    toolbox.set_item_tool_tip(0, Some("tip".to_string()));
    assert_eq!(toolbox.item_tool_tip(0), None);
}

#[test]
fn tool_box_header_clicks() {
    let mut toolbox = ToolBox::new();
    toolbox.add_item(1, "A");
    toolbox.add_item(2, "B");
    assert!(toolbox.handle_press(1));
    assert!(!toolbox.handle_press(1));
    assert!(!toolbox.handle_press(-1));
    assert!(!toolbox.handle_move(0));
    assert!(toolbox.set_current_widget(1));
    assert!(!toolbox.set_current_widget(9));
}

#[test]
fn colors_have_defaults_and_setters() {
    let mut tb = ToolBox::new();
    assert_eq!(tb.header_color(), Color::from_rgb8(240, 240, 240));
    assert_eq!(tb.header_selected_color(), Color::from_rgb8(66, 133, 244));
    assert_eq!(tb.content_background_color(), Color::WHITE());
    assert_eq!(tb.border_color(), Color::from_rgb8(200, 200, 200));
    tb.set_header_color(Color::BLACK());
    assert_eq!(tb.header_color(), Color::BLACK());
    assert_eq!(tb.border_color(), Color::from_rgb8(200, 200, 200));
    let tb = tb.with_border_color(Color::TRANSPARENT()).with_content_background_color(Color::BLACK());
    assert_eq!(tb.border_color(), Color::TRANSPARENT());
    assert_eq!(tb.content_background_color(), Color::BLACK());
    let tb = tb.with_header_selected_color(Color::WHITE());
    assert_eq!(tb.header_selected_color(), Color::WHITE());
}
