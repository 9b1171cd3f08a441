use horizon_lattice::char_format::Color;
use horizon_lattice::tab_bar::{TabBarPart, TabKey, TabPosition};
use horizon_lattice::tab_widget::TabWidget;

#[test]
fn test_tab_widget_creation() {
    let widget = TabWidget::new();
    assert_eq!(widget.count(), 0);
    assert_eq!(widget.current_index(), -1);
    assert_eq!(widget.tab_position(), TabPosition::Top);
}

#[test]
fn tab_widget_test_add_tabs() {
    let mut widget = TabWidget::new();
    let page1_id = 101;
    let page2_id = 102;
    let idx0 = widget.add_tab(page1_id, "Page 1");
    assert_eq!(idx0, 0);
    assert_eq!(widget.count(), 1);
    assert_eq!(widget.current_index(), 0);
    assert_eq!(widget.current_widget(), Some(page1_id));
    let idx1 = widget.add_tab(page2_id, "Page 2");
    assert_eq!(idx1, 1);
    assert_eq!(widget.count(), 2);
}

#[test]
fn tab_widget_test_remove_tab() {
    let mut widget = TabWidget::new();
    let page1_id = 101;
    let page2_id = 102;
    widget.add_tab(page1_id, "Page 1");
    widget.add_tab(page2_id, "Page 2");
    let removed = widget.remove_tab(0);
    assert_eq!(removed, Some(page1_id));
    assert_eq!(widget.count(), 1);
    assert_eq!(widget.current_widget(), Some(page2_id));
}

#[test]
fn test_tab_properties() {
    let mut widget = TabWidget::new();
    widget.add_tab(7, "Test");
    widget.set_tab_text(0, "New Name");
    assert_eq!(widget.tab_text(0), Some("New Name"));
    widget.set_tab_enabled(0, false);
    assert!(!widget.is_tab_enabled(0));
}

#[test]
fn tab_widget_test_builder_pattern() {
    let widget = TabWidget::new()
        .with_tab_position(TabPosition::Left)
        .with_tabs_closable(true)
        .with_tabs_movable(false);
    assert_eq!(widget.tab_position(), TabPosition::Left);
    assert!(widget.tabs_closable());
    assert!(!widget.tabs_movable());
}

#[test]
fn tab_widget_test_index_of() {
    let mut widget = TabWidget::new();
    widget.add_tab(101, "Page 1");
    widget.add_tab(102, "Page 2");
    assert_eq!(widget.index_of(101), 0);
    assert_eq!(widget.index_of(102), 1);
    assert_eq!(widget.index_of(103), -1);
}

#[test]
fn tab_widget_insert_and_navigate() {
    let mut widget = TabWidget::new();
    widget.add_tab(1, "A");
    widget.add_tab(3, "C");
    assert_eq!(widget.insert_tab(1, 2, "B"), 1);
    assert_eq!(widget.widget(1), Some(2));
    assert_eq!(widget.insert_tab(-1, 4, "D"), 3);
    assert_eq!(widget.widget(3), Some(4));
    assert!(widget.handle_key(TabKey::ArrowRight));
    assert_eq!(widget.current_widget(), Some(2));
    assert!(widget.handle_press(TabBarPart::Tab(2)));
    assert!(widget.handle_release(TabBarPart::Tab(2)));
    assert_eq!(widget.current_widget(), Some(3));
    assert_eq!(widget.take_events(), vec![1, 2]);
    widget.set_current_index(0);
    assert_eq!(widget.current_index(), 0);
    widget.set_tab_tooltip(0, "first");
    assert_eq!(widget.tab_tooltip(0), Some("first"));
    widget.set_tab_closable(0, true);
    assert!(widget.is_tab_closable(0));
    widget.set_tab_position(TabPosition::Bottom);
    assert_eq!(widget.tab_bar().tab_position(), TabPosition::Bottom);
    widget.clear();
    assert_eq!(widget.count(), 0);
    assert_eq!(widget.current_widget(), None);
}

#[test]
fn content_background_is_white_until_set() {
    let widget = TabWidget::new();
    assert_eq!(widget.content_background(), Color::WHITE());
    let widget = widget.with_content_background(Color::from_rgb8(1, 2, 3));
    assert_eq!(widget.content_background(), Color::from_rgb8(1, 2, 3));
    assert_eq!(widget.count(), 0);
}
