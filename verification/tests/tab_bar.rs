use horizon_lattice::tab_bar::{TabBar, TabBarEvent, TabBarPart, TabKey, TabPosition};

#[test]
fn test_tab_bar_creation() {
    let bar = TabBar::new();
    assert_eq!(bar.count(), 0);
    assert_eq!(bar.current_index(), -1);
    assert_eq!(bar.tab_position(), TabPosition::Top);
}

#[test]
fn tab_bar_test_add_tabs() {
    let mut bar = TabBar::new();
    let idx0 = bar.add_tab("Tab 1");
    assert_eq!(idx0, 0);
    assert_eq!(bar.count(), 1);
    assert_eq!(bar.current_index(), 0);
    let idx1 = bar.add_tab("Tab 2");
    assert_eq!(idx1, 1);
    assert_eq!(bar.count(), 2);
    assert_eq!(bar.current_index(), 0);
}

#[test]
fn tab_bar_test_remove_tab() {
    let mut bar = TabBar::new();
    bar.add_tab("Tab 1");
    bar.add_tab("Tab 2");
    bar.add_tab("Tab 3");
    bar.set_current_index(2);
    assert_eq!(bar.current_index(), 2);
    bar.remove_tab(0);
    assert_eq!(bar.count(), 2);
    assert_eq!(bar.current_index(), 1);
}

#[test]
fn test_current_changed_signal() {
    let mut bar = TabBar::new();
    bar.add_tab("Tab 1");
    assert_eq!(bar.take_events(), vec![TabBarEvent::CurrentChanged(0)]);
    bar.add_tab("Tab 2");
    bar.set_current_index(1);
    assert_eq!(bar.take_events(), vec![TabBarEvent::CurrentChanged(1)]);
}

#[test]
fn test_tab_position() {
    let bar = TabBar::new().with_tab_position(TabPosition::Left);
    assert_eq!(bar.tab_position(), TabPosition::Left);
    assert!(bar.tab_position().is_vertical());
}

#[test]
fn test_move_tab() {
    let mut bar = TabBar::new();
    bar.add_tab("A");
    bar.add_tab("B");
    bar.add_tab("C");
    bar.set_current_index(0);
    bar.move_tab(0, 2);
    assert_eq!(bar.tab_text(0), Some("B"));
    assert_eq!(bar.tab_text(1), Some("C"));
    assert_eq!(bar.tab_text(2), Some("A"));
    assert_eq!(bar.current_index(), 2);
}

#[test]
fn test_tab_enabled() {
    let mut bar = TabBar::new();
    bar.add_tab("Tab 1");
    bar.add_tab("Tab 2");
    bar.set_tab_enabled(1, false);
    assert!(!bar.is_tab_enabled(1));
    bar.set_current_index(1);
    assert_eq!(bar.current_index(), 0);
}

#[test]
fn tab_bar_test_builder_pattern() {
    let bar = TabBar::new()
        .with_tab_position(TabPosition::Bottom)
        .with_tabs_closable(true)
        .with_tabs_movable(false)
        .with_expanding(true);
    assert_eq!(bar.tab_position(), TabPosition::Bottom);
    assert!(bar.tabs_closable());
    assert!(!bar.tabs_movable());
    assert!(bar.expanding());
}

#[test]
fn tab_position_orientation() {
    assert!(TabPosition::Top.is_horizontal());
    assert!(TabPosition::Bottom.is_horizontal());
    assert!(TabPosition::Left.is_vertical());
    assert!(TabPosition::Right.is_vertical());
    assert!(!TabPosition::Right.is_horizontal());
}

#[test]
fn tab_insert_and_remove_adjust_current() {
    let mut bar = TabBar::new();
    assert_eq!(bar.insert_tab(-3, "B"), 0);
    assert_eq!(bar.current_index(), 0);
    assert_eq!(bar.insert_tab(0, "A"), 0);
    // The current tab keeps its tab, now at index 1.
    assert_eq!(bar.current_index(), 1);
    assert_eq!(bar.insert_tab(99, "C"), 2);
    assert_eq!(bar.tab_text(0), Some("A"));
    assert_eq!(bar.tab_text(2), Some("C"));
    bar.take_events();
    bar.remove_tab(7);
    assert_eq!(bar.count(), 3);
    bar.remove_tab(1);
    assert_eq!(bar.current_index(), 0);
    assert_eq!(bar.take_events(), vec![TabBarEvent::CurrentChanged(0)]);
    bar.remove_tab(0);
    bar.remove_tab(0);
    assert_eq!(bar.count(), 0);
    assert_eq!(bar.current_index(), -1);
    assert_eq!(bar.take_events(), vec![TabBarEvent::CurrentChanged(-1)]);
}

#[test]
fn tab_properties() {
    let mut bar = TabBar::new().with_tabs_closable(true);
    bar.add_tab("One");
    assert!(bar.is_tab_closable(0));
    bar.set_tab_closable(0, false);
    assert!(!bar.is_tab_closable(0));
    assert_eq!(bar.tab_tooltip(0), None);
    bar.set_tab_tooltip(0, "first");
    assert_eq!(bar.tab_tooltip(0), Some("first"));
    bar.set_tab_text(0, "Uno");
    assert_eq!(bar.tab_text(0), Some("Uno"));
    assert_eq!(bar.tab_text(1), None);
    assert!(!bar.is_tab_enabled(-1));
    bar.clear();
    assert_eq!(bar.count(), 0);
    assert_eq!(bar.current_index(), -1);
}

#[test]
fn tab_keyboard_skips_disabled() {
    let mut bar = TabBar::new();
    bar.add_tab("A");
    bar.add_tab("B");
    bar.add_tab("C");
    bar.add_tab("D");
    bar.set_tab_enabled(1, false);
    assert!(bar.handle_key(TabKey::ArrowRight));
    assert_eq!(bar.current_index(), 2);
    assert!(bar.handle_key(TabKey::ArrowLeft));
    assert_eq!(bar.current_index(), 0);
    assert!(bar.handle_key(TabKey::End));
    assert_eq!(bar.current_index(), 3);
    assert!(bar.handle_key(TabKey::Home));
    assert_eq!(bar.current_index(), 0);
    // Up and down do nothing in a horizontal bar.
    assert!(!bar.handle_key(TabKey::ArrowDown));
    bar.set_tab_position(TabPosition::Left);
    assert!(bar.handle_key(TabKey::ArrowDown));
    assert_eq!(bar.current_index(), 2);
}

#[test]
fn tab_clicks() {
    let mut bar = TabBar::new().with_tabs_closable(true);
    bar.add_tab("A");
    bar.add_tab("B");
    bar.take_events();
    assert!(bar.handle_press(TabBarPart::Tab(1)));
    assert!(bar.handle_release(TabBarPart::Tab(1)));
    assert_eq!(bar.current_index(), 1);
    assert!(bar.handle_press(TabBarPart::CloseButton(0)));
    assert!(bar.handle_release(TabBarPart::CloseButton(0)));
    // Released elsewhere than pressed: no click.
    assert!(!bar.handle_press(TabBarPart::Nothing));
    bar.handle_release(TabBarPart::Tab(0));
    assert_eq!(bar.current_index(), 1);
    assert_eq!(
        bar.take_events(),
        vec![TabBarEvent::CurrentChanged(1), TabBarEvent::TabCloseRequested(0)]
    );
}

#[test]
fn dragging_a_tab_moves_it_without_clicking() {
    let mut bar = TabBar::new();
    bar.add_tab("A");
    bar.add_tab("B");
    bar.add_tab("C");
    bar.take_events();
    assert!(bar.handle_press(TabBarPart::Tab(0)));
    // Not far enough yet: nothing moves, but the drag consumes the move.
    assert!(bar.handle_move(TabBarPart::Tab(1), false, Some(1)));
    assert_eq!(bar.tab_text(0), Some("A"));
    // Far enough: the tab goes where the pointer is.
    assert!(bar.handle_move(TabBarPart::Tab(2), true, Some(2)));
    assert_eq!(bar.tab_text(0), Some("B"));
    assert_eq!(bar.tab_text(2), Some("A"));
    assert_eq!(bar.current_index(), 2);
    assert!(bar.handle_release(TabBarPart::Tab(2)));
    assert_eq!(bar.take_events(), vec![TabBarEvent::TabMoved(0, 2)]);
    // The drag is over: moves are no longer consumed.
    assert!(!bar.handle_move(TabBarPart::Tab(1), true, Some(1)));
}

#[test]
fn fixed_tabs_do_not_drag() {
    let mut bar = TabBar::new();
    bar.add_tab("A");
    bar.add_tab("B");
    bar.set_tabs_movable(false);
    bar.handle_press(TabBarPart::Tab(1));
    assert!(!bar.handle_move(TabBarPart::Tab(0), true, Some(0)));
    assert_eq!(bar.tab_text(1), Some("B"));
    bar.handle_release(TabBarPart::Tab(1));
    assert_eq!(bar.current_index(), 1);
    bar.handle_leave();
}
