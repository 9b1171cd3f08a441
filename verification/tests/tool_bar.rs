use horizon_lattice::tool_bar::{
    Orientation, ToolBar, ToolBarArea, ToolBarAreas, ToolBarFeatures, ToolBarItem,
};
use horizon_lattice::tool_button::ToolButtonStyle;

#[test]
fn test_toolbar_areas_bitflags() {
    let areas = ToolBarAreas::TOP() | ToolBarAreas::BOTTOM();
    assert!(areas.contains(ToolBarArea::Top));
    assert!(areas.contains(ToolBarArea::Bottom));
    assert!(!areas.contains(ToolBarArea::Left));
    assert!(!areas.contains(ToolBarArea::Right));
}

#[test]
fn test_toolbar_area_or() {
    let areas = ToolBarArea::Top | ToolBarArea::Left;
    assert!(areas.contains(ToolBarArea::Top));
    assert!(areas.contains(ToolBarArea::Left));
    assert!(!areas.contains(ToolBarArea::Right));
}

#[test]
fn test_toolbar_features() {
    let features = ToolBarFeatures::MOVABLE() | ToolBarFeatures::FLOATABLE();
    assert!(features.is_movable());
    assert!(features.is_floatable());
}

#[test]
fn test_toolbar_features_all() {
    let features = ToolBarFeatures::all();
    assert!(features.is_movable());
    assert!(features.is_floatable());
}

#[test]
fn test_toolbar_new() {
    let toolbar = ToolBar::new("Test");
    assert_eq!(toolbar.title(), "Test");
    assert!(toolbar.is_empty());
    assert_eq!(toolbar.item_count(), 0);
    assert_eq!(toolbar.orientation(), Orientation::Horizontal);
}

#[test]
fn test_toolbar_add_action() {
    let mut toolbar = ToolBar::new("Test");
    toolbar.add_action(1);
    assert_eq!(toolbar.item_count(), 1);
    assert!(!toolbar.is_empty());
}

#[test]
fn test_toolbar_add_separator() {
    let mut toolbar = ToolBar::new("Test");
    toolbar.add_separator();
    assert_eq!(toolbar.item_count(), 1);
    assert!(toolbar.items()[0].is_separator());
}

#[test]
fn test_toolbar_orientation() {
    let mut toolbar = ToolBar::new("Test");
    assert_eq!(toolbar.orientation(), Orientation::Horizontal);
    toolbar.set_orientation(Orientation::Vertical);
    assert_eq!(toolbar.orientation(), Orientation::Vertical);
}

#[test]
fn test_toolbar_features_movable() {
    let mut toolbar = ToolBar::new("Test");
    assert!(toolbar.is_movable());
    toolbar.set_movable(false);
    assert!(!toolbar.is_movable());
}

#[test]
fn test_toolbar_features_floatable() {
    let mut toolbar = ToolBar::new("Test");
    assert!(toolbar.is_floatable());
    toolbar.set_floatable(false);
    assert!(!toolbar.is_floatable());
}

#[test]
fn test_toolbar_allowed_areas() {
    let toolbar =
        ToolBar::new("Test").with_allowed_areas(ToolBarAreas::TOP() | ToolBarAreas::BOTTOM());
    assert!(toolbar.is_area_allowed(ToolBarArea::Top));
    assert!(toolbar.is_area_allowed(ToolBarArea::Bottom));
    assert!(!toolbar.is_area_allowed(ToolBarArea::Left));
    assert!(!toolbar.is_area_allowed(ToolBarArea::Right));
}

#[test]
fn test_toolbar_clear() {
    let mut toolbar = ToolBar::new("Test");
    toolbar.add_action(1);
    toolbar.add_separator();
    toolbar.add_action(2);
    assert_eq!(toolbar.item_count(), 3);
    toolbar.clear();
    assert_eq!(toolbar.item_count(), 0);
    assert!(toolbar.is_empty());
}

#[test]
fn test_toolbar_area_orientation() {
    assert_eq!(ToolBarArea::Top.orientation(), Orientation::Horizontal);
    assert_eq!(ToolBarArea::Bottom.orientation(), Orientation::Horizontal);
    assert_eq!(ToolBarArea::Left.orientation(), Orientation::Vertical);
    assert_eq!(ToolBarArea::Right.orientation(), Orientation::Vertical);
}

#[test]
fn test_toolbar_areas_iter() {
    let areas = ToolBarAreas::TOP() | ToolBarAreas::RIGHT();
    let collected: Vec<ToolBarArea> = areas.iter();
    assert_eq!(collected.len(), 2);
    assert!(collected.contains(&ToolBarArea::Top));
    assert!(collected.contains(&ToolBarArea::Right));
}

#[test]
fn test_toolbar_item_enum() {
    let item_action = ToolBarItem::Action(7);
    assert!(item_action.is_action());
    assert!(!item_action.is_separator());
    assert!(!item_action.is_widget());

    let item_sep = ToolBarItem::Separator;
    assert!(!item_sep.is_action());
    assert!(item_sep.is_separator());
    assert!(!item_sep.is_widget());
}

#[test]
fn test_toolbar_button_style() {
    let mut toolbar = ToolBar::new("Test");
    assert_eq!(toolbar.tool_button_style(), ToolButtonStyle::IconOnly);
    toolbar.set_tool_button_style(ToolButtonStyle::TextBesideIcon);
    assert_eq!(toolbar.tool_button_style(), ToolButtonStyle::TextBesideIcon);
}

#[test]
fn toolbar_areas_iter_in_fixed_order() {
    let areas = ToolBarAreas::RIGHT() | ToolBarAreas::TOP() | ToolBarAreas::LEFT();
    assert_eq!(
        areas.iter(),
        vec![ToolBarArea::Top, ToolBarArea::Left, ToolBarArea::Right]
    );
    assert!(ToolBarAreas::NONE().is_empty());
    assert!(ToolBarAreas::ALL().contains_areas(areas));
    assert!(!areas.contains_areas(ToolBarAreas::BOTTOM()));
    assert_eq!(ToolBarAreas::from_area(ToolBarArea::Left), ToolBarAreas::LEFT());
}

#[test]
fn toolbar_insert_and_remove_items() {
    let mut toolbar = ToolBar::new("Edit");
    toolbar.add_action(1);
    toolbar.add_action(2);
    toolbar.insert_separator(1);
    toolbar.insert_widget(100, 9);
    assert_eq!(
        toolbar.items().to_vec(),
        vec![
            ToolBarItem::Action(1),
            ToolBarItem::Separator,
            ToolBarItem::Action(2),
            ToolBarItem::Widget(9)
        ]
    );
    toolbar.remove_action(1);
    toolbar.remove_widget(9);
    assert_eq!(
        toolbar.items().to_vec(),
        vec![ToolBarItem::Separator, ToolBarItem::Action(2)]
    );
}

#[test]
fn toolbar_movable_feature_change_reported() {
    let mut toolbar = ToolBar::new("Test");
    assert_eq!(toolbar.set_movable(false), Some(false));
    assert_eq!(toolbar.set_movable(false), None);
    assert!(!toolbar.set_floating(false));
    assert!(toolbar.set_floating(true));
    assert!(toolbar.is_floating());
}

#[test]
fn or_assign_unions_areas_and_features() {
    let mut areas = ToolBarAreas::TOP();
    areas |= ToolBarAreas::from_area(ToolBarArea::Left);
    assert!(areas.contains(ToolBarArea::Top));
    assert!(areas.contains(ToolBarArea::Left));
    assert!(!areas.contains(ToolBarArea::Right));
    let mut features = ToolBarFeatures::NONE();
    features |= ToolBarFeatures::FLOATABLE();
    assert!(features.is_floatable());
    assert!(!features.is_movable());
}

#[test]
fn overflow_menu_keeps_visible_actions_and_separators() {
    let mut tb = ToolBar::new("Main");
    tb.add_action(1);
    tb.add_separator();
    tb.add_action(2);
    tb.add_widget(9);
    tb.add_action(3);
    assert_eq!(
        tb.overflow_menu_items(1, &[3]),
        vec![ToolBarItem::Separator, ToolBarItem::Action(2)]
    );
    assert_eq!(
        tb.overflow_menu_items(0, &[]),
        vec![
            ToolBarItem::Action(1),
            ToolBarItem::Separator,
            ToolBarItem::Action(2),
            ToolBarItem::Action(3)
        ]
    );
    assert!(tb.overflow_menu_items(10, &[]).is_empty());
}
