use horizon_lattice::action::Action;
use horizon_lattice::char_format::{Color, HorizontalAlign};
use horizon_lattice::text_edit_toolbar::{
    ColorWidgets, FontWidgets, FormatActions, ParagraphActions, TextEditToolbar,
    BACKGROUND_COLOR_WIDGET, FONT_FAMILY_WIDGET, FONT_SIZE_WIDGET, FOREGROUND_COLOR_WIDGET,
};
use horizon_lattice::tool_bar::{ToolBar, ToolBarItem};

#[test]
fn test_format_actions_creation() {
    let actions = FormatActions::new();
    assert!(actions.bold.is_checkable());
    assert!(actions.italic.is_checkable());
    assert!(actions.underline.is_checkable());
    assert!(actions.strikethrough.is_checkable());
    assert!(!actions.bold.is_checked());
    assert!(!actions.italic.is_checked());
    assert!(!actions.underline.is_checked());
    assert!(!actions.strikethrough.is_checked());
}

#[test]
fn test_format_actions_toggle() {
    let mut actions = FormatActions::new();
    actions.bold.toggle();
    assert!(actions.bold.is_checked());
    actions.bold.toggle();
    assert!(!actions.bold.is_checked());
}

#[test]
fn test_paragraph_actions_creation() {
    let actions = ParagraphActions::new();
    assert!(actions.align_left.is_checkable());
    assert!(actions.align_center.is_checkable());
    assert!(actions.align_right.is_checkable());
    assert!(actions.align_justify.is_checkable());
    assert!(actions.align_left.is_checked());
    assert!(!actions.align_center.is_checked());
    assert!(!actions.align_right.is_checked());
    assert!(!actions.align_justify.is_checked());
    assert!(actions.bullet_list.is_checkable());
    assert!(actions.numbered_list.is_checkable());
    assert!(!actions.indent_increase.is_checkable());
    assert!(!actions.indent_decrease.is_checkable());
}

#[test]
fn test_paragraph_alignment_exclusivity() {
    let mut actions = ParagraphActions::new();
    actions.align_center.set_checked(true);
    assert!(actions.align_center.is_checked());
    actions.sync_alignment(HorizontalAlign::Center);
    assert!(actions.align_center.is_checked());
    assert!(!actions.align_left.is_checked());
}

#[test]
fn test_color_widgets_creation() {
    let widgets = ColorWidgets::new();
    assert_eq!(widgets.foreground_color(), Color::BLACK());
    assert_eq!(widgets.background_color(), Color::TRANSPARENT());
}

#[test]
fn test_color_widgets_set_color() {
    let mut widgets = ColorWidgets::new();
    let red = Color::from_rgb8(255, 0, 0);
    let yellow = Color::from_rgb8(255, 255, 0);
    widgets.set_foreground_color(red);
    assert_eq!(widgets.foreground_color(), red);
    widgets.set_background_color(yellow);
    assert_eq!(widgets.background_color(), yellow);
}

#[test]
fn test_text_edit_toolbar_creation() {
    let toolbar = TextEditToolbar::new();
    assert!(toolbar.format_actions.bold.is_checkable());
    assert!(toolbar.paragraph_actions.align_left.is_checkable());
}

#[test]
fn recent_colors_move_to_front_and_cap() {
    let mut widgets = ColorWidgets::new();
    for i in 0..20u8 {
        widgets.add_recent_color(Color::from_rgb8(i, 0, 0));
    }
    assert_eq!(widgets.recent_colors().len(), 16);
    assert_eq!(widgets.recent_colors()[0], Color::from_rgb8(19, 0, 0));
    assert_eq!(widgets.recent_colors()[15], Color::from_rgb8(4, 0, 0));
    widgets.add_recent_color(Color::from_rgb8(10, 0, 0));
    assert_eq!(widgets.recent_colors().len(), 16);
    assert_eq!(widgets.recent_colors()[0], Color::from_rgb8(10, 0, 0));
    assert_eq!(widgets.recent_colors()[1], Color::from_rgb8(19, 0, 0));
    widgets.set_recent_colors((0..30u8).map(|i| Color::from_rgb8(0, i, 0)).collect());
    assert_eq!(widgets.recent_colors().len(), 16);
    widgets.clear_recent_colors();
    assert!(widgets.recent_colors().is_empty());
}

#[test]
fn font_family_choice() {
    let mut widgets = FontWidgets::new();
    assert_eq!(widgets.current_font_family(), None);
    widgets.set_font_family("Serif");
    assert_eq!(widgets.current_font_family(), Some("Serif".to_string()));
}

#[test]
fn populate_toolbar_order() {
    let bar = TextEditToolbar::new();
    let mut toolbar = ToolBar::new("Format");
    bar.populate_toolbar(&mut toolbar);
    let items = toolbar.items().to_vec();
    assert_eq!(items.len(), 21);
    assert_eq!(items[0], ToolBarItem::Widget(FONT_FAMILY_WIDGET));
    assert_eq!(items[1], ToolBarItem::Widget(FONT_SIZE_WIDGET));
    assert_eq!(items[2], ToolBarItem::Separator);
    assert_eq!(items[3], ToolBarItem::Action(bar.format_actions.bold.id()));
    assert_eq!(items[7], ToolBarItem::Separator);
    assert_eq!(items[8], ToolBarItem::Widget(FOREGROUND_COLOR_WIDGET));
    assert_eq!(items[9], ToolBarItem::Widget(BACKGROUND_COLOR_WIDGET));
    assert_eq!(items[10], ToolBarItem::Separator);
    assert_eq!(items[11], ToolBarItem::Action(bar.paragraph_actions.align_left.id()));
    assert_eq!(items[20], ToolBarItem::Action(bar.paragraph_actions.indent_decrease.id()));
}

#[test]
fn format_sync_and_action_basics() {
    let mut actions = FormatActions::new();
    actions.sync_format(true, false, true, false);
    assert!(actions.bold.is_checked());
    assert!(!actions.italic.is_checked());
    assert!(actions.underline.is_checked());
    assert_eq!(actions.bold.shortcut(), Some("Ctrl+B"));
    assert_eq!(actions.strikethrough.shortcut(), None);
    assert_eq!(actions.bold.tooltip(), Some("Bold (Ctrl+B)"));
    let mut plain = Action::new(99, "Go");
    assert!(!plain.set_checked(true));
    assert!(!plain.is_checked());
    assert_eq!(plain.text(), "Go");
    plain.set_enabled(false);
    assert!(!plain.is_enabled());
}

#[test]
fn toolbar_accessors_reach_the_controls() {
    let mut toolbar = TextEditToolbar::new();
    assert!(!toolbar.format_actions().bold.is_checked());
    assert!(toolbar.paragraph_actions().align_left.is_checked());
    toolbar.color_widgets_mut().add_recent_color(Color::BLACK());
    assert_eq!(toolbar.color_widgets().recent_colors(), &[Color::BLACK()]);
    toolbar.font_widgets_mut().set_font_family("Serif");
    assert_eq!(toolbar.font_widgets().current_font_family(), Some("Serif".to_string()));
}

#[test]
fn simple_color_widgets_have_no_dropdown() {
    let full = ColorWidgets::new();
    let simple = ColorWidgets::new_simple();
    assert!(full.has_dropdown());
    assert!(!simple.has_dropdown());
    assert_eq!(simple.foreground_color(), Color::BLACK());
    assert_eq!(simple.background_color(), Color::TRANSPARENT());
    assert!(simple.recent_colors().is_empty());
}
