use horizon_lattice::action::Action;
use horizon_lattice::char_format::Color;
use horizon_lattice::tool_button::{
    ToolButton, ToolButtonEvent, ToolButtonKey, ToolButtonPopupMode, ToolButtonStyle,
};
use std::time::Duration;

#[test]
fn test_tool_button_creation() {
    let button = ToolButton::new();
    assert_eq!(button.popup_mode(), ToolButtonPopupMode::DelayedPopup);
    assert!(button.auto_raise());
    assert_eq!(button.tool_button_style(), ToolButtonStyle::IconOnly);
}

#[test]
fn test_tool_button_builder_pattern() {
    let button = ToolButton::new()
        .with_popup_mode(ToolButtonPopupMode::MenuButtonPopup)
        .with_auto_raise(false)
        .with_tool_button_style(ToolButtonStyle::TextBesideIcon)
        .with_popup_delay_ms(300);

    assert_eq!(button.popup_mode(), ToolButtonPopupMode::MenuButtonPopup);
    assert!(!button.auto_raise());
    assert_eq!(button.tool_button_style(), ToolButtonStyle::TextBesideIcon);
    assert_eq!(button.popup_delay(), Duration::from_millis(300));
}

#[test]
fn test_tool_button_triggered_signal() {
    let mut button = ToolButton::new();
    button.trigger();
    assert!(button.take_events().contains(&ToolButtonEvent::Triggered));
}

#[test]
fn test_tool_button_menu_requested_signal() {
    let mut button = ToolButton::new();
    button.show_menu();
    assert!(button.take_events().contains(&ToolButtonEvent::MenuRequested));
}

#[test]
fn test_instant_popup_mode_triggers_menu() {
    let mut button = ToolButton::new().with_popup_mode(ToolButtonPopupMode::InstantPopup);
    button.trigger();
    let events = button.take_events();
    assert!(events.contains(&ToolButtonEvent::MenuRequested));
    assert!(!events.contains(&ToolButtonEvent::Triggered));
}

#[test]
fn test_tool_button_checkable() {
    let mut button = ToolButton::new().with_checkable(true);
    assert!(button.is_checkable());
    assert!(!button.is_checked());

    button.set_checked(true);
    assert!(button.is_checked());
}

#[test]
fn test_popup_mode_setters() {
    let mut button = ToolButton::new();

    button.set_popup_mode(ToolButtonPopupMode::InstantPopup);
    assert_eq!(button.popup_mode(), ToolButtonPopupMode::InstantPopup);

    button.set_popup_mode(ToolButtonPopupMode::MenuButtonPopup);
    assert_eq!(button.popup_mode(), ToolButtonPopupMode::MenuButtonPopup);

    button.set_popup_mode(ToolButtonPopupMode::DelayedPopup);
    assert_eq!(button.popup_mode(), ToolButtonPopupMode::DelayedPopup);
}

#[test]
fn test_tool_button_style_modes() {
    let mut button = ToolButton::new();

    button.set_tool_button_style(ToolButtonStyle::TextOnly);
    assert_eq!(button.tool_button_style(), ToolButtonStyle::TextOnly);

    button.set_tool_button_style(ToolButtonStyle::TextBesideIcon);
    assert_eq!(button.tool_button_style(), ToolButtonStyle::TextBesideIcon);

    button.set_tool_button_style(ToolButtonStyle::TextUnderIcon);
    assert_eq!(button.tool_button_style(), ToolButtonStyle::TextUnderIcon);
}

#[test]
fn test_tool_button_default_action() {
    let action = Action::new(7, "&Save");
    let button = ToolButton::new().with_default_action(action);

    assert!(button.default_action().is_some());
    assert_eq!(button.default_action().unwrap().id(), 7);
}

#[test]
fn test_tool_button_action_sync_text() {
    let action = Action::new(1, "&Save Document");
    let button = ToolButton::new().with_default_action(action);
    assert_eq!(button.text(), "&Save Document");
}

#[test]
fn test_tool_button_action_sync_enabled() {
    let action = Action::new(1, "&Test").with_enabled(false);
    let button = ToolButton::new().with_default_action(action);
    assert!(!button.is_enabled());
}

#[test]
fn test_tool_button_action_sync_checkable() {
    let action = Action::new(1, "&Bold").with_checkable(true).with_checked(true);
    let button = ToolButton::new().with_default_action(action);
    assert!(button.is_checkable());
    assert!(button.is_checked());
}

#[test]
fn test_tool_button_action_triggers_action() {
    let action = Action::new(42, "&Test");
    let mut button = ToolButton::new().with_default_action(action);
    button.trigger();
    assert!(button.take_events().contains(&ToolButtonEvent::ActionTriggered(42)));
}

#[test]
fn test_tool_button_clear_action() {
    let action = Action::new(1, "&Test");
    let mut button = ToolButton::new().with_default_action(action);
    assert!(button.default_action().is_some());
    button.set_default_action(None);
    assert!(button.default_action().is_none());
}

#[test]
fn test_tool_button_menu() {
    let button = ToolButton::new().with_menu(3);
    assert!(button.has_menu());
    assert!(button.menu().is_some());
}

#[test]
fn test_tool_button_clear_menu() {
    let mut button = ToolButton::new().with_menu(3);
    assert!(button.has_menu());
    button.set_menu(None);
    assert!(!button.has_menu());
    assert!(button.menu().is_none());
}

#[test]
fn test_tool_button_menu_signal_emitted() {
    let mut button = ToolButton::new().with_menu(3);
    button.show_menu();
    assert!(button.take_events().contains(&ToolButtonEvent::MenuRequested));
}

#[test]
fn test_tool_button_with_action_and_menu() {
    let action = Action::new(1, "&New");
    let button = ToolButton::new()
        .with_default_action(action)
        .with_menu(2)
        .with_popup_mode(ToolButtonPopupMode::MenuButtonPopup);

    assert!(button.default_action().is_some());
    assert!(button.has_menu());
    assert_eq!(button.popup_mode(), ToolButtonPopupMode::MenuButtonPopup);
}

#[test]
fn click_triggers_and_toggles_checkable() {
    let mut button = ToolButton::new().with_checkable(true);
    assert!(button.handle_press(true, false));
    assert!(button.handle_release(true, false, true));
    assert!(button.is_checked());
    assert_eq!(
        button.take_events(),
        vec![ToolButtonEvent::Pressed, ToolButtonEvent::Released, ToolButtonEvent::Triggered]
    );
    button.trigger();
    assert!(!button.is_checked());
}

#[test]
fn release_outside_does_not_trigger() {
    let mut button = ToolButton::new();
    button.handle_press(true, false);
    button.handle_release(true, false, false);
    assert_eq!(button.take_events(), vec![ToolButtonEvent::Pressed, ToolButtonEvent::Released]);
}

#[test]
fn delayed_popup_shows_menu_once_and_skips_trigger() {
    let mut button = ToolButton::new();
    button.handle_press(true, false);
    assert!(!button.check_delayed_popup(false));
    assert!(button.check_delayed_popup(true));
    assert!(!button.check_delayed_popup(true));
    button.handle_release(true, false, true);
    assert_eq!(
        button.take_events(),
        vec![ToolButtonEvent::Pressed, ToolButtonEvent::MenuRequested, ToolButtonEvent::Released]
    );
}

#[test]
fn arrow_press_and_release_requests_menu() {
    let mut button = ToolButton::new().with_popup_mode(ToolButtonPopupMode::MenuButtonPopup);
    assert!(button.handle_press(true, true));
    assert!(button.handle_release(true, true, true));
    assert_eq!(button.take_events(), vec![ToolButtonEvent::MenuRequested]);
    assert!(button.handle_move(true, false));
    assert!(!button.handle_move(true, false));
    assert_eq!(button.get_arrow_colors(false).0, Color::from_rgba8(0, 122, 255, 26));
    button.handle_leave();
    assert_eq!(button.get_arrow_colors(false).0, Color::from_rgba8(0, 0, 0, 0));
}

#[test]
fn disabled_button_ignores_input() {
    let mut button = ToolButton::new();
    button.set_enabled(false);
    assert!(!button.handle_press(true, false));
    assert!(!button.handle_key_release(ToolButtonKey::Space));
    button.trigger();
    button.show_menu();
    assert!(button.take_events().is_empty());
}

#[test]
fn key_release_triggers() {
    let mut button = ToolButton::new();
    assert!(button.handle_key_release(ToolButtonKey::Enter));
    assert!(!button.handle_key_release(ToolButtonKey::Other));
    assert_eq!(button.take_events(), vec![ToolButtonEvent::Released, ToolButtonEvent::Triggered]);
}

#[test]
fn colors_follow_raised_state() {
    let button = ToolButton::new();
    let (bg, border) = button.get_colors(false, false, false, false);
    assert_eq!(bg, Color::from_rgba8(0, 0, 0, 0));
    assert_eq!(border, None);
    let (bg, border) = button.get_colors(false, false, true, false);
    assert_eq!(bg, Color::from_rgba8(0, 122, 255, 26));
    assert_eq!(border, Some(Color::from_rgb8(200, 200, 200)));
    let flat_off = ToolButton::new().with_auto_raise(false);
    assert_eq!(flat_off.get_colors(true, false, false, false).0, Color::from_rgba8(200, 200, 200, 128));
}
