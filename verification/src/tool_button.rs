//! The tool button's model: its display settings, its action and menu, and the
//! decisions of its click, key and hover handling.

use vstd::prelude::*;

use crate::action::{Action, ActionState};
use crate::char_format::Color;
use crate::utf8_text::owned;

verus! {

/// How the menu of a tool button is shown.
#[derive(Debug, Clone, Copy, PartialEq, Eq, Structural)]
pub enum ToolButtonPopupMode {
    /// The menu appears after pressing and holding the button for a short delay.
    DelayedPopup,
    /// The button shows a dedicated arrow that opens the menu.
    MenuButtonPopup,
    /// The menu appears as soon as the button is pressed.
    InstantPopup,
}

/// Style of text and icon display for tool buttons.
#[derive(Debug, Clone, Copy, PartialEq, Eq, Structural)]
pub enum ToolButtonStyle {
    /// Only the icon (the default for tool buttons).
    IconOnly,
    /// Only the text.
    TextOnly,
    /// Text beside the icon.
    TextBesideIcon,
    /// Text under the icon.
    TextUnderIcon,
}

/// A notification the tool button owes its listeners.
#[derive(Debug, Clone, Copy, PartialEq, Eq, Structural)]
pub enum ToolButtonEvent {
    /// The button's action was triggered.
    Triggered,
    /// The menu should be shown.
    MenuRequested,
    /// The main area of the button was pressed.
    Pressed,
    /// The button was released.
    Released,
    /// The default action (by its id) was triggered.
    ActionTriggered(u64),
}

/// A key the tool button reacts to on release.
#[derive(Debug, Clone, Copy, PartialEq, Eq, Structural)]
pub enum ToolButtonKey {
    Space,
    Enter,
    Other,
}

/// The delay a `Duration` of this many milliseconds stands for.
pub uninterp spec fn duration_from_millis(ms: u64) -> std::time::Duration;

/// `std::time::Duration::from_millis`: the duration of `ms` milliseconds. The result is
/// named, not described: it depends on `ms` alone.
#[verifier::external_body]
fn millis(ms: u64) -> (r: std::time::Duration)
    ensures
        r == duration_from_millis(ms),
{
    std::time::Duration::from_millis(ms)
}

/// A tool button as a value.
pub struct ToolButtonState {
    pub text: Seq<char>,
    pub style: ToolButtonStyle,
    pub popup_mode: ToolButtonPopupMode,
    pub popup_delay: std::time::Duration,
    pub auto_raise: bool,
    pub enabled: bool,
    pub checkable: bool,
    pub checked: bool,
    pub shortcut: Option<Seq<char>>,
    pub default_action: Option<ActionState>,
    pub menu: Option<u64>,
    /// A press in the main area is being held (delayed popup timing runs).
    pub press_started: bool,
    /// The menu was already requested for the current press.
    pub menu_shown_for_press: bool,
    pub arrow_hovered: bool,
    pub arrow_pressed: bool,
    /// The main area is held down.
    pub pressed: bool,
    /// Notifications not yet taken.
    pub events: Seq<ToolButtonEvent>,
}

/// A tool button: a compact button with a display style, an optional action whose
/// label and states it shows, and an optional menu shown by one of three popup modes.
#[derive(Debug)]
pub struct ToolButton {
    text: String,
    style: ToolButtonStyle,
    popup_mode: ToolButtonPopupMode,
    popup_delay: std::time::Duration,
    auto_raise: bool,
    enabled: bool,
    checkable: bool,
    checked: bool,
    shortcut: Option<String>,
    default_action: Option<Action>,
    menu: Option<u64>,
    press_started: bool,
    menu_shown_for_press: bool,
    arrow_hovered: bool,
    arrow_pressed: bool,
    pressed: bool,
    events: Vec<ToolButtonEvent>,
}

pub open spec fn opt_text(t: Option<String>) -> Option<Seq<char>> {
    match t {
        Some(s) => Some(s@),
        None => None,
    }
}

pub open spec fn opt_action(a: Option<Action>) -> Option<ActionState> {
    match a {
        Some(x) => Some(x@),
        None => None,
    }
}

impl View for ToolButton {
    type V = ToolButtonState;

    closed spec fn view(&self) -> ToolButtonState {
        ToolButtonState {
            text: self.text@,
            style: self.style,
            popup_mode: self.popup_mode,
            popup_delay: self.popup_delay,
            auto_raise: self.auto_raise,
            enabled: self.enabled,
            checkable: self.checkable,
            checked: self.checked,
            shortcut: opt_text(self.shortcut),
            default_action: opt_action(self.default_action),
            menu: self.menu,
            press_started: self.press_started,
            menu_shown_for_press: self.menu_shown_for_press,
            arrow_hovered: self.arrow_hovered,
            arrow_pressed: self.arrow_pressed,
            pressed: self.pressed,
            events: self.events@,
        }
    }
}

/// The button after it was triggered: in instant-popup mode the menu is requested;
/// otherwise a checkable button flips, the default action (if any) is triggered, and
/// `Triggered` is emitted. A disabled button does nothing.
pub open spec fn triggered(s: ToolButtonState) -> ToolButtonState {
    if !s.enabled {
        s
    } else if s.popup_mode == ToolButtonPopupMode::InstantPopup {
        ToolButtonState { events: s.events.push(ToolButtonEvent::MenuRequested), ..s }
    } else {
        let ev = match s.default_action {
            Some(a) => s.events.push(ToolButtonEvent::ActionTriggered(a.id)),
            None => s.events,
        };
        ToolButtonState {
            checked: if s.checkable {
                !s.checked
            } else {
                s.checked
            },
            events: ev.push(ToolButtonEvent::Triggered),
            ..s
        }
    }
}

/// The button showing the label, enabled state, checkable state (and checked state, when
/// checkable) and shortcut of its default action, if it has one.
pub open spec fn synced(s: ToolButtonState) -> ToolButtonState {
    match s.default_action {
        Some(a) => ToolButtonState {
            text: a.text,
            enabled: a.enabled,
            checkable: a.checkable,
            checked: if a.checkable {
                a.checked
            } else {
                false
            },
            shortcut: a.shortcut,
            ..s
        },
        None => s,
    }
}

/// What a left-button press does: in the arrow of a menu-button popup it arms the arrow;
/// in instant-popup mode it requests the menu; otherwise it holds the main area (starting
/// the delayed-popup timing in delayed mode) and emits `Pressed`.
pub open spec fn after_press(s: ToolButtonState, in_arrow: bool) -> ToolButtonState {
    if s.popup_mode == ToolButtonPopupMode::MenuButtonPopup && in_arrow {
        ToolButtonState { arrow_pressed: true, ..s }
    } else if s.popup_mode == ToolButtonPopupMode::InstantPopup {
        ToolButtonState { events: s.events.push(ToolButtonEvent::MenuRequested), ..s }
    } else if s.popup_mode == ToolButtonPopupMode::DelayedPopup {
        ToolButtonState {
            press_started: true,
            menu_shown_for_press: false,
            pressed: true,
            events: s.events.push(ToolButtonEvent::Pressed),
            ..s
        }
    } else {
        ToolButtonState { pressed: true, events: s.events.push(ToolButtonEvent::Pressed), ..s }
    }
}

/// What a left-button release does: an armed arrow disarms and, released over the arrow
/// of a menu-button popup, requests the menu. Otherwise the press ends, `Released` is
/// emitted, and the button is triggered if the release is over it, the main area was held,
/// the menu was not shown during the press, and the mode is not instant popup.
pub open spec fn after_release(s: ToolButtonState, in_arrow: bool, is_over: bool) -> ToolButtonState {
    if s.arrow_pressed {
        ToolButtonState {
            arrow_pressed: false,
            events: if s.popup_mode == ToolButtonPopupMode::MenuButtonPopup && in_arrow {
                s.events.push(ToolButtonEvent::MenuRequested)
            } else {
                s.events
            },
            ..s
        }
    } else {
        let ended = ToolButtonState {
            press_started: false,
            menu_shown_for_press: false,
            pressed: false,
            events: s.events.push(ToolButtonEvent::Released),
            ..s
        };
        if is_over && s.pressed && !s.menu_shown_for_press && s.popup_mode
            != ToolButtonPopupMode::InstantPopup {
            triggered(ended)
        } else {
            ended
        }
    }
}

/// Whether the held press of a delayed popup has lasted long enough to show the menu now.
pub open spec fn popup_due(s: ToolButtonState, delay_elapsed: bool) -> bool {
    s.popup_mode == ToolButtonPopupMode::DelayedPopup && s.press_started && !s.menu_shown_for_press
        && delay_elapsed
}

/// A new tool button: no text, icon-only, delayed popup after 500 ms, auto-raise,
/// enabled, not checkable, without action or menu, nothing held or hovered.
pub open spec fn initial_tool_button() -> ToolButtonState {
    ToolButtonState {
        text: Seq::empty(),
        style: ToolButtonStyle::IconOnly,
        popup_mode: ToolButtonPopupMode::DelayedPopup,
        popup_delay: duration_from_millis(500),
        auto_raise: true,
        enabled: true,
        checkable: false,
        checked: false,
        shortcut: None,
        default_action: None,
        menu: None,
        press_started: false,
        menu_shown_for_press: false,
        arrow_hovered: false,
        arrow_pressed: false,
        pressed: false,
        events: Seq::empty(),
    }
}

/// Whether the button is drawn raised rather than flat.
pub open spec fn raised(s: ToolButtonState, hovered: bool) -> bool {
    !s.auto_raise || hovered || s.pressed || s.checked
}

/// Whether `after` only adds notifications to those of `before`, none of them `Triggered`.
pub open spec fn adds_no_triggered(before: ToolButtonState, after: ToolButtonState) -> bool {
    &&& before.events.len() <= after.events.len()
    &&& after.events.subrange(0, before.events.len() as int) == before.events
    &&& forall|i: int|
        before.events.len() <= i < after.events.len() ==> #[trigger] after.events[i]
            != ToolButtonEvent::Triggered
}

/// In instant-popup mode the button never emits `Triggered`: neither triggering it, nor a
/// press, a release or a key release does.
pub proof fn law_instant_popup_never_triggers(s: ToolButtonState, in_arrow: bool, is_over: bool)
    requires
        s.popup_mode == ToolButtonPopupMode::InstantPopup,
    ensures
        adds_no_triggered(s, triggered(s)),
        adds_no_triggered(s, after_press(s, in_arrow)),
        adds_no_triggered(s, after_release(s, in_arrow, is_over)),
        adds_no_triggered(
            s,
            triggered(ToolButtonState { events: s.events.push(ToolButtonEvent::Released), ..s }),
        ),
{
    assert(s.events.push(ToolButtonEvent::MenuRequested).subrange(0, s.events.len() as int)
        =~= s.events);
    assert(s.events.push(ToolButtonEvent::Released).subrange(0, s.events.len() as int)
        =~= s.events);
    let r = s.events.push(ToolButtonEvent::Released);
    assert(r.push(ToolButtonEvent::MenuRequested).subrange(0, s.events.len() as int) =~= s.events);
    assert(s.events.subrange(0, s.events.len() as int) =~= s.events);
}

impl ToolButton {
    #[verifier::type_invariant]
    spec fn inv(self) -> bool {
        self.checked ==> self.checkable
    }

    /// Only a checkable button is ever checked.
    pub fn check_checked(&self)
        ensures
            self@.checked ==> self@.checkable,
    {
        proof {
            use_type_invariant(self);
        }
    }

    /// A new tool button: no text, icon-only, delayed popup after 500 ms, auto-raise,
    /// enabled, not checkable, without action or menu.
    pub fn new() -> (r: Self)
        ensures
            r@ == initial_tool_button(),
    {
        ToolButton {
            text: String::new(),
            style: ToolButtonStyle::IconOnly,
            popup_mode: ToolButtonPopupMode::DelayedPopup,
            popup_delay: millis(500),
            auto_raise: true,
            enabled: true,
            checkable: false,
            checked: false,
            shortcut: None,
            default_action: None,
            menu: None,
            press_started: false,
            menu_shown_for_press: false,
            arrow_hovered: false,
            arrow_pressed: false,
            pressed: false,
            events: Vec::new(),
        }
    }

    fn emit(&mut self, e: ToolButtonEvent)
        ensures
            final(self)@ == (ToolButtonState { events: old(self)@.events.push(e), ..old(self)@ }),
    {
        proof {
            use_type_invariant(&*self);
        }
        let mut ev: Vec<ToolButtonEvent> = Vec::new();
        std::mem::swap(&mut ev, &mut self.events);
        ev.push(e);
        self.events = ev;
    }

    /// Hand out the notifications so far and forget them.
    pub fn take_events(&mut self) -> (r: Vec<ToolButtonEvent>)
        ensures
            r@ == old(self)@.events,
            final(self)@ == (ToolButtonState { events: Seq::empty(), ..old(self)@ }),
    {
        proof {
            use_type_invariant(&*self);
        }
        let mut out: Vec<ToolButtonEvent> = Vec::new();
        std::mem::swap(&mut out, &mut self.events);
        out
    }

    /// The button's text.
    pub fn text(&self) -> (r: &str)
        ensures
            r@ == self@.text,
    {
        self.text.as_str()
    }

    /// Set the button's text.
    pub fn set_text(&mut self, text: &str)
        ensures
            final(self)@ == (ToolButtonState { text: text@, ..old(self)@ }),
    {
        proof {
            use_type_invariant(&*self);
        }
        self.text = owned(text);
    }

    /// This button with the given text.
    pub fn with_text(self, text: &str) -> (r: Self)
        ensures
            r@ == (ToolButtonState { text: text@, ..self@ }),
    {
        let mut s = self;
        s.set_text(text);
        s
    }

    /// The display style.
    pub fn tool_button_style(&self) -> (r: ToolButtonStyle)
        ensures
            r == self@.style,
    {
        self.style
    }

    /// Set the display style.
    pub fn set_tool_button_style(&mut self, style: ToolButtonStyle)
        ensures
            final(self)@ == (ToolButtonState { style: style, ..old(self)@ }),
    {
        proof {
            use_type_invariant(&*self);
        }
        self.style = style;
    }

    /// This button with the given display style.
    pub fn with_tool_button_style(self, style: ToolButtonStyle) -> (r: Self)
        ensures
            r@ == (ToolButtonState { style: style, ..self@ }),
    {
        let mut s = self;
        s.set_tool_button_style(style);
        s
    }

    /// The popup mode.
    pub fn popup_mode(&self) -> (r: ToolButtonPopupMode)
        ensures
            r == self@.popup_mode,
    {
        self.popup_mode
    }

    /// Set the popup mode.
    pub fn set_popup_mode(&mut self, mode: ToolButtonPopupMode)
        ensures
            final(self)@ == (ToolButtonState { popup_mode: mode, ..old(self)@ }),
    {
        proof {
            use_type_invariant(&*self);
        }
        self.popup_mode = mode;
    }

    /// This button with the given popup mode.
    pub fn with_popup_mode(self, mode: ToolButtonPopupMode) -> (r: Self)
        ensures
            r@ == (ToolButtonState { popup_mode: mode, ..self@ }),
    {
        let mut s = self;
        s.set_popup_mode(mode);
        s
    }

    /// How long a press must be held before a delayed popup shows the menu.
    pub fn popup_delay(&self) -> (r: std::time::Duration)
        ensures
            r == self@.popup_delay,
    {
        self.popup_delay
    }

    /// Set the delayed-popup delay.
    pub fn set_popup_delay(&mut self, delay: std::time::Duration)
        ensures
            final(self)@ == (ToolButtonState { popup_delay: delay, ..old(self)@ }),
    {
        proof {
            use_type_invariant(&*self);
        }
        self.popup_delay = delay;
    }

    /// This button with the given delayed-popup delay.
    pub fn with_popup_delay(self, delay: std::time::Duration) -> (r: Self)
        ensures
            r@ == (ToolButtonState { popup_delay: delay, ..self@ }),
    {
        let mut s = self;
        s.set_popup_delay(delay);
        s
    }

    /// This button with a delayed-popup delay of `ms` milliseconds.
    pub fn with_popup_delay_ms(self, ms: u64) -> (r: Self)
        ensures
            r@ == (ToolButtonState { popup_delay: duration_from_millis(ms), ..self@ }),
    {
        let mut s = self;
        s.set_popup_delay(millis(ms));
        s
    }

    /// Whether the button is flat until hovered.
    pub fn auto_raise(&self) -> (r: bool)
        ensures
            r == self@.auto_raise,
    {
        self.auto_raise
    }

    /// Set whether the button is flat until hovered.
    pub fn set_auto_raise(&mut self, enabled: bool)
        ensures
            final(self)@ == (ToolButtonState { auto_raise: enabled, ..old(self)@ }),
    {
        proof {
            use_type_invariant(&*self);
        }
        self.auto_raise = enabled;
    }

    /// This button, flat until hovered or not.
    pub fn with_auto_raise(self, enabled: bool) -> (r: Self)
        ensures
            r@ == (ToolButtonState { auto_raise: enabled, ..self@ }),
    {
        let mut s = self;
        s.set_auto_raise(enabled);
        s
    }

    /// Whether the button is enabled.
    pub fn is_enabled(&self) -> (r: bool)
        ensures
            r == self@.enabled,
    {
        self.enabled
    }

    /// Enable or disable the button.
    pub fn set_enabled(&mut self, enabled: bool)
        ensures
            final(self)@ == (ToolButtonState { enabled: enabled, ..old(self)@ }),
    {
        proof {
            use_type_invariant(&*self);
        }
        self.enabled = enabled;
    }

    /// Whether the button toggles when triggered.
    pub fn is_checkable(&self) -> (r: bool)
        ensures
            r == self@.checkable,
    {
        self.checkable
    }

    /// Make the button checkable or not; it stays checked only while checkable.
    pub fn set_checkable(&mut self, checkable: bool)
        ensures
            final(self)@ == (ToolButtonState {
                checkable: checkable,
                checked: checkable && old(self)@.checked,
                ..old(self)@
            }),
    {
        proof {
            use_type_invariant(&*self);
        }
        if !checkable {
            self.checked = false;
        }
        self.checkable = checkable;
    }

    /// This button, checkable or not.
    pub fn with_checkable(self, checkable: bool) -> (r: Self)
        ensures
            r@ == (ToolButtonState { checkable: checkable, checked: checkable && self@.checked, ..self@ }),
    {
        let mut s = self;
        s.set_checkable(checkable);
        s
    }

    /// Whether the button is checked.
    pub fn is_checked(&self) -> (r: bool)
        ensures
            r == self@.checked,
    {
        self.checked
    }

    /// Check or uncheck the button (only a checkable button can be checked).
    pub fn set_checked(&mut self, checked: bool)
        ensures
            final(self)@ == (ToolButtonState { checked: old(self)@.checkable && checked, ..old(self)@ }),
    {
        proof {
            use_type_invariant(&*self);
        }
        if self.checkable {
            self.checked = checked;
        }
    }

    /// This button, checked or not.
    pub fn with_checked(self, checked: bool) -> (r: Self)
        ensures
            r@ == (ToolButtonState { checked: self@.checkable && checked, ..self@ }),
    {
        let mut s = self;
        s.set_checked(checked);
        s
    }

    /// The keyboard shortcut, if any.
    pub fn shortcut(&self) -> (r: Option<&str>)
        ensures
            match r {
                Some(s) => self@.shortcut == Some(s@),
                None => self@.shortcut is None,
            },
    {
        match &self.shortcut {
            Some(s) => Some(s.as_str()),
            None => None,
        }
    }

    /// Set or clear the keyboard shortcut.
    pub fn set_shortcut(&mut self, shortcut: Option<&str>)
        ensures
            final(self)@ == (ToolButtonState {
                shortcut: match shortcut {
                    Some(s) => Some(s@),
                    None => None,
                },
                ..old(self)@
            }),
    {
        proof {
            use_type_invariant(&*self);
        }
        self.shortcut = match shortcut {
            Some(s) => Some(owned(s)),
            None => None,
        };
    }

    /// This button with the given shortcut.
    pub fn with_shortcut_str(self, shortcut: &str) -> (r: Self)
        ensures
            r@ == (ToolButtonState { shortcut: Some(shortcut@), ..self@ }),
    {
        let mut s = self;
        s.set_shortcut(Some(shortcut));
        s
    }

    /// The default action, if any.
    pub fn default_action(&self) -> (r: Option<&Action>)
        ensures
            match r {
                Some(a) => self@.default_action == Some(a@),
                None => self@.default_action is None,
            },
    {
        match &self.default_action {
            Some(a) => Some(a),
            None => None,
        }
    }

    /// Set or clear the default action; a new action's label and states are shown at once.
    pub fn set_default_action(&mut self, action: Option<Action>)
        ensures
            final(self)@ == synced(
                ToolButtonState { default_action: opt_action(action), ..old(self)@ },
            ),
    {
        proof {
            use_type_invariant(&*self);
        }
        self.default_action = action;
        self.sync_from_action();
    }

    /// This button with the given default action, its label and states shown.
    pub fn with_default_action(self, action: Action) -> (r: Self)
        ensures
            r@ == synced(ToolButtonState { default_action: Some(action@), ..self@ }),
    {
        let mut s = self;
        s.set_default_action(Some(action));
        s
    }

    /// Show the label, enabled, checkable and checked states and shortcut of the default
    /// action, if there is one.
    pub fn sync_from_action(&mut self)
        ensures
            final(self)@ == synced(old(self)@),
    {
        proof {
            use_type_invariant(&*self);
        }
        let (text, enabled, checkable, checked, shortcut) = match &self.default_action {
            Some(a) => {
                a.check_checked();
                let sc = match a.shortcut() {
                    Some(s) => Some(owned(s)),
                    None => None,
                };
                (owned(a.text()), a.is_enabled(), a.is_checkable(), a.is_checked(), sc)
            },
            None => {
                return ;
            },
        };
        self.text = text;
        self.enabled = enabled;
        self.checked = false;
        self.checkable = checkable;
        if checkable {
            self.checked = checked;
        }
        self.shortcut = shortcut;
    }

    /// The attached menu's id, if any.
    pub fn menu(&self) -> (r: Option<u64>)
        ensures
            r == self@.menu,
    {
        self.menu
    }

    /// Attach a menu (by id) or remove it.
    pub fn set_menu(&mut self, menu: Option<u64>)
        ensures
            final(self)@ == (ToolButtonState { menu: menu, ..old(self)@ }),
    {
        proof {
            use_type_invariant(&*self);
        }
        self.menu = menu;
    }

    /// This button with the given menu attached.
    pub fn with_menu(self, menu: u64) -> (r: Self)
        ensures
            r@ == (ToolButtonState { menu: Some(menu), ..self@ }),
    {
        let mut s = self;
        s.set_menu(Some(menu));
        s
    }

    /// Whether a menu is attached.
    pub fn has_menu(&self) -> (r: bool)
        ensures
            r == self@.menu is Some,
    {
        self.menu.is_some()
    }

    /// Trigger the button: in instant-popup mode this requests the menu; otherwise a
    /// checkable button flips, the default action is triggered and `Triggered` is emitted.
    /// A disabled button does nothing.
    pub fn trigger(&mut self)
        ensures
            final(self)@ == triggered(old(self)@),
    {
        proof {
            use_type_invariant(&*self);
        }
        if !self.enabled {
            return ;
        }
        if self.popup_mode == ToolButtonPopupMode::InstantPopup {
            self.emit(ToolButtonEvent::MenuRequested);
        } else {
            if self.checkable {
                self.checked = !self.checked;
            }
            let id = match &self.default_action {
                Some(a) => Some(a.id()),
                None => None,
            };
            match id {
                Some(i) => self.emit(ToolButtonEvent::ActionTriggered(i)),
                None => {},
            }
            self.emit(ToolButtonEvent::Triggered);
        }
    }

    /// Request the menu, if the button is enabled (whether or not a menu is attached).
    pub fn show_menu(&mut self)
        ensures
            final(self)@ == (if old(self)@.enabled {
                ToolButtonState { events: old(self)@.events.push(ToolButtonEvent::MenuRequested), ..old(self)@ }
            } else {
                old(self)@
            }),
    {
        if self.enabled {
            self.emit(ToolButtonEvent::MenuRequested);
        }
    }

    /// Whether the button is drawn raised: always without auto-raise, else while hovered,
    /// held or checked.
    pub fn should_show_raised(&self, hovered: bool) -> (r: bool)
        ensures
            r == raised(self@, hovered),
    {
        !self.auto_raise || hovered || self.pressed || self.checked
    }

    /// Background and border colors of the main area for the given state.
    pub fn get_colors(&self, is_disabled: bool, is_pressed: bool, is_hovered: bool, is_checked: bool) -> (r: (
        Color,
        Option<Color>,
    ))
        ensures
            ({
                let show = raised(self@, is_hovered);
                let border = Color { r: 200, g: 200, b: 200, a: 255 };
                if is_disabled {
                    r == (if show {
                        (Color { r: 200, g: 200, b: 200, a: 128 }, Some(border))
                    } else {
                        (Color { r: 0, g: 0, b: 0, a: 0 }, None)
                    })
                } else {
                    &&& r.0 == (if is_pressed {
                        Color { r: 0, g: 122, b: 255, a: 51 }
                    } else if is_checked {
                        Color { r: 0, g: 122, b: 255, a: 38 }
                    } else if is_hovered && show {
                        Color { r: 0, g: 122, b: 255, a: 26 }
                    } else {
                        Color { r: 0, g: 0, b: 0, a: 0 }
                    })
                    &&& r.1 == (if show {
                        Some(border)
                    } else {
                        None
                    })
                }
            }),
    {
        let primary_tint = Color::from_rgba8(0, 122, 255, 26);
        let pressed_tint = Color::from_rgba8(0, 122, 255, 51);
        let checked_tint = Color::from_rgba8(0, 122, 255, 38);
        let border = Color::from_rgb8(200, 200, 200);
        let disabled_bg = Color::from_rgba8(200, 200, 200, 128);
        let transparent = Color::from_rgba8(0, 0, 0, 0);
        let show_raised = self.should_show_raised(is_hovered);
        if is_disabled {
            if show_raised {
                return (disabled_bg, Some(border));
            }
            return (transparent, None);
        }
        let bg = if is_pressed {
            pressed_tint
        } else if is_checked {
            checked_tint
        } else if is_hovered && show_raised {
            primary_tint
        } else {
            transparent
        };
        let border_color = if show_raised {
            Some(border)
        } else {
            None
        };
        (bg, border_color)
    }

    /// Background and border colors of the arrow area.
    pub fn get_arrow_colors(&self, is_disabled: bool) -> (r: (Color, Option<Color>))
        ensures
            r.1 == Some(Color { r: 200, g: 200, b: 200, a: 255 }),
            r.0 == (if is_disabled {
                Color { r: 0, g: 0, b: 0, a: 0 }
            } else if self@.arrow_pressed {
                Color { r: 0, g: 122, b: 255, a: 51 }
            } else if self@.arrow_hovered {
                Color { r: 0, g: 122, b: 255, a: 26 }
            } else {
                Color { r: 0, g: 0, b: 0, a: 0 }
            }),
    {
        let pressed_tint = Color::from_rgba8(0, 122, 255, 51);
        let hover_tint = Color::from_rgba8(0, 122, 255, 26);
        let border = Color::from_rgb8(200, 200, 200);
        let transparent = Color::from_rgba8(0, 0, 0, 0);
        if is_disabled {
            return (transparent, Some(border));
        }
        let bg = if self.arrow_pressed {
            pressed_tint
        } else if self.arrow_hovered {
            hover_tint
        } else {
            transparent
        };
        (bg, Some(border))
    }

    /// Show the menu of a delayed popup once the held press has lasted the popup delay
    /// (`delay_elapsed`, measured by the caller); returns whether it was shown now.
    pub fn check_delayed_popup(&mut self, delay_elapsed: bool) -> (shown: bool)
        ensures
            shown == popup_due(old(self)@, delay_elapsed),
            final(self)@ == (if shown {
                ToolButtonState {
                    menu_shown_for_press: true,
                    events: old(self)@.events.push(ToolButtonEvent::MenuRequested),
                    ..old(self)@
                }
            } else {
                old(self)@
            }),
    {
        proof {
            use_type_invariant(&*self);
        }
        if self.popup_mode == ToolButtonPopupMode::DelayedPopup && self.press_started
            && !self.menu_shown_for_press && delay_elapsed {
            self.menu_shown_for_press = true;
            self.emit(ToolButtonEvent::MenuRequested);
            return true;
        }
        false
    }

    /// A mouse press (`left`: with the left button; `in_arrow`: over the arrow area).
    /// Returns whether the button handled it: only left presses on an enabled button.
    pub fn handle_press(&mut self, left: bool, in_arrow: bool) -> (handled: bool)
        ensures
            handled == (left && old(self)@.enabled),
            final(self)@ == (if handled {
                after_press(old(self)@, in_arrow)
            } else {
                old(self)@
            }),
    {
        proof {
            use_type_invariant(&*self);
        }
        if !left || !self.enabled {
            return false;
        }
        if self.popup_mode == ToolButtonPopupMode::MenuButtonPopup && in_arrow {
            self.arrow_pressed = true;
            return true;
        }
        if self.popup_mode == ToolButtonPopupMode::InstantPopup {
            self.emit(ToolButtonEvent::MenuRequested);
            return true;
        }
        if self.popup_mode == ToolButtonPopupMode::DelayedPopup {
            self.press_started = true;
            self.menu_shown_for_press = false;
        }
        self.pressed = true;
        self.emit(ToolButtonEvent::Pressed);
        true
    }

    /// A mouse release (`in_arrow`: over the arrow area; `is_over`: over the button).
    /// Returns whether the button handled it: only left releases on an enabled button.
    pub fn handle_release(&mut self, left: bool, in_arrow: bool, is_over: bool) -> (handled: bool)
        ensures
            handled == (left && old(self)@.enabled),
            final(self)@ == (if handled {
                after_release(old(self)@, in_arrow, is_over)
            } else {
                old(self)@
            }),
    {
        proof {
            use_type_invariant(&*self);
        }
        if !left || !self.enabled {
            return false;
        }
        if self.arrow_pressed {
            self.arrow_pressed = false;
            if self.popup_mode == ToolButtonPopupMode::MenuButtonPopup && in_arrow {
                self.emit(ToolButtonEvent::MenuRequested);
            }
            return true;
        }
        let menu_was_shown = self.menu_shown_for_press;
        let was_pressed = self.pressed;
        self.press_started = false;
        self.menu_shown_for_press = false;
        self.pressed = false;
        self.emit(ToolButtonEvent::Released);
        if is_over && was_pressed && !menu_was_shown && self.popup_mode
            != ToolButtonPopupMode::InstantPopup {
            self.trigger();
        }
        true
    }

    /// A mouse move (`in_arrow`: now over the arrow area; `delay_elapsed`: a held press
    /// has lasted the popup delay). Returns whether the arrow's hover state changed.
    pub fn handle_move(&mut self, in_arrow: bool, delay_elapsed: bool) -> (changed: bool)
        ensures
            ({
                let mid = if popup_due(old(self)@, delay_elapsed) {
                    ToolButtonState {
                        menu_shown_for_press: true,
                        events: old(self)@.events.push(ToolButtonEvent::MenuRequested),
                        ..old(self)@
                    }
                } else {
                    old(self)@
                };
                &&& changed == (mid.popup_mode == ToolButtonPopupMode::MenuButtonPopup && in_arrow
                    != mid.arrow_hovered)
                &&& final(self)@ == (if changed {
                    ToolButtonState { arrow_hovered: in_arrow, ..mid }
                } else {
                    mid
                })
            }),
    {
        proof {
            use_type_invariant(&*self);
        }
        self.check_delayed_popup(delay_elapsed);
        if self.popup_mode == ToolButtonPopupMode::MenuButtonPopup && in_arrow != self.arrow_hovered {
            self.arrow_hovered = in_arrow;
            return true;
        }
        false
    }

    /// A key release: Space or Enter on an enabled button emits `Released` and triggers
    /// it. Returns whether the button handled the key.
    pub fn handle_key_release(&mut self, key: ToolButtonKey) -> (handled: bool)
        ensures
            handled == (old(self)@.enabled && key != ToolButtonKey::Other),
            final(self)@ == (if handled {
                triggered(
                    ToolButtonState { events: old(self)@.events.push(ToolButtonEvent::Released), ..old(self)@ },
                )
            } else {
                old(self)@
            }),
    {
        if !self.enabled {
            return false;
        }
        match key {
            ToolButtonKey::Space | ToolButtonKey::Enter => {
                self.emit(ToolButtonEvent::Released);
                self.trigger();
                true
            },
            ToolButtonKey::Other => false,
        }
    }

    /// The pointer left the button: the arrow is no longer hovered.
    pub fn handle_leave(&mut self)
        ensures
            final(self)@ == (ToolButtonState { arrow_hovered: false, ..old(self)@ }),
    {
        proof {
            use_type_invariant(&*self);
        }
        self.arrow_hovered = false;
    }
}

impl Default for ToolButton {
    fn default() -> (r: Self)
        ensures
            r@ == initial_tool_button(),
    {
        ToolButton::new()
    }
}

} // verus!
