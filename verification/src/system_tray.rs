//! The system tray icon's model: its errors, how a click on it activates it, and the state
//! it keeps (tooltip, icon, menu, whether it is shown).

use vstd::prelude::*;
use vstd::string::StringExecFns;

use crate::utf8_text::owned;

verus! {

/// Errors that can occur when working with system tray icons.
#[derive(Debug, Clone)]
pub enum TrayError {
    /// Failed to create the tray icon.
    CreationFailed(String),
    /// Failed to load or create an icon image.
    IconError(String),
    /// The tray icon is not currently visible.
    NotVisible,
    /// Platform-specific error.
    PlatformError(String),
}

/// The detail of the error `show` gives when no icon image has been set.
pub open spec fn icon_missing_text() -> Seq<char> {
    "No icon has been set for the tray icon"@
}

/// The message of a tray error: a fixed lead, then the detail it carries.
pub open spec fn tray_error_text(e: TrayError) -> Seq<char> {
    match e {
        TrayError::CreationFailed(m) => "Failed to create tray icon: "@ + m@,
        TrayError::IconError(m) => "Icon error: "@ + m@,
        TrayError::NotVisible => "Tray icon is not visible"@,
        TrayError::PlatformError(m) => "Platform error: "@ + m@,
    }
}

impl TrayError {
    /// The error's message, for display.
    pub fn to_string(&self) -> (r: String)
        ensures
            r@ == tray_error_text(*self),
    {
        match self {
            TrayError::CreationFailed(m) => {
                let mut s = String::from_str("Failed to create tray icon: ");
                s.append(m.as_str());
                s
            },
            TrayError::IconError(m) => {
                let mut s = String::from_str("Icon error: ");
                s.append(m.as_str());
                s
            },
            TrayError::NotVisible => String::from_str("Tray icon is not visible"),
            TrayError::PlatformError(m) => {
                let mut s = String::from_str("Platform error: ");
                s.append(m.as_str());
                s
            },
        }
    }
}

/// Reason for system tray icon activation.
#[derive(Debug, Clone, Copy, PartialEq, Eq, Hash, Structural)]
pub enum ActivationReason {
    /// Unknown activation (default).
    Unknown,
    /// Tray icon was clicked (left-click on Windows/Linux, click on macOS).
    Click,
    /// Tray icon was double-clicked.
    DoubleClick,
    /// Tray icon was middle-clicked.
    MiddleClick,
    /// Context menu was requested (right-click on Windows/Linux).
    Context,
}

impl Default for ActivationReason {
    fn default() -> (r: Self)
        ensures
            r == ActivationReason::Unknown,
    {
        ActivationReason::Unknown
    }
}

/// The kind of pointer event the tray reports.
#[derive(Debug, Clone, Copy, PartialEq, Eq, Structural)]
pub enum TrayEventKind {
    /// A single click.
    Click,
    /// A double click.
    DoubleClick,
    /// The pointer entered, moved over or left the icon.
    Hover,
}

/// The mouse button of a tray event.
#[derive(Debug, Clone, Copy, PartialEq, Eq, Structural)]
pub enum TrayButton {
    Left,
    Right,
    Middle,
}

/// How a tray event activates the icon: the right button asks for the context menu and
/// the middle one is a middle click, whatever the kind of click; the left button clicks or
/// double-clicks; pointer movement activates nothing.
pub open spec fn activation_of(kind: TrayEventKind, button: TrayButton) -> ActivationReason {
    match kind {
        TrayEventKind::Hover => ActivationReason::Unknown,
        _ => match button {
            TrayButton::Right => ActivationReason::Context,
            TrayButton::Middle => ActivationReason::MiddleClick,
            TrayButton::Left => if kind == TrayEventKind::Click {
                ActivationReason::Click
            } else {
                ActivationReason::DoubleClick
            },
        },
    }
}

/// The activation reason of a tray event (`Unknown` for pointer movement).
pub fn convert_event(kind: TrayEventKind, button: TrayButton) -> (r: ActivationReason)
    ensures
        r == activation_of(kind, button),
{
    match kind {
        TrayEventKind::Click => match button {
            TrayButton::Left => ActivationReason::Click,
            TrayButton::Right => ActivationReason::Context,
            TrayButton::Middle => ActivationReason::MiddleClick,
        },
        TrayEventKind::DoubleClick => match button {
            TrayButton::Left => ActivationReason::DoubleClick,
            TrayButton::Right => ActivationReason::Context,
            TrayButton::Middle => ActivationReason::MiddleClick,
        },
        TrayEventKind::Hover => ActivationReason::Unknown,
    }
}

/// Whether an activation is reported to listeners: every one but `Unknown`.
pub fn is_reported(reason: ActivationReason) -> (r: bool)
    ensures
        r == (reason != ActivationReason::Unknown),
{
    match reason {
        ActivationReason::Unknown => false,
        _ => true,
    }
}

/// What the tray icon holds: its tooltip, whether an icon and a menu are set, and whether
/// the native icon exists (it is shown).
#[derive(Debug)]
pub struct SystemTrayIcon {
    tooltip: String,
    has_icon: bool,
    has_menu: bool,
    visible: bool,
}

impl SystemTrayIcon {
    pub closed spec fn spec_tooltip(&self) -> Seq<char> {
        self.tooltip@
    }

    pub closed spec fn spec_has_icon(&self) -> bool {
        self.has_icon
    }

    pub closed spec fn spec_has_menu(&self) -> bool {
        self.has_menu
    }

    pub closed spec fn spec_visible(&self) -> bool {
        self.visible
    }

    /// A hidden tray icon with no tooltip, icon or menu.
    pub fn new() -> (r: Self)
        ensures
            r.spec_tooltip() == Seq::<char>::empty(),
            !r.spec_has_icon(),
            !r.spec_has_menu(),
            !r.spec_visible(),
    {
        SystemTrayIcon { tooltip: String::new(), has_icon: false, has_menu: false, visible: false }
    }

    /// A hidden tray icon with the given tooltip.
    pub fn with_tooltip(tooltip: &str) -> (r: Self)
        ensures
            r.spec_tooltip() == tooltip@,
            !r.spec_has_icon(),
            !r.spec_has_menu(),
            !r.spec_visible(),
    {
        let mut t = Self::new();
        t.set_tooltip(tooltip);
        t
    }

    /// A hidden tray icon with an icon image set.
    pub fn with_icon() -> (r: Self)
        ensures
            r.spec_tooltip() == Seq::<char>::empty(),
            r.spec_has_icon(),
            !r.spec_has_menu(),
            !r.spec_visible(),
    {
        let mut t = Self::new();
        t.set_icon();
        t
    }

    /// A hidden tray icon with a context menu set.
    pub fn with_menu() -> (r: Self)
        ensures
            r.spec_tooltip() == Seq::<char>::empty(),
            !r.spec_has_icon(),
            r.spec_has_menu(),
            !r.spec_visible(),
    {
        let mut t = Self::new();
        t.set_menu(true);
        t
    }

    /// Set the tooltip shown when hovering over the icon.
    pub fn set_tooltip(&mut self, tooltip: &str)
        ensures
            final(self).spec_tooltip() == tooltip@,
            final(self).spec_has_icon() == old(self).spec_has_icon(),
            final(self).spec_has_menu() == old(self).spec_has_menu(),
            final(self).spec_visible() == old(self).spec_visible(),
    {
        self.tooltip = owned(tooltip);
    }

    /// The tooltip.
    pub fn tooltip(&self) -> (r: String)
        ensures
            r@ == self.spec_tooltip(),
    {
        self.tooltip.clone()
    }

    /// Record that an icon image was set.
    pub fn set_icon(&mut self)
        ensures
            final(self).spec_has_icon(),
            final(self).spec_tooltip() == old(self).spec_tooltip(),
            final(self).spec_has_menu() == old(self).spec_has_menu(),
            final(self).spec_visible() == old(self).spec_visible(),
    {
        self.has_icon = true;
    }

    /// Whether an icon image was set.
    pub fn has_icon(&self) -> (r: bool)
        ensures
            r == self.spec_has_icon(),
    {
        self.has_icon
    }

    /// Record that a context menu was set (`true`) or removed (`false`).
    pub fn set_menu(&mut self, present: bool)
        ensures
            final(self).spec_has_menu() == present,
            final(self).spec_tooltip() == old(self).spec_tooltip(),
            final(self).spec_has_icon() == old(self).spec_has_icon(),
            final(self).spec_visible() == old(self).spec_visible(),
    {
        self.has_menu = present;
    }

    /// Whether the icon has a context menu.
    pub fn has_menu(&self) -> (r: bool)
        ensures
            r == self.spec_has_menu(),
    {
        self.has_menu
    }

    /// Whether showing the icon has to create the native icon: only when it is not shown
    /// and an icon image has been set.
    pub fn needs_creation(&self) -> (r: bool)
        ensures
            r == (!self.spec_visible() && self.spec_has_icon()),
    {
        !self.visible && self.has_icon
    }

    /// Show the icon, given the outcome of creating the native icon (`created`, consulted
    /// only when `needs_creation` says a native icon is made). An icon already shown stays
    /// shown, with success. Without an icon image set, showing fails with an icon error and
    /// nothing is created. Otherwise the icon is shown when it was made, and the creation
    /// error is handed on when it was not.
    pub fn show(&mut self, created: Result<(), TrayError>) -> (r: Result<(), TrayError>)
        ensures
            old(self).spec_visible() ==> r is Ok && final(self).spec_visible(),
            !old(self).spec_visible() && !old(self).spec_has_icon() ==> !final(self).spec_visible()
                && (r matches Err(TrayError::IconError(m)) && m@ == icon_missing_text()),
            !old(self).spec_visible() && old(self).spec_has_icon() ==> r == created
                && final(self).spec_visible() == (created is Ok),
            final(self).spec_tooltip() == old(self).spec_tooltip(),
            final(self).spec_has_icon() == old(self).spec_has_icon(),
            final(self).spec_has_menu() == old(self).spec_has_menu(),
    {
        if self.visible {
            return Ok(());
        }
        if !self.has_icon {
            proof {
                reveal_strlit("No icon has been set for the tray icon");
            }
            return Err(TrayError::IconError(String::from_str("No icon has been set for the tray icon")));
        }
        if created.is_ok() {
            self.visible = true;
        }
        created
    }

    /// Hide the icon (dropping the native icon).
    pub fn hide_icon(&mut self)
        ensures
            !final(self).spec_visible(),
            final(self).spec_tooltip() == old(self).spec_tooltip(),
            final(self).spec_has_icon() == old(self).spec_has_icon(),
            final(self).spec_has_menu() == old(self).spec_has_menu(),
    {
        self.visible = false;
    }

    /// Whether the icon is shown.
    pub fn is_visible(&self) -> (r: bool)
        ensures
            r == self.spec_visible(),
    {
        self.visible
    }
}

impl Default for SystemTrayIcon {
    fn default() -> (r: Self)
        ensures
            r.spec_tooltip() == Seq::<char>::empty(),
            !r.spec_has_icon(),
            !r.spec_has_menu(),
            !r.spec_visible(),
    {
        Self::new()
    }
}

} // verus!
