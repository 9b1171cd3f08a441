//! Actions: named commands with a label, an optional shortcut and tooltip, that can be
//! enabled, checkable and checked.

use vstd::prelude::*;

use crate::utf8_text::owned;

verus! {

/// A command shown on buttons and menus.
#[derive(Debug)]
pub struct Action {
    id: u64,
    text: String,
    shortcut: Option<String>,
    tooltip: Option<String>,
    enabled: bool,
    checkable: bool,
    checked: bool,
}

/// An action as a value.
pub struct ActionState {
    pub id: u64,
    pub text: Seq<char>,
    pub shortcut: Option<Seq<char>>,
    pub tooltip: Option<Seq<char>>,
    pub enabled: bool,
    pub checkable: bool,
    pub checked: bool,
}

pub open spec fn opt_chars(t: Option<String>) -> Option<Seq<char>> {
    match t {
        Some(s) => Some(s@),
        None => None,
    }
}

impl View for Action {
    type V = ActionState;

    closed spec fn view(&self) -> ActionState {
        ActionState {
            id: self.id,
            text: self.text@,
            shortcut: opt_chars(self.shortcut),
            tooltip: opt_chars(self.tooltip),
            enabled: self.enabled,
            checkable: self.checkable,
            checked: self.checked,
        }
    }
}

impl Action {
    #[verifier::type_invariant]
    spec fn inv(self) -> bool {
        self.checked ==> self.checkable
    }

    /// Only a checkable action is ever checked.
    pub fn check_checked(&self)
        ensures
            self@.checked ==> self@.checkable,
    {
        proof {
            use_type_invariant(self);
        }
    }

    /// An enabled, not checkable action with the given id and label.
    pub fn new(id: u64, text: &str) -> (r: Self)
        ensures
            r@ == (ActionState {
                id: id,
                text: text@,
                shortcut: None,
                tooltip: None,
                enabled: true,
                checkable: false,
                checked: false,
            }),
    {
        Action { id, text: owned(text), shortcut: None, tooltip: None, enabled: true, checkable: false, checked: false }
    }

    /// The action's id.
    pub fn id(&self) -> (r: u64)
        ensures
            r == self@.id,
    {
        self.id
    }

    /// The action's label.
    pub fn text(&self) -> (r: &str)
        ensures
            r@ == self@.text,
    {
        self.text.as_str()
    }

    /// The action's shortcut, if any.
    pub fn shortcut(&self) -> (r: Option<&str>)
        ensures
            match r {
                Some(s) => self@.shortcut == Some(s@),
                None => self@.shortcut is None,
            },
    {
        match &self.shortcut {
            Some(s) => Some(s.as_str()),
            None => None,
        }
    }

    /// The action's tooltip, if any.
    pub fn tooltip(&self) -> (r: Option<&str>)
        ensures
            match r {
                Some(s) => self@.tooltip == Some(s@),
                None => self@.tooltip is None,
            },
    {
        match &self.tooltip {
            Some(s) => Some(s.as_str()),
            None => None,
        }
    }

    /// This action, checkable or not (a checkable action stays checked only while checkable).
    pub fn with_checkable(self, checkable: bool) -> (r: Self)
        ensures
            r@ == (ActionState { checkable: checkable, checked: checkable && self@.checked, ..self@ }),
    {
        let mut s = self;
        s.set_checkable(checkable);
        s
    }

    /// This action, checked or not (only a checkable action can be checked).
    pub fn with_checked(self, checked: bool) -> (r: Self)
        ensures
            r@ == (ActionState { checked: self@.checkable && checked, ..self@ }),
    {
        let mut s = self;
        s.set_checked(checked);
        s
    }

    /// This action with the given shortcut.
    pub fn with_shortcut_str(self, shortcut: &str) -> (r: Self)
        ensures
            r@ == (ActionState { shortcut: Some(shortcut@), ..self@ }),
    {
        proof {
            use_type_invariant(&self);
        }
        let mut s = self;
        s.shortcut = Some(owned(shortcut));
        s
    }

    /// This action with the given tooltip.
    pub fn with_tooltip(self, tooltip: &str) -> (r: Self)
        ensures
            r@ == (ActionState { tooltip: Some(tooltip@), ..self@ }),
    {
        proof {
            use_type_invariant(&self);
        }
        let mut s = self;
        s.tooltip = Some(owned(tooltip));
        s
    }

    /// Whether the action can be checked.
    pub fn is_checkable(&self) -> (r: bool)
        ensures
            r == self@.checkable,
    {
        self.checkable
    }

    /// Make the action checkable or not; it stays checked only while checkable.
    pub fn set_checkable(&mut self, checkable: bool)
        ensures
            final(self)@ == (ActionState { checkable: checkable, checked: checkable && old(self)@.checked, ..old(self)@ }),
    {
        proof {
            use_type_invariant(&*self);
        }
        if !checkable {
            self.checked = false;
        }
        self.checkable = checkable;
    }

    /// Whether the action is checked.
    pub fn is_checked(&self) -> (r: bool)
        ensures
            r == self@.checked,
    {
        self.checked
    }

    /// Check or uncheck the action; returns whether that changed it (only a checkable action
    /// can be checked).
    pub fn set_checked(&mut self, checked: bool) -> (changed: bool)
        ensures
            final(self)@ == (ActionState { checked: old(self)@.checkable && checked, ..old(self)@ }),
            changed == (old(self)@.checkable && checked != old(self)@.checked),
    {
        proof {
            use_type_invariant(&*self);
        }
        if !self.checkable || self.checked == checked {
            return false;
        }
        self.checked = checked;
        true
    }

    /// Flip a checkable action's checked state; returns whether it changed.
    pub fn toggle(&mut self) -> (changed: bool)
        ensures
            final(self)@ == (ActionState {
                checked: if old(self)@.checkable {
                    !old(self)@.checked
                } else {
                    old(self)@.checked
                },
                ..old(self)@
            }),
            changed == old(self)@.checkable,
    {
        proof {
            use_type_invariant(&*self);
        }
        let c = !self.checked;
        self.set_checked(c)
    }

    /// Whether the action is enabled.
    pub fn is_enabled(&self) -> (r: bool)
        ensures
            r == self@.enabled,
    {
        self.enabled
    }

    /// This action, enabled or not.
    pub fn with_enabled(self, enabled: bool) -> (r: Self)
        ensures
            r@ == (ActionState { enabled: enabled, ..self@ }),
    {
        let mut s = self;
        s.set_enabled(enabled);
        s
    }

    /// Enable or disable the action.
    pub fn set_enabled(&mut self, enabled: bool)
        ensures
            final(self)@ == (ActionState { enabled: enabled, ..old(self)@ }),
    {
        proof {
            use_type_invariant(&*self);
        }
        self.enabled = enabled;
    }
}

} // verus!
