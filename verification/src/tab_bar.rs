//! The tab bar's model: its tabs, the current tab, and the decisions of its
//! keyboard and click handling.

use vstd::prelude::*;

use crate::utf8_text::owned;

verus! {

/// Tab position relative to the content.
#[derive(Debug, Clone, Copy, PartialEq, Eq, Structural)]
pub enum TabPosition {
    /// Tabs at the top (horizontal layout).
    Top,
    /// Tabs at the bottom (horizontal layout).
    Bottom,
    /// Tabs on the left (vertical layout).
    Left,
    /// Tabs on the right (vertical layout).
    Right,
}

impl TabPosition {
    pub open spec fn spec_is_horizontal(self) -> bool {
        self == TabPosition::Top || self == TabPosition::Bottom
    }

    /// Whether the tabs are laid out in a row (top or bottom).
    pub fn is_horizontal(&self) -> (r: bool)
        ensures
            r == self.spec_is_horizontal(),
    {
        match self {
            TabPosition::Top | TabPosition::Bottom => true,
            _ => false,
        }
    }

    /// Whether the tabs are laid out in a column (left or right).
    pub fn is_vertical(&self) -> (r: bool)
        ensures
            r == !self.spec_is_horizontal(),
    {
        match self {
            TabPosition::Left | TabPosition::Right => true,
            _ => false,
        }
    }
}

/// A notification the tab bar owes its listeners.
#[derive(Debug, Clone, Copy, PartialEq, Eq, Structural)]
pub enum TabBarEvent {
    /// The current tab changed to this index (-1: no tab).
    CurrentChanged(i32),
    /// A tab moved from the first index to the second.
    TabMoved(i32, i32),
    /// The close button of this tab was clicked.
    TabCloseRequested(i32),
}

/// Keys the tab bar handles.
#[derive(Debug, Clone, Copy, PartialEq, Eq, Structural)]
pub enum TabKey {
    ArrowLeft,
    ArrowRight,
    ArrowUp,
    ArrowDown,
    Home,
    End,
    Other,
}

/// Which part of the tab bar a pointer is over.
#[derive(Debug, Clone, Copy, PartialEq, Eq, Structural)]
pub enum TabBarPart {
    Nothing,
    /// A tab at the given index.
    Tab(usize),
    /// The close button on a tab.
    CloseButton(usize),
    /// The scroll left/up button.
    ScrollDecrease,
    /// The scroll right/down button.
    ScrollIncrease,
}

/// Information about a single tab.
#[derive(Debug)]
struct TabItem {
    label: String,
    enabled: bool,
    closable: bool,
    tooltip: Option<String>,
}

/// A tab as a value.
pub struct TabInfo {
    pub label: Seq<char>,
    pub enabled: bool,
    pub closable: bool,
    pub tooltip: Option<Seq<char>>,
}

pub open spec fn tooltip_view(t: Option<String>) -> Option<Seq<char>> {
    match t {
        Some(s) => Some(s@),
        None => None,
    }
}

impl TabItem {
    spec fn info(self) -> TabInfo {
        TabInfo { label: self.label@, enabled: self.enabled, closable: self.closable, tooltip: tooltip_view(self.tooltip) }
    }
}

/// The index at which `insert_tab` puts a tab: the requested one, or the end when it is
/// negative or past the end.
pub open spec fn insert_at(index: int, len: int) -> int {
    if 0 <= index <= len {
        index
    } else {
        len
    }
}

/// The current index after a tab at `index` is removed from `len` tabs (`index <= current`
/// moves it back, not below 0; no tab left gives -1).
pub open spec fn current_after_remove(current: int, index: int, len: int) -> int {
    if len == 1 {
        -1
    } else if index <= current {
        let c = if current - 1 > 0 {
            current - 1
        } else {
            0
        };
        if c < len - 2 {
            c
        } else {
            len - 2
        }
    } else {
        current
    }
}

/// The current index after a tab moves from `from` to `to`: it follows the tab it named.
pub open spec fn current_after_move(current: int, from: int, to: int) -> int {
    if current == from {
        to
    } else if from < current && to >= current {
        current - 1
    } else if from > current && to <= current {
        current + 1
    } else {
        current
    }
}

/// The first enabled tab at or after `from`, or -1 when there is none.
pub open spec fn first_enabled_from(tabs: Seq<TabInfo>, from: int) -> int
    decreases tabs.len() - from,
{
    if from < 0 || from >= tabs.len() {
        -1
    } else if tabs[from].enabled {
        from
    } else {
        first_enabled_from(tabs, from + 1)
    }
}

/// The last enabled tab before `to`, or -1 when there is none.
pub open spec fn last_enabled_before(tabs: Seq<TabInfo>, to: int) -> int
    decreases to,
{
    if to <= 0 || to > tabs.len() {
        -1
    } else if tabs[to - 1].enabled {
        to - 1
    } else {
        last_enabled_before(tabs, to - 1)
    }
}

/// Whether `index` names a tab of `tabs`.
pub open spec fn valid_tab(tabs: Seq<TabInfo>, index: int) -> bool {
    0 <= index < tabs.len()
}

/// A keyboard move between tabs.
#[derive(Debug, Clone, Copy, PartialEq, Eq, Structural)]
pub enum TabNav {
    Previous,
    Next,
    First,
    Last,
}

/// The move a key asks for: the arrows along the bar step back and forth, Home and End go to
/// the ends.
pub open spec fn key_nav(position: TabPosition, key: TabKey) -> Option<TabNav> {
    if (position.spec_is_horizontal() && key == TabKey::ArrowLeft) || (!position.spec_is_horizontal()
        && key == TabKey::ArrowUp) {
        Some(TabNav::Previous)
    } else if (position.spec_is_horizontal() && key == TabKey::ArrowRight) || (
    !position.spec_is_horizontal() && key == TabKey::ArrowDown) {
        Some(TabNav::Next)
    } else if key == TabKey::Home {
        Some(TabNav::First)
    } else if key == TabKey::End {
        Some(TabNav::Last)
    } else {
        None
    }
}

/// The tab a move selects: the nearest enabled tab after or before the current one, or the
/// first or last enabled tab; -1 when there is none.
pub open spec fn nav_target(tabs: Seq<TabInfo>, current: int, nav: TabNav) -> int {
    match nav {
        TabNav::Next => first_enabled_from(tabs, current + 1),
        TabNav::Previous => last_enabled_before(tabs, current),
        TabNav::First => first_enabled_from(tabs, 0),
        TabNav::Last => last_enabled_before(tabs, tabs.len() as int),
    }
}

/// Moving a tab keeps the current tab current: after moving the tab at `from` to `to`, the
/// tab at the new current index is the one that was current.
pub proof fn law_move_keeps_current_tab(tabs: Seq<TabInfo>, current: int, from: int, to: int)
    requires
        0 <= current < tabs.len(),
        0 <= from < tabs.len(),
        0 <= to < tabs.len(),
        from != to,
    ensures
        0 <= current_after_move(current, from, to) < tabs.len(),
        tabs.remove(from).insert(to, tabs[from])[current_after_move(current, from, to)] == tabs[current],
{
}

/// Removing a tab other than the current one keeps the current tab current.
pub proof fn law_remove_keeps_current_tab(tabs: Seq<TabInfo>, current: int, index: int)
    requires
        0 <= current < tabs.len(),
        0 <= index < tabs.len(),
        index != current,
    ensures
        0 <= current_after_remove(current, index, tabs.len() as int) < tabs.len() - 1,
        tabs.remove(index)[current_after_remove(current, index, tabs.len() as int)] == tabs[current],
{
}

/// Inserting a tab keeps the current tab current.
pub proof fn law_insert_keeps_current_tab(tabs: Seq<TabInfo>, current: int, at: int, tab: TabInfo)
    requires
        0 <= current < tabs.len(),
        0 <= at <= tabs.len(),
    ensures
        ({
            let c = if current >= at {
                current + 1
            } else {
                current
            };
            tabs.insert(at, tab)[c] == tabs[current]
        }),
{
}

/// A standalone tab bar.
#[derive(Debug)]
pub struct TabBar {
    tabs: Vec<TabItem>,
    current_index: i32,
    tab_position: TabPosition,
    tabs_closable: bool,
    tabs_movable: bool,
    expanding: bool,
    pressed_part: TabBarPart,
    events: Vec<TabBarEvent>,
    /// The tab being dragged, and whether the drag has begun moving it.
    drag: Option<(usize, bool)>,
    /// The part under the pointer.
    hover: TabBarPart,
}

impl TabBar {
    #[verifier::type_invariant]
    spec fn inv(self) -> bool {
        &&& self.tabs@.len() < i32::MAX
        &&& (self.tabs@.len() == 0 <==> self.current_index == -1)
        &&& -1 <= self.current_index < self.tabs@.len()
    }

    /// The tabs.
    pub closed spec fn spec_tabs(&self) -> Seq<TabInfo> {
        self.tabs@.map_values(|t: TabItem| t.info())
    }

    /// The current tab's index (-1 when there are no tabs).
    pub closed spec fn spec_current(&self) -> int {
        self.current_index as int
    }

    pub closed spec fn spec_position(&self) -> TabPosition {
        self.tab_position
    }

    pub closed spec fn spec_tabs_closable(&self) -> bool {
        self.tabs_closable
    }

    pub closed spec fn spec_tabs_movable(&self) -> bool {
        self.tabs_movable
    }

    pub closed spec fn spec_expanding(&self) -> bool {
        self.expanding
    }

    /// The notifications owed and not yet taken.
    pub closed spec fn spec_events(&self) -> Seq<TabBarEvent> {
        self.events@
    }

    /// The part last pressed.
    pub closed spec fn spec_pressed(&self) -> TabBarPart {
        self.pressed_part
    }

    /// The tab being dragged, and whether the drag has begun moving it.
    pub closed spec fn spec_drag(&self) -> Option<(int, bool)> {
        match self.drag {
            Some((i, active)) => Some((i as int, active)),
            None => None,
        }
    }

    /// The part under the pointer.
    pub closed spec fn spec_hover(&self) -> TabBarPart {
        self.hover
    }

    /// Whether a drag has begun moving a tab.
    pub open spec fn dragging_active(&self) -> bool {
        self.spec_drag() matches Some((_, true))
    }

    /// Whether the current index is -1 exactly when there are no tabs, and a tab's index otherwise.
    pub open spec fn current_ok(&self) -> bool {
        &&& (self.spec_tabs().len() == 0 <==> self.spec_current() == -1)
        &&& -1 <= self.spec_current() < self.spec_tabs().len()
    }

    /// Create a new tab bar: no tabs, on top, tabs not closable but movable, not expanding.
    pub fn new() -> (r: Self)
        ensures
            r.spec_tabs() == Seq::<TabInfo>::empty(),
            r.spec_current() == -1,
            r.spec_position() == TabPosition::Top,
            !r.spec_tabs_closable(),
            r.spec_tabs_movable(),
            !r.spec_expanding(),
            r.spec_events() == Seq::<TabBarEvent>::empty(),
            r.spec_drag() is None,
            r.spec_hover() == TabBarPart::Nothing,
    {
        let r = TabBar {
            tabs: Vec::new(),
            current_index: -1,
            tab_position: TabPosition::Top,
            tabs_closable: false,
            tabs_movable: true,
            expanding: false,
            pressed_part: TabBarPart::Nothing,
            events: Vec::new(),
            drag: None,
            hover: TabBarPart::Nothing,
        };
        assert(r.spec_tabs() =~= Seq::<TabInfo>::empty());
        r
    }

    /// The current index is -1 exactly when there are no tabs, and a tab's index otherwise.
    pub fn check_current(&self)
        ensures
            self.current_ok(),
            self.spec_tabs().len() < i32::MAX,
    {
        proof {
            use_type_invariant(self);
        }
    }

    /// Take the notifications owed, in the order they arose.
    pub fn take_events(&mut self) -> (r: Vec<TabBarEvent>)
        ensures
            r@ == old(self).spec_events(),
            final(self).spec_events() == Seq::<TabBarEvent>::empty(),
            final(self).spec_tabs() == old(self).spec_tabs(),
            final(self).spec_current() == old(self).spec_current(),
            final(self).spec_drag() == old(self).spec_drag(),
            final(self).spec_hover() == old(self).spec_hover(),
    {
        proof {
            use_type_invariant(&*self);
        }
        let mut out: Vec<TabBarEvent> = Vec::new();
        std::mem::swap(&mut out, &mut self.events);
        out
    }

    fn emit(&mut self, e: TabBarEvent)
        ensures
            final(self).spec_events() == old(self).spec_events().push(e),
            final(self).spec_tabs() == old(self).spec_tabs(),
            final(self).spec_current() == old(self).spec_current(),
            final(self).spec_position() == old(self).spec_position(),
            final(self).spec_tabs_closable() == old(self).spec_tabs_closable(),
            final(self).spec_tabs_movable() == old(self).spec_tabs_movable(),
            final(self).spec_expanding() == old(self).spec_expanding(),
            final(self).spec_pressed() == old(self).spec_pressed(),
            final(self).spec_drag() == old(self).spec_drag(),
            final(self).spec_hover() == old(self).spec_hover(),
    {
        proof {
            use_type_invariant(&*self);
        }
        let mut ev: Vec<TabBarEvent> = Vec::new();
        std::mem::swap(&mut ev, &mut self.events);
        ev.push(e);
        std::mem::swap(&mut ev, &mut self.events);
    }

    /// Add a tab with the given label at the end; returns its index. The first tab added
    /// becomes current.
    pub fn add_tab(&mut self, label: &str) -> (index: i32)
        requires
            old(self).spec_tabs().len() < i32::MAX - 1,
        ensures
            index == old(self).spec_tabs().len(),
            final(self).spec_tabs() == old(self).spec_tabs().push(
                TabInfo { label: label@, enabled: true, closable: old(self).spec_tabs_closable(), tooltip: None },
            ),
            final(self).spec_current() == (if old(self).spec_current() < 0 {
                0
            } else {
                old(self).spec_current()
            }),
            final(self).spec_events() == (if old(self).spec_current() < 0 {
                old(self).spec_events().push(TabBarEvent::CurrentChanged(0))
            } else {
                old(self).spec_events()
            }),
            final(self).spec_tabs_closable() == old(self).spec_tabs_closable(),
            final(self).spec_position() == old(self).spec_position(),
            final(self).spec_drag() == old(self).spec_drag(),
            final(self).spec_hover() == old(self).spec_hover(),
    {
        proof {
            use_type_invariant(&*self);
        }
        let index = self.tabs.len() as i32;
        let item = TabItem { label: owned(label), enabled: true, closable: self.tabs_closable, tooltip: None };
        let whole = self.take();
        proof {
            use_type_invariant(&whole);
        }
        let TabBar {
            mut tabs,
            current_index,
            tab_position,
            tabs_closable,
            tabs_movable,
            expanding,
            pressed_part,
            drag,
            hover,
            mut events,
        } = whole;
        tabs.push(item);
        let current = if current_index < 0 {
            0
        } else {
            current_index
        };
        if current_index < 0 {
            events.push(TabBarEvent::CurrentChanged(0));
        }
        *self = TabBar {
            tabs,
            current_index: current,
            tab_position,
            tabs_closable,
            tabs_movable,
            expanding,
            pressed_part,
            drag,
            hover,
            events,
        };
        assert(self.spec_tabs() =~= old(self).spec_tabs().push(
            TabInfo { label: label@, enabled: true, closable: old(self).spec_tabs_closable(), tooltip: None },
        ));
        index
    }

    /// The tab bar's settings (position, closable, movable, expanding) agree with `other`'s.
    pub open spec fn same_settings(&self, other: &Self) -> bool {
        &&& self.spec_position() == other.spec_position()
        &&& self.spec_tabs_closable() == other.spec_tabs_closable()
        &&& self.spec_tabs_movable() == other.spec_tabs_movable()
        &&& self.spec_expanding() == other.spec_expanding()
    }

    /// Everything the tab bar holds agrees with `other`.
    pub open spec fn same_state(&self, other: &Self) -> bool {
        &&& self.same_settings(other)
        &&& self.spec_tabs() == other.spec_tabs()
        &&& self.spec_current() == other.spec_current()
        &&& self.spec_events() == other.spec_events()
        &&& self.spec_pressed() == other.spec_pressed()
    }

    /// The tabs, the current index, the notifications and the settings agree with `other`.
    pub open spec fn same_but_pressed(&self, other: &Self) -> bool {
        &&& self.same_settings(other)
        &&& self.spec_tabs() == other.spec_tabs()
        &&& self.spec_current() == other.spec_current()
        &&& self.spec_events() == other.spec_events()
    }

    /// This tab bar is `before` after `move_tab(from, to)`: the tab at `from` taken out and
    /// put in at `to`, the current index following its tab, the move notified; nothing
    /// changes unless both name tabs and differ.
    pub open spec fn moved_from(&self, before: &Self, from: int, to: int) -> bool {
        if valid_tab(before.spec_tabs(), from) && valid_tab(before.spec_tabs(), to) && from != to {
            &&& self.spec_tabs() == before.spec_tabs().remove(from).insert(to, before.spec_tabs()[from])
            &&& self.spec_current() == current_after_move(before.spec_current(), from, to)
            &&& self.spec_events() == before.spec_events().push(TabBarEvent::TabMoved(from as i32, to as i32))
            &&& self.spec_pressed() == before.spec_pressed()
            &&& self.same_settings(before)
        } else {
            self.same_state(before)
        }
    }

    /// This tab bar is `before` after asking for `target` to become current: it does when it
    /// names an enabled tab other than the current one, with a notification; else nothing
    /// changes.
    pub open spec fn selected(&self, before: &Self, target: int) -> bool {
        if valid_tab(before.spec_tabs(), target) && before.spec_tabs()[target].enabled
            && target != before.spec_current() {
            &&& self.spec_current() == target
            &&& self.spec_events() == before.spec_events().push(TabBarEvent::CurrentChanged(target as i32))
            &&& self.spec_tabs() == before.spec_tabs()
            &&& self.same_settings(before)
        } else {
            self.same_but_pressed(before)
        }
    }

    fn take(&mut self) -> (r: TabBar)
        ensures
            r == *old(self),
    {
        let mut r = TabBar::new();
        std::mem::swap(&mut r, self);
        r
    }

    fn replace_tab(&mut self, i: usize, item: TabItem)
        requires
            i < old(self).spec_tabs().len(),
        ensures
            final(self).spec_tabs() == old(self).spec_tabs().update(i as int, item.info()),
            final(self).spec_current() == old(self).spec_current(),
            final(self).spec_events() == old(self).spec_events(),
            final(self).spec_pressed() == old(self).spec_pressed(),
            final(self).same_settings(old(self)),
            final(self).spec_drag() == old(self).spec_drag(),
            final(self).spec_hover() == old(self).spec_hover(),
    {
        proof {
            use_type_invariant(&*self);
        }
        let whole = self.take();
        proof {
            use_type_invariant(&whole);
        }
        let TabBar {
            mut tabs,
            current_index,
            tab_position,
            tabs_closable,
            tabs_movable,
            expanding,
            pressed_part,
            drag,
            hover,
            mut events,
        } = whole;
        tabs.set(i, item);
        *self = TabBar {
            tabs,
            current_index,
            tab_position,
            tabs_closable,
            tabs_movable,
            expanding,
            pressed_part,
            drag,
            hover,
            events,
        };
        assert(self.spec_tabs() =~= old(self).spec_tabs().update(i as int, item.info()));
    }

    /// Insert a tab at `index`, or at the end when `index` is negative or past the end; returns
    /// where it went. The current tab keeps its tab; the first tab of an empty bar becomes
    /// current.
    pub fn insert_tab(&mut self, index: i32, label: &str) -> (at: i32)
        requires
            old(self).spec_tabs().len() < i32::MAX - 1,
        ensures
            at == insert_at(index as int, old(self).spec_tabs().len() as int),
            final(self).spec_tabs() == old(self).spec_tabs().insert(
                at as int,
                TabInfo { label: label@, enabled: true, closable: old(self).spec_tabs_closable(), tooltip: None },
            ),
            final(self).spec_current() == (if old(self).spec_current() < 0 {
                0
            } else if old(self).spec_current() >= at {
                old(self).spec_current() + 1
            } else {
                old(self).spec_current()
            }),
            final(self).spec_events() == (if old(self).spec_current() < 0 {
                old(self).spec_events().push(TabBarEvent::CurrentChanged(0))
            } else {
                old(self).spec_events()
            }),
            final(self).spec_pressed() == old(self).spec_pressed(),
            final(self).same_settings(old(self)),
            final(self).spec_drag() == old(self).spec_drag(),
            final(self).spec_hover() == old(self).spec_hover(),
    {
        proof {
            use_type_invariant(&*self);
        }
        let len = self.tabs.len();
        let at: usize = if index < 0 {
            len
        } else if index as usize > len {
            len
        } else {
            index as usize
        };
        let item = TabItem { label: owned(label), enabled: true, closable: self.tabs_closable, tooltip: None };
        let ghost info = item.info();
        let whole = self.take();
        proof {
            use_type_invariant(&whole);
        }
        let TabBar {
            mut tabs,
            current_index,
            tab_position,
            tabs_closable,
            tabs_movable,
            expanding,
            pressed_part,
            drag,
            hover,
            mut events,
        } = whole;
        tabs.insert(at, item);
        let mut current = current_index;
        if current >= at as i32 {
            current = current + 1;
        }
        if current < 0 {
            current = 0;
            events.push(TabBarEvent::CurrentChanged(0));
        }
        *self = TabBar {
            tabs,
            current_index: current,
            tab_position,
            tabs_closable,
            tabs_movable,
            expanding,
            pressed_part,
            drag,
            hover,
            events,
        };
        assert(self.spec_tabs() =~= old(self).spec_tabs().insert(at as int, info));
        at as i32
    }

    /// Remove the tab at `index`; an index that names no tab changes nothing. The current
    /// index moves back when a tab at or before it goes (not below 0), and becomes -1 when no
    /// tab is left; each change of it is notified.
    pub fn remove_tab(&mut self, index: i32)
        ensures
            valid_tab(old(self).spec_tabs(), index as int) ==> {
                let new_current = current_after_remove(
                    old(self).spec_current(),
                    index as int,
                    old(self).spec_tabs().len() as int,
                );
                &&& final(self).spec_tabs() == old(self).spec_tabs().remove(index as int)
                &&& final(self).spec_current() == new_current
                &&& final(self).spec_events() == (if new_current != old(self).spec_current() {
                    old(self).spec_events().push(TabBarEvent::CurrentChanged(new_current as i32))
                } else {
                    old(self).spec_events()
                })
                &&& final(self).spec_pressed() == old(self).spec_pressed()
                &&& final(self).same_settings(old(self))
            },
            !valid_tab(old(self).spec_tabs(), index as int) ==> final(self).same_state(old(self)),
            final(self).spec_drag() == old(self).spec_drag(),
            final(self).spec_hover() == old(self).spec_hover(),
    {
        proof {
            use_type_invariant(&*self);
        }
        if index < 0 || index as usize >= self.tabs.len() {
            return;
        }
        let len = self.tabs.len();
        let whole = self.take();
        proof {
            use_type_invariant(&whole);
        }
        let TabBar {
            mut tabs,
            current_index,
            tab_position,
            tabs_closable,
            tabs_movable,
            expanding,
            pressed_part,
            drag,
            hover,
            mut events,
        } = whole;
        let _removed = tabs.remove(index as usize);
        let mut current = current_index;
        if len == 1 {
            current = -1;
            events.push(TabBarEvent::CurrentChanged(-1));
        } else if index <= current {
            let mut c = current - 1;
            if c < 0 {
                c = 0;
            }
            if c > len as i32 - 2 {
                c = len as i32 - 2;
            }
            if c != current {
                current = c;
                events.push(TabBarEvent::CurrentChanged(c));
            }
        }
        *self = TabBar {
            tabs,
            current_index: current,
            tab_position,
            tabs_closable,
            tabs_movable,
            expanding,
            pressed_part,
            drag,
            hover,
            events,
        };
        assert(self.spec_tabs() =~= old(self).spec_tabs().remove(index as int));
    }

    /// Move the tab at `from` to `to`. Nothing changes unless both name tabs and differ; the
    /// current index follows the tab it named, and the move is notified.
    pub fn move_tab(&mut self, from: i32, to: i32)
        ensures
            valid_tab(old(self).spec_tabs(), from as int) && valid_tab(old(self).spec_tabs(), to as int)
                && from != to ==> {
                &&& final(self).spec_tabs() == old(self).spec_tabs().remove(from as int).insert(
                    to as int,
                    old(self).spec_tabs()[from as int],
                )
                &&& final(self).spec_current() == current_after_move(
                    old(self).spec_current(),
                    from as int,
                    to as int,
                )
                &&& final(self).spec_events() == old(self).spec_events().push(TabBarEvent::TabMoved(from, to))
                &&& final(self).spec_pressed() == old(self).spec_pressed()
                &&& final(self).same_settings(old(self))
            },
            !(valid_tab(old(self).spec_tabs(), from as int) && valid_tab(old(self).spec_tabs(), to as int)
                && from != to) ==> final(self).same_state(old(self)),
            final(self).spec_drag() == old(self).spec_drag(),
            final(self).spec_hover() == old(self).spec_hover(),
    {
        proof {
            use_type_invariant(&*self);
        }
        if from < 0 || from as usize >= self.tabs.len() {
            return;
        }
        if to < 0 || to as usize >= self.tabs.len() {
            return;
        }
        if from == to {
            return;
        }
        let whole = self.take();
        proof {
            use_type_invariant(&whole);
        }
        let TabBar {
            mut tabs,
            current_index,
            tab_position,
            tabs_closable,
            tabs_movable,
            expanding,
            pressed_part,
            drag,
            hover,
            mut events,
        } = whole;
        let tab = tabs.remove(from as usize);
        tabs.insert(to as usize, tab);
        let mut current = current_index;
        if current == from {
            current = to;
        } else if from < current && to >= current {
            current = current - 1;
        } else if from > current && to <= current {
            current = current + 1;
        }
        events.push(TabBarEvent::TabMoved(from, to));
        *self = TabBar {
            tabs,
            current_index: current,
            tab_position,
            tabs_closable,
            tabs_movable,
            expanding,
            pressed_part,
            drag,
            hover,
            events,
        };
        assert(self.spec_tabs() =~= old(self).spec_tabs().remove(from as int).insert(
            to as int,
            old(self).spec_tabs()[from as int],
        ));
    }

    /// Remove every tab; the current index becomes -1, which is notified.
    pub fn clear(&mut self)
        ensures
            final(self).spec_tabs() == Seq::<TabInfo>::empty(),
            final(self).spec_current() == -1,
            final(self).spec_events() == old(self).spec_events().push(TabBarEvent::CurrentChanged(-1i32)),
            final(self).spec_pressed() == old(self).spec_pressed(),
            final(self).same_settings(old(self)),
            final(self).spec_drag() == old(self).spec_drag(),
            final(self).spec_hover() == old(self).spec_hover(),
    {
        proof {
            use_type_invariant(&*self);
        }
        let mut events: Vec<TabBarEvent> = Vec::new();
        std::mem::swap(&mut events, &mut self.events);
        events.push(TabBarEvent::CurrentChanged(-1));
        *self = TabBar { tabs: Vec::new(), current_index: -1, events, ..*self };
        assert(self.spec_tabs() =~= Seq::<TabInfo>::empty());
    }

    /// The number of tabs.
    pub fn count(&self) -> (n: i32)
        ensures
            n == self.spec_tabs().len(),
    {
        proof {
            use_type_invariant(self);
        }
        self.tabs.len() as i32
    }

    /// The label of the tab at `index`, if there is one.
    pub fn tab_text(&self, index: i32) -> (r: Option<&str>)
        ensures
            match r {
                Some(t) => valid_tab(self.spec_tabs(), index as int) && t@ == self.spec_tabs()[index as int].label,
                None => !valid_tab(self.spec_tabs(), index as int),
            },
    {
        if index < 0 || index as usize >= self.tabs.len() {
            None
        } else {
            Some(self.tabs[index as usize].label.as_str())
        }
    }

    /// Set the label of the tab at `index`; an index that names no tab changes nothing.
    pub fn set_tab_text(&mut self, index: i32, text: &str)
        ensures
            valid_tab(old(self).spec_tabs(), index as int) ==> final(self).spec_tabs() == old(
                self,
            ).spec_tabs().update(index as int, TabInfo { label: text@, ..old(self).spec_tabs()[index as int] }),
            !valid_tab(old(self).spec_tabs(), index as int) ==> final(self).spec_tabs() == old(self).spec_tabs(),
            final(self).spec_current() == old(self).spec_current(),
            final(self).spec_events() == old(self).spec_events(),
            final(self).spec_pressed() == old(self).spec_pressed(),
            final(self).same_settings(old(self)),
            final(self).spec_drag() == old(self).spec_drag(),
            final(self).spec_hover() == old(self).spec_hover(),
    {
        if index < 0 || index as usize >= self.tabs.len() {
            return;
        }
        let i = index as usize;
        let t = &self.tabs[i];
        let item = TabItem { label: owned(text), enabled: t.enabled, closable: t.closable, tooltip: t.tooltip.clone() };
        self.replace_tab(i, item);
    }

    /// Whether the tab at `index` is enabled (false when there is no such tab).
    pub fn is_tab_enabled(&self, index: i32) -> (r: bool)
        ensures
            r == (valid_tab(self.spec_tabs(), index as int) && self.spec_tabs()[index as int].enabled),
    {
        if index < 0 || index as usize >= self.tabs.len() {
            false
        } else {
            self.tabs[index as usize].enabled
        }
    }

    /// Enable or disable the tab at `index`; an index that names no tab changes nothing.
    pub fn set_tab_enabled(&mut self, index: i32, enabled: bool)
        ensures
            valid_tab(old(self).spec_tabs(), index as int) ==> final(self).spec_tabs() == old(
                self,
            ).spec_tabs().update(index as int, TabInfo { enabled: enabled, ..old(self).spec_tabs()[index as int] }),
            !valid_tab(old(self).spec_tabs(), index as int) ==> final(self).spec_tabs() == old(self).spec_tabs(),
            final(self).spec_current() == old(self).spec_current(),
            final(self).spec_events() == old(self).spec_events(),
            final(self).spec_pressed() == old(self).spec_pressed(),
            final(self).same_settings(old(self)),
            final(self).spec_drag() == old(self).spec_drag(),
            final(self).spec_hover() == old(self).spec_hover(),
    {
        if index < 0 || index as usize >= self.tabs.len() {
            return;
        }
        let i = index as usize;
        let t = &self.tabs[i];
        let item = TabItem { label: t.label.clone(), enabled, closable: t.closable, tooltip: t.tooltip.clone() };
        self.replace_tab(i, item);
    }

    /// The tooltip of the tab at `index`, if the tab exists and has one.
    pub fn tab_tooltip(&self, index: i32) -> (r: Option<&str>)
        ensures
            match r {
                Some(t) => valid_tab(self.spec_tabs(), index as int) && self.spec_tabs()[index as int].tooltip
                    == Some(t@),
                None => !valid_tab(self.spec_tabs(), index as int) || self.spec_tabs()[index as int].tooltip
                    is None,
            },
    {
        if index < 0 || index as usize >= self.tabs.len() {
            None
        } else {
            match &self.tabs[index as usize].tooltip {
                Some(t) => Some(t.as_str()),
                None => None,
            }
        }
    }

    /// Set the tooltip of the tab at `index`; an index that names no tab changes nothing.
    pub fn set_tab_tooltip(&mut self, index: i32, tooltip: &str)
        ensures
            valid_tab(old(self).spec_tabs(), index as int) ==> final(self).spec_tabs() == old(
                self,
            ).spec_tabs().update(index as int, TabInfo { tooltip: Some(tooltip@), ..old(self).spec_tabs()[index as int] }),
            !valid_tab(old(self).spec_tabs(), index as int) ==> final(self).spec_tabs() == old(self).spec_tabs(),
            final(self).spec_current() == old(self).spec_current(),
            final(self).spec_events() == old(self).spec_events(),
            final(self).spec_pressed() == old(self).spec_pressed(),
            final(self).same_settings(old(self)),
            final(self).spec_drag() == old(self).spec_drag(),
            final(self).spec_hover() == old(self).spec_hover(),
    {
        if index < 0 || index as usize >= self.tabs.len() {
            return;
        }
        let i = index as usize;
        let t = &self.tabs[i];
        let item = TabItem { label: t.label.clone(), enabled: t.enabled, closable: t.closable, tooltip: Some(owned(tooltip)) };
        self.replace_tab(i, item);
    }

    /// Whether the tab at `index` has a close button (false when there is no such tab).
    pub fn is_tab_closable(&self, index: i32) -> (r: bool)
        ensures
            r == (valid_tab(self.spec_tabs(), index as int) && self.spec_tabs()[index as int].closable),
    {
        if index < 0 || index as usize >= self.tabs.len() {
            false
        } else {
            self.tabs[index as usize].closable
        }
    }

    /// Give or take the close button of the tab at `index`; an index that names no tab
    /// changes nothing.
    pub fn set_tab_closable(&mut self, index: i32, closable: bool)
        ensures
            valid_tab(old(self).spec_tabs(), index as int) ==> final(self).spec_tabs() == old(
                self,
            ).spec_tabs().update(index as int, TabInfo { closable: closable, ..old(self).spec_tabs()[index as int] }),
            !valid_tab(old(self).spec_tabs(), index as int) ==> final(self).spec_tabs() == old(self).spec_tabs(),
            final(self).spec_current() == old(self).spec_current(),
            final(self).spec_events() == old(self).spec_events(),
            final(self).spec_pressed() == old(self).spec_pressed(),
            final(self).same_settings(old(self)),
            final(self).spec_drag() == old(self).spec_drag(),
            final(self).spec_hover() == old(self).spec_hover(),
    {
        if index < 0 || index as usize >= self.tabs.len() {
            return;
        }
        let i = index as usize;
        let t = &self.tabs[i];
        let item = TabItem { label: t.label.clone(), enabled: t.enabled, closable, tooltip: t.tooltip.clone() };
        self.replace_tab(i, item);
    }

    /// The current tab's index (-1 when there are no tabs).
    pub fn current_index(&self) -> (r: i32)
        ensures
            r == self.spec_current(),
    {
        self.current_index
    }

    /// Make the tab at `index` current. Nothing changes unless it names an enabled tab other
    /// than the current one; a change is notified.
    pub fn set_current_index(&mut self, index: i32)
        ensures
            final(self).selected(old(self), index as int),
            final(self).spec_pressed() == old(self).spec_pressed(),
            final(self).spec_drag() == old(self).spec_drag(),
            final(self).spec_hover() == old(self).spec_hover(),
    {
        proof {
            use_type_invariant(&*self);
        }
        if index < 0 || index as usize >= self.tabs.len() {
            return;
        }
        if !self.tabs[index as usize].enabled {
            return;
        }
        if self.current_index != index {
            self.current_index = index;
            self.emit(TabBarEvent::CurrentChanged(index));
        }
    }

    /// Where the tabs stand.
    pub fn tab_position(&self) -> (r: TabPosition)
        ensures
            r == self.spec_position(),
    {
        self.tab_position
    }

    /// Put the tabs at `position`.
    pub fn set_tab_position(&mut self, position: TabPosition)
        ensures
            final(self).spec_position() == position,
            final(self).spec_tabs() == old(self).spec_tabs(),
            final(self).spec_current() == old(self).spec_current(),
            final(self).spec_events() == old(self).spec_events(),
            final(self).spec_pressed() == old(self).spec_pressed(),
            final(self).spec_tabs_closable() == old(self).spec_tabs_closable(),
            final(self).spec_tabs_movable() == old(self).spec_tabs_movable(),
            final(self).spec_expanding() == old(self).spec_expanding(),
            final(self).spec_drag() == old(self).spec_drag(),
            final(self).spec_hover() == old(self).spec_hover(),
    {
        proof {
            use_type_invariant(&*self);
        }
        self.tab_position = position;
    }

    /// This tab bar with its tabs at `position`.
    pub fn with_tab_position(self, position: TabPosition) -> (r: Self)
        ensures
            r.spec_position() == position,
            r.spec_tabs() == self.spec_tabs(),
            r.spec_current() == self.spec_current(),
            r.spec_events() == self.spec_events(),
            r.spec_tabs_closable() == self.spec_tabs_closable(),
            r.spec_tabs_movable() == self.spec_tabs_movable(),
            r.spec_expanding() == self.spec_expanding(),
    {
        let mut s = self;
        s.set_tab_position(position);
        s
    }

    /// Whether tabs added from now on get a close button.
    pub fn tabs_closable(&self) -> (r: bool)
        ensures
            r == self.spec_tabs_closable(),
    {
        self.tabs_closable
    }

    /// Choose whether tabs added from now on get a close button.
    pub fn set_tabs_closable(&mut self, closable: bool)
        ensures
            final(self).spec_tabs_closable() == closable,
            final(self).spec_tabs() == old(self).spec_tabs(),
            final(self).spec_current() == old(self).spec_current(),
            final(self).spec_events() == old(self).spec_events(),
            final(self).spec_pressed() == old(self).spec_pressed(),
            final(self).spec_position() == old(self).spec_position(),
            final(self).spec_tabs_movable() == old(self).spec_tabs_movable(),
            final(self).spec_expanding() == old(self).spec_expanding(),
            final(self).spec_drag() == old(self).spec_drag(),
            final(self).spec_hover() == old(self).spec_hover(),
    {
        proof {
            use_type_invariant(&*self);
        }
        self.tabs_closable = closable;
    }

    /// This tab bar, with tabs added from now on closable as `closable` says.
    pub fn with_tabs_closable(self, closable: bool) -> (r: Self)
        ensures
            r.spec_tabs_closable() == closable,
            r.spec_tabs() == self.spec_tabs(),
            r.spec_current() == self.spec_current(),
            r.spec_events() == self.spec_events(),
            r.spec_position() == self.spec_position(),
            r.spec_tabs_movable() == self.spec_tabs_movable(),
            r.spec_expanding() == self.spec_expanding(),
    {
        let mut s = self;
        s.set_tabs_closable(closable);
        s
    }

    /// Whether tabs can be reordered by dragging.
    pub fn tabs_movable(&self) -> (r: bool)
        ensures
            r == self.spec_tabs_movable(),
    {
        self.tabs_movable
    }

    /// Choose whether tabs can be reordered by dragging.
    pub fn set_tabs_movable(&mut self, movable: bool)
        ensures
            final(self).spec_tabs_movable() == movable,
            final(self).spec_tabs() == old(self).spec_tabs(),
            final(self).spec_current() == old(self).spec_current(),
            final(self).spec_events() == old(self).spec_events(),
            final(self).spec_pressed() == old(self).spec_pressed(),
            final(self).spec_position() == old(self).spec_position(),
            final(self).spec_tabs_closable() == old(self).spec_tabs_closable(),
            final(self).spec_expanding() == old(self).spec_expanding(),
            final(self).spec_drag() == old(self).spec_drag(),
            final(self).spec_hover() == old(self).spec_hover(),
    {
        proof {
            use_type_invariant(&*self);
        }
        self.tabs_movable = movable;
    }

    /// This tab bar, with tabs movable as `movable` says.
    pub fn with_tabs_movable(self, movable: bool) -> (r: Self)
        ensures
            r.spec_tabs_movable() == movable,
            r.spec_tabs() == self.spec_tabs(),
            r.spec_current() == self.spec_current(),
            r.spec_events() == self.spec_events(),
            r.spec_position() == self.spec_position(),
            r.spec_tabs_closable() == self.spec_tabs_closable(),
            r.spec_expanding() == self.spec_expanding(),
    {
        let mut s = self;
        s.set_tabs_movable(movable);
        s
    }

    /// Whether tabs stretch to fill the bar.
    pub fn expanding(&self) -> (r: bool)
        ensures
            r == self.spec_expanding(),
    {
        self.expanding
    }

    /// Choose whether tabs stretch to fill the bar.
    pub fn set_expanding(&mut self, expanding: bool)
        ensures
            final(self).spec_expanding() == expanding,
            final(self).spec_tabs() == old(self).spec_tabs(),
            final(self).spec_current() == old(self).spec_current(),
            final(self).spec_events() == old(self).spec_events(),
            final(self).spec_pressed() == old(self).spec_pressed(),
            final(self).spec_position() == old(self).spec_position(),
            final(self).spec_tabs_closable() == old(self).spec_tabs_closable(),
            final(self).spec_tabs_movable() == old(self).spec_tabs_movable(),
            final(self).spec_drag() == old(self).spec_drag(),
            final(self).spec_hover() == old(self).spec_hover(),
    {
        proof {
            use_type_invariant(&*self);
        }
        self.expanding = expanding;
    }

    /// This tab bar, with tabs stretching as `expanding` says.
    pub fn with_expanding(self, expanding: bool) -> (r: Self)
        ensures
            r.spec_expanding() == expanding,
            r.spec_tabs() == self.spec_tabs(),
            r.spec_current() == self.spec_current(),
            r.spec_events() == self.spec_events(),
            r.spec_position() == self.spec_position(),
            r.spec_tabs_closable() == self.spec_tabs_closable(),
            r.spec_tabs_movable() == self.spec_tabs_movable(),
    {
        let mut s = self;
        s.set_expanding(expanding);
        s
    }

    fn find_enabled_from(&self, from: usize) -> (r: i32)
        requires
            from <= self.spec_tabs().len(),
        ensures
            r == first_enabled_from(self.spec_tabs(), from as int),
    {
        proof {
            use_type_invariant(self);
        }
        let mut i = from;
        while i < self.tabs.len()
            invariant
                from <= i <= self.tabs@.len(),
                self.tabs@.len() < i32::MAX,
                first_enabled_from(self.spec_tabs(), from as int) == first_enabled_from(self.spec_tabs(), i as int),
            decreases self.tabs@.len() - i,
        {
            if self.tabs[i].enabled {
                return i as i32;
            }
            i = i + 1;
        }
        -1
    }

    fn find_enabled_before(&self, to: usize) -> (r: i32)
        requires
            to <= self.spec_tabs().len(),
        ensures
            r == last_enabled_before(self.spec_tabs(), to as int),
    {
        proof {
            use_type_invariant(self);
        }
        let mut i = to;
        while i > 0
            invariant
                i <= to <= self.tabs@.len(),
                self.tabs@.len() < i32::MAX,
                last_enabled_before(self.spec_tabs(), to as int) == last_enabled_before(self.spec_tabs(), i as int),
            decreases i,
        {
            if self.tabs[i - 1].enabled {
                return (i - 1) as i32;
            }
            i = i - 1;
        }
        -1
    }

    /// Select the nearest enabled tab after the current one, if there is one.
    pub fn select_next_enabled(&mut self)
        ensures
            final(self).selected(old(self), nav_target(old(self).spec_tabs(), old(self).spec_current(), TabNav::Next)),
            final(self).spec_pressed() == old(self).spec_pressed(),
            final(self).spec_drag() == old(self).spec_drag(),
            final(self).spec_hover() == old(self).spec_hover(),
    {
        proof {
            use_type_invariant(&*self);
        }
        let start = (self.current_index + 1) as usize;
        let target = self.find_enabled_from(start);
        self.set_current_index(target);
    }

    /// Select the nearest enabled tab before the current one, if there is one.
    pub fn select_previous_enabled(&mut self)
        ensures
            final(self).selected(
                old(self),
                nav_target(old(self).spec_tabs(), old(self).spec_current(), TabNav::Previous),
            ),
            final(self).spec_pressed() == old(self).spec_pressed(),
            final(self).spec_drag() == old(self).spec_drag(),
            final(self).spec_hover() == old(self).spec_hover(),
    {
        proof {
            use_type_invariant(&*self);
        }
        if self.current_index <= 0 {
            return;
        }
        let target = self.find_enabled_before(self.current_index as usize);
        self.set_current_index(target);
    }

    /// Select the first enabled tab.
    pub fn select_first_enabled(&mut self)
        ensures
            final(self).selected(old(self), nav_target(old(self).spec_tabs(), old(self).spec_current(), TabNav::First)),
            final(self).spec_pressed() == old(self).spec_pressed(),
            final(self).spec_drag() == old(self).spec_drag(),
            final(self).spec_hover() == old(self).spec_hover(),
    {
        let target = self.find_enabled_from(0);
        self.set_current_index(target);
    }

    /// Select the last enabled tab.
    pub fn select_last_enabled(&mut self)
        ensures
            final(self).selected(old(self), nav_target(old(self).spec_tabs(), old(self).spec_current(), TabNav::Last)),
            final(self).spec_pressed() == old(self).spec_pressed(),
            final(self).spec_drag() == old(self).spec_drag(),
            final(self).spec_hover() == old(self).spec_hover(),
    {
        let target = self.find_enabled_before(self.tabs.len());
        self.set_current_index(target);
    }

    /// Handle a key: with tabs present, the arrows along the bar, Home and End move the
    /// selection and are consumed; other keys are not.
    pub fn handle_key(&mut self, key: TabKey) -> (consumed: bool)
        ensures
            consumed == (old(self).spec_tabs().len() > 0 && key_nav(old(self).spec_position(), key) is Some),
            consumed ==> final(self).selected(
                old(self),
                nav_target(old(self).spec_tabs(), old(self).spec_current(), key_nav(old(self).spec_position(), key)->0),
            ),
            !consumed ==> final(self).same_but_pressed(old(self)),
            final(self).spec_pressed() == old(self).spec_pressed(),
            final(self).spec_drag() == old(self).spec_drag(),
            final(self).spec_hover() == old(self).spec_hover(),
    {
        if self.tabs.len() == 0 {
            return false;
        }
        let horizontal = self.tab_position.is_horizontal();
        let nav = match key {
            TabKey::ArrowLeft => if horizontal {
                Some(TabNav::Previous)
            } else {
                None
            },
            TabKey::ArrowUp => if horizontal {
                None
            } else {
                Some(TabNav::Previous)
            },
            TabKey::ArrowRight => if horizontal {
                Some(TabNav::Next)
            } else {
                None
            },
            TabKey::ArrowDown => if horizontal {
                None
            } else {
                Some(TabNav::Next)
            },
            TabKey::Home => Some(TabNav::First),
            TabKey::End => Some(TabNav::Last),
            TabKey::Other => None,
        };
        match nav {
            Some(TabNav::Previous) => self.select_previous_enabled(),
            Some(TabNav::Next) => self.select_next_enabled(),
            Some(TabNav::First) => self.select_first_enabled(),
            Some(TabNav::Last) => self.select_last_enabled(),
            None => {
                return false;
            },
        }
        true
    }

    /// Handle a press of the primary button on `part`: it is remembered, and the press is
    /// consumed on an enabled tab, a close button or a scroll button. A press on an enabled
    /// tab of a bar whose tabs move starts a drag of it, not yet moving.
    pub fn handle_press(&mut self, part: TabBarPart) -> (consumed: bool)
        requires
            part matches TabBarPart::Tab(i) ==> i < old(self).spec_tabs().len(),
        ensures
            final(self).spec_pressed() == part,
            final(self).same_but_pressed(old(self)),
            consumed == match part {
                TabBarPart::Tab(i) => old(self).spec_tabs()[i as int].enabled,
                TabBarPart::Nothing => false,
                _ => true,
            },
            final(self).spec_drag() == (match part {
                TabBarPart::Tab(i) => if old(self).spec_tabs()[i as int].enabled && old(self).spec_tabs_movable() {
                    Some((i as int, false))
                } else {
                    old(self).spec_drag()
                },
                _ => old(self).spec_drag(),
            }),
            final(self).spec_hover() == old(self).spec_hover(),
    {
        proof {
            use_type_invariant(&*self);
        }
        self.pressed_part = part;
        match part {
            TabBarPart::Tab(i) => {
                let enabled = self.tabs[i].enabled;
                if enabled && self.tabs_movable {
                    self.drag = Some((i, false));
                }
                enabled
            },
            TabBarPart::Nothing => false,
            _ => true,
        }
    }

    /// Handle the pointer moving onto `part` (`far`: it has moved far enough from where a
    /// tab was pressed for a drag to begin; `target`: the tab a dragged tab would take the
    /// place of there). The hovered part follows the pointer. While a tab is dragged the
    /// move is consumed: once the drag has begun, the dragged tab moves to `target` when that
    /// is another tab, and the drag goes on from there.
    pub fn handle_move(&mut self, part: TabBarPart, far: bool, target: Option<usize>) -> (consumed: bool)
        requires
            target matches Some(t) ==> t < old(self).spec_tabs().len(),
        ensures
            consumed == old(self).spec_drag() is Some,
            final(self).spec_hover() == part,
            match old(self).spec_drag() {
                None => final(self).same_state(old(self)) && final(self).spec_drag() is None,
                Some((i, active)) => if (active || far) && target is Some && target->0 != i {
                    &&& final(self).moved_from(old(self), i, target->0 as int)
                    &&& final(self).spec_drag() == Some((target->0 as int, true))
                } else {
                    &&& final(self).same_state(old(self))
                    &&& final(self).spec_drag() == Some((i, active || far))
                },
            },
    {
        proof {
            use_type_invariant(&*self);
        }
        self.hover = part;
        match self.drag {
            None => false,
            Some((i, active)) => {
                let now_active = active || far;
                match target {
                    Some(t) => {
                        if now_active && t != i {
                            assert(t < i32::MAX);
                            if i < self.tabs.len() {
                                self.move_tab(i as i32, t as i32);
                            }
                            proof {
                                use_type_invariant(&*self);
                            }
                            self.drag = Some((t, true));
                            return true;
                        }
                    },
                    None => {},
                }
                self.drag = Some((i, now_active));
                true
            },
        }
    }

    /// The pointer left the bar: nothing is hovered.
    pub fn handle_leave(&mut self)
        ensures
            final(self).same_state(old(self)),
            final(self).spec_drag() == old(self).spec_drag(),
            final(self).spec_hover() == TabBarPart::Nothing,
    {
        proof {
            use_type_invariant(&*self);
        }
        self.hover = TabBarPart::Nothing;
    }

    /// Forget any drag.
    pub(crate) fn end_drag(&mut self)
        ensures
            final(self).same_state(old(self)),
            final(self).spec_drag() is None,
            final(self).spec_hover() == old(self).spec_hover(),
    {
        proof {
            use_type_invariant(&*self);
        }
        self.drag = None;
    }

    /// Handle a release of the primary button on `part` (no tab being dragged): a release on
    /// the part pressed clicks it (a tab becomes current, a close button asks to close its
    /// tab); the press is forgotten and the release consumed.
    pub fn handle_release(&mut self, part: TabBarPart) -> (consumed: bool)
        requires
            part matches TabBarPart::Tab(i) ==> i < old(self).spec_tabs().len(),
            part matches TabBarPart::CloseButton(i) ==> i < old(self).spec_tabs().len(),
        ensures
            consumed,
            final(self).spec_drag() is None,
            final(self).spec_hover() == old(self).spec_hover(),
            old(self).dragging_active() ==> final(self).same_state(old(self)),
            !old(self).dragging_active() ==> final(self).spec_pressed() == TabBarPart::Nothing,
            !old(self).dragging_active() && old(self).spec_pressed() == part ==> match part {
                TabBarPart::Tab(i) => final(self).selected(old(self), i as int),
                TabBarPart::CloseButton(i) => final(self).spec_events() == old(self).spec_events().push(
                    TabBarEvent::TabCloseRequested(i as i32),
                ) && final(self).spec_tabs() == old(self).spec_tabs() && final(self).spec_current() == old(
                    self,
                ).spec_current() && final(self).same_settings(old(self)),
                _ => final(self).same_but_pressed(old(self)),
            },
            !old(self).dragging_active() && old(self).spec_pressed() != part ==> final(self).same_but_pressed(
                old(self),
            ),
    {
        proof {
            use_type_invariant(&*self);
        }
        match self.drag {
            Some((_, true)) => {
                self.drag = None;
                return true;
            },
            _ => {},
        }
        self.drag = None;
        if self.pressed_part == part {
            match part {
                TabBarPart::Tab(i) => {
                    if self.tabs[i].enabled {
                        self.set_current_index(i as i32);
                    }
                },
                TabBarPart::CloseButton(i) => {
                    self.emit(TabBarEvent::TabCloseRequested(i as i32));
                },
                _ => {},
            }
        }
        proof {
            use_type_invariant(&*self);
        }
        self.pressed_part = TabBarPart::Nothing;
        true
    }
}

} // verus!
