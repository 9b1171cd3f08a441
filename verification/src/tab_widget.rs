//! The tab widget's model: a tab bar with one page per tab, the page of the current tab
//! shown.

use vstd::prelude::*;

use crate::char_format::Color;
use crate::tab_bar::{TabBar, TabBarPart, TabInfo, TabKey, TabPosition, insert_at, valid_tab};

verus! {

/// A tabbed page container: a tab bar and the widgets of its pages, in the same order.
pub struct TabWidget {
    tab_bar: TabBar,
    pages: Vec<u64>,
    shown_page: i32,
    tab_position: TabPosition,
    events: Vec<i32>,
    content_background: Color,
}

impl TabWidget {
    #[verifier::type_invariant]
    spec fn inv(self) -> bool {
        self.pages@.len() == self.tab_bar.spec_tabs().len()
    }

    /// The background color of the page area.
    pub closed spec fn spec_content_background(&self) -> Color {
        self.content_background
    }

    /// The tab bar.
    pub closed spec fn spec_bar(&self) -> TabBar {
        self.tab_bar
    }

    /// The widget of each page, in tab order.
    pub closed spec fn spec_pages(&self) -> Seq<u64> {
        self.pages@
    }

    /// The page the stack shows (-1 before any page was current).
    pub closed spec fn spec_shown(&self) -> int {
        self.shown_page as int
    }

    pub closed spec fn spec_position(&self) -> TabPosition {
        self.tab_position
    }

    /// The current-page changes owed to listeners.
    pub closed spec fn spec_events(&self) -> Seq<i32> {
        self.events@
    }

    /// The page shown after the tab bar settles: its current tab, when there is one.
    pub open spec fn shown_after(bar: TabBar, before: int) -> int {
        if bar.spec_current() >= 0 {
            bar.spec_current()
        } else {
            before
        }
    }

    /// There is a page for every tab.
    pub fn check_pages(&self)
        ensures
            self.spec_pages().len() == self.spec_bar().spec_tabs().len(),
    {
        proof {
            use_type_invariant(self);
        }
    }

    /// An empty tab widget with its tabs on top.
    pub fn new() -> (r: Self)
        ensures
            r.spec_bar().spec_tabs() == Seq::<TabInfo>::empty(),
            r.spec_bar().spec_current() == -1,
            r.spec_pages() == Seq::<u64>::empty(),
            r.spec_shown() == -1,
            r.spec_position() == TabPosition::Top,
            r.spec_bar().spec_position() == TabPosition::Top,
            r.spec_bar().spec_tabs_closable() == false,
            r.spec_bar().spec_tabs_movable() == true,
            r.spec_events() == Seq::<i32>::empty(),
            r.spec_content_background() == (Color { r: 255, g: 255, b: 255, a: 255 }),
    {
        let r = TabWidget {
            tab_bar: TabBar::new(),
            pages: Vec::new(),
            shown_page: -1,
            tab_position: TabPosition::Top,
            events: Vec::new(),
            content_background: Color::WHITE(),
        };
        assert(r.spec_pages() =~= Seq::<u64>::empty());
        assert(r.spec_events() =~= Seq::<i32>::empty());
        r
    }

    fn take(&mut self) -> (r: TabWidget)
        ensures
            r == *old(self),
    {
        let mut r = TabWidget::new();
        std::mem::swap(&mut r, self);
        r
    }

    /// Add a page showing `widget_id` under a tab labelled `label`; returns its index. The
    /// first page becomes current and is shown.
    pub fn add_tab(&mut self, widget_id: u64, label: &str) -> (index: i32)
        requires
            old(self).spec_pages().len() < i32::MAX - 1,
        ensures
            index == old(self).spec_pages().len(),
            final(self).spec_pages() == old(self).spec_pages().push(widget_id),
            final(self).spec_bar().spec_tabs() == old(self).spec_bar().spec_tabs().push(
                TabInfo { label: label@, enabled: true, closable: old(self).spec_bar().spec_tabs_closable(), tooltip: None },
            ),
            final(self).spec_bar().spec_current() == (if old(self).spec_bar().spec_current() < 0 {
                0
            } else {
                old(self).spec_bar().spec_current()
            }),
            final(self).spec_shown() == Self::shown_after(final(self).spec_bar(), old(self).spec_shown()),
            final(self).spec_position() == old(self).spec_position(),
            final(self).spec_events() == old(self).spec_events(),
    {
        proof {
            use_type_invariant(&*self);
        }
        let whole = self.take();
        proof {
            use_type_invariant(&whole);
        }
        let TabWidget { mut tab_bar, mut pages, shown_page, tab_position, events, content_background } = whole;
        let index = tab_bar.add_tab(label);
        pages.push(widget_id);
        let current = tab_bar.current_index();
        let shown = if current >= 0 {
            current
        } else {
            shown_page
        };
        *self = TabWidget { tab_bar, pages, shown_page: shown, tab_position, events, content_background };
        index
    }

    /// Insert a page at `index` (the end when negative or past it); returns where it went.
    pub fn insert_tab(&mut self, index: i32, widget_id: u64, label: &str) -> (at: i32)
        requires
            old(self).spec_pages().len() < i32::MAX - 1,
        ensures
            at == insert_at(index as int, old(self).spec_pages().len() as int),
            final(self).spec_pages() == old(self).spec_pages().insert(at as int, widget_id),
            final(self).spec_bar().spec_tabs() == old(self).spec_bar().spec_tabs().insert(
                at as int,
                TabInfo { label: label@, enabled: true, closable: old(self).spec_bar().spec_tabs_closable(), tooltip: None },
            ),
            final(self).spec_bar().spec_current() == (if old(self).spec_bar().spec_current() < 0 {
                0
            } else if old(self).spec_bar().spec_current() >= at {
                old(self).spec_bar().spec_current() + 1
            } else {
                old(self).spec_bar().spec_current()
            }),
            final(self).spec_shown() == Self::shown_after(final(self).spec_bar(), old(self).spec_shown()),
            final(self).spec_position() == old(self).spec_position(),
            final(self).spec_events() == old(self).spec_events(),
    {
        proof {
            use_type_invariant(&*self);
        }
        let whole = self.take();
        proof {
            use_type_invariant(&whole);
        }
        let TabWidget { mut tab_bar, mut pages, shown_page, tab_position, events, content_background } = whole;
        let at = tab_bar.insert_tab(index, label);
        pages.insert(at as usize, widget_id);
        let current = tab_bar.current_index();
        let shown = if current >= 0 {
            current
        } else {
            shown_page
        };
        *self = TabWidget { tab_bar, pages, shown_page: shown, tab_position, events, content_background };
        at
    }

    /// Remove page `index`, returning its widget (`None`, and no change, for an index that
    /// names no page).
    pub fn remove_tab(&mut self, index: i32) -> (r: Option<u64>)
        ensures
            0 <= index < old(self).spec_pages().len() ==> {
                &&& r == Some(old(self).spec_pages()[index as int])
                &&& final(self).spec_pages() == old(self).spec_pages().remove(index as int)
                &&& final(self).spec_bar().spec_tabs() == old(self).spec_bar().spec_tabs().remove(index as int)
                &&& final(self).spec_shown() == Self::shown_after(final(self).spec_bar(), old(self).spec_shown())
            },
            !(0 <= index < old(self).spec_pages().len()) ==> {
                &&& r is None
                &&& final(self).spec_pages() == old(self).spec_pages()
                &&& final(self).spec_bar() == old(self).spec_bar()
                &&& final(self).spec_shown() == old(self).spec_shown()
            },
            final(self).spec_position() == old(self).spec_position(),
            final(self).spec_events() == old(self).spec_events(),
    {
        proof {
            use_type_invariant(&*self);
        }
        if index < 0 || index as usize >= self.pages.len() {
            return None;
        }
        let whole = self.take();
        proof {
            use_type_invariant(&whole);
        }
        let TabWidget { mut tab_bar, mut pages, shown_page, tab_position, events, content_background } = whole;
        let widget_id = pages.remove(index as usize);
        tab_bar.remove_tab(index);
        let current = tab_bar.current_index();
        let shown = if current >= 0 {
            current
        } else {
            shown_page
        };
        *self = TabWidget { tab_bar, pages, shown_page: shown, tab_position, events, content_background };
        Some(widget_id)
    }

    /// Remove every page.
    pub fn clear(&mut self)
        ensures
            final(self).spec_pages() == Seq::<u64>::empty(),
            final(self).spec_bar().spec_tabs() == Seq::<TabInfo>::empty(),
            final(self).spec_bar().spec_current() == -1,
            final(self).spec_shown() == old(self).spec_shown(),
            final(self).spec_position() == old(self).spec_position(),
            final(self).spec_events() == old(self).spec_events(),
    {
        proof {
            use_type_invariant(&*self);
        }
        let whole = self.take();
        proof {
            use_type_invariant(&whole);
        }
        let TabWidget { mut tab_bar, pages: _, shown_page, tab_position, events, content_background } = whole;
        tab_bar.clear();
        *self = TabWidget { tab_bar, pages: Vec::new(), shown_page, tab_position, events, content_background };
        assert(self.spec_pages() =~= Seq::<u64>::empty());
    }

    /// The number of pages.
    pub fn count(&self) -> (r: i32)
        ensures
            r == self.spec_pages().len(),
    {
        proof {
            use_type_invariant(self);
        }
        self.tab_bar.count()
    }

    /// The current tab's index (-1 when there are none).
    pub fn current_index(&self) -> (r: i32)
        ensures
            r == self.spec_bar().spec_current(),
    {
        self.tab_bar.current_index()
    }

    /// Make tab `index` current (see `TabBar::set_current_index`); its page is shown.
    pub fn set_current_index(&mut self, index: i32)
        ensures
            final(self).spec_bar().selected(&old(self).spec_bar(), index as int),
            final(self).spec_pages() == old(self).spec_pages(),
            final(self).spec_shown() == Self::shown_after(final(self).spec_bar(), old(self).spec_shown()),
            final(self).spec_position() == old(self).spec_position(),
            final(self).spec_events() == old(self).spec_events(),
    {
        proof {
            use_type_invariant(&*self);
        }
        let whole = self.take();
        proof {
            use_type_invariant(&whole);
        }
        let TabWidget { mut tab_bar, pages, shown_page, tab_position, events, content_background } = whole;
        tab_bar.set_current_index(index);
        let current = tab_bar.current_index();
        let shown = if current >= 0 {
            current
        } else {
            shown_page
        };
        *self = TabWidget { tab_bar, pages, shown_page: shown, tab_position, events, content_background };
    }

    /// The widget of the current page, if any.
    pub fn current_widget(&self) -> (r: Option<u64>)
        ensures
            r == (if 0 <= self.spec_bar().spec_current() < self.spec_pages().len() {
                Some(self.spec_pages()[self.spec_bar().spec_current()])
            } else {
                None::<u64>
            }),
    {
        let index = self.tab_bar.current_index();
        if index >= 0 && (index as usize) < self.pages.len() {
            Some(self.pages[index as usize])
        } else {
            None
        }
    }

    /// The widget of page `index`, if there is one.
    pub fn widget(&self, index: i32) -> (r: Option<u64>)
        ensures
            r == (if 0 <= index < self.spec_pages().len() {
                Some(self.spec_pages()[index as int])
            } else {
                None::<u64>
            }),
    {
        if index < 0 || index as usize >= self.pages.len() {
            None
        } else {
            Some(self.pages[index as usize])
        }
    }

    /// The index of the first page showing `widget_id`, or -1.
    pub fn index_of(&self, widget_id: u64) -> (r: i32)
        ensures
            r == -1 ==> forall|i: int| 0 <= i < self.spec_pages().len() ==> self.spec_pages()[i] != widget_id,
            r != -1 ==> 0 <= r < self.spec_pages().len() && self.spec_pages()[r as int] == widget_id && forall|i: int|
                0 <= i < r ==> self.spec_pages()[i] != widget_id,
    {
        proof {
            use_type_invariant(self);
        }
        self.tab_bar.check_current();
        let mut i: usize = 0;
        while i < self.pages.len()
            invariant
                i <= self.pages@.len(),
                self.pages@.len() == self.tab_bar.spec_tabs().len(),
                self.pages@.len() < i32::MAX,
                forall|j: int| 0 <= j < i ==> self.pages@[j] != widget_id,
            decreases self.pages@.len() - i,
        {
            if self.pages[i] == widget_id {
                return i as i32;
            }
            i = i + 1;
        }
        -1
    }

    /// The label of tab `index`, if any.
    pub fn tab_text(&self, index: i32) -> (r: Option<&str>)
        ensures
            match r {
                Some(t) => valid_tab(self.spec_bar().spec_tabs(), index as int) && t@ == self.spec_bar().spec_tabs()[index as int].label,
                None => !valid_tab(self.spec_bar().spec_tabs(), index as int),
            },
    {
        self.tab_bar.tab_text(index)
    }

    /// Whether tab `index` is enabled (false when there is no such tab).
    pub fn is_tab_enabled(&self, index: i32) -> (r: bool)
        ensures
            r == (valid_tab(self.spec_bar().spec_tabs(), index as int) && self.spec_bar().spec_tabs()[index as int].enabled),
    {
        self.tab_bar.is_tab_enabled(index)
    }

    /// The tooltip of tab `index`, if the tab exists and has one.
    pub fn tab_tooltip(&self, index: i32) -> (r: Option<&str>)
        ensures
            match r {
                Some(t) => valid_tab(self.spec_bar().spec_tabs(), index as int) && self.spec_bar().spec_tabs()[index as int].tooltip
                    == Some(t@),
                None => !valid_tab(self.spec_bar().spec_tabs(), index as int) || self.spec_bar().spec_tabs()[index as int].tooltip
                    is None,
            },
    {
        self.tab_bar.tab_tooltip(index)
    }

    /// Whether tab `index` has a close button (false when there is no such tab).
    pub fn is_tab_closable(&self, index: i32) -> (r: bool)
        ensures
            r == (valid_tab(self.spec_bar().spec_tabs(), index as int) && self.spec_bar().spec_tabs()[index as int].closable),
    {
        self.tab_bar.is_tab_closable(index)
    }

    /// Change the tab bar alone (its tab count unchanged), the rest staying.
    fn with_bar(&mut self, f: u8, index: i32, text: &str, flag: bool)
        requires
            f < 4,
        ensures
            final(self).spec_pages() == old(self).spec_pages(),
            final(self).spec_shown() == old(self).spec_shown(),
            final(self).spec_position() == old(self).spec_position(),
            final(self).spec_events() == old(self).spec_events(),
            final(self).spec_bar().spec_current() == old(self).spec_bar().spec_current(),
            final(self).spec_bar().spec_events() == old(self).spec_bar().spec_events(),
            final(self).spec_bar().same_settings(&old(self).spec_bar()),
            final(self).spec_bar().spec_tabs() == (if valid_tab(old(self).spec_bar().spec_tabs(), index as int) {
                let t = old(self).spec_bar().spec_tabs()[index as int];
                old(self).spec_bar().spec_tabs().update(
                    index as int,
                    if f == 0 {
                        TabInfo { label: text@, ..t }
                    } else if f == 1 {
                        TabInfo { enabled: flag, ..t }
                    } else if f == 2 {
                        TabInfo { tooltip: Some(text@), ..t }
                    } else {
                        TabInfo { closable: flag, ..t }
                    },
                )
            } else {
                old(self).spec_bar().spec_tabs()
            }),
    {
        proof {
            use_type_invariant(&*self);
        }
        let whole = self.take();
        proof {
            use_type_invariant(&whole);
        }
        let TabWidget { mut tab_bar, pages, shown_page, tab_position, events, content_background } = whole;
        if f == 0 {
            tab_bar.set_tab_text(index, text);
        } else if f == 1 {
            tab_bar.set_tab_enabled(index, flag);
        } else if f == 2 {
            tab_bar.set_tab_tooltip(index, text);
        } else {
            tab_bar.set_tab_closable(index, flag);
        }
        *self = TabWidget { tab_bar, pages, shown_page, tab_position, events, content_background };
    }

    /// Set the label of tab `index` (nothing for an index that names no tab).
    pub fn set_tab_text(&mut self, index: i32, text: &str)
        ensures
            final(self).spec_bar().spec_tabs() == (if valid_tab(old(self).spec_bar().spec_tabs(), index as int) {
                old(self).spec_bar().spec_tabs().update(
                    index as int,
                    TabInfo { label: text@, ..old(self).spec_bar().spec_tabs()[index as int] },
                )
            } else {
                old(self).spec_bar().spec_tabs()
            }),
            final(self).spec_pages() == old(self).spec_pages(),
            final(self).spec_bar().spec_current() == old(self).spec_bar().spec_current(),
    {
        self.with_bar(0, index, text, false);
    }

    /// Enable or disable tab `index` (nothing for an index that names no tab).
    pub fn set_tab_enabled(&mut self, index: i32, enabled: bool)
        ensures
            final(self).spec_bar().spec_tabs() == (if valid_tab(old(self).spec_bar().spec_tabs(), index as int) {
                old(self).spec_bar().spec_tabs().update(
                    index as int,
                    TabInfo { enabled: enabled, ..old(self).spec_bar().spec_tabs()[index as int] },
                )
            } else {
                old(self).spec_bar().spec_tabs()
            }),
            final(self).spec_pages() == old(self).spec_pages(),
            final(self).spec_bar().spec_current() == old(self).spec_bar().spec_current(),
    {
        self.with_bar(1, index, "", enabled);
    }

    /// Set the tooltip of tab `index` (nothing for an index that names no tab).
    pub fn set_tab_tooltip(&mut self, index: i32, tooltip: &str)
        ensures
            final(self).spec_bar().spec_tabs() == (if valid_tab(old(self).spec_bar().spec_tabs(), index as int) {
                old(self).spec_bar().spec_tabs().update(
                    index as int,
                    TabInfo { tooltip: Some(tooltip@), ..old(self).spec_bar().spec_tabs()[index as int] },
                )
            } else {
                old(self).spec_bar().spec_tabs()
            }),
            final(self).spec_pages() == old(self).spec_pages(),
            final(self).spec_bar().spec_current() == old(self).spec_bar().spec_current(),
    {
        self.with_bar(2, index, tooltip, false);
    }

    /// Give or take the close button of tab `index` (nothing for an index that names no tab).
    pub fn set_tab_closable(&mut self, index: i32, closable: bool)
        ensures
            final(self).spec_bar().spec_tabs() == (if valid_tab(old(self).spec_bar().spec_tabs(), index as int) {
                old(self).spec_bar().spec_tabs().update(
                    index as int,
                    TabInfo { closable: closable, ..old(self).spec_bar().spec_tabs()[index as int] },
                )
            } else {
                old(self).spec_bar().spec_tabs()
            }),
            final(self).spec_pages() == old(self).spec_pages(),
            final(self).spec_bar().spec_current() == old(self).spec_bar().spec_current(),
    {
        self.with_bar(3, index, "", closable);
    }

    /// Where the tabs stand.
    pub fn tab_position(&self) -> (r: TabPosition)
        ensures
            r == self.spec_position(),
    {
        self.tab_position
    }

    /// Put the tabs at `position` (the tab bar follows).
    pub fn set_tab_position(&mut self, position: TabPosition)
        ensures
            final(self).spec_position() == position,
            final(self).spec_bar().spec_position() == (if old(self).spec_position() != position {
                position
            } else {
                old(self).spec_bar().spec_position()
            }),
            final(self).spec_bar().spec_tabs() == old(self).spec_bar().spec_tabs(),
            final(self).spec_bar().spec_current() == old(self).spec_bar().spec_current(),
            final(self).spec_bar().spec_tabs_closable() == old(self).spec_bar().spec_tabs_closable(),
            final(self).spec_bar().spec_tabs_movable() == old(self).spec_bar().spec_tabs_movable(),
            final(self).spec_pages() == old(self).spec_pages(),
    {
        proof {
            use_type_invariant(&*self);
        }
        if self.tab_position != position {
            let whole = self.take();
            proof {
                use_type_invariant(&whole);
            }
            let TabWidget { mut tab_bar, pages, shown_page, tab_position: _, events, content_background } = whole;
            tab_bar.set_tab_position(position);
            *self = TabWidget { tab_bar, pages, shown_page, tab_position: position, events, content_background };
        }
    }

    /// This tab widget with its tabs at `position`.
    pub fn with_tab_position(self, position: TabPosition) -> (r: Self)
        ensures
            r.spec_position() == position,
            r.spec_pages() == self.spec_pages(),
            r.spec_bar().spec_tabs_closable() == self.spec_bar().spec_tabs_closable(),
            r.spec_bar().spec_tabs_movable() == self.spec_bar().spec_tabs_movable(),
    {
        let mut s = self;
        s.set_tab_position(position);
        s
    }

    /// Whether new tabs get a close button.
    pub fn tabs_closable(&self) -> (r: bool)
        ensures
            r == self.spec_bar().spec_tabs_closable(),
    {
        self.tab_bar.tabs_closable()
    }

    fn with_bar_flag(&mut self, movable: bool, value: bool)
        ensures
            final(self).spec_pages() == old(self).spec_pages(),
            final(self).spec_position() == old(self).spec_position(),
            final(self).spec_bar().spec_tabs() == old(self).spec_bar().spec_tabs(),
            final(self).spec_bar().spec_current() == old(self).spec_bar().spec_current(),
            final(self).spec_bar().spec_position() == old(self).spec_bar().spec_position(),
            movable ==> final(self).spec_bar().spec_tabs_movable() == value
                && final(self).spec_bar().spec_tabs_closable() == old(self).spec_bar().spec_tabs_closable(),
            !movable ==> final(self).spec_bar().spec_tabs_closable() == value
                && final(self).spec_bar().spec_tabs_movable() == old(self).spec_bar().spec_tabs_movable(),
    {
        proof {
            use_type_invariant(&*self);
        }
        let whole = self.take();
        proof {
            use_type_invariant(&whole);
        }
        let TabWidget { mut tab_bar, pages, shown_page, tab_position, events, content_background } = whole;
        if movable {
            tab_bar.set_tabs_movable(value);
        } else {
            tab_bar.set_tabs_closable(value);
        }
        *self = TabWidget { tab_bar, pages, shown_page, tab_position, events, content_background };
    }

    /// Choose whether new tabs get a close button.
    pub fn set_tabs_closable(&mut self, closable: bool)
        ensures
            final(self).spec_bar().spec_tabs_closable() == closable,
            final(self).spec_bar().spec_tabs_movable() == old(self).spec_bar().spec_tabs_movable(),
            final(self).spec_bar().spec_tabs() == old(self).spec_bar().spec_tabs(),
            final(self).spec_pages() == old(self).spec_pages(),
            final(self).spec_position() == old(self).spec_position(),
    {
        self.with_bar_flag(false, closable);
    }

    /// This tab widget, with new tabs closable as `closable` says.
    pub fn with_tabs_closable(self, closable: bool) -> (r: Self)
        ensures
            r.spec_bar().spec_tabs_closable() == closable,
            r.spec_bar().spec_tabs_movable() == self.spec_bar().spec_tabs_movable(),
            r.spec_pages() == self.spec_pages(),
            r.spec_position() == self.spec_position(),
    {
        let mut s = self;
        s.set_tabs_closable(closable);
        s
    }

    /// Whether tabs can be reordered by dragging.
    pub fn tabs_movable(&self) -> (r: bool)
        ensures
            r == self.spec_bar().spec_tabs_movable(),
    {
        self.tab_bar.tabs_movable()
    }

    /// Choose whether tabs can be reordered by dragging.
    pub fn set_tabs_movable(&mut self, movable: bool)
        ensures
            final(self).spec_bar().spec_tabs_movable() == movable,
            final(self).spec_bar().spec_tabs_closable() == old(self).spec_bar().spec_tabs_closable(),
            final(self).spec_bar().spec_tabs() == old(self).spec_bar().spec_tabs(),
            final(self).spec_pages() == old(self).spec_pages(),
            final(self).spec_position() == old(self).spec_position(),
    {
        self.with_bar_flag(true, movable);
    }

    /// This tab widget, with tabs movable as `movable` says.
    pub fn with_tabs_movable(self, movable: bool) -> (r: Self)
        ensures
            r.spec_bar().spec_tabs_movable() == movable,
            r.spec_bar().spec_tabs_closable() == self.spec_bar().spec_tabs_closable(),
            r.spec_pages() == self.spec_pages(),
            r.spec_position() == self.spec_position(),
    {
        let mut s = self;
        s.set_tabs_movable(movable);
        s
    }

    /// The background color of the page area.
    pub fn content_background(&self) -> (r: Color)
        ensures
            r == self.spec_content_background(),
    {
        self.content_background
    }

    /// Set the background color of the page area.
    pub fn set_content_background(&mut self, color: Color)
        ensures
            final(self).spec_content_background() == color,
            final(self).spec_bar() == old(self).spec_bar(),
            final(self).spec_pages() == old(self).spec_pages(),
            final(self).spec_shown() == old(self).spec_shown(),
            final(self).spec_position() == old(self).spec_position(),
            final(self).spec_events() == old(self).spec_events(),
    {
        proof {
            use_type_invariant(&*self);
        }
        self.content_background = color;
    }

    /// This tab widget, with the page area in `color`.
    pub fn with_content_background(self, color: Color) -> (r: Self)
        ensures
            r.spec_content_background() == color,
            r.spec_bar() == self.spec_bar(),
            r.spec_pages() == self.spec_pages(),
            r.spec_shown() == self.spec_shown(),
            r.spec_position() == self.spec_position(),
            r.spec_events() == self.spec_events(),
    {
        let mut s = self;
        s.set_content_background(color);
        s
    }

    /// The tab bar.
    pub fn tab_bar(&self) -> (r: &TabBar)
        ensures
            *r == self.spec_bar(),
    {
        &self.tab_bar
    }

    /// Take the current-page changes owed, in order.
    pub fn take_events(&mut self) -> (r: Vec<i32>)
        ensures
            r@ == old(self).spec_events(),
            final(self).spec_events() == Seq::<i32>::empty(),
            final(self).spec_bar() == old(self).spec_bar(),
            final(self).spec_pages() == old(self).spec_pages(),
    {
        proof {
            use_type_invariant(&*self);
        }
        let mut out: Vec<i32> = Vec::new();
        std::mem::swap(&mut out, &mut self.events);
        out
    }

    /// Hand an input to the tab bar (`kind` 0: a key, 1: a press, 2: a release on `part`);
    /// when the current tab changed, its page is shown and the change notified.
    fn forward(&mut self, kind: u8, key: TabKey, part: TabBarPart) -> (consumed: bool)
        requires
            kind < 3,
            part matches TabBarPart::Tab(i) ==> i < old(self).spec_bar().spec_tabs().len(),
            part matches TabBarPart::CloseButton(i) ==> i < old(self).spec_bar().spec_tabs().len(),
        ensures
            final(self).spec_pages() == old(self).spec_pages(),
            final(self).spec_position() == old(self).spec_position(),
            final(self).spec_bar().spec_tabs() == old(self).spec_bar().spec_tabs(),
            kind == 0 ==> consumed == (old(self).spec_bar().spec_tabs().len() > 0 && crate::tab_bar::key_nav(
                old(self).spec_bar().spec_position(),
                key,
            ) is Some),
            kind == 0 ==> final(self).spec_bar().selected(
                &old(self).spec_bar(),
                if consumed {
                    crate::tab_bar::nav_target(
                        old(self).spec_bar().spec_tabs(),
                        old(self).spec_bar().spec_current(),
                        crate::tab_bar::key_nav(old(self).spec_bar().spec_position(), key)->0,
                    )
                } else {
                    -1
                },
            ),
            final(self).spec_events() == (if final(self).spec_bar().spec_current() != old(self).spec_bar().spec_current() {
                old(self).spec_events().push(final(self).spec_bar().spec_current() as i32)
            } else {
                old(self).spec_events()
            }),
            final(self).spec_shown() == (if final(self).spec_bar().spec_current() != old(self).spec_bar().spec_current() {
                Self::shown_after(final(self).spec_bar(), old(self).spec_shown())
            } else {
                old(self).spec_shown()
            }),
    {
        proof {
            use_type_invariant(&*self);
        }
        let whole = self.take();
        proof {
            use_type_invariant(&whole);
        }
        let TabWidget { mut tab_bar, pages, shown_page, tab_position, mut events, content_background } = whole;
        let old_index = tab_bar.current_index();
        let consumed = if kind == 0 {
            tab_bar.handle_key(key)
        } else if kind == 1 {
            tab_bar.handle_press(part)
        } else {
            tab_bar.handle_release(part)
        };
        let new_index = tab_bar.current_index();
        let mut shown = shown_page;
        if new_index != old_index {
            if new_index >= 0 {
                shown = new_index;
            }
            events.push(new_index);
        }
        *self = TabWidget { tab_bar, pages, shown_page: shown, tab_position, events, content_background };
        consumed
    }

    /// Handle a key in the tab bar (see `TabBar::handle_key`); a change of tab shows its page
    /// and is notified.
    pub fn handle_key(&mut self, key: TabKey) -> (consumed: bool)
        ensures
            consumed == (old(self).spec_bar().spec_tabs().len() > 0 && crate::tab_bar::key_nav(
                old(self).spec_bar().spec_position(),
                key,
            ) is Some),
            final(self).spec_pages() == old(self).spec_pages(),
            final(self).spec_bar().selected(
                &old(self).spec_bar(),
                if consumed {
                    crate::tab_bar::nav_target(
                        old(self).spec_bar().spec_tabs(),
                        old(self).spec_bar().spec_current(),
                        crate::tab_bar::key_nav(old(self).spec_bar().spec_position(), key)->0,
                    )
                } else {
                    -1
                },
            ),
            final(self).spec_events() == (if final(self).spec_bar().spec_current() != old(self).spec_bar().spec_current() {
                old(self).spec_events().push(final(self).spec_bar().spec_current() as i32)
            } else {
                old(self).spec_events()
            }),
    {
        self.forward(0, key, TabBarPart::Nothing)
    }

    /// Handle a press on a part of the tab bar (see `TabBar::handle_press`).
    pub fn handle_press(&mut self, part: TabBarPart) -> (consumed: bool)
        requires
            part matches TabBarPart::Tab(i) ==> i < old(self).spec_bar().spec_tabs().len(),
        ensures
            final(self).spec_pages() == old(self).spec_pages(),
            final(self).spec_bar().spec_current() == old(self).spec_bar().spec_current(),
            final(self).spec_bar().spec_pressed() == part,
            final(self).spec_events() == old(self).spec_events(),
    {
        proof {
            use_type_invariant(&*self);
        }
        let whole = self.take();
        proof {
            use_type_invariant(&whole);
        }
        let TabWidget { mut tab_bar, pages, shown_page, tab_position, events, content_background } = whole;
        let consumed = tab_bar.handle_press(part);
        *self = TabWidget { tab_bar, pages, shown_page, tab_position, events, content_background };
        consumed
    }

    /// Handle a release on a part of the tab bar (see `TabBar::handle_release`); a change of
    /// tab shows its page and is notified.
    pub fn handle_release(&mut self, part: TabBarPart) -> (consumed: bool)
        requires
            part matches TabBarPart::Tab(i) ==> i < old(self).spec_bar().spec_tabs().len(),
            part matches TabBarPart::CloseButton(i) ==> i < old(self).spec_bar().spec_tabs().len(),
        ensures
            consumed,
            final(self).spec_pages() == old(self).spec_pages(),
            old(self).spec_bar().spec_pressed() == part ==> match part {
                TabBarPart::Tab(i) => final(self).spec_bar().selected(&old(self).spec_bar(), i as int),
                _ => true,
            },
            final(self).spec_events() == (if final(self).spec_bar().spec_current() != old(self).spec_bar().spec_current() {
                old(self).spec_events().push(final(self).spec_bar().spec_current() as i32)
            } else {
                old(self).spec_events()
            }),
    {
        proof {
            use_type_invariant(&*self);
        }
        let whole = self.take();
        proof {
            use_type_invariant(&whole);
        }
        let TabWidget { mut tab_bar, pages, shown_page, tab_position, mut events, content_background } = whole;
        let old_index = tab_bar.current_index();
        tab_bar.end_drag();
        let consumed = tab_bar.handle_release(part);
        let new_index = tab_bar.current_index();
        let mut shown = shown_page;
        if new_index != old_index {
            if new_index >= 0 {
                shown = new_index;
            }
            events.push(new_index);
        }
        *self = TabWidget { tab_bar, pages, shown_page: shown, tab_position, events, content_background };
        consumed
    }
}

} // verus!
