//! The tool box's model: an accordion of pages with headers, one page current at a time.

use vstd::prelude::*;

use crate::char_format::Color;
use crate::utf8_text::owned;

verus! {

/// The header of a tool box page: its text, icon path, tooltip and whether it is enabled.
#[derive(Debug, Clone)]
pub struct ToolBoxItem {
    text: String,
    icon_path: Option<String>,
    tool_tip: Option<String>,
    enabled: bool,
}

/// A page header as a value.
pub struct ItemInfo {
    pub text: Seq<char>,
    pub icon: Option<Seq<char>>,
    pub tool_tip: Option<Seq<char>>,
    pub enabled: bool,
}

pub open spec fn opt_text(t: Option<String>) -> Option<Seq<char>> {
    match t {
        Some(s) => Some(s@),
        None => None,
    }
}

impl View for ToolBoxItem {
    type V = ItemInfo;

    closed spec fn view(&self) -> ItemInfo {
        ItemInfo {
            text: self.text@,
            icon: opt_text(self.icon_path),
            tool_tip: opt_text(self.tool_tip),
            enabled: self.enabled,
        }
    }
}

impl ToolBoxItem {
    /// An enabled header with the given text and no icon or tooltip.
    pub fn new(text: &str) -> (r: Self)
        ensures
            r@ == (ItemInfo { text: text@, icon: None, tool_tip: None, enabled: true }),
    {
        ToolBoxItem { text: owned(text), icon_path: None, tool_tip: None, enabled: true }
    }
}

/// A page of the tool box: the widget it shows and its header.
#[derive(Debug)]
struct ToolBoxPage {
    widget_id: u64,
    item: ToolBoxItem,
}

/// A page as a value.
pub struct PageInfo {
    pub widget: u64,
    pub item: ItemInfo,
}

/// The index `insert_item` puts a page at: 0 for a negative index, the end past the end.
pub open spec fn insert_position(index: int, len: int) -> int {
    if index < 0 {
        0
    } else if index > len {
        len
    } else {
        index
    }
}

/// The current index after removing page `index` of `len`: -1 when none is left, one back
/// when a page before it went, the last page when it was the last and went.
pub open spec fn current_after_removal(current: int, index: int, len: int) -> int {
    if len == 1 {
        -1
    } else if index < current {
        current - 1
    } else if index == current {
        if current < len - 1 {
            current
        } else {
            len - 2
        }
    } else {
        current
    }
}

/// The index `k` steps from `from` around `count` pages, forward or backward.
pub open spec fn cyclic(from: int, k: int, forward: bool, count: int) -> int {
    if forward {
        (from + k) % count
    } else {
        (from - k) % count
    }
}

/// The first enabled page among the `k`-th, `k+1`-th, ... steps from `from` (up to `count`
/// steps), if any.
pub open spec fn cyclic_search(pages: Seq<PageInfo>, from: int, forward: bool, k: int) -> Option<int>
    decreases pages.len() + 1 - k,
{
    if k > pages.len() || k < 1 {
        None
    } else if pages[cyclic(from, k, forward, pages.len() as int)].item.enabled {
        Some(cyclic(from, k, forward, pages.len() as int))
    } else {
        cyclic_search(pages, from, forward, k + 1)
    }
}

/// Keys the tool box handles.
#[derive(Debug, Clone, Copy, PartialEq, Eq, Structural)]
pub enum ToolBoxKey {
    ArrowUp,
    ArrowDown,
    Home,
    End,
    Other,
}

/// The tool box as a value.
pub struct ToolBoxState {
    pub pages: Seq<PageInfo>,
    pub current: int,
    pub hovered: int,
    pub events: Seq<i32>,
}

/// The state after asking for page `index` to become current: it does when it names an
/// enabled page other than the current one, which is notified.
pub open spec fn with_current(v: ToolBoxState, index: int) -> (ToolBoxState, bool) {
    if 0 <= index < v.pages.len() && v.pages[index].item.enabled && index != v.current {
        (ToolBoxState { current: index, events: v.events.push(index as i32), ..v }, true)
    } else {
        (v, false)
    }
}

/// An accordion-style container: pages with clickable headers, one of them shown.
pub struct ToolBox {
    pages: Vec<ToolBoxPage>,
    current_index: i32,
    hovered_header: i32,
    events: Vec<i32>,
    colors: ToolBoxColors,
}

/// The colors a tool box is drawn in.
#[derive(Debug, Clone, Copy, PartialEq, Eq, Structural)]
pub struct ToolBoxColors {
    pub header: Color,
    /// The header of the current page.
    pub header_selected: Color,
    pub content_background: Color,
    pub border: Color,
}

impl View for ToolBox {
    type V = ToolBoxState;

    closed spec fn view(&self) -> ToolBoxState {
        ToolBoxState {
            pages: self.pages@.map_values(|p: ToolBoxPage| PageInfo { widget: p.widget_id, item: p.item@ }),
            current: self.current_index as int,
            hovered: self.hovered_header as int,
            events: self.events@,
        }
    }
}

impl ToolBox {
    #[verifier::type_invariant]
    spec fn inv(self) -> bool {
        &&& self.pages@.len() < i32::MAX
        &&& (self.pages@.len() == 0 <==> self.current_index == -1)
        &&& -1 <= self.current_index < self.pages@.len()
    }

    /// The colors the tool box is drawn in.
    pub closed spec fn spec_colors(&self) -> ToolBoxColors {
        self.colors
    }

    /// The current index is -1 exactly when there are no pages, and a page's index otherwise.
    pub open spec fn current_ok(v: ToolBoxState) -> bool {
        &&& (v.pages.len() == 0 <==> v.current == -1)
        &&& -1 <= v.current < v.pages.len()
    }

    /// Every tool box holds a current index that is -1 exactly when it has no pages.
    pub fn check_current(&self)
        ensures
            Self::current_ok(self@),
    {
        proof {
            use_type_invariant(self);
        }
    }

    /// An empty tool box.
    pub fn new() -> (r: Self)
        ensures
            r@ == (ToolBoxState { pages: Seq::empty(), current: -1, hovered: -1, events: Seq::empty() }),
            r.spec_colors() == (ToolBoxColors {
                header: Color { r: 240, g: 240, b: 240, a: 255 },
                header_selected: Color { r: 66, g: 133, b: 244, a: 255 },
                content_background: Color { r: 255, g: 255, b: 255, a: 255 },
                border: Color { r: 200, g: 200, b: 200, a: 255 },
            }),
    {
        let r = ToolBox {
            pages: Vec::new(),
            current_index: -1,
            hovered_header: -1,
            events: Vec::new(),
            colors: ToolBoxColors {
                header: Color::from_rgb8(240, 240, 240),
                header_selected: Color::from_rgb8(66, 133, 244),
                content_background: Color::WHITE(),
                border: Color::from_rgb8(200, 200, 200),
            },
        };
        assert(r@.pages =~= Seq::<PageInfo>::empty());
        assert(r@.events =~= Seq::<i32>::empty());
        r
    }

    /// The color of the page headers.
    pub fn header_color(&self) -> (r: Color)
        ensures
            r == self.spec_colors().header,
    {
        self.colors.header
    }

    /// Set the color of the page headers.
    pub fn set_header_color(&mut self, color: Color)
        ensures
            final(self)@ == old(self)@,
            final(self).spec_colors() == (ToolBoxColors { header: color, ..old(self).spec_colors() }),
    {
        proof {
            use_type_invariant(&*self);
        }
        self.colors.header = color;
    }

    /// This tool box, with the page headers in `color`.
    pub fn with_header_color(self, color: Color) -> (r: Self)
        ensures
            r@ == self@,
            r.spec_colors() == (ToolBoxColors { header: color, ..self.spec_colors() }),
    {
        let mut s = self;
        s.set_header_color(color);
        s
    }

    /// The color of the current page's header.
    pub fn header_selected_color(&self) -> (r: Color)
        ensures
            r == self.spec_colors().header_selected,
    {
        self.colors.header_selected
    }

    /// Set the color of the current page's header.
    pub fn set_header_selected_color(&mut self, color: Color)
        ensures
            final(self)@ == old(self)@,
            final(self).spec_colors() == (ToolBoxColors { header_selected: color, ..old(self).spec_colors() }),
    {
        proof {
            use_type_invariant(&*self);
        }
        self.colors.header_selected = color;
    }

    /// This tool box, with the current page's header in `color`.
    pub fn with_header_selected_color(self, color: Color) -> (r: Self)
        ensures
            r@ == self@,
            r.spec_colors() == (ToolBoxColors { header_selected: color, ..self.spec_colors() }),
    {
        let mut s = self;
        s.set_header_selected_color(color);
        s
    }

    /// The color of the page area.
    pub fn content_background_color(&self) -> (r: Color)
        ensures
            r == self.spec_colors().content_background,
    {
        self.colors.content_background
    }

    /// Set the color of the page area.
    pub fn set_content_background_color(&mut self, color: Color)
        ensures
            final(self)@ == old(self)@,
            final(self).spec_colors() == (ToolBoxColors { content_background: color, ..old(self).spec_colors() }),
    {
        proof {
            use_type_invariant(&*self);
        }
        self.colors.content_background = color;
    }

    /// This tool box, with the page area in `color`.
    pub fn with_content_background_color(self, color: Color) -> (r: Self)
        ensures
            r@ == self@,
            r.spec_colors() == (ToolBoxColors { content_background: color, ..self.spec_colors() }),
    {
        let mut s = self;
        s.set_content_background_color(color);
        s
    }

    /// The color of the borders.
    pub fn border_color(&self) -> (r: Color)
        ensures
            r == self.spec_colors().border,
    {
        self.colors.border
    }

    /// Set the color of the borders.
    pub fn set_border_color(&mut self, color: Color)
        ensures
            final(self)@ == old(self)@,
            final(self).spec_colors() == (ToolBoxColors { border: color, ..old(self).spec_colors() }),
    {
        proof {
            use_type_invariant(&*self);
        }
        self.colors.border = color;
    }

    /// This tool box, with the borders in `color`.
    pub fn with_border_color(self, color: Color) -> (r: Self)
        ensures
            r@ == self@,
            r.spec_colors() == (ToolBoxColors { border: color, ..self.spec_colors() }),
    {
        let mut s = self;
        s.set_border_color(color);
        s
    }

    /// Take the notifications of current-page changes owed, in order.
    pub fn take_events(&mut self) -> (r: Vec<i32>)
        ensures
            r@ == old(self)@.events,
            final(self)@ == (ToolBoxState { events: Seq::empty(), ..old(self)@ }),
            final(self).spec_colors() == old(self).spec_colors(),
    {
        proof {
            use_type_invariant(&*self);
        }
        let mut out: Vec<i32> = Vec::new();
        std::mem::swap(&mut out, &mut self.events);
        assert(self@.events =~= Seq::<i32>::empty());
        out
    }

    fn take(&mut self) -> (r: ToolBox)
        ensures
            r == *old(self),
    {
        let mut r = ToolBox::new();
        std::mem::swap(&mut r, self);
        r
    }

    /// Insert a page showing `widget_id` with header `text` at `index` (0 when negative, the
    /// end when past it); returns where it went. The first page becomes current (notified);
    /// a page inserted at or before the current one moves the current index along.
    pub fn insert_item(&mut self, index: i32, widget_id: u64, text: &str) -> (at: i32)
        requires
            old(self)@.pages.len() < i32::MAX - 1,
        ensures
            at == insert_position(index as int, old(self)@.pages.len() as int),
            final(self)@.pages == old(self)@.pages.insert(
                at as int,
                PageInfo { widget: widget_id, item: ItemInfo { text: text@, icon: None, tool_tip: None, enabled: true } },
            ),
            final(self)@.current == (if old(self)@.pages.len() == 0 {
                0
            } else if at <= old(self)@.current {
                old(self)@.current + 1
            } else {
                old(self)@.current
            }),
            final(self)@.events == (if old(self)@.pages.len() == 0 {
                old(self)@.events.push(0)
            } else {
                old(self)@.events
            }),
            final(self)@.hovered == old(self)@.hovered,
            final(self).spec_colors() == old(self).spec_colors(),
    {
        proof {
            use_type_invariant(&*self);
        }
        let len = self.pages.len();
        let pos: usize = if index < 0 {
            0
        } else if index as usize > len {
            len
        } else {
            index as usize
        };
        let page = ToolBoxPage { widget_id, item: ToolBoxItem::new(text) };
        let ghost info = PageInfo { widget: page.widget_id, item: page.item@ };
        let whole = self.take();
        proof {
            use_type_invariant(&whole);
        }
        let ToolBox { mut pages, current_index, hovered_header, mut events, colors } = whole;
        pages.insert(pos, page);
        let mut current = current_index;
        if pages.len() == 1 {
            current = 0;
            events.push(0);
        } else if pos as i32 <= current {
            current = current + 1;
        }
        *self = ToolBox { pages, current_index: current, hovered_header, events, colors };
        assert(self@.pages =~= old(self)@.pages.insert(pos as int, info));
        pos as i32
    }

    /// Add a page at the end; returns its index.
    pub fn add_item(&mut self, widget_id: u64, text: &str) -> (at: i32)
        requires
            old(self)@.pages.len() < i32::MAX - 1,
        ensures
            at == old(self)@.pages.len(),
            final(self)@.pages == old(self)@.pages.push(
                PageInfo { widget: widget_id, item: ItemInfo { text: text@, icon: None, tool_tip: None, enabled: true } },
            ),
            final(self)@.current == (if old(self)@.pages.len() == 0 {
                0
            } else {
                old(self)@.current
            }),
            final(self)@.events == (if old(self)@.pages.len() == 0 {
                old(self)@.events.push(0)
            } else {
                old(self)@.events
            }),
            final(self)@.hovered == old(self)@.hovered,
            final(self).spec_colors() == old(self).spec_colors(),
    {
        proof {
            use_type_invariant(&*self);
        }
        let n = self.pages.len() as i32;
        let at = self.insert_item(n, widget_id, text);
        assert(old(self)@.pages.insert(at as int, PageInfo { widget: widget_id, item: ItemInfo { text: text@, icon: None, tool_tip: None, enabled: true } })
            =~= old(self)@.pages.push(PageInfo { widget: widget_id, item: ItemInfo { text: text@, icon: None, tool_tip: None, enabled: true } }));
        at
    }

    /// Add a page at the end with an icon; returns its index.
    pub fn add_item_with_icon(&mut self, widget_id: u64, icon_path: &str, text: &str) -> (at: i32)
        requires
            old(self)@.pages.len() < i32::MAX - 1,
        ensures
            at == old(self)@.pages.len(),
            final(self)@.pages == old(self)@.pages.push(
                PageInfo {
                    widget: widget_id,
                    item: ItemInfo { text: text@, icon: Some(icon_path@), tool_tip: None, enabled: true },
                },
            ),
            final(self)@.current == (if old(self)@.pages.len() == 0 {
                0
            } else {
                old(self)@.current
            }),
            final(self)@.events == (if old(self)@.pages.len() == 0 {
                old(self)@.events.push(0)
            } else {
                old(self)@.events
            }),
            final(self)@.hovered == old(self)@.hovered,
            final(self).spec_colors() == old(self).spec_colors(),
    {
        let at = self.add_item(widget_id, text);
        self.set_item_icon(at, Some(owned(icon_path)));
        assert(self@.pages =~= old(self)@.pages.push(
            PageInfo {
                widget: widget_id,
                item: ItemInfo { text: text@, icon: Some(icon_path@), tool_tip: None, enabled: true },
            },
        ));
        at
    }

    /// Remove page `index`, returning the widget it showed (`None` for an index that names
    /// no page, which changes nothing). A change of the current index is notified.
    pub fn remove_item(&mut self, index: i32) -> (r: Option<u64>)
        ensures
            0 <= index < old(self)@.pages.len() ==> {
                let c = current_after_removal(old(self)@.current, index as int, old(self)@.pages.len() as int);
                &&& r == Some(old(self)@.pages[index as int].widget)
                &&& final(self)@.pages == old(self)@.pages.remove(index as int)
                &&& final(self)@.current == c
                &&& final(self)@.events == (if c != old(self)@.current {
                    old(self)@.events.push(c as i32)
                } else {
                    old(self)@.events
                })
                &&& final(self)@.hovered == old(self)@.hovered
            },
            !(0 <= index < old(self)@.pages.len()) ==> r is None && final(self)@ == old(self)@,
            final(self).spec_colors() == old(self).spec_colors(),
    {
        proof {
            use_type_invariant(&*self);
        }
        if index < 0 || index as usize >= self.pages.len() {
            return None;
        }
        let whole = self.take();
        proof {
            use_type_invariant(&whole);
        }
        let ToolBox { mut pages, current_index, hovered_header, mut events, colors } = whole;
        let page = pages.remove(index as usize);
        let old_current = current_index;
        let mut current = current_index;
        if pages.len() == 0 {
            current = -1;
        } else if index < current {
            current = current - 1;
        } else if index == current {
            if current > pages.len() as i32 - 1 {
                current = pages.len() as i32 - 1;
            }
        }
        if current != old_current {
            events.push(current);
        }
        *self = ToolBox { pages, current_index: current, hovered_header, events, colors };
        assert(self@.pages =~= old(self)@.pages.remove(index as int));
        Some(page.widget_id)
    }

    /// The number of pages.
    pub fn count(&self) -> (r: i32)
        ensures
            r == self@.pages.len(),
    {
        proof {
            use_type_invariant(self);
        }
        self.pages.len() as i32
    }

    /// Whether there are no pages.
    pub fn is_empty(&self) -> (r: bool)
        ensures
            r == (self@.pages.len() == 0),
    {
        self.pages.len() == 0
    }

    /// The current page's index (-1 when there are no pages).
    pub fn current_index(&self) -> (r: i32)
        ensures
            r == self@.current,
    {
        self.current_index
    }

    /// Make page `index` current; returns whether it changed (only to an enabled page other
    /// than the current one), which is notified.
    pub fn set_current_index(&mut self, index: i32) -> (changed: bool)
        ensures
            (final(self)@, changed) == with_current(old(self)@, index as int),
            final(self).spec_colors() == old(self).spec_colors(),
    {
        proof {
            use_type_invariant(&*self);
        }
        if index < 0 || index as usize >= self.pages.len() {
            return false;
        }
        if !self.pages[index as usize].item.enabled {
            return false;
        }
        if index == self.current_index {
            return false;
        }
        self.current_index = index;
        let mut events: Vec<i32> = Vec::new();
        std::mem::swap(&mut events, &mut self.events);
        events.push(index);
        std::mem::swap(&mut events, &mut self.events);
        true
    }

    /// The widget of the current page, if any.
    pub fn current_widget(&self) -> (r: Option<u64>)
        ensures
            r == (if self@.current >= 0 {
                Some(self@.pages[self@.current].widget)
            } else {
                None::<u64>
            }),
    {
        proof {
            use_type_invariant(self);
        }
        if self.current_index >= 0 {
            Some(self.pages[self.current_index as usize].widget_id)
        } else {
            None
        }
    }

    /// The index of the first page showing `widget_id`, or -1.
    pub fn index_of(&self, widget_id: u64) -> (r: i32)
        ensures
            r == -1 ==> forall|i: int| 0 <= i < self@.pages.len() ==> self@.pages[i].widget != widget_id,
            r != -1 ==> 0 <= r < self@.pages.len() && self@.pages[r as int].widget == widget_id && forall|i: int|
                0 <= i < r ==> self@.pages[i].widget != widget_id,
    {
        proof {
            use_type_invariant(self);
        }
        let mut i: usize = 0;
        while i < self.pages.len()
            invariant
                i <= self.pages@.len() < i32::MAX,
                forall|j: int| 0 <= j < i ==> self@.pages[j].widget != widget_id,
            decreases self.pages@.len() - i,
        {
            if self.pages[i].widget_id == widget_id {
                return i as i32;
            }
            i = i + 1;
        }
        -1
    }

    /// Make the page showing `widget_id` current; returns whether it became current now.
    pub fn set_current_widget(&mut self, widget_id: u64) -> (changed: bool)
        ensures
            ({
                let found = exists|i: int| 0 <= i < old(self)@.pages.len() && old(self)@.pages[i].widget == widget_id;
                &&& !found ==> !changed && final(self)@ == old(self)@
                &&& found ==> exists|i: int|
                    0 <= i < old(self)@.pages.len() && old(self)@.pages[i].widget == widget_id && (forall|j: int|
                        0 <= j < i ==> old(self)@.pages[j].widget != widget_id) && (final(self)@, changed)
                        == with_current(old(self)@, i)
            }),
            final(self).spec_colors() == old(self).spec_colors(),
    {
        let index = self.index_of(widget_id);
        if index >= 0 {
            self.set_current_index(index)
        } else {
            false
        }
    }

    /// The widget of page `index`, if there is such a page.
    pub fn widget(&self, index: i32) -> (r: Option<u64>)
        ensures
            r == (if 0 <= index < self@.pages.len() {
                Some(self@.pages[index as int].widget)
            } else {
                None::<u64>
            }),
    {
        if index < 0 || index as usize >= self.pages.len() {
            None
        } else {
            Some(self.pages[index as usize].widget_id)
        }
    }

    /// The header text of page `index`, if there is such a page.
    pub fn item_text(&self, index: i32) -> (r: Option<&str>)
        ensures
            match r {
                Some(t) => 0 <= index < self@.pages.len() && t@ == self@.pages[index as int].item.text,
                None => !(0 <= index < self@.pages.len()),
            },
    {
        if index < 0 || index as usize >= self.pages.len() {
            None
        } else {
            Some(self.pages[index as usize].item.text.as_str())
        }
    }

    /// The icon path of page `index`, if the page exists and has one.
    pub fn item_icon(&self, index: i32) -> (r: Option<&str>)
        ensures
            match r {
                Some(t) => 0 <= index < self@.pages.len() && self@.pages[index as int].item.icon == Some(t@),
                None => !(0 <= index < self@.pages.len()) || self@.pages[index as int].item.icon is None,
            },
    {
        if index < 0 || index as usize >= self.pages.len() {
            None
        } else {
            match &self.pages[index as usize].item.icon_path {
                Some(t) => Some(t.as_str()),
                None => None,
            }
        }
    }

    /// The tooltip of page `index`, if the page exists and has one.
    pub fn item_tool_tip(&self, index: i32) -> (r: Option<&str>)
        ensures
            match r {
                Some(t) => 0 <= index < self@.pages.len() && self@.pages[index as int].item.tool_tip == Some(t@),
                None => !(0 <= index < self@.pages.len()) || self@.pages[index as int].item.tool_tip is None,
            },
    {
        if index < 0 || index as usize >= self.pages.len() {
            None
        } else {
            match &self.pages[index as usize].item.tool_tip {
                Some(t) => Some(t.as_str()),
                None => None,
            }
        }
    }

    /// Whether page `index` is enabled (false when there is no such page).
    pub fn is_item_enabled(&self, index: i32) -> (r: bool)
        ensures
            r == (0 <= index < self@.pages.len() && self@.pages[index as int].item.enabled),
    {
        if index < 0 || index as usize >= self.pages.len() {
            false
        } else {
            self.pages[index as usize].item.enabled
        }
    }

    fn replace_item(&mut self, i: usize, item: ToolBoxItem)
        requires
            i < old(self)@.pages.len(),
        ensures
            final(self)@ == (ToolBoxState {
                pages: old(self)@.pages.update(i as int, PageInfo { widget: old(self)@.pages[i as int].widget, item: item@ }),
                ..old(self)@
            }),
            final(self).spec_colors() == old(self).spec_colors(),
    {
        proof {
            use_type_invariant(&*self);
        }
        let whole = self.take();
        proof {
            use_type_invariant(&whole);
        }
        let ToolBox { mut pages, current_index, hovered_header, events, colors } = whole;
        let widget_id = pages[i].widget_id;
        pages.set(i, ToolBoxPage { widget_id, item });
        *self = ToolBox { pages, current_index, hovered_header, events, colors };
        assert(self@.pages =~= old(self)@.pages.update(
            i as int,
            PageInfo { widget: old(self)@.pages[i as int].widget, item: item@ },
        ));
    }

    /// Set the header text of page `index` (nothing for an index that names no page).
    pub fn set_item_text(&mut self, index: i32, text: &str)
        ensures
            final(self)@ == (if 0 <= index < old(self)@.pages.len() {
                ToolBoxState {
                    pages: old(self)@.pages.update(
                        index as int,
                        PageInfo {
                            widget: old(self)@.pages[index as int].widget,
                            item: ItemInfo { text: text@, ..old(self)@.pages[index as int].item },
                        },
                    ),
                    ..old(self)@
                }
            } else {
                old(self)@
            }),
            final(self).spec_colors() == old(self).spec_colors(),
    {
        if index < 0 || index as usize >= self.pages.len() {
            return;
        }
        let i = index as usize;
        let old_item = &self.pages[i].item;
        let item = ToolBoxItem {
            text: owned(text),
            icon_path: old_item.icon_path.clone(),
            tool_tip: old_item.tool_tip.clone(),
            enabled: old_item.enabled,
        };
        self.replace_item(i, item);
    }

    /// Set or clear the icon path of page `index` (nothing for an index that names no page).
    pub fn set_item_icon(&mut self, index: i32, icon_path: Option<String>)
        ensures
            final(self)@ == (if 0 <= index < old(self)@.pages.len() {
                ToolBoxState {
                    pages: old(self)@.pages.update(
                        index as int,
                        PageInfo {
                            widget: old(self)@.pages[index as int].widget,
                            item: ItemInfo { icon: opt_text(icon_path), ..old(self)@.pages[index as int].item },
                        },
                    ),
                    ..old(self)@
                }
            } else {
                old(self)@
            }),
            final(self).spec_colors() == old(self).spec_colors(),
    {
        if index < 0 || index as usize >= self.pages.len() {
            return;
        }
        let i = index as usize;
        let old_item = &self.pages[i].item;
        let item = ToolBoxItem {
            text: old_item.text.clone(),
            icon_path,
            tool_tip: old_item.tool_tip.clone(),
            enabled: old_item.enabled,
        };
        self.replace_item(i, item);
    }

    /// Enable or disable page `index` (nothing for an index that names no page).
    pub fn set_item_enabled(&mut self, index: i32, enabled: bool)
        ensures
            final(self)@ == (if 0 <= index < old(self)@.pages.len() {
                ToolBoxState {
                    pages: old(self)@.pages.update(
                        index as int,
                        PageInfo {
                            widget: old(self)@.pages[index as int].widget,
                            item: ItemInfo { enabled: enabled, ..old(self)@.pages[index as int].item },
                        },
                    ),
                    ..old(self)@
                }
            } else {
                old(self)@
            }),
            final(self).spec_colors() == old(self).spec_colors(),
    {
        if index < 0 || index as usize >= self.pages.len() {
            return;
        }
        let i = index as usize;
        let old_item = &self.pages[i].item;
        let item = ToolBoxItem {
            text: old_item.text.clone(),
            icon_path: old_item.icon_path.clone(),
            tool_tip: old_item.tool_tip.clone(),
            enabled,
        };
        self.replace_item(i, item);
    }

    /// Set or clear the tooltip of page `index` (nothing for an index that names no page).
    pub fn set_item_tool_tip(&mut self, index: i32, tool_tip: Option<String>)
        ensures
            final(self)@ == (if 0 <= index < old(self)@.pages.len() {
                ToolBoxState {
                    pages: old(self)@.pages.update(
                        index as int,
                        PageInfo {
                            widget: old(self)@.pages[index as int].widget,
                            item: ItemInfo { tool_tip: opt_text(tool_tip), ..old(self)@.pages[index as int].item },
                        },
                    ),
                    ..old(self)@
                }
            } else {
                old(self)@
            }),
            final(self).spec_colors() == old(self).spec_colors(),
    {
        if index < 0 || index as usize >= self.pages.len() {
            return;
        }
        let i = index as usize;
        let old_item = &self.pages[i].item;
        let item = ToolBoxItem {
            text: old_item.text.clone(),
            icon_path: old_item.icon_path.clone(),
            tool_tip,
            enabled: old_item.enabled,
        };
        self.replace_item(i, item);
    }

    /// The first enabled page stepping from `from` around the pages (forward or backward),
    /// trying each page once; `None` when none is enabled.
    pub fn find_enabled_index(&self, from: i32, forward: bool) -> (r: Option<i32>)
        requires
            -1 <= from,
        ensures
            match r {
                Some(i) => cyclic_search(self@.pages, from as int, forward, 1) == Some(i as int),
                None => cyclic_search(self@.pages, from as int, forward, 1) is None,
            },
    {
        proof {
            use_type_invariant(self);
        }
        let count = self.pages.len() as i64;
        if count == 0 {
            return None;
        }
        let ghost pages = self@.pages;
        let mut k: i64 = 1;
        while k <= count
            invariant
                1 <= k <= count + 1,
                count == pages.len(),
                pages == self@.pages,
                0 < count < i32::MAX,
                -1 <= from,
                cyclic_search(pages, from as int, forward, 1) == cyclic_search(pages, from as int, forward, k as int),
            decreases count + 1 - k,
        {
            let idx: i64 = if forward {
                (from as i64 + k) % count
            } else {
                (from as i64 - k + 2 * count) % count
            };
            proof {
                if !forward {
                    let t = from as int - k as int;
                    vstd::arithmetic::div_mod::lemma_mod_add_multiples_vanish(t + count, count as int);
                    vstd::arithmetic::div_mod::lemma_mod_add_multiples_vanish(t, count as int);
                }
                assert(idx == cyclic(from as int, k as int, forward, count as int));
            }
            if self.pages[idx as usize].item.enabled {
                return Some(idx as i32);
            }
            k = k + 1;
        }
        None
    }

    /// Handle a key (with focus): Up and Down step to the previous or next enabled page
    /// around the pages, Home and End to the first or last enabled page; consumed when such a
    /// page exists.
    pub fn handle_key(&mut self, key: ToolBoxKey) -> (consumed: bool)
        ensures
            ({
                let target = match key {
                    ToolBoxKey::ArrowUp => cyclic_search(old(self)@.pages, old(self)@.current, false, 1),
                    ToolBoxKey::ArrowDown => cyclic_search(old(self)@.pages, old(self)@.current, true, 1),
                    ToolBoxKey::Home => cyclic_search(old(self)@.pages, -1, true, 1),
                    ToolBoxKey::End => cyclic_search(old(self)@.pages, 0, false, 1),
                    ToolBoxKey::Other => None,
                };
                &&& consumed == target is Some
                &&& final(self)@ == match target {
                    Some(t) => with_current(old(self)@, t).0,
                    None => old(self)@,
                }
            }),
            final(self).spec_colors() == old(self).spec_colors(),
    {
        proof {
            use_type_invariant(&*self);
        }
        let target = match key {
            ToolBoxKey::ArrowUp => self.find_enabled_index(self.current_index, false),
            ToolBoxKey::ArrowDown => self.find_enabled_index(self.current_index, true),
            ToolBoxKey::Home => self.find_enabled_index(-1, true),
            ToolBoxKey::End => self.find_enabled_index(0, false),
            ToolBoxKey::Other => None,
        };
        match target {
            Some(t) => {
                self.set_current_index(t);
                true
            },
            None => false,
        }
    }

    /// Handle a press of the primary button on the header of page `header` (-1: no header):
    /// the page becomes current; consumed when it changed.
    pub fn handle_press(&mut self, header: i32) -> (consumed: bool)
        ensures
            (final(self)@, consumed) == (if header >= 0 {
                with_current(old(self)@, header as int)
            } else {
                (old(self)@, false)
            }),
            final(self).spec_colors() == old(self).spec_colors(),
    {
        if header >= 0 {
            self.set_current_index(header)
        } else {
            false
        }
    }

    /// Record the header under the pointer (-1: none); not consumed.
    pub fn handle_move(&mut self, header: i32) -> (consumed: bool)
        ensures
            !consumed,
            final(self)@ == (ToolBoxState { hovered: header as int, ..old(self)@ }),
            final(self).spec_colors() == old(self).spec_colors(),
    {
        proof {
            use_type_invariant(&*self);
        }
        self.hovered_header = header;
        false
    }
}

} // verus!
