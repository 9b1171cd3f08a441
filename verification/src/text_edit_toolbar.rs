//! The text editor's formatting toolbar: checkable actions for character formats and
//! paragraph alignment kept in step with the editor, colors with a list of recent ones, and
//! the font family chosen.

use vstd::prelude::*;

use crate::action::{Action, ActionState};
use crate::char_format::{Color, HorizontalAlign};
use crate::tool_bar::{ToolBar, ToolBarItem};
use crate::utf8_text::owned;

verus! {

/// The ids of the toolbar's own actions.
pub const BOLD_ACTION: u64 = 1;
pub const ITALIC_ACTION: u64 = 2;
pub const UNDERLINE_ACTION: u64 = 3;
pub const STRIKETHROUGH_ACTION: u64 = 4;
pub const ALIGN_LEFT_ACTION: u64 = 5;
pub const ALIGN_CENTER_ACTION: u64 = 6;
pub const ALIGN_RIGHT_ACTION: u64 = 7;
pub const ALIGN_JUSTIFY_ACTION: u64 = 8;
pub const BULLET_LIST_ACTION: u64 = 9;
pub const NUMBERED_LIST_ACTION: u64 = 10;
pub const INDENT_INCREASE_ACTION: u64 = 11;
pub const INDENT_DECREASE_ACTION: u64 = 12;

/// Object id of the font family chooser shown in the toolbar.
pub const FONT_FAMILY_WIDGET: u64 = 101;
/// Object id of the font size chooser shown in the toolbar.
pub const FONT_SIZE_WIDGET: u64 = 102;
/// Object id of the text color button shown in the toolbar.
pub const FOREGROUND_COLOR_WIDGET: u64 = 103;
/// Object id of the background color button shown in the toolbar.
pub const BACKGROUND_COLOR_WIDGET: u64 = 104;

/// The most recent colors kept.
pub const MAX_RECENT_COLORS: usize = 16;

/// A checkable, unchecked action with a label, an optional shortcut and a tooltip.
pub open spec fn checkable_action(id: u64, text: Seq<char>, shortcut: Option<Seq<char>>, tooltip: Seq<char>, checked: bool) -> ActionState {
    ActionState {
        id: id,
        text: text,
        shortcut: shortcut,
        tooltip: Some(tooltip),
        enabled: true,
        checkable: true,
        checked: checked,
    }
}

/// Actions for character-level formatting (bold, italic, underline, strikethrough).
pub struct FormatActions {
    /// Bold formatting action (Ctrl+B).
    pub bold: Action,
    /// Italic formatting action (Ctrl+I).
    pub italic: Action,
    /// Underline formatting action (Ctrl+U).
    pub underline: Action,
    /// Strikethrough formatting action.
    pub strikethrough: Action,
}

impl FormatActions {
    /// Checkable, unchecked actions for bold (Ctrl+B), italic (Ctrl+I), underline (Ctrl+U)
    /// and strikethrough (no shortcut).
    pub fn new() -> (r: Self)
        ensures
            r.bold@ == checkable_action(BOLD_ACTION, "&Bold"@, Some("Ctrl+B"@), "Bold (Ctrl+B)"@, false),
            r.italic@ == checkable_action(ITALIC_ACTION, "&Italic"@, Some("Ctrl+I"@), "Italic (Ctrl+I)"@, false),
            r.underline@ == checkable_action(
                UNDERLINE_ACTION,
                "&Underline"@,
                Some("Ctrl+U"@),
                "Underline (Ctrl+U)"@,
                false,
            ),
            r.strikethrough@ == checkable_action(STRIKETHROUGH_ACTION, "&Strikethrough"@, None, "Strikethrough"@, false),
    {
        let bold = Action::new(BOLD_ACTION, "&Bold").with_checkable(true).with_shortcut_str("Ctrl+B").with_tooltip(
            "Bold (Ctrl+B)",
        );
        let italic = Action::new(ITALIC_ACTION, "&Italic").with_checkable(true).with_shortcut_str(
            "Ctrl+I",
        ).with_tooltip("Italic (Ctrl+I)");
        let underline = Action::new(UNDERLINE_ACTION, "&Underline").with_checkable(true).with_shortcut_str(
            "Ctrl+U",
        ).with_tooltip("Underline (Ctrl+U)");
        let strikethrough = Action::new(STRIKETHROUGH_ACTION, "&Strikethrough").with_checkable(true).with_tooltip(
            "Strikethrough",
        );
        FormatActions { bold, italic, underline, strikethrough }
    }

    /// Add the four actions to a toolbar, in order.
    pub fn add_to_toolbar(&self, toolbar: &mut ToolBar)
        ensures
            final(toolbar).spec_items() == old(toolbar).spec_items() + seq![
                ToolBarItem::Action(self.bold@.id),
                ToolBarItem::Action(self.italic@.id),
                ToolBarItem::Action(self.underline@.id),
                ToolBarItem::Action(self.strikethrough@.id),
            ],
            final(toolbar).same_settings(old(toolbar)),
    {
        toolbar.add_action(self.bold.id());
        toolbar.add_action(self.italic.id());
        toolbar.add_action(self.underline.id());
        toolbar.add_action(self.strikethrough.id());
        assert(toolbar.spec_items() =~= old(toolbar).spec_items() + seq![
            ToolBarItem::Action(self.bold@.id),
            ToolBarItem::Action(self.italic@.id),
            ToolBarItem::Action(self.underline@.id),
            ToolBarItem::Action(self.strikethrough@.id),
        ]);
    }

    /// Bring the actions' checked states in step with the editor's current format.
    pub fn sync_format(&mut self, bold: bool, italic: bool, underline: bool, strikethrough: bool)
        ensures
            final(self).bold@ == (ActionState { checked: old(self).bold@.checkable && bold, ..old(self).bold@ }),
            final(self).italic@ == (ActionState { checked: old(self).italic@.checkable && italic, ..old(self).italic@ }),
            final(self).underline@ == (ActionState {
                checked: old(self).underline@.checkable && underline,
                ..old(self).underline@
            }),
            final(self).strikethrough@ == (ActionState {
                checked: old(self).strikethrough@.checkable && strikethrough,
                ..old(self).strikethrough@
            }),
    {
        self.bold.set_checked(bold);
        self.italic.set_checked(italic);
        self.underline.set_checked(underline);
        self.strikethrough.set_checked(strikethrough);
    }
}

impl Default for FormatActions {
    fn default() -> (r: Self)
        ensures
            r.bold@ == checkable_action(BOLD_ACTION, "&Bold"@, Some("Ctrl+B"@), "Bold (Ctrl+B)"@, false),
            r.italic@ == checkable_action(ITALIC_ACTION, "&Italic"@, Some("Ctrl+I"@), "Italic (Ctrl+I)"@, false),
            r.underline@ == checkable_action(
                UNDERLINE_ACTION,
                "&Underline"@,
                Some("Ctrl+U"@),
                "Underline (Ctrl+U)"@,
                false,
            ),
            r.strikethrough@ == checkable_action(STRIKETHROUGH_ACTION, "&Strikethrough"@, None, "Strikethrough"@, false),
    {
        Self::new()
    }
}

/// Actions for paragraph-level formatting (alignment, lists, indentation). The alignment
/// actions form an exclusive group: one of them is checked.
pub struct ParagraphActions {
    /// Align left action.
    pub align_left: Action,
    /// Align center action.
    pub align_center: Action,
    /// Align right action.
    pub align_right: Action,
    /// Justify action.
    pub align_justify: Action,
    /// Toggle bullet list action.
    pub bullet_list: Action,
    /// Toggle numbered list action.
    pub numbered_list: Action,
    /// Increase indentation action.
    pub indent_increase: Action,
    /// Decrease indentation action.
    pub indent_decrease: Action,
}

/// A plain (not checkable) action with a label, a shortcut and a tooltip.
pub open spec fn plain_action(id: u64, text: Seq<char>, shortcut: Seq<char>, tooltip: Seq<char>) -> ActionState {
    ActionState {
        id: id,
        text: text,
        shortcut: Some(shortcut),
        tooltip: Some(tooltip),
        enabled: true,
        checkable: false,
        checked: false,
    }
}

impl ParagraphActions {
    /// The alignment actions (left checked), the list toggles and the indent commands.
    pub fn new() -> (r: Self)
        ensures
            r.align_left@ == checkable_action(ALIGN_LEFT_ACTION, "Align &Left"@, Some("Ctrl+L"@), "Align Left (Ctrl+L)"@, true),
            r.align_center@ == checkable_action(
                ALIGN_CENTER_ACTION,
                "Align &Center"@,
                Some("Ctrl+E"@),
                "Align Center (Ctrl+E)"@,
                false,
            ),
            r.align_right@ == checkable_action(
                ALIGN_RIGHT_ACTION,
                "Align &Right"@,
                Some("Ctrl+R"@),
                "Align Right (Ctrl+R)"@,
                false,
            ),
            r.align_justify@ == checkable_action(ALIGN_JUSTIFY_ACTION, "&Justify"@, Some("Ctrl+J"@), "Justify (Ctrl+J)"@, false),
            r.bullet_list@ == checkable_action(BULLET_LIST_ACTION, "&Bullet List"@, None, "Bullet List"@, false),
            r.numbered_list@ == checkable_action(NUMBERED_LIST_ACTION, "&Numbered List"@, None, "Numbered List"@, false),
            r.indent_increase@ == plain_action(
                INDENT_INCREASE_ACTION,
                "&Increase Indent"@,
                "Ctrl+]"@,
                "Increase Indent (Ctrl+])"@,
            ),
            r.indent_decrease@ == plain_action(
                INDENT_DECREASE_ACTION,
                "&Decrease Indent"@,
                "Ctrl+["@,
                "Decrease Indent (Ctrl+[)"@,
            ),
    {
        let align_left = Action::new(ALIGN_LEFT_ACTION, "Align &Left").with_checkable(true).with_checked(true).with_shortcut_str(
            "Ctrl+L",
        ).with_tooltip("Align Left (Ctrl+L)");
        let align_center = Action::new(ALIGN_CENTER_ACTION, "Align &Center").with_checkable(true).with_shortcut_str(
            "Ctrl+E",
        ).with_tooltip("Align Center (Ctrl+E)");
        let align_right = Action::new(ALIGN_RIGHT_ACTION, "Align &Right").with_checkable(true).with_shortcut_str(
            "Ctrl+R",
        ).with_tooltip("Align Right (Ctrl+R)");
        let align_justify = Action::new(ALIGN_JUSTIFY_ACTION, "&Justify").with_checkable(true).with_shortcut_str(
            "Ctrl+J",
        ).with_tooltip("Justify (Ctrl+J)");
        let bullet_list = Action::new(BULLET_LIST_ACTION, "&Bullet List").with_checkable(true).with_tooltip(
            "Bullet List",
        );
        let numbered_list = Action::new(NUMBERED_LIST_ACTION, "&Numbered List").with_checkable(true).with_tooltip(
            "Numbered List",
        );
        let indent_increase = Action::new(INDENT_INCREASE_ACTION, "&Increase Indent").with_shortcut_str(
            "Ctrl+]",
        ).with_tooltip("Increase Indent (Ctrl+])");
        let indent_decrease = Action::new(INDENT_DECREASE_ACTION, "&Decrease Indent").with_shortcut_str(
            "Ctrl+[",
        ).with_tooltip("Decrease Indent (Ctrl+[)");
        ParagraphActions {
            align_left,
            align_center,
            align_right,
            align_justify,
            bullet_list,
            numbered_list,
            indent_increase,
            indent_decrease,
        }
    }

    /// Add the actions to a toolbar: the alignments, a separator, the lists, a separator and
    /// the indent commands.
    pub fn add_to_toolbar(&self, toolbar: &mut ToolBar)
        ensures
            final(toolbar).spec_items() == old(toolbar).spec_items() + seq![
                ToolBarItem::Action(self.align_left@.id),
                ToolBarItem::Action(self.align_center@.id),
                ToolBarItem::Action(self.align_right@.id),
                ToolBarItem::Action(self.align_justify@.id),
                ToolBarItem::Separator,
                ToolBarItem::Action(self.bullet_list@.id),
                ToolBarItem::Action(self.numbered_list@.id),
                ToolBarItem::Separator,
                ToolBarItem::Action(self.indent_increase@.id),
                ToolBarItem::Action(self.indent_decrease@.id),
            ],
            final(toolbar).same_settings(old(toolbar)),
    {
        toolbar.add_action(self.align_left.id());
        toolbar.add_action(self.align_center.id());
        toolbar.add_action(self.align_right.id());
        toolbar.add_action(self.align_justify.id());
        toolbar.add_separator();
        toolbar.add_action(self.bullet_list.id());
        toolbar.add_action(self.numbered_list.id());
        toolbar.add_separator();
        toolbar.add_action(self.indent_increase.id());
        toolbar.add_action(self.indent_decrease.id());
        assert(toolbar.spec_items() =~= old(toolbar).spec_items() + seq![
            ToolBarItem::Action(self.align_left@.id),
            ToolBarItem::Action(self.align_center@.id),
            ToolBarItem::Action(self.align_right@.id),
            ToolBarItem::Action(self.align_justify@.id),
            ToolBarItem::Separator,
            ToolBarItem::Action(self.bullet_list@.id),
            ToolBarItem::Action(self.numbered_list@.id),
            ToolBarItem::Separator,
            ToolBarItem::Action(self.indent_increase@.id),
            ToolBarItem::Action(self.indent_decrease@.id),
        ]);
    }

    /// Bring the alignment actions in step with the editor's alignment: the matching one is
    /// checked and, the group being exclusive, the others unchecked (checkable ones only).
    pub fn sync_alignment(&mut self, alignment: HorizontalAlign)
        ensures
            final(self).align_left@ == (ActionState {
                checked: old(self).align_left@.checkable && alignment == HorizontalAlign::Left,
                ..old(self).align_left@
            }),
            final(self).align_center@ == (ActionState {
                checked: old(self).align_center@.checkable && alignment == HorizontalAlign::Center,
                ..old(self).align_center@
            }),
            final(self).align_right@ == (ActionState {
                checked: old(self).align_right@.checkable && alignment == HorizontalAlign::Right,
                ..old(self).align_right@
            }),
            final(self).align_justify@ == (ActionState {
                checked: old(self).align_justify@.checkable && alignment == HorizontalAlign::Justified,
                ..old(self).align_justify@
            }),
    {
        self.align_left.set_checked(alignment == HorizontalAlign::Left);
        self.align_center.set_checked(alignment == HorizontalAlign::Center);
        self.align_right.set_checked(alignment == HorizontalAlign::Right);
        self.align_justify.set_checked(alignment == HorizontalAlign::Justified);
    }
}

/// Whether a color differs from `color`.
pub open spec fn other_than(color: Color) -> spec_fn(Color) -> bool {
    |c: Color| c != color
}

/// `colors` with `color` moved (or added) to the front and no more than the most recent
/// colors kept.
pub open spec fn with_recent(colors: Seq<Color>, color: Color) -> Seq<Color> {
    let moved = seq![color] + colors.filter(other_than(color));
    if moved.len() > MAX_RECENT_COLORS {
        moved.take(MAX_RECENT_COLORS as int)
    } else {
        moved
    }
}

/// Foreground and background colors, with the colors used recently (most recent first).
pub struct ColorWidgets {
    foreground: Color,
    background: Color,
    recent_colors: Vec<Color>,
    /// Whether the color buttons offer the recent colors in a dropdown.
    dropdown: bool,
}

impl ColorWidgets {
    pub closed spec fn spec_foreground(&self) -> Color {
        self.foreground
    }

    pub closed spec fn spec_background(&self) -> Color {
        self.background
    }

    pub closed spec fn spec_recent(&self) -> Seq<Color> {
        self.recent_colors@
    }

    /// Whether the color buttons offer the recent colors in a dropdown.
    pub closed spec fn spec_dropdown(&self) -> bool {
        self.dropdown
    }

    /// Black text on a transparent background, no recent colors; the buttons offer the
    /// recent colors in a dropdown.
    pub fn new() -> (r: Self)
        ensures
            r.spec_foreground() == (Color { r: 0, g: 0, b: 0, a: 255 }),
            r.spec_background() == (Color { r: 0, g: 0, b: 0, a: 0 }),
            r.spec_recent() == Seq::<Color>::empty(),
            r.spec_dropdown(),
    {
        ColorWidgets {
            foreground: Color::BLACK(),
            background: Color::TRANSPARENT(),
            recent_colors: Vec::new(),
            dropdown: true,
        }
    }

    /// Black text on a transparent background, no recent colors, and no dropdown of them.
    pub fn new_simple() -> (r: Self)
        ensures
            r.spec_foreground() == (Color { r: 0, g: 0, b: 0, a: 255 }),
            r.spec_background() == (Color { r: 0, g: 0, b: 0, a: 0 }),
            r.spec_recent() == Seq::<Color>::empty(),
            !r.spec_dropdown(),
    {
        ColorWidgets {
            foreground: Color::BLACK(),
            background: Color::TRANSPARENT(),
            recent_colors: Vec::new(),
            dropdown: false,
        }
    }

    /// Whether the color buttons offer the recent colors in a dropdown.
    pub fn has_dropdown(&self) -> (r: bool)
        ensures
            r == self.spec_dropdown(),
    {
        self.dropdown
    }

    /// Set the foreground color shown.
    pub fn set_foreground_color(&mut self, color: Color)
        ensures
            final(self).spec_foreground() == color,
            final(self).spec_background() == old(self).spec_background(),
            final(self).spec_recent() == old(self).spec_recent(),
            final(self).spec_dropdown() == old(self).spec_dropdown(),
    {
        self.foreground = color;
    }

    /// Set the background color shown.
    pub fn set_background_color(&mut self, color: Color)
        ensures
            final(self).spec_background() == color,
            final(self).spec_foreground() == old(self).spec_foreground(),
            final(self).spec_recent() == old(self).spec_recent(),
            final(self).spec_dropdown() == old(self).spec_dropdown(),
    {
        self.background = color;
    }

    /// The foreground color.
    pub fn foreground_color(&self) -> (r: Color)
        ensures
            r == self.spec_foreground(),
    {
        self.foreground
    }

    /// The background color.
    pub fn background_color(&self) -> (r: Color)
        ensures
            r == self.spec_background(),
    {
        self.background
    }

    /// The recent colors, most recent first.
    pub fn recent_colors(&self) -> (r: &[Color])
        ensures
            r@ == self.spec_recent(),
    {
        self.recent_colors.as_slice()
    }

    /// Put `color` at the front of the recent colors (moving it if there), keeping at most
    /// the sixteen most recent.
    pub fn add_recent_color(&mut self, color: Color)
        ensures
            final(self).spec_recent() == with_recent(old(self).spec_recent(), color),
            final(self).spec_foreground() == old(self).spec_foreground(),
            final(self).spec_background() == old(self).spec_background(),
            final(self).spec_dropdown() == old(self).spec_dropdown(),
    {
        let ghost old_colors = self.recent_colors@;
        let mut kept: Vec<Color> = Vec::new();
        kept.push(color);
        let mut i: usize = 0;
        while i < self.recent_colors.len()
            invariant
                i <= self.recent_colors@.len(),
                self.recent_colors@ == old_colors,
                kept@ == seq![color] + old_colors.take(i as int).filter(other_than(color)),
            decreases self.recent_colors@.len() - i,
        {
            let c = self.recent_colors[i];
            proof {
                assert(old_colors.take(i + 1) =~= old_colors.take(i as int).push(c));
                old_colors.take(i as int).lemma_filter_push(c, other_than(color));
            }
            if c != color {
                kept.push(c);
            }
            i = i + 1;
        }
        assert(old_colors.take(i as int) =~= old_colors);
        let ghost moved = kept@;
        assert(moved == seq![color] + old_colors.filter(other_than(color)));
        if kept.len() > MAX_RECENT_COLORS {
            kept.truncate(MAX_RECENT_COLORS);
            assert(kept@ =~= moved.take(MAX_RECENT_COLORS as int));
        }
        self.recent_colors = kept;
    }

    /// Replace the recent colors, keeping at most the first sixteen.
    pub fn set_recent_colors(&mut self, colors: Vec<Color>)
        ensures
            final(self).spec_recent() == (if colors@.len() > MAX_RECENT_COLORS {
                colors@.take(MAX_RECENT_COLORS as int)
            } else {
                colors@
            }),
            final(self).spec_foreground() == old(self).spec_foreground(),
            final(self).spec_background() == old(self).spec_background(),
            final(self).spec_dropdown() == old(self).spec_dropdown(),
    {
        let mut colors = colors;
        if colors.len() > MAX_RECENT_COLORS {
            colors.truncate(MAX_RECENT_COLORS);
        }
        self.recent_colors = colors;
    }

    /// Forget the recent colors.
    pub fn clear_recent_colors(&mut self)
        ensures
            final(self).spec_recent() == Seq::<Color>::empty(),
            final(self).spec_foreground() == old(self).spec_foreground(),
            final(self).spec_background() == old(self).spec_background(),
            final(self).spec_dropdown() == old(self).spec_dropdown(),
    {
        self.recent_colors = Vec::new();
    }
}

/// The font family chosen for the text.
pub struct FontWidgets {
    font_family: Option<String>,
}

impl FontWidgets {
    pub closed spec fn spec_family(&self) -> Option<Seq<char>> {
        match self.font_family {
            Some(s) => Some(s@),
            None => None,
        }
    }

    /// No family chosen yet.
    pub fn new() -> (r: Self)
        ensures
            r.spec_family() is None,
    {
        FontWidgets { font_family: None }
    }

    /// Choose the font family.
    pub fn set_font_family(&mut self, family: &str)
        ensures
            final(self).spec_family() == Some(family@),
    {
        self.font_family = Some(owned(family));
    }

    /// The font family chosen, if any.
    pub fn current_font_family(&self) -> (r: Option<String>)
        ensures
            match r {
                Some(s) => self.spec_family() == Some(s@),
                None => self.spec_family() is None,
            },
    {
        match &self.font_family {
            Some(s) => Some(s.clone()),
            None => None,
        }
    }
}

/// The character format actions as `FormatActions::new` makes them.
pub open spec fn initial_format_actions(a: FormatActions) -> bool {
    &&& a.bold@ == checkable_action(BOLD_ACTION, "&Bold"@, Some("Ctrl+B"@), "Bold (Ctrl+B)"@, false)
    &&& a.italic@ == checkable_action(ITALIC_ACTION, "&Italic"@, Some("Ctrl+I"@), "Italic (Ctrl+I)"@, false)
    &&& a.underline@ == checkable_action(UNDERLINE_ACTION, "&Underline"@, Some("Ctrl+U"@), "Underline (Ctrl+U)"@, false)
    &&& a.strikethrough@ == checkable_action(STRIKETHROUGH_ACTION, "&Strikethrough"@, None, "Strikethrough"@, false)
}

/// The paragraph format actions as `ParagraphActions::new` makes them: left alignment
/// checked, every other action unchecked.
pub open spec fn initial_paragraph_actions(a: ParagraphActions) -> bool {
    &&& a.align_left@ == checkable_action(ALIGN_LEFT_ACTION, "Align &Left"@, Some("Ctrl+L"@), "Align Left (Ctrl+L)"@, true)
    &&& a.align_center@ == checkable_action(ALIGN_CENTER_ACTION, "Align &Center"@, Some("Ctrl+E"@), "Align Center (Ctrl+E)"@, false)
    &&& a.align_right@ == checkable_action(ALIGN_RIGHT_ACTION, "Align &Right"@, Some("Ctrl+R"@), "Align Right (Ctrl+R)"@, false)
    &&& a.align_justify@ == checkable_action(ALIGN_JUSTIFY_ACTION, "&Justify"@, Some("Ctrl+J"@), "Justify (Ctrl+J)"@, false)
    &&& a.bullet_list@ == checkable_action(BULLET_LIST_ACTION, "&Bullet List"@, None, "Bullet List"@, false)
    &&& a.numbered_list@ == checkable_action(NUMBERED_LIST_ACTION, "&Numbered List"@, None, "Numbered List"@, false)
    &&& a.indent_increase@ == plain_action(INDENT_INCREASE_ACTION, "&Increase Indent"@, "Ctrl+]"@, "Increase Indent (Ctrl+])"@)
    &&& a.indent_decrease@ == plain_action(INDENT_DECREASE_ACTION, "&Decrease Indent"@, "Ctrl+["@, "Decrease Indent (Ctrl+[)"@)
}

/// The formatting toolbar: character and paragraph actions, colors and font.
pub struct TextEditToolbar {
    /// Character format actions (bold, italic, underline, strikethrough).
    pub format_actions: FormatActions,
    /// Paragraph format actions (alignment, lists, indent).
    pub paragraph_actions: ParagraphActions,
    /// Color selection.
    pub color_widgets: ColorWidgets,
    /// Font selection.
    pub font_widgets: FontWidgets,
}

impl TextEditToolbar {
    /// All the controls in their initial state.
    pub fn new() -> (r: Self)
        ensures
            r.format_actions.bold@ == checkable_action(BOLD_ACTION, "&Bold"@, Some("Ctrl+B"@), "Bold (Ctrl+B)"@, false),
            r.paragraph_actions.align_left@ == checkable_action(
                ALIGN_LEFT_ACTION,
                "Align &Left"@,
                Some("Ctrl+L"@),
                "Align Left (Ctrl+L)"@,
                true,
            ),
            r.color_widgets.spec_recent() == Seq::<Color>::empty(),
            r.font_widgets.spec_family() is None,
            initial_format_actions(r.format_actions),
            initial_paragraph_actions(r.paragraph_actions),
            r.color_widgets.spec_foreground() == (Color { r: 0, g: 0, b: 0, a: 255 }),
            r.color_widgets.spec_background() == (Color { r: 0, g: 0, b: 0, a: 0 }),
            r.color_widgets.spec_dropdown(),
    {
        TextEditToolbar {
            format_actions: FormatActions::new(),
            paragraph_actions: ParagraphActions::new(),
            color_widgets: ColorWidgets::new(),
            font_widgets: FontWidgets::new(),
        }
    }

    /// The character format actions.
    pub fn format_actions(&self) -> (r: &FormatActions)
        ensures
            *r == self.format_actions,
    {
        &self.format_actions
    }

    /// The paragraph format actions.
    pub fn paragraph_actions(&self) -> (r: &ParagraphActions)
        ensures
            *r == self.paragraph_actions,
    {
        &self.paragraph_actions
    }

    /// The color controls.
    pub fn color_widgets(&self) -> (r: &ColorWidgets)
        ensures
            *r == self.color_widgets,
    {
        &self.color_widgets
    }

    /// The color controls, to change.
    pub fn color_widgets_mut(&mut self) -> (r: &mut ColorWidgets)
        ensures
            *r == old(self).color_widgets,
            *final(self) == (TextEditToolbar { color_widgets: *final(r), ..*old(self) }),
    {
        &mut self.color_widgets
    }

    /// The font controls.
    pub fn font_widgets(&self) -> (r: &FontWidgets)
        ensures
            *r == self.font_widgets,
    {
        &self.font_widgets
    }

    /// The font controls, to change.
    pub fn font_widgets_mut(&mut self) -> (r: &mut FontWidgets)
        ensures
            *r == old(self).font_widgets,
            *final(self) == (TextEditToolbar { font_widgets: *final(r), ..*old(self) }),
    {
        &mut self.font_widgets
    }

    /// Fill a toolbar, in order: the font family and font size choosers, a separator, the
    /// format actions, a separator, the text and background color buttons, a separator and
    /// the paragraph actions.
    pub fn populate_toolbar(&self, toolbar: &mut ToolBar)
        ensures
            final(toolbar).spec_items() == old(toolbar).spec_items() + seq![
                ToolBarItem::Widget(FONT_FAMILY_WIDGET),
                ToolBarItem::Widget(FONT_SIZE_WIDGET),
                ToolBarItem::Separator,
            ] + seq![
                ToolBarItem::Action(self.format_actions.bold@.id),
                ToolBarItem::Action(self.format_actions.italic@.id),
                ToolBarItem::Action(self.format_actions.underline@.id),
                ToolBarItem::Action(self.format_actions.strikethrough@.id),
            ] + seq![
                ToolBarItem::Separator,
                ToolBarItem::Widget(FOREGROUND_COLOR_WIDGET),
                ToolBarItem::Widget(BACKGROUND_COLOR_WIDGET),
                ToolBarItem::Separator,
            ] + seq![
                ToolBarItem::Action(self.paragraph_actions.align_left@.id),
                ToolBarItem::Action(self.paragraph_actions.align_center@.id),
                ToolBarItem::Action(self.paragraph_actions.align_right@.id),
                ToolBarItem::Action(self.paragraph_actions.align_justify@.id),
                ToolBarItem::Separator,
                ToolBarItem::Action(self.paragraph_actions.bullet_list@.id),
                ToolBarItem::Action(self.paragraph_actions.numbered_list@.id),
                ToolBarItem::Separator,
                ToolBarItem::Action(self.paragraph_actions.indent_increase@.id),
                ToolBarItem::Action(self.paragraph_actions.indent_decrease@.id),
            ],
            final(toolbar).same_settings(old(toolbar)),
    {
        let ghost s0 = toolbar.spec_items();
        toolbar.add_widget(FONT_FAMILY_WIDGET);
        toolbar.add_widget(FONT_SIZE_WIDGET);
        toolbar.add_separator();
        let ghost s1 = toolbar.spec_items();
        assert(s1 =~= s0 + seq![
            ToolBarItem::Widget(FONT_FAMILY_WIDGET),
            ToolBarItem::Widget(FONT_SIZE_WIDGET),
            ToolBarItem::Separator,
        ]);
        self.format_actions.add_to_toolbar(toolbar);
        let ghost s2 = toolbar.spec_items();
        toolbar.add_separator();
        toolbar.add_widget(FOREGROUND_COLOR_WIDGET);
        toolbar.add_widget(BACKGROUND_COLOR_WIDGET);
        toolbar.add_separator();
        assert(toolbar.spec_items() =~= s2 + seq![
            ToolBarItem::Separator,
            ToolBarItem::Widget(FOREGROUND_COLOR_WIDGET),
            ToolBarItem::Widget(BACKGROUND_COLOR_WIDGET),
            ToolBarItem::Separator,
        ]);
        self.paragraph_actions.add_to_toolbar(toolbar);
    }
}


/// After a color is added to the recent colors it comes first, it appears once, no more than
/// the most recent colors are kept, and every other color kept was there before, in the same
/// order.
pub proof fn law_recent_color_first_once(colors: Seq<Color>, color: Color)
    ensures
        with_recent(colors, color).len() <= MAX_RECENT_COLORS,
        with_recent(colors, color)[0] == color,
        forall|i: int| 1 <= i < with_recent(colors, color).len() ==> with_recent(colors, color)[i] != color,
        forall|i: int|
            1 <= i < with_recent(colors, color).len() ==> colors.contains(#[trigger] with_recent(colors, color)[i]),
{
    let rest = colors.filter(other_than(color));
    let moved = seq![color] + rest;
    assert forall|i: int| 0 <= i < rest.len() implies rest[i] != color && colors.contains(rest[i]) by {
        colors.lemma_filter_pred(other_than(color), i);
        assert(rest.contains(rest[i]));
        colors.lemma_filter_contains_rev(other_than(color), rest[i]);
    }
    assert(moved.len() >= 1);
    if moved.len() > MAX_RECENT_COLORS {
        assert forall|i: int| 1 <= i < moved.take(MAX_RECENT_COLORS as int).len() implies moved.take(
            MAX_RECENT_COLORS as int,
        )[i] == rest[i - 1] by {}
    } else {
        assert forall|i: int| 1 <= i < moved.len() implies moved[i] == rest[i - 1] by {}
    }
}

} // verus!
