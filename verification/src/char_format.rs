//! Character- and paragraph-level formatting values, and the colors and font
//! keys they refer to.

use vstd::prelude::*;

use crate::style_runs::{RunFormat, StyleRun};

verus! {

/// An RGBA color with 8-bit channels.
#[derive(Debug, Clone, Copy, PartialEq, Eq, Structural, Hash)]
pub struct Color {
    pub r: u8,
    pub g: u8,
    pub b: u8,
    pub a: u8,
}

impl Color {
    /// An opaque color from 8-bit red, green and blue channels.
    pub fn from_rgb8(r: u8, g: u8, b: u8) -> (c: Color)
        ensures
            c == (Color { r, g, b, a: 255 }),
    {
        Color { r, g, b, a: 255 }
    }

    /// A color from 8-bit red, green, blue and alpha channels.
    pub fn from_rgba8(r: u8, g: u8, b: u8, a: u8) -> (c: Color)
        ensures
            c == (Color { r, g, b, a }),
    {
        Color { r, g, b, a }
    }

    /// Opaque black.
    #[allow(non_snake_case)]
    pub fn BLACK() -> (c: Color)
        ensures
            c == (Color { r: 0, g: 0, b: 0, a: 255 }),
    {
        Color { r: 0, g: 0, b: 0, a: 255 }
    }

    /// Opaque white.
    #[allow(non_snake_case)]
    pub fn WHITE() -> (c: Color)
        ensures
            c == (Color { r: 255, g: 255, b: 255, a: 255 }),
    {
        Color { r: 255, g: 255, b: 255, a: 255 }
    }

    /// Fully transparent black.
    #[allow(non_snake_case)]
    pub fn TRANSPARENT() -> (c: Color)
        ensures
            c == (Color { r: 0, g: 0, b: 0, a: 0 }),
    {
        Color { r: 0, g: 0, b: 0, a: 0 }
    }
}

/// A font family: one of the generic families, or a named family that the
/// application registers under a key.
#[derive(Debug, Clone, Copy, PartialEq, Eq, Structural, Hash)]
pub enum FontFamily {
    SansSerif,
    Serif,
    Monospace,
    Cursive,
    Fantasy,
    /// A named family, identified by the key the application gave its name.
    Named(u32),
}

/// A font weight from 100 (thin) to 900 (black).
#[derive(Debug, Clone, Copy, PartialEq, Eq, Structural, Hash)]
pub struct FontWeight(pub u16);

impl FontWeight {
    /// Weight 100.
    #[allow(non_snake_case)]
    pub fn THIN() -> (w: FontWeight)
        ensures
            w == FontWeight(100),
    {
        FontWeight(100)
    }

    /// Weight 300.
    #[allow(non_snake_case)]
    pub fn LIGHT() -> (w: FontWeight)
        ensures
            w == FontWeight(300),
    {
        FontWeight(300)
    }

    /// Weight 400.
    #[allow(non_snake_case)]
    pub fn NORMAL() -> (w: FontWeight)
        ensures
            w == FontWeight(400),
    {
        FontWeight(400)
    }

    /// Weight 500.
    #[allow(non_snake_case)]
    pub fn MEDIUM() -> (w: FontWeight)
        ensures
            w == FontWeight(500),
    {
        FontWeight(500)
    }

    /// Weight 700.
    #[allow(non_snake_case)]
    pub fn BOLD() -> (w: FontWeight)
        ensures
            w == FontWeight(700),
    {
        FontWeight(700)
    }

    /// Weight 900.
    #[allow(non_snake_case)]
    pub fn BLACK() -> (w: FontWeight)
        ensures
            w == FontWeight(900),
    {
        FontWeight(900)
    }
}

/// Character-level formatting attributes. `None` fields inherit the widget's defaults.
#[derive(Debug, Clone, Copy, PartialEq, Eq, Structural)]
pub struct CharFormat {
    /// Whether the text is bold.
    pub bold: bool,
    /// Whether the text is italic.
    pub italic: bool,
    /// Whether the text has underline.
    pub underline: bool,
    /// Whether the text has strikethrough.
    pub strikethrough: bool,
    /// Foreground (text) color.
    pub foreground_color: Option<Color>,
    /// Background (highlight) color.
    pub background_color: Option<Color>,
    /// Font family.
    pub font_family: Option<FontFamily>,
    /// Font size, as the bit pattern of the size in pixels as an `f32`
    /// (two sizes are the same when their bit patterns are).
    pub font_size: Option<u32>,
    /// Font weight.
    pub font_weight: Option<FontWeight>,
}

/// The default (unstyled) character format.
pub open spec fn plain_char_format() -> CharFormat {
    CharFormat {
        bold: false,
        italic: false,
        underline: false,
        strikethrough: false,
        foreground_color: None,
        background_color: None,
        font_family: None,
        font_size: None,
        font_weight: None,
    }
}

/// Whether a character format has any styling applied.
pub open spec fn char_styled(f: CharFormat) -> bool {
    f.bold || f.italic || f.underline || f.strikethrough || f.foreground_color is Some
        || f.background_color is Some || f.font_family is Some || f.font_size is Some
        || f.font_weight is Some
}

/// `f` with each of the four flags that `toggle` sets replaced by `apply`.
pub open spec fn with_flags(f: CharFormat, toggle: CharFormat, apply: bool) -> CharFormat {
    CharFormat {
        bold: if toggle.bold {
            apply
        } else {
            f.bold
        },
        italic: if toggle.italic {
            apply
        } else {
            f.italic
        },
        underline: if toggle.underline {
            apply
        } else {
            f.underline
        },
        strikethrough: if toggle.strikethrough {
            apply
        } else {
            f.strikethrough
        },
        ..f
    }
}

/// Whether `f` has every one of the four flags that `check` sets.
pub open spec fn has_flags(f: CharFormat, check: CharFormat) -> bool {
    (check.bold ==> f.bold) && (check.italic ==> f.italic) && (check.underline ==> f.underline) && (
    check.strikethrough ==> f.strikethrough)
}

impl Default for CharFormat {
    fn default() -> (r: Self)
        ensures
            r == plain_char_format(),
    {
        CharFormat::new()
    }
}

impl CharFormat {
    /// Create a new default (unstyled) format.
    pub fn new() -> (r: Self)
        ensures
            r == plain_char_format(),
    {
        CharFormat {
            bold: false,
            italic: false,
            underline: false,
            strikethrough: false,
            foreground_color: None,
            background_color: None,
            font_family: None,
            font_size: None,
            font_weight: None,
        }
    }

    /// Check if this format has any styling applied.
    pub fn is_styled(&self) -> (r: bool)
        ensures
            r == char_styled(*self),
    {
        self.bold || self.italic || self.underline || self.strikethrough
            || self.foreground_color.is_some() || self.background_color.is_some()
            || self.font_family.is_some() || self.font_size.is_some() || self.font_weight.is_some()
    }

    /// Create a bold format.
    pub fn bold() -> (r: Self)
        ensures
            r == (CharFormat { bold: true, ..plain_char_format() }),
    {
        CharFormat { bold: true, ..CharFormat::new() }
    }

    /// Create an italic format.
    pub fn italic() -> (r: Self)
        ensures
            r == (CharFormat { italic: true, ..plain_char_format() }),
    {
        CharFormat { italic: true, ..CharFormat::new() }
    }

    /// Builder method to set bold.
    pub fn with_bold(self, bold: bool) -> (r: Self)
        ensures
            r == (CharFormat { bold, ..self }),
    {
        CharFormat { bold, ..self }
    }

    /// Builder method to set italic.
    pub fn with_italic(self, italic: bool) -> (r: Self)
        ensures
            r == (CharFormat { italic, ..self }),
    {
        CharFormat { italic, ..self }
    }

    /// Builder method to set underline.
    pub fn with_underline(self, underline: bool) -> (r: Self)
        ensures
            r == (CharFormat { underline, ..self }),
    {
        CharFormat { underline, ..self }
    }

    /// Builder method to set strikethrough.
    pub fn with_strikethrough(self, strikethrough: bool) -> (r: Self)
        ensures
            r == (CharFormat { strikethrough, ..self }),
    {
        CharFormat { strikethrough, ..self }
    }

    /// Builder method to set the foreground (text) color.
    pub fn with_foreground_color(self, color: Option<Color>) -> (r: Self)
        ensures
            r == (CharFormat { foreground_color: color, ..self }),
    {
        CharFormat { foreground_color: color, ..self }
    }

    /// Builder method to set the background (highlight) color.
    pub fn with_background_color(self, color: Option<Color>) -> (r: Self)
        ensures
            r == (CharFormat { background_color: color, ..self }),
    {
        CharFormat { background_color: color, ..self }
    }

    /// Builder method to set the font family.
    pub fn with_font_family(self, family: Option<FontFamily>) -> (r: Self)
        ensures
            r == (CharFormat { font_family: family, ..self }),
    {
        CharFormat { font_family: family, ..self }
    }

    /// Builder method to set the font size (the bit pattern of an `f32` pixel size).
    pub fn with_font_size(self, size: Option<u32>) -> (r: Self)
        ensures
            r == (CharFormat { font_size: size, ..self }),
    {
        CharFormat { font_size: size, ..self }
    }

    /// Builder method to set the font weight.
    pub fn with_font_weight(self, weight: Option<FontWeight>) -> (r: Self)
        ensures
            r == (CharFormat { font_weight: weight, ..self }),
    {
        CharFormat { font_weight: weight, ..self }
    }

    /// Toggle in this format each of the four flags that `other` sets.
    pub fn merge_toggle(&mut self, other: &CharFormat)
        ensures
            *final(self) == (CharFormat {
                bold: old(self).bold != other.bold,
                italic: old(self).italic != other.italic,
                underline: old(self).underline != other.underline,
                strikethrough: old(self).strikethrough != other.strikethrough,
                ..*old(self)
            }),
    {
        if other.bold {
            self.bold = !self.bold;
        }
        if other.italic {
            self.italic = !self.italic;
        }
        if other.underline {
            self.underline = !self.underline;
        }
        if other.strikethrough {
            self.strikethrough = !self.strikethrough;
        }
    }

    /// This format with each of the four flags that `toggle` sets replaced by `apply`.
    pub fn with_flags_set(&self, toggle: &CharFormat, apply: bool) -> (r: CharFormat)
        ensures
            r == with_flags(*self, *toggle, apply),
    {
        let mut f = *self;
        if toggle.bold {
            f.bold = apply;
        }
        if toggle.italic {
            f.italic = apply;
        }
        if toggle.underline {
            f.underline = apply;
        }
        if toggle.strikethrough {
            f.strikethrough = apply;
        }
        f
    }

    /// Whether this format has every one of the four flags that `check` sets.
    pub fn has_flags_of(&self, check: &CharFormat) -> (r: bool)
        ensures
            r == has_flags(*self, *check),
    {
        (!check.bold || self.bold) && (!check.italic || self.italic) && (!check.underline
            || self.underline) && (!check.strikethrough || self.strikethrough)
    }
}

impl RunFormat for CharFormat {
    open spec fn spec_styled(self) -> bool {
        char_styled(self)
    }

    open spec fn spec_plain() -> Self {
        plain_char_format()
    }

    fn styled(&self) -> (r: bool) {
        self.is_styled()
    }

    fn same(&self, other: &Self) -> (r: bool) {
        *self == *other
    }

    fn plain() -> (r: Self) {
        CharFormat::new()
    }

    proof fn lemma_unstyled_is_plain(f: Self) {
    }
}

/// Horizontal text alignment of a paragraph.
#[derive(Debug, Clone, Copy, PartialEq, Eq, Structural, Hash)]
pub enum HorizontalAlign {
    Left,
    Center,
    Right,
    Justified,
}

/// Paragraph-level formatting attributes.
#[derive(Debug, Clone, Copy, PartialEq, Eq, Structural)]
pub struct BlockFormat {
    /// Horizontal text alignment.
    pub alignment: HorizontalAlign,
}

/// The default block format: left aligned.
pub open spec fn plain_block_format() -> BlockFormat {
    BlockFormat { alignment: HorizontalAlign::Left }
}

impl Default for BlockFormat {
    fn default() -> (r: Self)
        ensures
            r == plain_block_format(),
    {
        BlockFormat::new()
    }
}

impl BlockFormat {
    /// Create a new default block format.
    pub fn new() -> (r: Self)
        ensures
            r == plain_block_format(),
    {
        BlockFormat { alignment: HorizontalAlign::Left }
    }

    /// Check if this format differs from the default.
    pub fn is_styled(&self) -> (r: bool)
        ensures
            r == (self.alignment != HorizontalAlign::Left),
    {
        self.alignment != HorizontalAlign::Left
    }

    /// Builder method to set alignment.
    pub fn with_alignment(self, alignment: HorizontalAlign) -> (r: Self)
        ensures
            r == (BlockFormat { alignment }),
    {
        BlockFormat { alignment }
    }

    /// Create a left-aligned block format.
    pub fn left() -> (r: Self)
        ensures
            r.alignment == HorizontalAlign::Left,
    {
        BlockFormat { alignment: HorizontalAlign::Left }
    }

    /// Create a center-aligned block format.
    pub fn center() -> (r: Self)
        ensures
            r.alignment == HorizontalAlign::Center,
    {
        BlockFormat { alignment: HorizontalAlign::Center }
    }

    /// Create a right-aligned block format.
    pub fn right() -> (r: Self)
        ensures
            r.alignment == HorizontalAlign::Right,
    {
        BlockFormat { alignment: HorizontalAlign::Right }
    }

    /// Create a justified block format.
    pub fn justified() -> (r: Self)
        ensures
            r.alignment == HorizontalAlign::Justified,
    {
        BlockFormat { alignment: HorizontalAlign::Justified }
    }
}

impl RunFormat for BlockFormat {
    open spec fn spec_styled(self) -> bool {
        self.alignment != HorizontalAlign::Left
    }

    open spec fn spec_plain() -> Self {
        plain_block_format()
    }

    fn styled(&self) -> (r: bool) {
        self.is_styled()
    }

    fn same(&self, other: &Self) -> (r: bool) {
        *self == *other
    }

    fn plain() -> (r: Self) {
        BlockFormat::new()
    }

    proof fn lemma_unstyled_is_plain(f: Self) {
    }
}

/// A run of text bytes with one character format.
pub type FormatRun = StyleRun<CharFormat>;

/// A run of paragraphs (by index) with one block format.
pub type BlockRun = StyleRun<BlockFormat>;

} // verus!
