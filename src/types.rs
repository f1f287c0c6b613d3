//! Backend-independent rendering vocabulary: colors, positions, alignments,
//! font attributes and backgrounds.
//!
//! Color channels are stored in thousandths (`1000` is full intensity) and
//! canvas sizes in whole pixels, so that every backend reads the same exact
//! values.
use vstd::prelude::*;

verus! {

/// Full intensity of a color channel.
pub const CHANNEL_MAX: u16 = 1000;

/// A color as red, green, blue and alpha channels, each in thousandths.
#[derive(Debug, Clone, Copy, PartialEq, Eq, Structural)]
pub struct RenderColor {
    pub r: u16,
    pub g: u16,
    pub b: u16,
    pub a: u16,
}

impl RenderColor {
    pub open spec fn spec_rgb(r: u16, g: u16, b: u16) -> RenderColor {
        RenderColor { r, g, b, a: CHANNEL_MAX }
    }

    pub fn new(r: u16, g: u16, b: u16, a: u16) -> (c: RenderColor)
        ensures
            c == (RenderColor { r, g, b, a }),
    {
        RenderColor { r, g, b, a }
    }

    /// An opaque color.
    pub fn rgb(r: u16, g: u16, b: u16) -> (c: RenderColor)
        ensures
            c == RenderColor::spec_rgb(r, g, b),
    {
        RenderColor { r, g, b, a: CHANNEL_MAX }
    }

    pub open spec fn spec_white() -> RenderColor {
        RenderColor::spec_rgb(1000, 1000, 1000)
    }

    pub fn white() -> (c: RenderColor)
        ensures
            c == RenderColor::spec_white(),
    {
        RenderColor::rgb(1000, 1000, 1000)
    }

    pub open spec fn spec_black() -> RenderColor {
        RenderColor::spec_rgb(0, 0, 0)
    }

    pub fn black() -> (c: RenderColor)
        ensures
            c == RenderColor::spec_black(),
    {
        RenderColor::rgb(0, 0, 0)
    }

    /// The dark charcoal used where a slide names no background.
    pub open spec fn spec_dark_gray() -> RenderColor {
        RenderColor::spec_rgb(196, 196, 220)
    }

    pub fn dark_gray() -> (c: RenderColor)
        ensures
            c == RenderColor::spec_dark_gray(),
    {
        RenderColor::rgb(196, 196, 220)
    }
}

impl Default for RenderColor {
    fn default() -> (c: RenderColor)
        ensures
            c == RenderColor::spec_white(),
    {
        RenderColor::white()
    }
}

/// Where the text block sits on the slide.
#[derive(Debug, Clone, Copy, PartialEq, Eq, Structural)]
pub enum TextPosition {
    Center,
    Top,
    Bottom,
    Left,
    Right,
    TopLeft,
    TopRight,
    BottomLeft,
    BottomRight,
}

impl Default for TextPosition {
    fn default() -> (p: TextPosition)
        ensures
            p == TextPosition::Center,
    {
        TextPosition::Center
    }
}

/// How lines are aligned within the text block.
#[derive(Debug, Clone, Copy, PartialEq, Eq, Structural)]
pub enum TextAlign {
    Left,
    Center,
    Right,
}

impl Default for TextAlign {
    fn default() -> (a: TextAlign)
        ensures
            a == TextAlign::Left,
    {
        TextAlign::Left
    }
}

/// How a background image is scaled to the slide.
#[derive(Debug, Clone, Copy, PartialEq, Eq, Structural)]
pub enum BackgroundScale {
    /// Fit within the slide, possibly letterboxed.
    Fit,
    /// Cover the slide, possibly cropped.
    Fill,
    /// Stretch to the slide's shape.
    Stretch,
    /// Keep the image's own size.
    Unscaled,
}

impl Default for BackgroundScale {
    fn default() -> (s: BackgroundScale)
        ensures
            s == BackgroundScale::Fit,
    {
        BackgroundScale::Fit
    }
}

#[derive(Debug, Clone, Copy, PartialEq, Eq, Structural)]
pub enum FontWeight {
    Normal,
    Bold,
}

impl Default for FontWeight {
    fn default() -> (w: FontWeight)
        ensures
            w == FontWeight::Normal,
    {
        FontWeight::Normal
    }
}

#[derive(Debug, Clone, Copy, PartialEq, Eq, Structural)]
pub enum FontStyle {
    Normal,
    Italic,
}

impl Default for FontStyle {
    fn default() -> (s: FontStyle)
        ensures
            s == FontStyle::Normal,
    {
        FontStyle::Normal
    }
}

/// Lines drawn with the text.
#[derive(Debug, Clone, Copy, PartialEq, Eq, Structural)]
pub struct TextDecoration {
    pub underline: bool,
    pub strikethrough: bool,
}

impl Default for TextDecoration {
    fn default() -> (d: TextDecoration)
        ensures
            d == (TextDecoration { underline: false, strikethrough: false }),
    {
        TextDecoration { underline: false, strikethrough: false }
    }
}

/// The size of the canvas that a deck is laid out for, in pixels.
#[derive(Debug, Clone, Copy, PartialEq, Eq, Structural)]
pub struct RenderDimensions {
    pub width: u32,
    pub height: u32,
}

impl Default for RenderDimensions {
    fn default() -> (d: RenderDimensions)
        ensures
            d == (RenderDimensions { width: 1024, height: 768 }),
    {
        RenderDimensions { width: 1024, height: 768 }
    }
}

/// What fills a slide behind its text.
#[derive(Debug, Clone, PartialEq)]
pub enum BackgroundSpec {
    SolidColor(RenderColor),
    /// An image file, named relative to the deck's directory.
    Image { path: String, scale: BackgroundScale },
}

/// The value of a [`BackgroundSpec`], with the image path as characters.
pub enum BackgroundModel {
    SolidColor(RenderColor),
    Image { path: Seq<char>, scale: BackgroundScale },
}

impl View for BackgroundSpec {
    type V = BackgroundModel;

    open spec fn view(&self) -> BackgroundModel {
        match self {
            BackgroundSpec::SolidColor(c) => BackgroundModel::SolidColor(*c),
            BackgroundSpec::Image { path, scale } => BackgroundModel::Image {
                path: path@,
                scale: *scale,
            },
        }
    }
}

impl Default for BackgroundSpec {
    fn default() -> (b: BackgroundSpec)
        ensures
            b@ == BackgroundModel::SolidColor(RenderColor::spec_dark_gray()),
    {
        BackgroundSpec::SolidColor(RenderColor::dark_gray())
    }
}

} // verus!
