//! Resolved slides: everything a backend needs, with no option or markup
//! left to interpret.
use vstd::prelude::*;

use crate::types::{
    BackgroundModel, BackgroundSpec, FontStyle, FontWeight, RenderColor, TextAlign,
    TextDecoration, TextPosition,
};

verus! {

/// Text in one style. Its size is in thousandths of a pixel.
#[derive(Debug, Clone, PartialEq)]
pub struct TextSpan {
    pub text: String,
    pub font_size: u32,
    pub weight: FontWeight,
    pub style: FontStyle,
    pub decoration: TextDecoration,
    pub color: RenderColor,
}

pub struct TextSpanModel {
    pub text: Seq<char>,
    pub font_size: u32,
    pub weight: FontWeight,
    pub style: FontStyle,
    pub decoration: TextDecoration,
    pub color: RenderColor,
}

impl View for TextSpan {
    type V = TextSpanModel;

    open spec fn view(&self) -> TextSpanModel {
        TextSpanModel {
            text: self.text@,
            font_size: self.font_size,
            weight: self.weight,
            style: self.style,
            decoration: self.decoration,
            color: self.color,
        }
    }
}

/// The size of text that nothing sizes otherwise, in thousandths of a pixel.
pub const PLAIN_FONT_SIZE: u32 = 60000;

/// Text in the plain style: the plain size, normal weight and style, no
/// decoration, white.
pub open spec fn plain_span(text: Seq<char>) -> TextSpanModel {
    TextSpanModel {
        text: text,
        font_size: PLAIN_FONT_SIZE,
        weight: FontWeight::Normal,
        style: FontStyle::Normal,
        decoration: TextDecoration { underline: false, strikethrough: false },
        color: RenderColor::spec_white(),
    }
}

impl TextSpan {
    /// Text in the plain style.
    pub fn new(text: &str) -> (r: TextSpan)
        ensures
            r@ == plain_span(text@),
    {
        TextSpan {
            text: text.to_owned(),
            font_size: PLAIN_FONT_SIZE,
            weight: FontWeight::Normal,
            style: FontStyle::Normal,
            decoration: TextDecoration { underline: false, strikethrough: false },
            color: RenderColor::white(),
        }
    }
}

/// The model of each span.
pub open spec fn span_models(v: Seq<TextSpan>) -> Seq<TextSpanModel> {
    v.map_values(|s: TextSpan| s@)
}

/// A slide ready to draw.
#[derive(Debug, Clone)]
pub struct ResolvedSlide {
    pub background: BackgroundSpec,
    pub text_spans: Vec<TextSpan>,
    pub text_position: TextPosition,
    pub text_align: TextAlign,
}

pub struct ResolvedSlideModel {
    pub background: BackgroundModel,
    pub text_spans: Seq<TextSpanModel>,
    pub text_position: TextPosition,
    pub text_align: TextAlign,
}

impl View for ResolvedSlide {
    type V = ResolvedSlideModel;

    open spec fn view(&self) -> ResolvedSlideModel {
        ResolvedSlideModel {
            background: self.background@,
            text_spans: span_models(self.text_spans@),
            text_position: self.text_position,
            text_align: self.text_align,
        }
    }
}

impl Default for ResolvedSlide {
    fn default() -> (r: ResolvedSlide)
        ensures
            r@ == (ResolvedSlideModel {
                background: BackgroundModel::SolidColor(RenderColor::spec_dark_gray()),
                text_spans: Seq::empty(),
                text_position: TextPosition::Center,
                text_align: TextAlign::Left,
            }),
    {
        let r = ResolvedSlide {
            background: BackgroundSpec::SolidColor(RenderColor::dark_gray()),
            text_spans: Vec::new(),
            text_position: TextPosition::Center,
            text_align: TextAlign::Left,
        };
        assert(span_models(r.text_spans@) =~= Seq::empty());
        r
    }
}

/// The model of each resolved slide.
pub open spec fn resolved_models(v: Seq<ResolvedSlide>) -> Seq<ResolvedSlideModel> {
    v.map_values(|s: ResolvedSlide| s@)
}

/// A deck ready to draw, with the directory that image paths are relative to.
#[derive(Debug, Clone)]
pub struct ResolvedDeck {
    pub slides: Vec<ResolvedSlide>,
    pub presentation_dir: String,
}

pub struct ResolvedDeckModel {
    pub slides: Seq<ResolvedSlideModel>,
    pub presentation_dir: Seq<char>,
}

impl View for ResolvedDeck {
    type V = ResolvedDeckModel;

    open spec fn view(&self) -> ResolvedDeckModel {
        ResolvedDeckModel {
            slides: resolved_models(self.slides@),
            presentation_dir: self.presentation_dir@,
        }
    }
}

} // verus!
