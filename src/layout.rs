//! Where a resolved slide puts its text, in the terms of a flexbox layout,
//! for backends that lay slides out that way.
use vstd::prelude::*;

use crate::types::{TextAlign, TextPosition};

verus! {

/// Placement along the main (horizontal) axis.
#[derive(Debug, Clone, Copy, PartialEq, Eq, Structural)]
pub enum JustifyContent {
    FlexStart,
    Center,
    FlexEnd,
}

/// Placement along the cross (vertical) axis.
#[derive(Debug, Clone, Copy, PartialEq, Eq, Structural)]
pub enum AlignItems {
    FlexStart,
    Center,
    FlexEnd,
}

/// Justification of the lines of a text block.
#[derive(Debug, Clone, Copy, PartialEq, Eq, Structural)]
pub enum Justify {
    Left,
    Center,
    Right,
}

/// The horizontal part of a text position.
pub open spec fn horizontal(p: TextPosition) -> JustifyContent {
    match p {
        TextPosition::Left | TextPosition::TopLeft | TextPosition::BottomLeft => JustifyContent::FlexStart,
        TextPosition::Center | TextPosition::Top | TextPosition::Bottom => JustifyContent::Center,
        TextPosition::Right | TextPosition::TopRight | TextPosition::BottomRight => JustifyContent::FlexEnd,
    }
}

/// The vertical part of a text position.
pub open spec fn vertical(p: TextPosition) -> AlignItems {
    match p {
        TextPosition::Top | TextPosition::TopLeft | TextPosition::TopRight => AlignItems::FlexStart,
        TextPosition::Center | TextPosition::Left | TextPosition::Right => AlignItems::Center,
        TextPosition::Bottom | TextPosition::BottomLeft | TextPosition::BottomRight => AlignItems::FlexEnd,
    }
}

pub trait TextPositionExt {
    spec fn flexbox_alignment(&self) -> (JustifyContent, AlignItems);

    /// The flexbox placement of the text block.
    fn to_flexbox_alignment(&self) -> (r: (JustifyContent, AlignItems))
        ensures
            r == self.flexbox_alignment(),
    ;
}

impl TextPositionExt for TextPosition {
    open spec fn flexbox_alignment(&self) -> (JustifyContent, AlignItems) {
        (horizontal(*self), vertical(*self))
    }

    fn to_flexbox_alignment(&self) -> (r: (JustifyContent, AlignItems)) {
        match self {
            TextPosition::Center => (JustifyContent::Center, AlignItems::Center),
            TextPosition::Top => (JustifyContent::Center, AlignItems::FlexStart),
            TextPosition::Bottom => (JustifyContent::Center, AlignItems::FlexEnd),
            TextPosition::Left => (JustifyContent::FlexStart, AlignItems::Center),
            TextPosition::Right => (JustifyContent::FlexEnd, AlignItems::Center),
            TextPosition::TopLeft => (JustifyContent::FlexStart, AlignItems::FlexStart),
            TextPosition::TopRight => (JustifyContent::FlexEnd, AlignItems::FlexStart),
            TextPosition::BottomLeft => (JustifyContent::FlexStart, AlignItems::FlexEnd),
            TextPosition::BottomRight => (JustifyContent::FlexEnd, AlignItems::FlexEnd),
        }
    }
}

pub trait TextAlignExt {
    spec fn justification(&self) -> Justify;

    /// The justification of the lines.
    fn to_bevy_justify(&self) -> (r: Justify)
        ensures
            r == self.justification(),
    ;
}

impl TextAlignExt for TextAlign {
    open spec fn justification(&self) -> Justify {
        match self {
            TextAlign::Left => Justify::Left,
            TextAlign::Center => Justify::Center,
            TextAlign::Right => Justify::Right,
        }
    }

    fn to_bevy_justify(&self) -> (r: Justify) {
        match self {
            TextAlign::Left => Justify::Left,
            TextAlign::Center => Justify::Center,
            TextAlign::Right => Justify::Right,
        }
    }
}

/// Marks the node that holds a slide's text.
pub struct SlideText;

/// Marks the node that shows the slide number.
pub struct SlideCounter;

/// Marks the node that shows a slide's background image.
pub struct BackgroundImage;

/// Marks the node that places a slide's text block.
pub struct TextContainer;

} // verus!
