//! Parsing and resolution of line-oriented slide decks.
//!
//! [`parse_deck`] reads a deck's text into global options and slides;
//! [`resolve_deck`] turns those into resolved slides (background, styled text
//! spans, text position and alignment) for a given canvas, so that every
//! rendering backend draws the same thing.
pub mod text;
pub mod types;
pub mod options;
pub mod markup;
pub mod parser;
pub mod resolved;
pub mod resolver;
pub mod layout;
pub mod laws;

pub use layout::{
    AlignItems, BackgroundImage, Justify, JustifyContent, SlideCounter, SlideText, TextAlignExt,
    TextContainer, TextPositionExt,
};
pub use markup::{extract_quoted_value, parse_font_size, parse_pango_markup, ParsedStyle};
pub use options::{
    get_background_color, get_background_image, get_background_scale, get_command,
    get_text_align, get_text_position, has_image_extension, has_no_markup, is_image_file,
    named_color, parse_color, Category,
};
pub use parser::{
    content, header, option, parse_deck, settings, slide, slides, whitespace_or_comment,
    ParseError, Slide, SlideDeck,
};
pub use resolved::{ResolvedDeck, ResolvedSlide, TextSpan};
pub use resolver::{calculate_base_font_size, resolve_deck, resolve_slide, ResolveConfig};
pub use types::{
    BackgroundScale, BackgroundSpec, FontStyle, FontWeight, RenderColor, RenderDimensions,
    TextAlign, TextDecoration, TextPosition,
};
