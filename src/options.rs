//! The option resolver: what a slide's options and the deck's global options
//! say about each setting.
//!
//! Every setting reads the slide's options first and then the global ones,
//! and the first option of the setting's category wins. Options of no known
//! category are ignored.
use vstd::prelude::*;

use crate::text::{
    begins_with, ends_with, finishes_with, lemma_scan, opt_text, same_text, scan, starts_with,
};
use crate::types::{BackgroundScale, RenderColor, TextAlign, TextPosition};

verus! {

/// What `str::to_lowercase` makes of a text.
pub uninterp spec fn lowercase_of(s: Seq<char>) -> Seq<char>;

/// Relies on `str::to_lowercase`: the lowercase form of a text, which depends
/// on its characters alone.
#[verifier::external_body]
fn lowercase(s: &str) -> (r: String)
    ensures
        r@ == lowercase_of(s@),
{
    s.to_lowercase()
}

/// The characters of each option.
pub open spec fn texts(v: Seq<String>) -> Seq<Seq<char>> {
    v.map_values(|s: String| s@)
}

/// The colors that a background option or a markup span may name.
pub open spec fn color_named(name: Seq<char>) -> Option<RenderColor> {
    if name == "red"@ {
        Some(RenderColor::spec_rgb(1000, 0, 0))
    } else if name == "orange"@ {
        Some(RenderColor::spec_rgb(1000, 500, 0))
    } else if name == "yellow"@ {
        Some(RenderColor::spec_rgb(1000, 1000, 0))
    } else if name == "green"@ {
        Some(RenderColor::spec_rgb(0, 1000, 0))
    } else if name == "blue"@ {
        Some(RenderColor::spec_rgb(0, 0, 1000))
    } else if name == "purple"@ {
        Some(RenderColor::spec_rgb(500, 0, 500))
    } else if name == "white"@ {
        Some(RenderColor::spec_white())
    } else if name == "black"@ {
        Some(RenderColor::spec_black())
    } else {
        None
    }
}

/// The color that an already lowercased name stands for.
pub fn named_color(name: &str) -> (r: Option<RenderColor>)
    ensures
        r == color_named(name@),
{
    if same_text(name, "red") {
        Some(RenderColor::rgb(1000, 0, 0))
    } else if same_text(name, "orange") {
        Some(RenderColor::rgb(1000, 500, 0))
    } else if same_text(name, "yellow") {
        Some(RenderColor::rgb(1000, 1000, 0))
    } else if same_text(name, "green") {
        Some(RenderColor::rgb(0, 1000, 0))
    } else if same_text(name, "blue") {
        Some(RenderColor::rgb(0, 0, 1000))
    } else if same_text(name, "purple") {
        Some(RenderColor::rgb(500, 0, 500))
    } else if same_text(name, "white") {
        Some(RenderColor::white())
    } else if same_text(name, "black") {
        Some(RenderColor::black())
    } else {
        None
    }
}

/// The color that a name stands for, in any letter case.
pub fn parse_color(color_str: &str) -> (r: Option<RenderColor>)
    ensures
        r == color_named(lowercase_of(color_str@)),
{
    let lower = lowercase(color_str);
    named_color(lower.as_str())
}

/// An already lowercased name ends in one of the image extensions.
pub open spec fn has_image_ext(lower: Seq<char>) -> bool {
    finishes_with(lower, ".png"@) || finishes_with(lower, ".jpg"@) || finishes_with(
        lower,
        ".jpeg"@,
    ) || finishes_with(lower, ".gif"@)
}

/// Whether an already lowercased name ends in an image extension.
pub fn has_image_extension(lower: &str) -> (r: bool)
    ensures
        r == has_image_ext(lower@),
{
    ends_with(lower, ".png") || ends_with(lower, ".jpg") || ends_with(lower, ".jpeg")
        || ends_with(lower, ".gif")
}

/// Whether an option names an image file, in any letter case.
pub fn is_image_file(option: &str) -> (r: bool)
    ensures
        r == has_image_ext(lowercase_of(option@)),
{
    let lower = lowercase(option);
    has_image_extension(lower.as_str())
}

/// The kinds of setting that options carry.
#[derive(Debug, Clone, Copy, PartialEq, Eq, Structural)]
pub enum Category {
    BackgroundImage,
    BackgroundColor,
    BackgroundScale,
    TextPosition,
    TextAlign,
    Markup,
    Command,
}

/// The scale that a keyword option names.
pub open spec fn scale_keyword(o: Seq<char>) -> Option<BackgroundScale> {
    if o == "fill"@ {
        Some(BackgroundScale::Fill)
    } else if o == "fit"@ {
        Some(BackgroundScale::Fit)
    } else if o == "stretch"@ {
        Some(BackgroundScale::Stretch)
    } else if o == "unscaled"@ {
        Some(BackgroundScale::Unscaled)
    } else {
        None
    }
}

/// The text position that a keyword option names.
pub open spec fn position_keyword(o: Seq<char>) -> Option<TextPosition> {
    if o == "center"@ {
        Some(TextPosition::Center)
    } else if o == "top"@ {
        Some(TextPosition::Top)
    } else if o == "bottom"@ {
        Some(TextPosition::Bottom)
    } else if o == "left"@ {
        Some(TextPosition::Left)
    } else if o == "right"@ {
        Some(TextPosition::Right)
    } else if o == "top-left"@ {
        Some(TextPosition::TopLeft)
    } else if o == "top-right"@ {
        Some(TextPosition::TopRight)
    } else if o == "bottom-left"@ {
        Some(TextPosition::BottomLeft)
    } else if o == "bottom-right"@ {
        Some(TextPosition::BottomRight)
    } else {
        None
    }
}

/// `text-align=` with `left`, `center` or `right`; with any other value the
/// option is of no category.
pub open spec fn align_setting(o: Seq<char>) -> Option<TextAlign> {
    if o == "text-align=left"@ {
        Some(TextAlign::Left)
    } else if o == "text-align=center"@ {
        Some(TextAlign::Center)
    } else if o == "text-align=right"@ {
        Some(TextAlign::Right)
    } else {
        None
    }
}

/// `Some(true)` where the option turns markup off, `Some(false)` where it turns it on.
pub open spec fn markup_setting(o: Seq<char>) -> Option<bool> {
    if o == "no-markup"@ {
        Some(true)
    } else if o == "markup"@ {
        Some(false)
    } else {
        None
    }
}

/// The command that a `command=` option holds.
pub open spec fn command_setting(o: Seq<char>) -> Option<Seq<char>> {
    if begins_with(o, "command="@) {
        Some(o.subrange("command="@.len() as int, o.len() as int))
    } else {
        None
    }
}

/// The option belongs to the category.
pub open spec fn in_category(o: Seq<char>, cat: Category) -> bool {
    match cat {
        Category::BackgroundImage => has_image_ext(lowercase_of(o)),
        Category::BackgroundColor => color_named(lowercase_of(o)) is Some,
        Category::BackgroundScale => scale_keyword(o) is Some,
        Category::TextPosition => position_keyword(o) is Some,
        Category::TextAlign => align_setting(o) is Some,
        Category::Markup => markup_setting(o) is Some,
        Category::Command => command_setting(o) is Some,
    }
}

/// The first option of `opts` in the category.
pub open spec fn first_in(opts: Seq<Seq<char>>, cat: Category) -> Option<Seq<char>> {
    let j = scan(0, opts.len() as int, |j: int| in_category(opts[j], cat));
    if j < opts.len() {
        Some(opts[j])
    } else {
        None
    }
}

/// The option that decides the category: the first of the slide's options,
/// then of the global ones, that belongs to it.
pub open spec fn winner(slide: Seq<Seq<char>>, global: Seq<Seq<char>>, cat: Category) -> Option<
    Seq<char>,
> {
    first_in(slide + global, cat)
}

fn in_category_exec(o: &str, cat: Category) -> (r: bool)
    ensures
        r == in_category(o@, cat),
{
    match cat {
        Category::BackgroundImage => is_image_file(o),
        Category::BackgroundColor => parse_color(o).is_some(),
        Category::BackgroundScale => same_text(o, "fill") || same_text(o, "fit") || same_text(
            o,
            "stretch",
        ) || same_text(o, "unscaled"),
        Category::TextPosition => position_of(o).is_some(),
        Category::TextAlign => same_text(o, "text-align=left") || same_text(o, "text-align=center")
            || same_text(o, "text-align=right"),
        Category::Markup => same_text(o, "no-markup") || same_text(o, "markup"),
        Category::Command => starts_with(o, "command="),
    }
}

fn position_of(o: &str) -> (r: Option<TextPosition>)
    ensures
        r == position_keyword(o@),
{
    if same_text(o, "center") {
        Some(TextPosition::Center)
    } else if same_text(o, "top") {
        Some(TextPosition::Top)
    } else if same_text(o, "bottom") {
        Some(TextPosition::Bottom)
    } else if same_text(o, "left") {
        Some(TextPosition::Left)
    } else if same_text(o, "right") {
        Some(TextPosition::Right)
    } else if same_text(o, "top-left") {
        Some(TextPosition::TopLeft)
    } else if same_text(o, "top-right") {
        Some(TextPosition::TopRight)
    } else if same_text(o, "bottom-left") {
        Some(TextPosition::BottomLeft)
    } else if same_text(o, "bottom-right") {
        Some(TextPosition::BottomRight)
    } else {
        None
    }
}

/// The option that decides the category, as [`winner`] states.
pub fn winning_option(slide_options: &[String], global_options: &[String], cat: Category) -> (r:
    Option<String>)
    ensures
        match r {
            Some(o) => winner(texts(slide_options@), texts(global_options@), cat) == Some(o@)
                && in_category(o@, cat),
            None => winner(texts(slide_options@), texts(global_options@), cat) is None,
        },
{
    let ghost all = texts(slide_options@) + texts(global_options@);
    let ghost p = |j: int| in_category(all[j], cat);
    let ghost total = all.len() as int;
    let n = slide_options.len();
    proof {
        lemma_scan(0, total, p);
    }
    let mut i: usize = 0;
    while i < n
        invariant
            n == slide_options@.len(),
            total == all.len(),
            all == texts(slide_options@) + texts(global_options@),
            p == (|j: int| in_category(all[j], cat)),
            i <= n,
            scan(i as int, total, p) == scan(0, total, p),
        decreases n - i,
    {
        let o = &slide_options[i];
        assert(o@ == all[i as int]);
        if in_category_exec(o.as_str(), cat) {
            return Some(o.clone());
        }
        i = i + 1;
    }
    let mut k: usize = 0;
    while k < global_options.len()
        invariant
            n == slide_options@.len(),
            total == all.len(),
            all == texts(slide_options@) + texts(global_options@),
            p == (|j: int| in_category(all[j], cat)),
            k <= global_options.len(),
            scan(n + k, total, p) == scan(0, total, p),
        decreases global_options.len() - k,
    {
        let o = &global_options[k];
        assert(o@ == all[n + k]);
        if in_category_exec(o.as_str(), cat) {
            return Some(o.clone());
        }
        k = k + 1;
    }
    None
}

/// The background image that the options name, if any.
pub open spec fn background_image_of(slide: Seq<Seq<char>>, global: Seq<Seq<char>>) -> Option<
    Seq<char>,
> {
    winner(slide, global, Category::BackgroundImage)
}

/// The image file that the options name as background, if any.
pub fn get_background_image(slide_options: &[String], global_options: &[String]) -> (r: Option<
    String,
>)
    ensures
        opt_text(r) == background_image_of(texts(slide_options@), texts(global_options@)),
{
    winning_option(slide_options, global_options, Category::BackgroundImage)
}

/// The background color that the options name, if any.
pub open spec fn background_color_of(slide: Seq<Seq<char>>, global: Seq<Seq<char>>) -> Option<
    RenderColor,
> {
    match winner(slide, global, Category::BackgroundColor) {
        Some(o) => color_named(lowercase_of(o)),
        None => None,
    }
}

/// The background color that the options name, if any.
pub fn get_background_color(slide_options: &[String], global_options: &[String]) -> (r: Option<
    RenderColor,
>)
    ensures
        r == background_color_of(texts(slide_options@), texts(global_options@)),
{
    match winning_option(slide_options, global_options, Category::BackgroundColor) {
        Some(o) => parse_color(o.as_str()),
        None => None,
    }
}

/// The text position that the options call for.
pub open spec fn text_position_of(slide: Seq<Seq<char>>, global: Seq<Seq<char>>) -> TextPosition {
    match winner(slide, global, Category::TextPosition) {
        Some(o) => position_keyword(o).unwrap_or(TextPosition::Center),
        None => TextPosition::Center,
    }
}

/// Where the text block goes; centered where no option says.
pub fn get_text_position(slide_options: &[String], global_options: &[String]) -> (r:
    TextPosition)
    ensures
        r == text_position_of(texts(slide_options@), texts(global_options@)),
{
    match winning_option(slide_options, global_options, Category::TextPosition) {
        Some(o) => match position_of(o.as_str()) {
            Some(p) => p,
            None => TextPosition::Center,
        },
        None => TextPosition::Center,
    }
}

/// The alignment that the options call for.
pub open spec fn text_align_of(slide: Seq<Seq<char>>, global: Seq<Seq<char>>) -> TextAlign {
    match winner(slide, global, Category::TextAlign) {
        Some(o) => align_setting(o).unwrap_or(TextAlign::Left),
        None => TextAlign::Left,
    }
}

/// How lines are aligned; left where no option says.
pub fn get_text_align(slide_options: &[String], global_options: &[String]) -> (r: TextAlign)
    ensures
        r == text_align_of(texts(slide_options@), texts(global_options@)),
{
    match winning_option(slide_options, global_options, Category::TextAlign) {
        Some(o) => {
            let s = o.as_str();
            if same_text(s, "text-align=left") {
                TextAlign::Left
            } else if same_text(s, "text-align=center") {
                TextAlign::Center
            } else {
                TextAlign::Right
            }
        },
        None => TextAlign::Left,
    }
}

/// The background scale that the options call for.
pub open spec fn background_scale_of(slide: Seq<Seq<char>>, global: Seq<Seq<char>>) -> BackgroundScale {
    match winner(slide, global, Category::BackgroundScale) {
        Some(o) => scale_keyword(o).unwrap_or(BackgroundScale::Fit),
        None => BackgroundScale::Fit,
    }
}

/// How a background image is scaled; fitted where no option says.
pub fn get_background_scale(slide_options: &[String], global_options: &[String]) -> (r:
    BackgroundScale)
    ensures
        r == background_scale_of(texts(slide_options@), texts(global_options@)),
{
    match winning_option(slide_options, global_options, Category::BackgroundScale) {
        Some(o) => {
            let s = o.as_str();
            if same_text(s, "fill") {
                BackgroundScale::Fill
            } else if same_text(s, "fit") {
                BackgroundScale::Fit
            } else if same_text(s, "stretch") {
                BackgroundScale::Stretch
            } else {
                BackgroundScale::Unscaled
            }
        },
        None => BackgroundScale::Fit,
    }
}

/// The command that the options hold.
pub open spec fn command_of(slide: Seq<Seq<char>>, global: Seq<Seq<char>>) -> Option<Seq<char>> {
    match winner(slide, global, Category::Command) {
        Some(o) => command_setting(o),
        None => None,
    }
}

/// The command that a `command=` option holds, if any.
pub fn get_command(slide_options: &[String], global_options: &[String]) -> (r: Option<String>)
    ensures
        opt_text(r) == command_of(texts(slide_options@), texts(global_options@)),
{
    match winning_option(slide_options, global_options, Category::Command) {
        Some(o) => {
            let s = o.as_str();
            proof {
                reveal_strlit("command=");
            }
            let n = s.unicode_len();
            Some(s.substring_char(8, n).to_owned())
        },
        None => None,
    }
}

/// The options turn the run markup off.
pub open spec fn no_markup_of(slide: Seq<Seq<char>>, global: Seq<Seq<char>>) -> bool {
    match winner(slide, global, Category::Markup) {
        Some(o) => markup_setting(o) == Some(true),
        None => false,
    }
}

/// Whether the options turn the run markup off.
pub fn has_no_markup(slide_options: &[String], global_options: &[String]) -> (r: bool)
    ensures
        r == no_markup_of(texts(slide_options@), texts(global_options@)),
{
    match winning_option(slide_options, global_options, Category::Markup) {
        Some(o) => same_text(o.as_str(), "no-markup"),
        None => false,
    }
}

} // verus!
