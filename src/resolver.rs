//! The layout resolver: from a parsed deck and a canvas size to resolved
//! slides.
use vstd::prelude::*;
use vstd::string::*;

use crate::markup::{markup_runs, parse_pango_markup, runs_view, ParsedStyle};
use crate::options::{
    background_color_of, background_image_of, background_scale_of, get_background_color,
    get_background_image, get_background_scale, get_text_align, get_text_position,
    has_no_markup, no_markup_of, text_align_of, text_position_of, texts,
};
use crate::parser::{DeckModel, Slide, SlideDeck, SlideModel};
use crate::resolved::{
    plain_span, resolved_models, span_models, ResolvedDeck, ResolvedDeckModel, ResolvedSlide,
    ResolvedSlideModel, TextSpan, TextSpanModel,
};
use crate::text::chars_of;
use crate::types::{
    BackgroundModel, BackgroundSpec, FontStyle, FontWeight, RenderColor, RenderDimensions,
    TextDecoration,
};

verus! {

/// What a deck is resolved for.
#[derive(Debug, Clone, Copy, PartialEq, Eq, Structural)]
pub struct ResolveConfig {
    pub dimensions: RenderDimensions,
}

impl Default for ResolveConfig {
    fn default() -> (c: ResolveConfig)
        ensures
            c == (ResolveConfig { dimensions: RenderDimensions { width: 1024, height: 768 } }),
    {
        ResolveConfig { dimensions: RenderDimensions::default() }
    }
}

/// How many line feeds a text holds.
pub open spec fn newline_count(t: Seq<char>) -> nat
    decreases t.len(),
{
    if t.len() == 0 {
        0
    } else {
        newline_count(t.drop_last()) + if t.last() == '\n' {
            1nat
        } else {
            0nat
        }
    }
}

/// How many lines `str::lines` finds in a text: a final line feed ends the
/// last line rather than starting another, and an empty text has none.
pub open spec fn line_count(t: Seq<char>) -> nat {
    newline_count(t) + if t.len() > 0 && t.last() != '\n' {
        1nat
    } else {
        0nat
    }
}

/// The largest and smallest base size, in thousandths of a pixel.
pub const MAX_BASE_SIZE: u32 = 120000;

pub const MIN_BASE_SIZE: u32 = 30000;

/// The base size for `chars` characters on `lines` lines on a canvas of
/// `width` by `height` pixels, in thousandths of a pixel, rounded down.
///
/// The text may fill 90% of the width and 80% of the height; a character is
/// taken to be 0.6 of the size wide and a line 1.2 of the size high. So the
/// width allows `1.5 * width / chars_per_line`, with at least one character
/// per line, and the height allows `2 * height / (3 * lines)`. The smaller of
/// the two is held between 30 and 120 pixels. Empty text gets 60 pixels.
pub open spec fn fit_font_size(chars: nat, lines: nat, width: nat, height: nat) -> nat {
    if chars == 0 {
        60000
    } else {
        let l = if lines == 0 {
            1
        } else {
            lines
        };
        let by_width = if chars <= l {
            1500 * width
        } else {
            1500 * width * l / chars
        };
        let by_height = 2000 * height / (3 * l);
        let m = if by_width < by_height {
            by_width
        } else {
            by_height
        };
        if m < 30000 {
            30000
        } else if m > 120000 {
            120000
        } else {
            m
        }
    }
}

/// The base size for a text on a canvas.
pub open spec fn base_font_size(text: Seq<char>, dimensions: RenderDimensions) -> nat {
    fit_font_size(text.len(), line_count(text), dimensions.width as nat, dimensions.height as nat)
}

fn newlines_in(c: &Vec<char>) -> (r: usize)
    ensures
        r == newline_count(c@),
        r <= c.len(),
        c.len() > 0 && c@.last() != '\n' ==> r < c.len(),
{
    let mut n: usize = 0;
    let mut i: usize = 0;
    while i < c.len()
        invariant
            i <= c.len(),
            n <= i,
            i > 0 && c@[i - 1] != '\n' ==> n < i,
            n == newline_count(c@.subrange(0, i as int)),
        decreases c.len() - i,
    {
        assert(c@.subrange(0, i + 1).drop_last() =~= c@.subrange(0, i as int));
        if c[i] == '\n' {
            n = n + 1;
        }
        i = i + 1;
    }
    assert(c@.subrange(0, c.len() as int) =~= c@);
    n
}

/// The base size of the text of a slide, as [`base_font_size`] states.
pub fn calculate_base_font_size(content: &str, dimensions: &RenderDimensions) -> (r: u32)
    ensures
        r == base_font_size(content@, *dimensions),
        content@.len() > 0 ==> MIN_BASE_SIZE <= r <= MAX_BASE_SIZE,
{
    let c = chars_of(content);
    let chars = c.len();
    if chars == 0 {
        return 60000;
    }
    let newlines = newlines_in(&c);
    let lines: usize = if c[chars - 1] != '\n' {
        newlines + 1
    } else {
        newlines
    };
    let l: u128 = if lines == 0 {
        1
    } else {
        lines as u128
    };
    let w = dimensions.width as u128;
    let h = dimensions.height as u128;
    let n = chars as u128;
    assert(1500 * w <= 1500 * 0xffff_ffffu128);
    assert(1500 * w * l <= 1500 * 0xffff_ffffu128 * 0xffff_ffff_ffff_ffffu128) by (nonlinear_arith)
        requires
            w <= 0xffff_ffffu128,
            l <= 0xffff_ffff_ffff_ffffu128,
    ;
    let by_width: u128 = if n <= l {
        1500 * w
    } else {
        1500 * w * l / n
    };
    let by_height: u128 = 2000 * h / (3 * l);
    let m = if by_width < by_height {
        by_width
    } else {
        by_height
    };
    if m < 30000 {
        30000
    } else if m > 120000 {
        120000
    } else {
        m as u32
    }
}

/// A size after `steps` scalings by 0.7, each rounded down.
pub open spec fn scaled_size(size: nat, steps: nat) -> nat
    decreases steps,
{
    if steps == 0 {
        size
    } else {
        scaled_size(size, (steps - 1) as nat) * 7 / 10
    }
}

fn scale_size(size: u32, steps: usize) -> (r: u32)
    ensures
        r == scaled_size(size as nat, steps as nat),
{
    let mut v: u32 = size;
    let mut i: usize = 0;
    while i < steps
        invariant
            i <= steps,
            v == scaled_size(size as nat, i as nat),
        decreases steps - i,
    {
        v = ((v as u64) * 7 / 10) as u32;
        i = i + 1;
    }
    v
}

/// The resolved span of a run: a size of its own or the base size, scaled
/// for each enclosing `sup` or `sub`; bold, italic and decorations as the
/// style says; its color, or white.
pub open spec fn span_of(text: Seq<char>, style: ParsedStyle, base: u32) -> TextSpanModel {
    let size = match style.font_size {
        Some(n) => n,
        None => base,
    };
    TextSpanModel {
        text: text,
        font_size: scaled_size(size as nat, style.scale_steps as nat) as u32,
        weight: if style.bold {
            FontWeight::Bold
        } else {
            FontWeight::Normal
        },
        style: if style.italic {
            FontStyle::Italic
        } else {
            FontStyle::Normal
        },
        decoration: TextDecoration { underline: style.underline, strikethrough: style.strikethrough },
        color: match style.color {
            Some(c) => c,
            None => RenderColor::spec_white(),
        },
    }
}

proof fn lemma_scaled_le(size: nat, steps: nat)
    ensures
        scaled_size(size, steps) <= size,
    decreases steps,
{
    if steps > 0 {
        lemma_scaled_le(size, (steps - 1) as nat);
    }
}

fn style_to_text_span(text: String, style: ParsedStyle, base_font_size: u32) -> (r: TextSpan)
    ensures
        r@ == span_of(text@, style, base_font_size),
{
    let size = match style.font_size {
        Some(n) => n,
        None => base_font_size,
    };
    TextSpan {
        text,
        font_size: scale_size(size, style.scale_steps),
        weight: if style.bold {
            FontWeight::Bold
        } else {
            FontWeight::Normal
        },
        style: if style.italic {
            FontStyle::Italic
        } else {
            FontStyle::Normal
        },
        decoration: TextDecoration { underline: style.underline, strikethrough: style.strikethrough },
        color: match style.color {
            Some(c) => c,
            None => RenderColor::white(),
        },
    }
}

/// The text of runs one after another.
pub open spec fn plain_text(runs: Seq<(Seq<char>, ParsedStyle)>) -> Seq<char>
    decreases runs.len(),
{
    if runs.len() == 0 {
        Seq::empty()
    } else {
        plain_text(runs.drop_last()) + runs.last().0
    }
}

/// The background that the options call for: the image where one is named,
/// else the color, else dark gray.
pub open spec fn background_of(slide: Seq<Seq<char>>, global: Seq<Seq<char>>) -> BackgroundModel {
    match background_image_of(slide, global) {
        Some(p) => BackgroundModel::Image { path: p, scale: background_scale_of(slide, global) },
        None => match background_color_of(slide, global) {
            Some(c) => BackgroundModel::SolidColor(c),
            None => BackgroundModel::SolidColor(RenderColor::spec_dark_gray()),
        },
    }
}

/// The spans of a slide's content: one plain span of the raw content where
/// markup is off, else one span for each run, sized from the base size of
/// the runs' text.
pub open spec fn spans_of(
    content: Seq<char>,
    no_markup: bool,
    dimensions: RenderDimensions,
) -> Seq<TextSpanModel> {
    if no_markup {
        seq![plain_span(content)]
    } else {
        let runs = markup_runs(content);
        let base = base_font_size(plain_text(runs), dimensions) as u32;
        runs.map_values(|r: (Seq<char>, ParsedStyle)| span_of(r.0, r.1, base))
    }
}

/// What a slide resolves to, given the deck's global options.
pub open spec fn resolve_slide_spec(
    slide: SlideModel,
    global: Seq<Seq<char>>,
    dimensions: RenderDimensions,
) -> ResolvedSlideModel {
    ResolvedSlideModel {
        background: background_of(slide.options, global),
        text_spans: spans_of(slide.content, no_markup_of(slide.options, global), dimensions),
        text_position: text_position_of(slide.options, global),
        text_align: text_align_of(slide.options, global),
    }
}

/// What a deck resolves to: each slide in order, and the directory.
pub open spec fn resolve_deck_spec(
    deck: DeckModel,
    presentation_dir: Seq<char>,
    config: ResolveConfig,
) -> ResolvedDeckModel {
    ResolvedDeckModel {
        slides: deck.slides.map_values(
            |s: SlideModel| resolve_slide_spec(s, deck.global_options, config.dimensions),
        ),
        presentation_dir: presentation_dir,
    }
}

fn resolve_spans(runs: Vec<(String, ParsedStyle)>, dimensions: &RenderDimensions) -> (r: Vec<
    TextSpan,
>)
    ensures
        span_models(r@) == ({
            let base = base_font_size(plain_text(runs_view(runs@)), *dimensions) as u32;
            runs_view(runs@).map_values(|p: (Seq<char>, ParsedStyle)| span_of(p.0, p.1, base))
        }),
{
    let ghost rv = runs_view(runs@);
    let mut all = String::new();
    let mut i: usize = 0;
    while i < runs.len()
        invariant
            i <= runs.len(),
            rv == runs_view(runs@),
            all@ == plain_text(rv.subrange(0, i as int)),
        decreases runs.len() - i,
    {
        assert(rv.subrange(0, i + 1).drop_last() =~= rv.subrange(0, i as int));
        all.append(runs[i].0.as_str());
        i = i + 1;
    }
    assert(rv.subrange(0, runs.len() as int) =~= rv);
    let base = calculate_base_font_size(all.as_str(), dimensions);
    let ghost target = rv.map_values(|p: (Seq<char>, ParsedStyle)| span_of(p.0, p.1, base));
    let mut spans: Vec<TextSpan> = Vec::new();
    let mut j: usize = 0;
    while j < runs.len()
        invariant
            j <= runs.len(),
            rv == runs_view(runs@),
            target == rv.map_values(|p: (Seq<char>, ParsedStyle)| span_of(p.0, p.1, base)),
            span_models(spans@) == target.subrange(0, j as int),
        decreases runs.len() - j,
    {
        let text = runs[j].0.clone();
        let style = runs[j].1;
        let span = style_to_text_span(text, style, base);
        assert(rv[j as int] == (runs@[j as int].0@, runs@[j as int].1));
        assert(target[j as int] == span_of(rv[j as int].0, rv[j as int].1, base));
        let ghost before = spans@;
        let ghost m = span@;
        spans.push(span);
        assert(span_models(spans@) =~= span_models(before).push(m));
        assert(span_models(spans@) =~= target.subrange(0, j + 1));
        j = j + 1;
    }
    assert(target.subrange(0, runs.len() as int) =~= target);
    spans
}

/// Resolves one slide against the deck's global options.
pub fn resolve_slide(slide: &Slide, global_options: &[String], config: &ResolveConfig) -> (r:
    ResolvedSlide)
    ensures
        r@ == resolve_slide_spec(slide@, texts(global_options@), config.dimensions),
{
    let opts = slide.options.as_slice();
    let text_position = get_text_position(opts, global_options);
    let text_align = get_text_align(opts, global_options);
    let no_markup = has_no_markup(opts, global_options);
    let background = match get_background_image(opts, global_options) {
        Some(path) => {
            let scale = get_background_scale(opts, global_options);
            BackgroundSpec::Image { path, scale }
        },
        None => match get_background_color(opts, global_options) {
            Some(color) => BackgroundSpec::SolidColor(color),
            None => BackgroundSpec::SolidColor(RenderColor::dark_gray()),
        },
    };
    let text_spans = if no_markup {
        let v = vec![TextSpan::new(slide.content.as_str())];
        assert(span_models(v@) =~= seq![plain_span(slide.content@)]);
        v
    } else {
        let runs = parse_pango_markup(slide.content.as_str());
        resolve_spans(runs, &config.dimensions)
    };
    ResolvedSlide { background, text_spans, text_position, text_align }
}

/// Resolves every slide of a deck, in order, for the canvas that `config`
/// names.
pub fn resolve_deck(deck: &SlideDeck, presentation_dir: &str, config: &ResolveConfig) -> (r:
    ResolvedDeck)
    ensures
        r@ == resolve_deck_spec(deck@, presentation_dir@, *config),
{
    let ghost target = resolve_deck_spec(deck@, presentation_dir@, *config).slides;
    let mut slides: Vec<ResolvedSlide> = Vec::new();
    let mut i: usize = 0;
    while i < deck.slides.len()
        invariant
            i <= deck.slides.len(),
            target == resolve_deck_spec(deck@, presentation_dir@, *config).slides,
            resolved_models(slides@) == target.subrange(0, i as int),
        decreases deck.slides.len() - i,
    {
        let s = resolve_slide(&deck.slides[i], deck.global_options.as_slice(), config);
        assert(deck@.slides[i as int] == deck.slides@[i as int]@);
        assert(target[i as int] == resolve_slide_spec(
            deck@.slides[i as int],
            deck@.global_options,
            config.dimensions,
        ));
        let ghost before = slides@;
        let ghost m = s@;
        slides.push(s);
        assert(resolved_models(slides@) =~= resolved_models(before).push(m));
        assert(resolved_models(slides@) =~= target.subrange(0, i + 1));
        i = i + 1;
    }
    assert(resolved_models(slides@) =~= target);
    ResolvedDeck { slides, presentation_dir: presentation_dir.to_owned() }
}

} // verus!
