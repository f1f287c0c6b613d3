//! Properties that hold of every deck, proved from the contracts of the
//! parser, the option resolver and the layout resolver.
use vstd::prelude::*;

use crate::markup::markup_runs;
use crate::options::{
    background_color_of, background_image_of, background_scale_of, command_of, first_in,
    in_category, no_markup_of, text_align_of, text_position_of, winner, Category,
};
use crate::parser::{deck_of, DeckModel, SlideModel};
use crate::resolver::{
    base_font_size, line_count, newline_count, resolve_deck_spec, resolve_slide_spec, ResolveConfig,
};
use crate::text::{lemma_scan, scan};
use crate::types::RenderDimensions;

verus! {

/// Parsing a text and resolving the deck it holds depend on the text, the
/// directory and the configuration alone: doing it twice gives equal results.
pub proof fn law_resolution_is_deterministic(
    text: Seq<char>,
    dir: Seq<char>,
    config: ResolveConfig,
    text2: Seq<char>,
    dir2: Seq<char>,
    config2: ResolveConfig,
)
    requires
        text == text2,
        dir == dir2,
        config == config2,
    ensures
        deck_of(text) == deck_of(text2),
        resolve_deck_spec(deck_of(text).0, dir, config) == resolve_deck_spec(
            deck_of(text2).0,
            dir2,
            config2,
        ),
{
}

/// Resolution keeps the order of slides: there is one resolved slide for
/// each source slide, and the one at each place comes from the slide at the
/// same place.
pub proof fn law_slide_order_preserved(deck: DeckModel, dir: Seq<char>, config: ResolveConfig, i: int)
    requires
        0 <= i < deck.slides.len(),
    ensures
        resolve_deck_spec(deck, dir, config).slides.len() == deck.slides.len(),
        resolve_deck_spec(deck, dir, config).slides[i] == resolve_slide_spec(
            deck.slides[i],
            deck.global_options,
            config.dimensions,
        ),
{
}

/// With markup on, a slide's spans follow its runs in scan order: one span
/// for each run, with the run's text, at the same place.
pub proof fn law_span_order_preserved(
    slide: SlideModel,
    global: Seq<Seq<char>>,
    dimensions: RenderDimensions,
    j: int,
)
    requires
        !no_markup_of(slide.options, global),
        0 <= j < markup_runs(slide.content).len(),
    ensures
        resolve_slide_spec(slide, global, dimensions).text_spans.len() == markup_runs(
            slide.content,
        ).len(),
        resolve_slide_spec(slide, global, dimensions).text_spans[j].text == markup_runs(
            slide.content,
        )[j].0,
{
}

/// Two scans that agree on every position before the first hit of one of
/// them stop at the same place.
proof fn lemma_scan_agree(k: int, e1: int, p: spec_fn(int) -> bool, e2: int, q: spec_fn(int) -> bool)
    requires
        k <= e1,
        scan(k, e1, p) < e1,
        scan(k, e1, p) < e2,
        forall|j: int| k <= j <= scan(k, e1, p) ==> #[trigger] p(j) == q(j),
    ensures
        scan(k, e2, q) == scan(k, e1, p),
    decreases e1 - k,
{
    lemma_scan(k, e1, p);
    if !p(k) {
        lemma_scan_agree(k + 1, e1, p, e2, q);
    }
}

/// In every category, an option of the category among the slide's options
/// decides it, wherever it stands among them and whatever the global options
/// say: the result is the one that the slide's options give alone.
pub proof fn law_slide_outranks_global(
    slide: Seq<Seq<char>>,
    global: Seq<Seq<char>>,
    cat: Category,
    k: int,
)
    requires
        0 <= k < slide.len(),
        in_category(slide[k], cat),
    ensures
        winner(slide, global, cat) is Some,
        winner(slide, global, cat) == first_in(slide, cat),
        winner(slide, global, cat) == winner(slide, Seq::empty(), cat),
        match cat {
            Category::BackgroundImage => background_image_of(slide, global) == background_image_of(
                slide,
                Seq::empty(),
            ),
            Category::BackgroundColor => background_color_of(slide, global) == background_color_of(
                slide,
                Seq::empty(),
            ),
            Category::BackgroundScale => background_scale_of(slide, global) == background_scale_of(
                slide,
                Seq::empty(),
            ),
            Category::TextPosition => text_position_of(slide, global) == text_position_of(
                slide,
                Seq::empty(),
            ),
            Category::TextAlign => text_align_of(slide, global) == text_align_of(
                slide,
                Seq::empty(),
            ),
            Category::Markup => no_markup_of(slide, global) == no_markup_of(slide, Seq::empty()),
            Category::Command => command_of(slide, global) == command_of(slide, Seq::empty()),
        },
{
    let all = slide + global;
    let p = |j: int| in_category(all[j], cat);
    let q = |j: int| in_category(slide[j], cat);
    lemma_scan(0, all.len() as int, p);
    let r = scan(0, all.len() as int, p);
    assert(p(k));
    assert(r <= k);
    assert forall|j: int| 0 <= j <= r implies #[trigger] p(j) == q(j) by {
        assert(all[j] == slide[j]);
    }
    lemma_scan_agree(0, all.len() as int, p, slide.len() as int, q);
    assert(all[r] == slide[r]);
    assert(slide + Seq::<Seq<char>>::empty() =~= slide);
}

proof fn lemma_no_newlines(t: Seq<char>)
    requires
        forall|i: int| 0 <= i < t.len() ==> t[i] != '\n',
    ensures
        newline_count(t) == 0,
    decreases t.len(),
{
    if t.len() > 0 {
        lemma_no_newlines(t.drop_last());
    }
}

/// On a 1024 by 768 canvas the base size meets its bounds: empty text gets
/// 60 pixels, a single character the largest size, and a single line of more
/// than 51 characters the smallest.
pub proof fn law_font_fit_boundaries(text: Seq<char>)
    ensures
        text.len() == 0 ==> base_font_size(text, RenderDimensions { width: 1024, height: 768 })
            == 60000,
        text.len() == 1 ==> base_font_size(text, RenderDimensions { width: 1024, height: 768 })
            == 120000,
        text.len() > 51 && (forall|i: int| 0 <= i < text.len() ==> text[i] != '\n')
            ==> base_font_size(text, RenderDimensions { width: 1024, height: 768 }) == 30000,
{
    if text.len() == 1 {
        assert(newline_count(text.drop_last()) == 0);
        assert(line_count(text) == 1);
        assert(2000 * 768nat / (3 * 1) == 512000) by (nonlinear_arith);
    }
    if text.len() > 51 && (forall|i: int| 0 <= i < text.len() ==> text[i] != '\n') {
        lemma_no_newlines(text);
        assert(line_count(text) == 1);
        let c = text.len();
        assert(1500 * 1024 * 1 / c < 30000nat) by (nonlinear_arith)
            requires
                c >= 52,
        ;
    }
}

} // verus!
