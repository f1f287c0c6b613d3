//! The deck grammar.
//!
//! A deck opens with global options, `[token]` entries that blank space and
//! `#` comments may separate. Each slide then starts with a header: a run of
//! `-`, `[token]` options, and blank space or comments; its content runs up
//! to the line feed before the next line that starts with `-`, or to the end.
//!
//! Each parser takes the text to read and gives back what is left of it with
//! what it read, or a [`ParseError`].
use vstd::prelude::*;
use vstd::string::*;

use crate::options::texts;
use crate::text::{chars_of, find, find_from, is_space, lemma_scan, stop_at, Stop};

verus! {

/// Why a parser could not read its construct at the start of the text.
#[derive(Debug, Clone, Copy, PartialEq, Eq, Structural)]
pub enum ParseError {
    /// An option must start with `[`.
    ExpectedOpenBracket,
    /// An option's `[` has no `]` after it.
    UnclosedBracket,
    /// A slide header must start with `-`.
    ExpectedHyphen,
}

/// One slide: the options of its header and its raw content.
#[derive(Debug, Clone, PartialEq)]
pub struct Slide {
    pub options: Vec<String>,
    pub content: String,
}

/// The whole document: the global options and the slides in order.
#[derive(Debug, Clone, PartialEq)]
pub struct SlideDeck {
    pub global_options: Vec<String>,
    pub slides: Vec<Slide>,
}

pub struct SlideModel {
    pub options: Seq<Seq<char>>,
    pub content: Seq<char>,
}

pub struct DeckModel {
    pub global_options: Seq<Seq<char>>,
    pub slides: Seq<SlideModel>,
}

impl View for Slide {
    type V = SlideModel;

    open spec fn view(&self) -> SlideModel {
        SlideModel { options: texts(self.options@), content: self.content@ }
    }
}

/// The model of each slide.
pub open spec fn slide_models(v: Seq<Slide>) -> Seq<SlideModel> {
    v.map_values(|s: Slide| s@)
}

impl View for SlideDeck {
    type V = DeckModel;

    open spec fn view(&self) -> DeckModel {
        DeckModel { global_options: texts(self.global_options@), slides: slide_models(self.slides@) }
    }
}

/// Where a `#` comment at `i`, with its line ending (`\n` or `\r\n`), ends. A
/// comment needs that line ending, and a lone `\r` stops it.
pub open spec fn comment_end(s: Seq<char>, i: int) -> Option<int> {
    if 0 <= i < s.len() && s[i] == '#' {
        let k = find(s, i + 1, Stop::LineBreak);
        if k < s.len() && s[k] == '\n' {
            Some(k + 1)
        } else if k + 1 < s.len() && s[k] == '\r' && s[k + 1] == '\n' {
            Some(k + 2)
        } else {
            None
        }
    } else {
        None
    }
}

/// Where the blank space and comments that start at `i` end.
pub open spec fn skip_blank(s: Seq<char>, i: int) -> int
    decreases s.len() - i,
{
    if 0 <= i < s.len() && is_space(s[i]) {
        skip_blank(s, i + 1)
    } else {
        match comment_end(s, i) {
            Some(j) => if i < j <= s.len() {
                skip_blank(s, j)
            } else {
                i
            },
            None => i,
        }
    }
}

/// The option at `i`: blank space, `[`, text, `]`. Gives where its text
/// starts and ends; the option ends one past that.
pub open spec fn option_at(s: Seq<char>, i: int) -> Option<(int, int)> {
    let a = find(s, i, Stop::NonSpace);
    if a < s.len() && s[a] == '[' {
        let b = find(s, a + 1, Stop::Char(']'));
        if b < s.len() {
            Some((a + 1, b))
        } else {
            None
        }
    } else {
        None
    }
}

/// Why there is no option at `i`.
pub open spec fn option_error(s: Seq<char>, i: int) -> ParseError {
    let a = find(s, i, Stop::NonSpace);
    if a < s.len() && s[a] == '[' {
        ParseError::UnclosedBracket
    } else {
        ParseError::ExpectedOpenBracket
    }
}

/// The options one after another from `i`, and where the last one ends.
pub open spec fn options_from(s: Seq<char>, i: int) -> (Seq<Seq<char>>, int)
    decreases s.len() - i,
{
    match option_at(s, i) {
        Some((a, b)) => if 0 <= i < b + 1 <= s.len() {
            let rest = options_from(s, b + 1);
            (seq![s.subrange(a, b)] + rest.0, rest.1)
        } else {
            (Seq::empty(), i)
        },
        None => (Seq::empty(), i),
    }
}

/// The global options from `i`, each after blank space or comments, and where
/// the blank space after the last one ends.
pub open spec fn settings_from(s: Seq<char>, i: int) -> (Seq<Seq<char>>, int)
    decreases s.len() - i,
{
    let w = skip_blank(s, i);
    match option_at(s, w) {
        Some((a, b)) => if 0 <= i < b + 1 <= s.len() {
            let rest = settings_from(s, b + 1);
            (seq![s.subrange(a, b)] + rest.0, rest.1)
        } else {
            (Seq::empty(), w)
        },
        None => (Seq::empty(), w),
    }
}

/// The slide header at `i`: its options and where it ends.
pub open spec fn header_at(s: Seq<char>, i: int) -> Option<(Seq<Seq<char>>, int)> {
    if 0 <= i < s.len() && s[i] == '-' {
        let opts = options_from(s, find(s, i, Stop::NonHyphen));
        Some((opts.0, skip_blank(s, opts.1)))
    } else {
        None
    }
}

/// Where the content that starts at `i` ends, and where the text after it
/// starts: one past the line feed before the next `-`, or the end.
pub open spec fn content_at(s: Seq<char>, i: int) -> (int, int) {
    let k = find(s, i, Stop::SlideBreak);
    if k < s.len() {
        (k, k + 1)
    } else {
        (s.len() as int, s.len() as int)
    }
}

/// The slide at `i` and where it ends.
pub open spec fn slide_at(s: Seq<char>, i: int) -> Option<(SlideModel, int)> {
    match header_at(s, i) {
        Some((opts, p)) => {
            let c = content_at(s, p);
            Some((SlideModel { options: opts, content: s.subrange(p, c.0) }, c.1))
        },
        None => None,
    }
}

/// The slides one after another from `i`, and where the last one ends.
pub open spec fn slides_from(s: Seq<char>, i: int) -> (Seq<SlideModel>, int)
    decreases s.len() - i,
{
    match slide_at(s, i) {
        Some((sl, n)) => if 0 <= i < n <= s.len() {
            let rest = slides_from(s, n);
            (seq![sl] + rest.0, rest.1)
        } else {
            (Seq::empty(), i)
        },
        None => (Seq::empty(), i),
    }
}

/// The deck that a text holds, and where reading it stopped.
pub open spec fn deck_of(s: Seq<char>) -> (DeckModel, int) {
    let g = settings_from(s, 0);
    let sl = slides_from(s, g.1);
    (DeckModel { global_options: g.0, slides: sl.0 }, sl.1)
}

fn comment_end_exec(c: &Vec<char>, i: usize) -> (r: Option<usize>)
    requires
        i <= c.len(),
    ensures
        match r {
            Some(j) => comment_end(c@, i as int) == Some(j as int) && i < j <= c.len(),
            None => comment_end(c@, i as int) is None,
        },
{
    if i < c.len() && c[i] == '#' {
        let k = find_from(c, i + 1, Stop::LineBreak);
        if k < c.len() && c[k] == '\n' {
            return Some(k + 1);
        } else if k < c.len() && c[k] == '\r' && k + 1 < c.len() && c[k + 1] == '\n' {
            return Some(k + 2);
        }
    }
    None
}

fn skip_blank_exec(c: &Vec<char>, i: usize) -> (r: usize)
    requires
        i <= c.len(),
    ensures
        r == skip_blank(c@, i as int),
        i <= r <= c.len(),
{
    let mut p = i;
    loop
        invariant
            i <= p <= c.len(),
            skip_blank(c@, p as int) == skip_blank(c@, i as int),
        decreases c.len() - p,
    {
        if p < c.len() && (c[p] == ' ' || c[p] == '\t' || c[p] == '\r' || c[p] == '\n') {
            p = p + 1;
        } else {
            match comment_end_exec(c, p) {
                Some(j) => {
                    p = j;
                },
                None => {
                    return p;
                },
            }
        }
    }
}

fn option_exec(c: &Vec<char>, i: usize) -> (r: Result<(usize, usize), ParseError>)
    requires
        i <= c.len(),
    ensures
        match r {
            Ok((a, b)) => option_at(c@, i as int) == Some((a as int, b as int)) && i < a <= b
                < c.len(),
            Err(e) => option_at(c@, i as int) is None && e == option_error(c@, i as int),
        },
{
    let a = find_from(c, i, Stop::NonSpace);
    if a < c.len() && c[a] == '[' {
        let b = find_from(c, a + 1, Stop::Char(']'));
        if b < c.len() {
            Ok((a + 1, b))
        } else {
            Err(ParseError::UnclosedBracket)
        }
    } else {
        Err(ParseError::ExpectedOpenBracket)
    }
}

fn options_exec(text: &str, c: &Vec<char>, i: usize) -> (r: (Vec<String>, usize))
    requires
        c@ == text@,
        i <= c.len(),
    ensures
        (texts(r.0@), r.1 as int) == options_from(c@, i as int),
        i <= r.1 <= c.len(),
{
    let mut found: Vec<String> = Vec::new();
    let mut p = i;
    loop
        invariant
            c@ == text@,
            i <= p <= c.len(),
            texts(found@) + options_from(c@, p as int).0 == options_from(c@, i as int).0,
            options_from(c@, p as int).1 == options_from(c@, i as int).1,
        decreases c.len() - p,
    {
        match option_exec(c, p) {
            Ok((a, b)) => {
                let ghost before = found@;
                found.push(text.substring_char(a, b).to_owned());
                proof {
                    assert(texts(found@) =~= texts(before).push(c@.subrange(a as int, b as int)));
                    assert(texts(found@) + options_from(c@, b + 1).0 =~= texts(before)
                        + options_from(c@, p as int).0);
                }
                p = b + 1;
            },
            Err(_) => {
                assert(texts(found@) =~= options_from(c@, i as int).0);
                return (found, p);
            },
        }
    }
}

fn settings_exec(text: &str, c: &Vec<char>, i: usize) -> (r: (Vec<String>, usize))
    requires
        c@ == text@,
        i <= c.len(),
    ensures
        (texts(r.0@), r.1 as int) == settings_from(c@, i as int),
        i <= r.1 <= c.len(),
{
    let mut found: Vec<String> = Vec::new();
    let mut p = i;
    loop
        invariant
            c@ == text@,
            i <= p <= c.len(),
            texts(found@) + settings_from(c@, p as int).0 == settings_from(c@, i as int).0,
            settings_from(c@, p as int).1 == settings_from(c@, i as int).1,
        decreases c.len() - p,
    {
        let w = skip_blank_exec(c, p);
        match option_exec(c, w) {
            Ok((a, b)) => {
                let ghost before = found@;
                found.push(text.substring_char(a, b).to_owned());
                proof {
                    assert(texts(found@) =~= texts(before).push(c@.subrange(a as int, b as int)));
                    assert(texts(found@) + settings_from(c@, b + 1).0 =~= texts(before)
                        + settings_from(c@, p as int).0);
                }
                p = b + 1;
            },
            Err(_) => {
                assert(texts(found@) =~= settings_from(c@, i as int).0);
                return (found, w);
            },
        }
    }
}

fn header_exec(text: &str, c: &Vec<char>, i: usize) -> (r: Result<(Vec<String>, usize), ParseError>)
    requires
        c@ == text@,
        i <= c.len(),
    ensures
        match r {
            Ok((opts, p)) => header_at(c@, i as int) == Some((texts(opts@), p as int)) && i < p
                <= c.len(),
            Err(e) => header_at(c@, i as int) is None && e == ParseError::ExpectedHyphen,
        },
{
    if i < c.len() && c[i] == '-' {
        let h = find_from(c, i, Stop::NonHyphen);
        proof {
            lemma_scan(i as int, c@.len() as int, stop_at(c@, Stop::NonHyphen));
        }
        let (opts, p) = options_exec(text, c, h);
        let e = skip_blank_exec(c, p);
        Ok((opts, e))
    } else {
        Err(ParseError::ExpectedHyphen)
    }
}

fn content_exec(c: &Vec<char>, i: usize) -> (r: (usize, usize))
    requires
        i <= c.len(),
    ensures
        (r.0 as int, r.1 as int) == content_at(c@, i as int),
        i <= r.0 <= r.1 <= c.len(),
{
    let k = find_from(c, i, Stop::SlideBreak);
    if k < c.len() {
        (k, k + 1)
    } else {
        (c.len(), c.len())
    }
}

fn slide_exec(text: &str, c: &Vec<char>, i: usize) -> (r: Result<(Slide, usize), ParseError>)
    requires
        c@ == text@,
        i <= c.len(),
    ensures
        match r {
            Ok((sl, n)) => slide_at(c@, i as int) == Some((sl@, n as int)) && i < n <= c.len(),
            Err(e) => slide_at(c@, i as int) is None && e == ParseError::ExpectedHyphen,
        },
{
    match header_exec(text, c, i) {
        Ok((options, p)) => {
            let (e, n) = content_exec(c, p);
            let content = text.substring_char(p, e).to_owned();
            Ok((Slide { options, content }, n))
        },
        Err(e) => Err(e),
    }
}

fn slides_exec(text: &str, c: &Vec<char>, i: usize) -> (r: (Vec<Slide>, usize))
    requires
        c@ == text@,
        i <= c.len(),
    ensures
        (slide_models(r.0@), r.1 as int) == slides_from(c@, i as int),
        i <= r.1 <= c.len(),
{
    let mut found: Vec<Slide> = Vec::new();
    let mut p = i;
    loop
        invariant
            c@ == text@,
            i <= p <= c.len(),
            slide_models(found@) + slides_from(c@, p as int).0 == slides_from(c@, i as int).0,
            slides_from(c@, p as int).1 == slides_from(c@, i as int).1,
        decreases c.len() - p,
    {
        match slide_exec(text, c, p) {
            Ok((sl, n)) => {
                let ghost before = found@;
                let ghost m = sl@;
                found.push(sl);
                proof {
                    assert(slide_models(found@) =~= slide_models(before).push(m));
                    assert(slide_models(found@) + slides_from(c@, n as int).0 =~= slide_models(
                        before,
                    ) + slides_from(c@, p as int).0);
                }
                p = n;
            },
            Err(_) => {
                assert(slide_models(found@) =~= slides_from(c@, i as int).0);
                return (found, p);
            },
        }
    }
}

/// Reads the blank space and `#` comments at the start of `input`; never fails.
pub fn whitespace_or_comment(input: &str) -> (r: Result<(&str, &str), ParseError>)
    ensures
        r matches Ok((rest, read)) && rest@ == input@.subrange(
            skip_blank(input@, 0),
            input@.len() as int,
        ) && read@.len() == 0,
{
    let c = chars_of(input);
    let p = skip_blank_exec(&c, 0);
    Ok((input.substring_char(p, c.len()), input.substring_char(0, 0)))
}

/// Reads one `[token]` option, after any blank space, and gives its text.
pub fn option(input: &str) -> (r: Result<(&str, &str), ParseError>)
    ensures
        match option_at(input@, 0) {
            Some((a, b)) => r matches Ok((rest, text)) && rest@ == input@.subrange(
                b + 1,
                input@.len() as int,
            ) && text@ == input@.subrange(a, b),
            None => r == Err::<(&str, &str), ParseError>(option_error(input@, 0)),
        },
{
    let c = chars_of(input);
    match option_exec(&c, 0) {
        Ok((a, b)) => Ok((input.substring_char(b + 1, c.len()), input.substring_char(a, b))),
        Err(e) => Err(e),
    }
}

/// Reads the global options at the start of a deck; never fails.
pub fn settings(input: &str) -> (r: Result<(&str, Vec<String>), ParseError>)
    ensures
        r matches Ok((rest, opts)) && (texts(opts@), input@.len() - rest@.len()) == settings_from(
            input@,
            0,
        ) && rest@ == input@.subrange(settings_from(input@, 0).1, input@.len() as int),
{
    let c = chars_of(input);
    let (opts, p) = settings_exec(input, &c, 0);
    Ok((input.substring_char(p, c.len()), opts))
}

/// Reads a slide header and gives its options.
pub fn header(input: &str) -> (r: Result<(&str, Vec<String>), ParseError>)
    ensures
        match header_at(input@, 0) {
            Some((opts, e)) => r matches Ok((rest, o)) && texts(o@) == opts && rest@
                == input@.subrange(e, input@.len() as int),
            None => r == Err::<(&str, Vec<String>), ParseError>(ParseError::ExpectedHyphen),
        },
{
    let c = chars_of(input);
    match header_exec(input, &c, 0) {
        Ok((opts, e)) => Ok((input.substring_char(e, c.len()), opts)),
        Err(e) => Err(e),
    }
}

/// Reads a slide's content up to the next slide header; never fails.
pub fn content(input: &str) -> (r: Result<(&str, &str), ParseError>)
    ensures
        r matches Ok((rest, read)) && read@ == input@.subrange(0, content_at(input@, 0).0)
            && rest@ == input@.subrange(content_at(input@, 0).1, input@.len() as int),
{
    let c = chars_of(input);
    let (e, n) = content_exec(&c, 0);
    Ok((input.substring_char(n, c.len()), input.substring_char(0, e)))
}

/// Reads one slide: its header, then its content.
pub fn slide(input: &str) -> (r: Result<(&str, Slide), ParseError>)
    ensures
        match slide_at(input@, 0) {
            Some((sl, n)) => r matches Ok((rest, s)) && s@ == sl && rest@ == input@.subrange(
                n,
                input@.len() as int,
            ),
            None => r == Err::<(&str, Slide), ParseError>(ParseError::ExpectedHyphen),
        },
{
    let c = chars_of(input);
    match slide_exec(input, &c, 0) {
        Ok((sl, n)) => Ok((input.substring_char(n, c.len()), sl)),
        Err(e) => Err(e),
    }
}

/// Reads slides one after another while a header follows; never fails.
pub fn slides(input: &str) -> (r: Result<(&str, Vec<Slide>), ParseError>)
    ensures
        r matches Ok((rest, sl)) && slide_models(sl@) == slides_from(input@, 0).0 && rest@
            == input@.subrange(slides_from(input@, 0).1, input@.len() as int),
{
    let c = chars_of(input);
    let (sl, n) = slides_exec(input, &c, 0);
    Ok((input.substring_char(n, c.len()), sl))
}

/// Reads a whole deck: the global options, then the slides. Never fails;
/// gives back the text after the last slide that could be read.
pub fn parse_deck(input: &str) -> (r: Result<(&str, SlideDeck), ParseError>)
    ensures
        r matches Ok((rest, deck)) && deck@ == deck_of(input@).0 && rest@ == input@.subrange(
            deck_of(input@).1,
            input@.len() as int,
        ),
{
    let c = chars_of(input);
    let (global_options, p) = settings_exec(input, &c, 0);
    let (slides, n) = slides_exec(input, &c, p);
    Ok((input.substring_char(n, c.len()), SlideDeck { global_options, slides }))
}

} // verus!
