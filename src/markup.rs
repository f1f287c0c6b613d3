//! The inline run markup: `<b>`, `<i>`, `<u>`, `<s>`, `<sup>`, `<sub>` and
//! `<span font="N" color="name">`, closed by any `</...>`.
//!
//! A scan keeps a stack of styles. Text between tags becomes a run in the
//! style on top of the stack; an opening tag pushes a changed copy of the top,
//! and a closing tag pops whatever is on top, whatever its name, as long as
//! more than one style is left.
use vstd::prelude::*;
use vstd::string::*;

use crate::options::{color_named, lowercase_of, parse_color};
use crate::text::{
    begins_with, chars_of, find, find_from, find_text, find_text_from, lemma_scan, opt_text, same_text,
    starts_with, stop_at, Stop,
};
use crate::types::RenderColor;

verus! {

/// The style of a run as the markup states it.
#[derive(Debug, Clone, Copy, PartialEq, Eq, Structural)]
pub struct ParsedStyle {
    /// A size set by a `span`, in thousandths of a pixel.
    pub font_size: Option<u32>,
    /// How many `sup` or `sub` tags enclose the run; each scales the size by 0.7.
    pub scale_steps: usize,
    pub bold: bool,
    pub italic: bool,
    pub underline: bool,
    pub strikethrough: bool,
    pub color: Option<RenderColor>,
}

pub open spec fn plain_style() -> ParsedStyle {
    ParsedStyle {
        font_size: None,
        scale_steps: 0,
        bold: false,
        italic: false,
        underline: false,
        strikethrough: false,
        color: None,
    }
}

impl Default for ParsedStyle {
    fn default() -> (s: ParsedStyle)
        ensures
            s == plain_style(),
    {
        ParsedStyle {
            font_size: None,
            scale_steps: 0,
            bold: false,
            italic: false,
            underline: false,
            strikethrough: false,
            color: None,
        }
    }
}

/// The value of a decimal digit.
pub open spec fn digit_value(c: char) -> nat {
    (c as u32 - '0' as u32) as nat
}

/// The value of a run of decimal digits.
pub open spec fn digits_value(d: Seq<char>) -> nat
    decreases d.len(),
{
    if d.len() == 0 {
        0
    } else {
        digits_value(d.drop_last()) * 10 + digit_value(d.last())
    }
}

/// The first three digits after a decimal point, in thousandths.
pub open spec fn fraction_milli(f: Seq<char>) -> nat {
    if f.len() == 0 {
        0
    } else if f.len() == 1 {
        digit_value(f[0]) * 100
    } else if f.len() == 2 {
        digit_value(f[0]) * 100 + digit_value(f[1]) * 10
    } else {
        digit_value(f[0]) * 100 + digit_value(f[1]) * 10 + digit_value(f[2])
    }
}

/// The size that a `font` attribute's value gives, in thousandths of a pixel:
/// an optional `+`, digits, and optionally a point and more digits, with at
/// least one digit in all. Digits past the third after the point are dropped.
/// Any other text, or a size beyond `u32::MAX` thousandths, gives none.
pub open spec fn font_size_value(v: Seq<char>) -> Option<u32> {
    let body = if v.len() > 0 && v[0] == '+' {
        v.drop_first()
    } else {
        v
    };
    let p = find(body, 0, Stop::NonDigit);
    let frac = if p < body.len() {
        body.subrange(p + 1, body.len() as int)
    } else {
        Seq::empty()
    };
    let well_formed = (p == body.len() || (body[p] == '.' && find(body, p + 1, Stop::NonDigit)
        == body.len())) && p + frac.len() > 0;
    let milli = digits_value(body.subrange(0, p)) * 1000 + fraction_milli(frac);
    if well_formed && milli <= u32::MAX {
        Some(milli as u32)
    } else {
        None
    }
}

proof fn lemma_digits_step(d: Seq<char>, k: int)
    requires
        0 <= k < d.len(),
    ensures
        digits_value(d.subrange(0, k + 1)) == digits_value(d.subrange(0, k)) * 10 + digit_value(
            d[k],
        ),
{
    assert(d.subrange(0, k + 1).drop_last() =~= d.subrange(0, k));
}

proof fn lemma_digits_grow(d: Seq<char>, k: int, m: int)
    requires
        0 <= k <= m <= d.len(),
    ensures
        digits_value(d.subrange(0, k)) <= digits_value(d.subrange(0, m)),
    decreases m - k,
{
    if k < m {
        lemma_digits_step(d, k);
        lemma_digits_grow(d, k + 1, m);
    }
}

fn digit_of(c: char) -> (r: u64)
    requires
        '0' <= c <= '9',
    ensures
        r == digit_value(c),
        r <= 9,
{
    (c as u32 - '0' as u32) as u64
}

/// The value of the digits in `a..b`, where it is at most 4294967.
fn digits_upto(c: &Vec<char>, a: usize, b: usize) -> (r: Option<u64>)
    requires
        a <= b <= c.len(),
        forall|j: int| a <= j < b ==> '0' <= #[trigger] c@[j] <= '9',
    ensures
        match r {
            Some(w) => w == digits_value(c@.subrange(a as int, b as int)) && w <= 4294967,
            None => digits_value(c@.subrange(a as int, b as int)) > 4294967,
        },
{
    let ghost d = c@.subrange(a as int, b as int);
    let mut whole: u64 = 0;
    let mut i = a;
    while i < b
        invariant
            a <= i <= b <= c.len(),
            d == c@.subrange(a as int, b as int),
            forall|j: int| a <= j < b ==> '0' <= #[trigger] c@[j] <= '9',
            whole == digits_value(d.subrange(0, i - a)),
            whole <= 4294967,
        decreases b - i,
    {
        proof {
            lemma_digits_step(d, i - a);
        }
        whole = whole * 10 + digit_of(c[i]);
        i = i + 1;
        if whole > 4294967 {
            proof {
                lemma_digits_grow(d, i - a, b - a);
                assert(d.subrange(0, b - a) =~= d);
            }
            return None;
        }
    }
    assert(d.subrange(0, b - a) =~= d);
    Some(whole)
}

/// The thousandths that the digits from `a` to the end give after a point.
fn fraction_of(c: &Vec<char>, a: usize) -> (r: u64)
    requires
        a <= c.len(),
        forall|j: int| a <= j < c.len() ==> '0' <= #[trigger] c@[j] <= '9',
    ensures
        r == fraction_milli(c@.subrange(a as int, c@.len() as int)),
        r <= 999,
{
    let mut frac: u64 = 0;
    if a < c.len() {
        frac = digit_of(c[a]) * 100;
        if a + 1 < c.len() {
            frac = frac + digit_of(c[a + 1]) * 10;
            if a + 2 < c.len() {
                frac = frac + digit_of(c[a + 2]);
            }
        }
    }
    frac
}

/// The size that a `font` attribute's value gives, as [`font_size_value`] states.
pub fn parse_font_size(v: &str) -> (r: Option<u32>)
    ensures
        r == font_size_value(v@),
{
    let c = chars_of(v);
    let start: usize = if c.len() > 0 && c[0] == '+' {
        1
    } else {
        0
    };
    let ghost body = if v@.len() > 0 && v@[0] == '+' {
        v@.drop_first()
    } else {
        v@
    };
    assert(body =~= c@.subrange(start as int, c@.len() as int));
    let p = find_from(&c, start, Stop::NonDigit);
    proof {
        lemma_scan(start as int, c@.len() as int, stop_at(c@, Stop::NonDigit));
        lemma_find_shift(c@, start as int, Stop::NonDigit);
        assert forall|j: int| start <= j < p implies '0' <= #[trigger] c@[j] <= '9' by {
            assert(!stop_at(c@, Stop::NonDigit)(j));
        }
        assert(body.subrange(0, p - start) =~= c@.subrange(start as int, p as int));
    }
    let whole = match digits_upto(&c, start, p) {
        Some(w) => w,
        None => {
            proof {
                let big = digits_value(body.subrange(0, p - start));
                assert(big * 1000 > u32::MAX) by (nonlinear_arith)
                    requires
                        big > 4294967,
                ;
            }
            return None;
        },
    };
    let mut frac: u64 = 0;
    let mut digits: usize = 0;
    if p < c.len() {
        if c[p] != '.' {
            return None;
        }
        let q = find_from(&c, p + 1, Stop::NonDigit);
        proof {
            lemma_find_shift_at(c@, start as int, p + 1, Stop::NonDigit);
        }
        if q != c.len() {
            return None;
        }
        proof {
            lemma_scan(p + 1, c@.len() as int, stop_at(c@, Stop::NonDigit));
            assert forall|j: int| p + 1 <= j < c@.len() implies '0' <= #[trigger] c@[j] <= '9' by {
                assert(!stop_at(c@, Stop::NonDigit)(j));
            }
            assert(body.subrange(p - start + 1, body.len() as int) =~= c@.subrange(
                p + 1,
                c@.len() as int,
            ));
        }
        frac = fraction_of(&c, p + 1);
        digits = c.len() - (p + 1);
    }
    if p - start + digits == 0 {
        return None;
    }
    let milli = whole * 1000 + frac;
    if milli > 4294967295 {
        return None;
    }
    Some(milli as u32)
}

/// Finding in a suffix is finding in the whole, shifted.
proof fn lemma_find_shift(s: Seq<char>, start: int, stop: Stop)
    requires
        0 <= start <= s.len(),
    ensures
        find(s.subrange(start, s.len() as int), 0, stop) + start == find(s, start, stop),
{
    lemma_find_shift_at(s, start, start, stop);
}

proof fn lemma_find_shift_at(s: Seq<char>, start: int, k: int, stop: Stop)
    requires
        0 <= start <= k <= s.len(),
    ensures
        find(s.subrange(start, s.len() as int), k - start, stop) + start == find(s, k, stop),
    decreases s.len() - k,
{
    let t = s.subrange(start, s.len() as int);
    if k < s.len() {
        assert(t[k - start] == s[k]);
        if k + 1 < s.len() {
            assert(t[k + 1 - start] == s[k + 1]);
        }
        lemma_find_shift_at(s, start, k + 1, stop);
    }
}

/// The text between a pair of quotes that opens `s` once leading whitespace
/// is skipped: single or double quotes, closed by the next of the same kind.
pub open spec fn quoted_value(s: Seq<char>) -> Option<Seq<char>> {
    let t = find(s, 0, Stop::NonWhite);
    if t < s.len() && (s[t] == '\'' || s[t] == '"') {
        let e = find(s, t + 1, Stop::Char(s[t]));
        if e < s.len() {
            Some(s.subrange(t + 1, e))
        } else {
            None
        }
    } else {
        None
    }
}

/// The quoted value at the start of `s`, as [`quoted_value`] states.
pub fn extract_quoted_value(s: &str) -> (r: Option<String>)
    ensures
        opt_text(r) == quoted_value(s@),
{
    let c = chars_of(s);
    let t = find_from(&c, 0, Stop::NonWhite);
    if t < c.len() && (c[t] == '\'' || c[t] == '"') {
        let e = find_from(&c, t + 1, Stop::Char(c[t]));
        if e < c.len() {
            return Some(s.substring_char(t + 1, e).to_owned());
        }
    }
    None
}

/// The quoted value that follows the first occurrence of `name` in a tag.
pub open spec fn attribute_value(tag: Seq<char>, name: Seq<char>) -> Option<Seq<char>> {
    let f = find_text(tag, 0, name);
    if f < tag.len() {
        quoted_value(tag.subrange(f + name.len(), tag.len() as int))
    } else {
        None
    }
}

fn attribute(tag: &str, name: &str) -> (r: Option<String>)
    ensures
        opt_text(r) == attribute_value(tag@, name@),
{
    let t = chars_of(tag);
    let pat = chars_of(name);
    let f = find_text_from(&t, 0, &pat);
    if f < t.len() {
        proof {
            lemma_scan(0, t@.len() as int, |j: int| crate::text::occurs_at(t@, j, pat@));
        }
        let rest = tag.substring_char(f + pat.len(), t.len());
        extract_quoted_value(rest)
    } else {
        None
    }
}

/// The color that a `span` names: by `color=` where the tag has one, else by
/// `foreground=`.
pub open spec fn span_color_name(tag: Seq<char>) -> Option<Seq<char>> {
    if find_text(tag, 0, "color="@) < tag.len() {
        attribute_value(tag, "color="@)
    } else {
        attribute_value(tag, "foreground="@)
    }
}

/// The style inside a `span` tag: its `font` sets the size and its color
/// name the color; a value that cannot be read, or an unknown color name,
/// leaves that part of the enclosing style as it was.
pub open spec fn span_style(style: ParsedStyle, tag: Seq<char>) -> ParsedStyle {
    let size = match attribute_value(tag, "font="@) {
        Some(v) => match font_size_value(v) {
            Some(n) => Some(n),
            None => style.font_size,
        },
        None => style.font_size,
    };
    let color = match span_color_name(tag) {
        Some(v) => match color_named(lowercase_of(v)) {
            Some(c) => Some(c),
            None => style.color,
        },
        None => style.color,
    };
    ParsedStyle { font_size: size, color: color, ..style }
}

fn span_style_exec(style: ParsedStyle, tag: &str) -> (r: ParsedStyle)
    ensures
        r == span_style(style, tag@),
{
    let mut r = style;
    if let Some(v) = attribute(tag, "font=") {
        if let Some(n) = parse_font_size(v.as_str()) {
            r.font_size = Some(n);
        }
    }
    let t = chars_of(tag);
    let color_pat = chars_of("color=");
    let name = if find_text_from(&t, 0, &color_pat) < t.len() {
        attribute(tag, "color=")
    } else {
        attribute(tag, "foreground=")
    };
    if let Some(v) = name {
        if let Some(c) = parse_color(v.as_str()) {
            r.color = Some(c);
        }
    }
    r
}

/// The style that an opening tag gives to the text it encloses.
pub open spec fn opened(style: ParsedStyle, tag: Seq<char>) -> ParsedStyle {
    if tag == "b"@ {
        ParsedStyle { bold: true, ..style }
    } else if tag == "i"@ {
        ParsedStyle { italic: true, ..style }
    } else if tag == "u"@ {
        ParsedStyle { underline: true, ..style }
    } else if tag == "s"@ {
        ParsedStyle { strikethrough: true, ..style }
    } else if tag == "sup"@ || tag == "sub"@ {
        ParsedStyle { scale_steps: (style.scale_steps + 1) as usize, ..style }
    } else if begins_with(tag, "span"@) {
        span_style(style, tag)
    } else {
        style
    }
}

fn opened_exec(style: ParsedStyle, tag: &str) -> (r: ParsedStyle)
    requires
        style.scale_steps < usize::MAX,
    ensures
        r == opened(style, tag@),
{
    let mut r = style;
    if same_text(tag, "b") {
        r.bold = true;
    } else if same_text(tag, "i") {
        r.italic = true;
    } else if same_text(tag, "u") {
        r.underline = true;
    } else if same_text(tag, "s") {
        r.strikethrough = true;
    } else if same_text(tag, "sup") || same_text(tag, "sub") {
        r.scale_steps = style.scale_steps + 1;
    } else if starts_with(tag, "span") {
        r = span_style_exec(style, tag);
    }
    r
}

/// The style stack after a tag: a closing tag pops the top unless it is the
/// last one left, an opening tag pushes the style it opens.
pub open spec fn after_tag(stack: Seq<ParsedStyle>, tag: Seq<char>) -> Seq<ParsedStyle> {
    if begins_with(tag, "/"@) {
        if stack.len() > 1 {
            stack.drop_last()
        } else {
            stack
        }
    } else {
        stack.push(opened(stack.last(), tag))
    }
}

/// The runs of `s` from position `i` on, with `stack` in force there.
pub open spec fn runs_from(s: Seq<char>, i: int, stack: Seq<ParsedStyle>) -> Seq<(Seq<char>, ParsedStyle)>
    decreases s.len() - i,
{
    if 0 <= i <= s.len() {
        let k = find(s, i, Stop::Char('<'));
        let here = if i < k {
            seq![(s.subrange(i, k), stack.last())]
        } else {
            Seq::empty()
        };
        if k < s.len() {
            let close = find(s, k + 1, Stop::Char('>'));
            if close < s.len() && i < close + 1 {
                here + runs_from(s, close + 1, after_tag(stack, s.subrange(k + 1, close)))
            } else {
                here
            }
        } else {
            here
        }
    } else {
        Seq::empty()
    }
}

/// The runs of a whole text, starting in the plain style.
pub open spec fn markup_runs(s: Seq<char>) -> Seq<(Seq<char>, ParsedStyle)> {
    runs_from(s, 0, seq![plain_style()])
}

/// The runs with their text as characters.
pub open spec fn runs_view(v: Seq<(String, ParsedStyle)>) -> Seq<(Seq<char>, ParsedStyle)> {
    v.map_values(|p: (String, ParsedStyle)| (p.0@, p.1))
}

/// Splits text into runs of one style each, as [`markup_runs`] states.
pub fn parse_pango_markup(text: &str) -> (r: Vec<(String, ParsedStyle)>)
    ensures
        runs_view(r@) == markup_runs(text@),
{
    let s = chars_of(text);
    let mut segments: Vec<(String, ParsedStyle)> = Vec::new();
    let mut stack: Vec<ParsedStyle> = vec![ParsedStyle::default()];
    let mut i: usize = 0;
    assert(stack@ =~= seq![plain_style()]);
    assert(runs_view(segments@) + runs_from(s@, 0, stack@) =~= markup_runs(s@));
    while i <= s.len()
        invariant
            s@ == text@,
            i <= s.len(),
            1 <= stack@.len() <= i + 1,
            forall|k: int| 0 <= k < stack@.len() ==> #[trigger] stack@[k].scale_steps <= k,
            runs_view(segments@) + runs_from(s@, i as int, stack@) == markup_runs(s@),
        decreases s.len() - i,
    {
        let ghost before = segments@;
        let k = find_from(&s, i, Stop::Char('<'));
        let top = stack[stack.len() - 1];
        if i < k {
            segments.push((text.substring_char(i, k).to_owned(), top));
        }
        proof {
            assert(runs_view(segments@) =~= runs_view(before) + (if i < k {
                seq![(s@.subrange(i as int, k as int), stack@.last())]
            } else {
                Seq::empty()
            }));
        }
        if k >= s.len() {
            assert(runs_view(segments@) =~= markup_runs(s@));
            return segments;
        }
        let close = find_from(&s, k + 1, Stop::Char('>'));
        if close >= s.len() {
            assert(runs_view(segments@) =~= markup_runs(s@));
            return segments;
        }
        let tag = text.substring_char(k + 1, close);
        let ghost old_stack = stack@;
        if starts_with(tag, "/") {
            if stack.len() > 1 {
                stack.pop();
            }
        } else {
            let next = opened_exec(top, tag);
            stack.push(next);
        }
        assert(stack@ =~= after_tag(old_stack, tag@));
        proof {
            assert(runs_view(segments@) + runs_from(s@, close + 1, stack@) =~= markup_runs(s@));
        }
        i = close + 1;
    }
    segments
}

} // verus!
