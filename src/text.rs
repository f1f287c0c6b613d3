//! Character-level helpers shared by the deck grammar, the run markup and the
//! option resolver.
use vstd::prelude::*;
use vstd::string::*;

verus! {

/// The characters of `s`, one element per Unicode scalar value.
pub fn chars_of(s: &str) -> (r: Vec<char>)
    ensures
        r@ == s@,
{
    let mut r: Vec<char> = Vec::new();
    for c in it: s.chars()
        invariant
            r@ == it.seq().take(it.index() as int),
            it.seq() == s@,
    {
        r.push(c);
    }
    r
}

/// The characters of an optional text.
pub open spec fn opt_text(o: Option<String>) -> Option<Seq<char>> {
    match o {
        Some(s) => Some(s@),
        None => None,
    }
}

/// ASCII whitespace as the deck grammar understands it: space, tab, carriage
/// return and line feed.
pub open spec fn is_space(c: char) -> bool {
    c == ' ' || c == '\t' || c == '\r' || c == '\n'
}

/// The Unicode `White_Space` property, which `char::is_whitespace` follows.
pub open spec fn is_white_space(c: char) -> bool {
    ('\u{9}' <= c && c <= '\u{d}') || c == ' ' || c == '\u{85}' || c == '\u{a0}' || c
        == '\u{1680}' || ('\u{2000}' <= c && c <= '\u{200a}') || c == '\u{2028}' || c
        == '\u{2029}' || c == '\u{202f}' || c == '\u{205f}' || c == '\u{3000}'
}

/// The first position `j` in `k..end` that satisfies `p`, or `end` when none does.
pub open spec fn scan(k: int, end: int, p: spec_fn(int) -> bool) -> int
    decreases end - k,
{
    if k < end {
        if p(k) {
            k
        } else {
            scan(k + 1, end, p)
        }
    } else {
        end
    }
}

pub proof fn lemma_scan(k: int, end: int, p: spec_fn(int) -> bool)
    requires
        k <= end,
    ensures
        k <= scan(k, end, p) <= end,
        scan(k, end, p) < end ==> p(scan(k, end, p)),
        forall|j: int| k <= j < scan(k, end, p) ==> !#[trigger] p(j),
    decreases end - k,
{
    if k < end && !p(k) {
        lemma_scan(k + 1, end, p);
    }
}

/// `pat` occurs in `s` starting at position `i`.
pub open spec fn occurs_at(s: Seq<char>, i: int, pat: Seq<char>) -> bool {
    0 <= i && i + pat.len() <= s.len() && s.subrange(i, i + pat.len()) == pat
}

/// `s` begins with `pat`.
pub open spec fn begins_with(s: Seq<char>, pat: Seq<char>) -> bool {
    occurs_at(s, 0, pat)
}

/// `s` ends with `pat`.
pub open spec fn finishes_with(s: Seq<char>, pat: Seq<char>) -> bool {
    pat.len() <= s.len() && occurs_at(s, s.len() - pat.len(), pat)
}

/// What a scan over a character sequence stops at.
#[derive(Clone, Copy)]
pub enum Stop {
    /// The given character.
    Char(char),
    /// Any character but ASCII whitespace.
    NonSpace,
    /// A carriage return or a line feed.
    LineBreak,
    /// Any character but `-`.
    NonHyphen,
    /// A line feed followed by `-`.
    SlideBreak,
    /// Any character outside Unicode `White_Space`.
    NonWhite,
    /// Any character but an ASCII digit.
    NonDigit,
}

/// The positions of `s` at which a scan for `stop` halts.
pub open spec fn stop_at(s: Seq<char>, stop: Stop) -> spec_fn(int) -> bool {
    |j: int|
        match stop {
            Stop::Char(c) => s[j] == c,
            Stop::NonSpace => !is_space(s[j]),
            Stop::LineBreak => s[j] == '\r' || s[j] == '\n',
            Stop::NonHyphen => s[j] != '-',
            Stop::SlideBreak => s[j] == '\n' && j + 1 < s.len() && s[j + 1] == '-',
            Stop::NonWhite => !is_white_space(s[j]),
            Stop::NonDigit => !('0' <= s[j] && s[j] <= '9'),
        }
}

/// The first position at or after `k` where `s` has what `stop` names, or the
/// length of `s`.
pub open spec fn find(s: Seq<char>, k: int, stop: Stop) -> int {
    scan(k, s.len() as int, stop_at(s, stop))
}

fn stops(s: &Vec<char>, j: usize, stop: Stop) -> (r: bool)
    requires
        j < s.len(),
    ensures
        r == stop_at(s@, stop)(j as int),
{
    let c = s[j];
    match stop {
        Stop::Char(d) => c == d,
        Stop::NonSpace => !(c == ' ' || c == '\t' || c == '\r' || c == '\n'),
        Stop::LineBreak => c == '\r' || c == '\n',
        Stop::NonHyphen => c != '-',
        Stop::SlideBreak => c == '\n' && j + 1 < s.len() && s[j + 1] == '-',
        Stop::NonWhite => !(('\u{9}' <= c && c <= '\u{d}') || c == ' ' || c == '\u{85}' || c
            == '\u{a0}' || c == '\u{1680}' || ('\u{2000}' <= c && c <= '\u{200a}') || c
            == '\u{2028}' || c == '\u{2029}' || c == '\u{202f}' || c == '\u{205f}' || c
            == '\u{3000}'),
        Stop::NonDigit => !('0' <= c && c <= '9'),
    }
}

/// Executable form of [`find`].
pub fn find_from(s: &Vec<char>, k: usize, stop: Stop) -> (r: usize)
    requires
        k <= s.len(),
    ensures
        r == find(s@, k as int, stop),
        k <= r <= s.len(),
{
    proof {
        lemma_scan(k as int, s.len() as int, stop_at(s@, stop));
    }
    let mut i = k;
    while i < s.len()
        invariant
            k <= i <= s.len(),
            find(s@, i as int, stop) == find(s@, k as int, stop),
        decreases s.len() - i,
    {
        if stops(s, i, stop) {
            return i;
        }
        i = i + 1;
    }
    i
}

/// Whether `pat` occurs in `s` at position `i`.
pub fn occurs_at_exec(s: &Vec<char>, i: usize, pat: &Vec<char>) -> (r: bool)
    ensures
        r == occurs_at(s@, i as int, pat@),
{
    if i > s.len() || pat.len() > s.len() - i {
        return false;
    }
    let mut j: usize = 0;
    while j < pat.len()
        invariant
            i + pat.len() <= s.len(),
            j <= pat.len(),
            forall|m: int| 0 <= m < j ==> s@[i + m] == pat@[m],
        decreases pat.len() - j,
    {
        if s[i + j] != pat[j] {
            assert(s@.subrange(i as int, i + pat.len())[j as int] != pat@[j as int]);
            return false;
        }
        j = j + 1;
    }
    assert(s@.subrange(i as int, i + pat.len()) =~= pat@);
    true
}

/// The first position at or after `k` where `pat` occurs in `s`, if any.
pub open spec fn find_text(s: Seq<char>, k: int, pat: Seq<char>) -> int {
    scan(k, s.len() as int, |j: int| occurs_at(s, j, pat))
}

/// Executable form of [`find_text`].
pub fn find_text_from(s: &Vec<char>, k: usize, pat: &Vec<char>) -> (r: usize)
    requires
        k <= s.len(),
    ensures
        r == find_text(s@, k as int, pat@),
        k <= r <= s.len(),
{
    proof {
        lemma_scan(k as int, s.len() as int, |j: int| occurs_at(s@, j, pat@));
    }
    let mut i = k;
    while i < s.len()
        invariant
            k <= i <= s.len(),
            find_text(s@, i as int, pat@) == find_text(s@, k as int, pat@),
        decreases s.len() - i,
    {
        if occurs_at_exec(s, i, pat) {
            return i;
        }
        i = i + 1;
    }
    i
}

/// Whether two texts hold the same characters.
pub fn same_text(a: &str, b: &str) -> (r: bool)
    ensures
        r == (a@ == b@),
{
    let x = chars_of(a);
    let y = chars_of(b);
    if x.len() != y.len() {
        return false;
    }
    let r = occurs_at_exec(&x, 0, &y);
    proof {
        assert(x@.subrange(0, y@.len() as int) =~= x@);
    }
    r
}

/// Whether `s` begins with `pat`.
pub fn starts_with(s: &str, pat: &str) -> (r: bool)
    ensures
        r == begins_with(s@, pat@),
{
    let x = chars_of(s);
    let y = chars_of(pat);
    occurs_at_exec(&x, 0, &y)
}

/// Whether `s` ends with `pat`.
pub fn ends_with(s: &str, pat: &str) -> (r: bool)
    ensures
        r == finishes_with(s@, pat@),
{
    let x = chars_of(s);
    let y = chars_of(pat);
    if y.len() > x.len() {
        return false;
    }
    occurs_at_exec(&x, x.len() - y.len(), &y)
}

} // verus!
