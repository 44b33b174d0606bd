//! Measuring: how large the image of a text is.

use vstd::prelude::*;

use crate::pxfont::PxFont;
use crate::pxtext::PxText;

verus! {

/// A coordinate beyond every pixel: one more than the largest `u32`.
pub const FAR: u64 = 0x1_0000_0000;

/// `v`, or `FAR` where `v` lies beyond every pixel. Coordinates are kept this
/// way while a text is walked: whatever lies at or beyond `FAR` is outside
/// every image, however far.
pub open spec fn near(v: int) -> int {
    if v >= FAR {
        FAR as int
    } else {
        v
    }
}

/// The sum of a kept coordinate and a distance, kept the same way.
pub(crate) fn add_near(a: u64, b: u64) -> (r: u64)
    requires
        a <= FAR,
        b <= 8 * FAR,
    ensures
        r == near(a + b),
{
    let sum: u64 = a + b;
    if sum >= FAR {
        FAR
    } else {
        sum
    }
}

/// How many pixel columns the glyph of `c` takes: none where the font has no
/// glyph for it.
pub open spec fn glyph_span(font: &PxFont, c: char) -> int {
    if font.glyphs().dom().contains(c) {
        font.glyphs()[c].spec_width() + 1
    } else {
        0
    }
}

/// How many pixel columns the glyph of `c` takes.
pub(crate) fn span_of(font: &PxFont, c: char) -> (span: u64)
    requires
        font.wf(),
    ensures
        span == glyph_span(font, c),
        span <= FAR,
{
    match font.glyph(c) {
        Some(rect) => rect.width() as u64 + 1,
        None => 0,
    }
}

/// What measuring a text has found: the width of the widest line that has
/// ended, the width of the line that is open, and whether that line holds a
/// glyph yet.
pub struct Measure {
    /// The width of the widest line that has ended.
    pub widest: int,
    /// The width of the open line.
    pub line: int,
    /// The open line holds no glyph yet.
    pub first: bool,
}

/// The larger of two numbers.
pub open spec fn larger(a: int, b: int) -> int {
    if a >= b {
        a
    } else {
        b
    }
}

/// Measures one more character. A glyph adds its columns, and the font's
/// spacing between it and the glyph before it on the line; a line break ends
/// the line; a character without a glyph adds nothing.
pub open spec fn measure_step(font: &PxFont, m: Measure, c: char) -> Measure {
    if c == '\n' {
        Measure { widest: larger(m.widest, m.line), line: 0, first: true }
    } else if font.glyphs().dom().contains(c) {
        let line = if m.first {
            m.line
        } else {
            m.line + font.spec_spacing()
        };
        Measure { widest: m.widest, line: line + glyph_span(font, c), first: false }
    } else {
        m
    }
}

/// The measure before any character.
pub open spec fn measure_start() -> Measure {
    Measure { widest: 0, line: 0, first: true }
}

/// The measure after `n` further characters, those of `s` from place `from`
/// on.
pub open spec fn measure_on(font: &PxFont, start: Measure, s: Seq<char>, from: int, n: int) -> Measure
    decreases n,
{
    if n <= 0 {
        start
    } else {
        measure_step(font, measure_on(font, start, s, from, n - 1), s[from + n - 1])
    }
}

/// The measure of the first `n` characters of `s`.
pub open spec fn measure(font: &PxFont, s: Seq<char>, n: int) -> Measure {
    measure_on(font, measure_start(), s, 0, n)
}

/// The width of the widest line that a measure has found.
pub open spec fn widest_line(m: Measure) -> int {
    larger(m.widest, m.line)
}

/// The width of the image of unbounded text: the glyphs of its widest line
/// with the spacing between them, one reserved border pixel, and one column
/// more.
pub open spec fn natural_width(font: &PxFont, s: Seq<char>) -> int {
    widest_line(measure(font, s, s.len() as int)) + 1 + 1
}

/// How many line breaks the first `n` characters of `s` hold.
pub open spec fn line_breaks(s: Seq<char>, n: int) -> int
    decreases n,
{
    if n <= 0 {
        0
    } else {
        line_breaks(s, n - 1) + if s[n - 1] == '\n' {
            1int
        } else {
            0int
        }
    }
}

/// The height of the image of unbounded text: a line's height for each
/// line.
pub open spec fn natural_height(font: &PxFont, s: Seq<char>) -> int {
    font.line_height() * (line_breaks(s, s.len() as int) + 1)
}

/// The width of the text's image: that of the bounding box where there is
/// one, else the natural width of the text.
pub open spec fn image_width(text: &PxText, font: &PxFont) -> int {
    match text.bounding_box {
        Some(bounds) => bounds.0 as int,
        None => natural_width(font, text.flat()),
    }
}

/// The height of the text's image: that of the bounding box where there is
/// one, else the natural height of the text.
pub open spec fn image_height(text: &PxText, font: &PxFont) -> int {
    match text.bounding_box {
        Some(bounds) => bounds.1 as int,
        None => natural_height(font, text.flat()),
    }
}

/// A measure that starts at or above zero never goes below it.
pub proof fn lemma_measure_on_nonnegative(
    font: &PxFont,
    start: Measure,
    s: Seq<char>,
    from: int,
    n: int,
)
    requires
        font.wf(),
        start.widest >= 0,
        start.line >= 0,
    ensures
        measure_on(font, start, s, from, n).widest >= 0,
        measure_on(font, start, s, from, n).line >= 0,
    decreases n,
{
    if n > 0 {
        lemma_measure_on_nonnegative(font, start, s, from, n - 1);
    }
}

/// The measure never goes below zero.
pub proof fn lemma_measure_nonnegative(font: &PxFont, s: Seq<char>, n: int)
    requires
        font.wf(),
    ensures
        measure(font, s, n).widest >= 0,
        measure(font, s, n).line >= 0,
{
    lemma_measure_on_nonnegative(font, measure_start(), s, 0, n);
}

/// The width of the image of `text`, or `None` where it is more than a `u32`
/// holds.
pub fn text_width(text: &PxText, font: &PxFont) -> (r: Option<u32>)
    ensures
        r is Some <==> image_width(text, font) <= u32::MAX,
        r matches Some(w) ==> w == image_width(text, font),
{
    proof {
        use_type_invariant(font);
    }
    if let Some(bounds) = text.bounding_box {
        return Some(bounds.0);
    }
    let (flat, _starts) = text.flatten();
    let n: usize = flat.len();
    let spacing: u64 = font.spacing() as u64;
    let mut widest: u64 = 0;
    let mut line: u64 = 0;
    let mut first: bool = true;
    let mut i: usize = 0;
    while i < n
        invariant
            font.wf(),
            n == flat@.len(),
            i <= n,
            spacing == font.spec_spacing(),
            widest == near(measure(font, flat@, i as int).widest),
            line == near(measure(font, flat@, i as int).line),
            first == measure(font, flat@, i as int).first,
        decreases n - i,
    {
        proof {
            lemma_measure_nonnegative(font, flat@, i as int);
        }
        let c: char = flat[i];
        if c == '\n' {
            if line > widest {
                widest = line;
            }
            line = 0;
            first = true;
        } else if font.glyph(c).is_some() {
            if !first {
                line = add_near(line, spacing);
            }
            line = add_near(line, span_of(font, c));
            first = false;
        }
        i = i + 1;
    }
    proof {
        lemma_measure_nonnegative(font, flat@, n as int);
    }
    let most: u64 = if line > widest {
        line
    } else {
        widest
    };
    if most + 2 > u32::MAX as u64 {
        None
    } else {
        Some((most + 2) as u32)
    }
}

/// The height of the image of `text`, or `None` where it is more than a `u32`
/// holds.
pub fn text_height(text: &PxText, font: &PxFont) -> (r: Option<u32>)
    ensures
        r is Some <==> image_height(text, font) <= u32::MAX,
        r matches Some(h) ==> h == image_height(text, font),
{
    proof {
        use_type_invariant(font);
    }
    if let Some(bounds) = text.bounding_box {
        return Some(bounds.1);
    }
    let (flat, _starts) = text.flatten();
    let n: usize = flat.len();
    let mut breaks: usize = 0;
    let mut i: usize = 0;
    while i < n
        invariant
            n == flat@.len(),
            i <= n,
            breaks <= i,
            breaks == line_breaks(flat@, i as int),
        decreases n - i,
    {
        if flat[i] == '\n' {
            breaks = breaks + 1;
        }
        i = i + 1;
    }
    let step: u64 = font.ascender() as u64 + font.descender() as u64;
    let lines: u128 = breaks as u128 + 1;
    assert(step as int * lines as int <= 0x3_0000_0000 * 0x1_0000_0000_0000_0000) by (nonlinear_arith)
        requires
            0 <= step <= 0x3_0000_0000,
            0 <= lines <= 0x1_0000_0000_0000_0000,
    ;
    let height: u128 = step as u128 * lines;
    if height > u32::MAX as u128 {
        None
    } else {
        Some(height as u32)
    }
}

/// Two glyphs side by side are as wide as their columns, the spacing between
/// them, the reserved border pixel and one column more: with glyphs of three
/// columns one pixel apart, nine.
pub proof fn lemma_two_glyphs_width(font: &PxFont, a: char, b: char)
    requires
        font.wf(),
        font.glyphs().dom().contains(a),
        font.glyphs().dom().contains(b),
        a != '\n',
        b != '\n',
    ensures
        natural_width(font, seq![a, b]) == glyph_span(font, a) + font.spec_spacing() + glyph_span(
            font,
            b,
        ) + 1 + 1,
        glyph_span(font, a) == 3 && glyph_span(font, b) == 3 && font.spec_spacing() == 1
            ==> natural_width(font, seq![a, b]) == 9,
{
    let s = seq![a, b];
    assert(s[0] == a && s[1] == b);
    let none = measure_on(font, measure_start(), s, 0, 0);
    let one = measure_on(font, measure_start(), s, 0, 1);
    let two = measure_on(font, measure_start(), s, 0, 2);
    assert(none == measure_start());
    assert(one == measure_step(font, none, a));
    assert(two == measure_step(font, one, b));
}

} // verus!
