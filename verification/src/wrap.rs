//! Word wrap: where the lines of a text break so that they fit into a box.

use vstd::prelude::*;

use crate::measure::{
    add_near, lemma_measure_on_nonnegative, measure, measure_on, measure_start,
    measure_step, near, span_of, widest_line, Measure,
};
use crate::pxfont::PxFont;
use crate::pxtext::chars_of;

verus! {

/// Whether `c` has the Unicode property `White_Space`: the controls from the
/// tabulator to the carriage return, the space, the next-line control, the
/// no-break space, the Ogham space mark, the spaces of fixed width from the
/// en quad to the hair space, the line and the paragraph separator, the
/// narrow no-break space, the medium mathematical space and the ideographic
/// space.
pub open spec fn is_white_space(c: char) -> bool {
    let code = c as u32;
    ||| 0x0009 <= code <= 0x000D
    ||| code == 0x0020
    ||| code == 0x0085
    ||| code == 0x00A0
    ||| code == 0x1680
    ||| 0x2000 <= code <= 0x200A
    ||| code == 0x2028
    ||| code == 0x2029
    ||| code == 0x202F
    ||| code == 0x205F
    ||| code == 0x3000
}

/// `char::is_whitespace` tells whether a character has the Unicode property
/// `White_Space`.
pub assume_specification[ char::is_whitespace ](c: char) -> (b: bool)
    ensures
        b == is_white_space(c),
;

/// Whether a word ends with `c`: white space and the hyphen end words.
pub open spec fn is_separator(c: char) -> bool {
    is_white_space(c) || c == '-'
}

/// Whether a word ends with `c`.
pub fn word_separator(c: char) -> (b: bool)
    ensures
        b == is_separator(c),
{
    c.is_whitespace() || c == '-'
}

/// The length of the word that starts at place `from` of `s`: it reaches up
/// to the next separator and holds it, or reaches the end of `s`.
pub open spec fn word_len(s: Seq<char>, from: int) -> nat
    decreases s.len() - from,
{
    if from < 0 || from >= s.len() {
        0
    } else if is_separator(s[from]) {
        1
    } else {
        1 + word_len(s, from + 1)
    }
}

/// The width in pixels of the `n` characters of `s` from place `from` on,
/// as they are measured on a line of their own: the columns of their glyphs,
/// and the font's spacing between them.
pub open spec fn word_width(font: &PxFont, s: Seq<char>, from: int, n: int) -> int {
    widest_line(measure_on(font, measure_start(), s, from, n))
}

/// A character to lay out, and its place in the text of its section. A line
/// break that wrapping puts in has no place there.
#[derive(Debug, Clone, Copy)]
pub struct Mark {
    /// The character.
    pub c: char,
    /// Its place in the section's text.
    pub at: Option<usize>,
}

/// The character at a place of `s`, with its place.
pub open spec fn mark_at(s: Seq<char>, place: int) -> Mark {
    Mark { c: s[place], at: Some(place as usize) }
}

/// The `n` characters of `s` from place `from` on, each with its place.
pub open spec fn marks_of(s: Seq<char>, from: int, n: int) -> Seq<Mark> {
    Seq::new(n as nat, |i: int| mark_at(s, from + i))
}

/// The characters of marks.
pub open spec fn mark_chars(marks: Seq<Mark>) -> Seq<char> {
    Seq::new(marks.len(), |i: int| marks[i].c)
}

/// The line break that wrapping puts in.
pub open spec fn inserted_break() -> Mark {
    Mark { c: '\n', at: None }
}

/// What a box asks of the text in it.
pub struct WrapBox {
    /// The width of the box.
    pub width: int,
    /// The height of the box.
    pub height: int,
}

/// The box of the given width and height.
pub open spec fn wrap_box(bounds: (u32, u32)) -> WrapBox {
    WrapBox { width: bounds.0 as int, height: bounds.1 as int }
}

/// The characters of `s` from place `from` on, with a line break before each
/// word that does not fit on its line, the pen standing at column `x` of row
/// `y`.
///
/// A word must fit between the pen and the box's right edge; else the word
/// starts a new line. Either way the pen moves on by the word's width and
/// the font's spacing, so that it counts the spacing that follows the word.
/// A word that ends in a line break moves the pen to the start of the next
/// line. Lines stand one line height apart. Where the line that the pen then
/// stands on would reach below the box, the text ends: behind the line
/// break, where the word got one, and before the word itself.
pub open spec fn wrap_from(
    font: &PxFont,
    bounds: WrapBox,
    s: Seq<char>,
    from: int,
    x: int,
    y: int,
) -> Seq<Mark>
    decreases s.len() - from,
{
    if from < 0 || from >= s.len() {
        Seq::empty()
    } else {
        let n = word_len(s, from) as int;
        let width = word_width(font, s, from, n);
        let breaks = x + width > bounds.width;
        let lead = if breaks {
            seq![inserted_break()]
        } else {
            Seq::empty()
        };
        let x1 = if breaks {
            width + font.spec_spacing()
        } else {
            x + width + font.spec_spacing()
        };
        let y1 = if breaks {
            y + font.line_height()
        } else {
            y
        };
        let ends_line = s[from + n - 1] == '\n';
        let x2 = if ends_line {
            0
        } else {
            x1
        };
        let y2 = if ends_line {
            y1 + font.line_height()
        } else {
            y1
        };
        if y2 + font.line_height() > bounds.height {
            lead
        } else {
            proof {
                lemma_word_len_bounds(s, from);
            }
            lead + marks_of(s, from, n) + wrap_from(font, bounds, s, from + n, x2, y2)
        }
    }
}

/// A word is never wider than nothing.
pub proof fn lemma_word_width_nonnegative(font: &PxFont, s: Seq<char>, from: int, n: int)
    requires
        font.wf(),
    ensures
        word_width(font, s, from, n) >= 0,
{
    lemma_measure_on_nonnegative(font, measure_start(), s, from, n);
}

/// A word inside `s` ends inside `s` and holds a character.
pub proof fn lemma_word_len_bounds(s: Seq<char>, from: int)
    requires
        0 <= from < s.len(),
    ensures
        1 <= word_len(s, from) <= s.len() - from,
    decreases s.len() - from,
{
    if is_separator(s[from]) {
    } else if from + 1 < s.len() {
        lemma_word_len_bounds(s, from + 1);
    } else {
        assert(word_len(s, from + 1) == 0);
    }
}

/// Finds the end of the word that starts at place `from`, and the word's
/// width.
fn scan_word(font: &PxFont, s: &Vec<char>, from: usize) -> (r: (usize, u64))
    requires
        font.wf(),
        from < s@.len(),
    ensures
        r.0 == from + word_len(s@, from as int),
        from < r.0 <= s@.len(),
        r.1 == near(word_width(font, s@, from as int, r.0 - from)),
{
    let n: usize = s.len();
    let spacing: u64 = font.spacing() as u64;
    let mut i: usize = from;
    let mut widest: u64 = 0;
    let mut line: u64 = 0;
    let mut first: bool = true;
    let mut ended: bool = false;
    while i < n && !ended
        invariant
            font.wf(),
            n == s@.len(),
            spacing == font.spec_spacing(),
            from <= i <= n,
            ended ==> i > from,
            !ended ==> word_len(s@, from as int) == (i - from) + word_len(s@, i as int),
            ended ==> word_len(s@, from as int) == i - from,
            widest == near(measure_on(font, measure_start(), s@, from as int, i - from).widest),
            line == near(measure_on(font, measure_start(), s@, from as int, i - from).line),
            first == measure_on(font, measure_start(), s@, from as int, i - from).first,
        decreases n - i + if ended { 0int } else { 1int },
    {
        proof {
            lemma_measure_on_nonnegative(font, measure_start(), s@, from as int, i - from);
        }
        let c: char = s[i];
        if c == '\n' {
            if line > widest {
                widest = line;
            }
            line = 0;
            first = true;
        } else if font.glyph(c).is_some() {
            if !first {
                line = add_near(line, spacing);
            }
            line = add_near(line, span_of(font, c));
            first = false;
        }
        ended = word_separator(c);
        i = i + 1;
    }
    proof {
        lemma_measure_on_nonnegative(font, measure_start(), s@, from as int, i - from);
    }
    if line > widest {
        (i, line)
    } else {
        (i, widest)
    }
}

/// Every mark that has a place has it before `len`.
pub open spec fn marks_within(marks: Seq<Mark>, len: int) -> bool {
    forall|i: int| 0 <= i < marks.len() ==> ((#[trigger] marks[i]).at matches Some(at) ==> at < len)
}

/// Wraps the characters of `s` for a pen that stands at column `x` of row
/// `y`, both kept near.
pub(crate) fn wrap_chars(
    x: u64,
    y: u64,
    Ghost(at_x): Ghost<int>,
    Ghost(at_y): Ghost<int>,
    s: &Vec<char>,
    font: &PxFont,
    bounds: (u32, u32),
) -> (out: Vec<Mark>)
    requires
        font.wf(),
        0 <= at_x,
        0 <= at_y,
        x == near(at_x),
        y == near(at_y),
    ensures
        out@ == wrap_from(font, wrap_box(bounds), s@, 0, at_x, at_y),
        marks_within(out@, s@.len() as int),
{
    let ghost limits = wrap_box(bounds);
    let ghost whole = wrap_from(font, limits, s@, 0, at_x, at_y);
    let n: usize = s.len();
    let spacing: u64 = font.spacing() as u64;
    let line_height: u64 = font.ascender() as u64 + font.descender() as u64;
    let mut out: Vec<Mark> = Vec::new();
    let mut x: u64 = x;
    let mut y: u64 = y;
    let ghost mut pen_x: int = at_x;
    let ghost mut pen_y: int = at_y;
    let mut from: usize = 0;
    while from < n
        invariant
            font.wf(),
            n == s@.len(),
            from <= n,
            spacing == font.spec_spacing(),
            line_height == font.line_height(),
            limits == wrap_box(bounds),
            0 <= pen_x,
            0 <= pen_y,
            x == near(pen_x),
            y == near(pen_y),
            whole == wrap_from(font, limits, s@, 0, at_x, at_y),
            whole == out@ + wrap_from(font, limits, s@, from as int, pen_x, pen_y),
            marks_within(out@, n as int),
        decreases n - from,
    {
        let (end, width) = scan_word(font, s, from);
        let ghost count = end - from;
        let ghost true_width = word_width(font, s@, from as int, count);
        let ghost rest_before = wrap_from(font, limits, s@, from as int, pen_x, pen_y);
        let ghost out_before = out@;
        proof {
            lemma_word_width_nonnegative(font, s@, from as int, count);
        }
        let breaks: bool = x + width > bounds.0 as u64;
        assert(breaks == (pen_x + true_width > limits.width));
        let ghost lead_marks: Seq<Mark> = if breaks {
            seq![inserted_break()]
        } else {
            Seq::empty()
        };
        if breaks {
            out.push(Mark { c: '\n', at: None });
            x = add_near(width, spacing);
            y = add_near(y, line_height);
            proof {
                pen_x = true_width + font.spec_spacing();
                pen_y = pen_y + font.line_height();
            }
        } else {
            x = add_near(x, width + spacing);
            proof {
                pen_x = pen_x + true_width + font.spec_spacing();
            }
        }
        if s[end - 1] == '\n' {
            x = 0;
            y = add_near(y, line_height);
            proof {
                pen_x = 0;
                pen_y = pen_y + font.line_height();
            }
        }
        assert(out@ =~= out_before + lead_marks);
        if y + line_height > bounds.1 as u64 {
            assert(rest_before == lead_marks);
            assert(whole =~= out@);
            return out;
        }
        let ghost lead = out@;
        let mut k: usize = from;
        while k < end
            invariant
                from <= k <= end <= s@.len(),
                n == s@.len(),
                out@ == lead + marks_of(s@, from as int, k - from),
                marks_within(lead, n as int),
            decreases end - k,
        {
            let mark = Mark { c: s[k], at: Some(k) };
            assert(mark == mark_at(s@, from + (k - from)));
            out.push(mark);
            k = k + 1;
            assert(out@ =~= lead + marks_of(s@, from as int, k - from));
        }
        proof {
            let rest = wrap_from(font, limits, s@, end as int, pen_x, pen_y);
            assert(rest_before == lead_marks + marks_of(s@, from as int, count) + rest);
            assert(whole =~= out@ + rest);
        }
        from = end;
    }
    assert(whole =~= out@);
    out
}

/// The characters of `s`, each with its place.
pub(crate) fn plain_marks(s: &Vec<char>) -> (out: Vec<Mark>)
    ensures
        out@ == marks_of(s@, 0, s@.len() as int),
        marks_within(out@, s@.len() as int),
{
    let n: usize = s.len();
    let mut out: Vec<Mark> = Vec::new();
    let mut k: usize = 0;
    while k < n
        invariant
            n == s@.len(),
            k <= n,
            out@ == marks_of(s@, 0, k as int),
        decreases n - k,
    {
        let mark = Mark { c: s[k], at: Some(k) };
        assert(mark == mark_at(s@, k as int));
        out.push(mark);
        k = k + 1;
        assert(out@ =~= marks_of(s@, 0, k as int));
    }
    out
}

/// Breaks the lines of `text` between words so that they fit into a box.
///
/// `start` is where the pen stands before the text, `bounds` the width and
/// the height of the box. The text comes back with a line break before each
/// word that would reach past the box's right edge, and ends where the box's
/// height is used up.
pub fn wrap_words(
    start: (u32, u32),
    text: &str,
    font: &PxFont,
    bounds: (u32, u32),
) -> (wrapped: String)
    ensures
        wrapped@ == mark_chars(
            wrap_from(
                font,
                wrap_box(bounds),
                text@,
                0,
                start.0 as int,
                start.1 as int,
            ),
        ),
{
    proof {
        use_type_invariant(font);
    }
    let chars: Vec<char> = chars_of(text);
    let marks: Vec<Mark> = wrap_chars(
        start.0 as u64,
        start.1 as u64,
        Ghost(start.0 as int),
        Ghost(start.1 as int),
        &chars,
        font,
        bounds,
    );
    let n: usize = marks.len();
    let mut wrapped: String = String::new();
    let mut k: usize = 0;
    while k < n
        invariant
            n == marks@.len(),
            k <= n,
            wrapped@ == mark_chars(marks@.take(k as int)),
        decreases n - k,
    {
        wrapped.push(marks[k].c);
        k = k + 1;
        assert(wrapped@ =~= mark_chars(marks@.take(k as int)));
    }
    assert(marks@.take(n as int) =~= marks@);
    wrapped
}

/// Of two words that each fit on a line but not together, the second starts
/// a new line: where `s` is two words, neither ending in a line break, and
/// the box has room for two lines, wrapping `s` from the box's top left puts
/// a line break between the words and nowhere else.
pub proof fn lemma_second_word_wraps(font: &PxFont, bounds: WrapBox, s: Seq<char>)
    requires
        font.wf(),
        0 < word_len(s, 0) < s.len(),
        word_len(s, 0) + word_len(s, word_len(s, 0) as int) == s.len(),
        s[word_len(s, 0) - 1] != '\n',
        s.last() != '\n',
        word_width(font, s, 0, word_len(s, 0) as int) <= bounds.width,
        word_width(font, s, 0, word_len(s, 0) as int) + font.spec_spacing() + word_width(
            font,
            s,
            word_len(s, 0) as int,
            s.len() - word_len(s, 0),
        ) > bounds.width,
        2 * font.line_height() <= bounds.height,
    ensures
        mark_chars(wrap_from(font, bounds, s, 0, 0, 0)) == s.subrange(0, word_len(s, 0) as int)
            + seq!['\n'] + s.subrange(word_len(s, 0) as int, s.len() as int),
{
    let n = word_len(s, 0) as int;
    let m = s.len() as int;
    let first = word_width(font, s, 0, n);
    let second = word_width(font, s, n, m - n);
    let x = first + font.spec_spacing();
    let rest = wrap_from(font, bounds, s, n, x, 0);
    let tail = wrap_from(font, bounds, s, m, second + font.spec_spacing(), font.line_height());
    assert(tail == Seq::<Mark>::empty());
    assert(rest == seq![inserted_break()] + marks_of(s, n, m - n) + tail);
    assert(wrap_from(font, bounds, s, 0, 0, 0) == Seq::<Mark>::empty() + marks_of(s, 0, n) + rest);
    assert(mark_chars(Seq::<Mark>::empty() + marks_of(s, 0, n) + rest) =~= s.subrange(0, n)
        + seq!['\n'] + s.subrange(n, m));
}

/// A measure reads only the characters it passes: over equal characters it
/// comes to the same.
pub proof fn lemma_measure_same(
    font: &PxFont,
    start: Measure,
    s: Seq<char>,
    from: int,
    t: Seq<char>,
    at: int,
    n: int,
)
    requires
        forall|j: int| from <= j < from + n ==> #[trigger] s[j] == t[j - from + at],
    ensures
        measure_on(font, start, s, from, n) == measure_on(font, start, t, at, n),
    decreases n,
{
    if n > 0 {
        lemma_measure_same(font, start, s, from, t, at, n - 1);
        assert(s[from + n - 1] == t[from + n - 1 - from + at]);
    }
}

/// Measuring on over two runs of characters is measuring over the first and
/// then, from what that came to, over the second.
pub proof fn lemma_measure_split(
    font: &PxFont,
    start: Measure,
    s: Seq<char>,
    from: int,
    n: int,
    m: int,
)
    requires
        0 <= n,
        0 <= m,
    ensures
        measure_on(font, start, s, from, n + m) == measure_on(
            font,
            measure_on(font, start, s, from, n),
            s,
            from + n,
            m,
        ),
    decreases m,
{
    if m > 0 {
        lemma_measure_split(font, start, s, from, n, m - 1);
    }
}

/// Over characters without a line break, a measure goes on from where it
/// started by what the characters measure alone: nothing where they hold no
/// glyph, else their width, and the font's spacing where the line held a
/// glyph before.
pub proof fn lemma_measure_run(font: &PxFont, start: Measure, s: Seq<char>, from: int, n: int)
    requires
        font.wf(),
        0 <= n,
        forall|j: int| from <= j < from + n ==> #[trigger] s[j] != '\n',
    ensures
        ({
            let alone = measure_on(font, measure_start(), s, from, n);
            let on = measure_on(font, start, s, from, n);
            &&& alone.widest == 0
            &&& alone.line >= 0
            &&& alone.first ==> alone.line == 0
            &&& on.widest == start.widest
            &&& alone.first ==> on == start
            &&& !alone.first ==> !on.first && on.line == start.line + alone.line + if start.first {
                0int
            } else {
                font.spec_spacing() as int
            }
        }),
    decreases n,
{
    if n > 0 {
        lemma_measure_run(font, start, s, from, n - 1);
        assert(s[from + n - 1] != '\n');
    }
}

/// A word holds no line break before its last character.
pub proof fn lemma_word_breaks_last(s: Seq<char>, from: int, i: int)
    requires
        0 <= from,
        0 <= i,
        i + 1 < word_len(s, from),
    ensures
        s[from + i] != '\n',
        !is_separator(s[from + i]),
    decreases i,
{
    lemma_word_len_bounds(s, from);
    if i > 0 {
        lemma_word_breaks_last(s, from + 1, i - 1);
    }
}

/// What a pen and the measure of what it has written have to do with each
/// other while a text is wrapped into a box: no line is wider than the box,
/// and the pen stands at or behind the end of the open line and the spacing
/// that follows it.
pub open spec fn pen_covers(font: &PxFont, bounds: WrapBox, m: Measure, x: int) -> bool {
    &&& 0 <= m.widest <= bounds.width
    &&& 0 <= m.line <= bounds.width
    &&& 0 <= x
    &&& m.first ==> m.line == 0
    &&& !m.first ==> m.line + font.spec_spacing() <= x
}

/// Every word of `s` is at most as wide as the box.
pub open spec fn words_fit(font: &PxFont, bounds: WrapBox, s: Seq<char>) -> bool {
    forall|k: int|
        0 <= k < s.len() ==> #[trigger] word_width(font, s, k, word_len(s, k) as int)
            <= bounds.width
}

/// Wrapping on from place `from` keeps the lines within the box.
proof fn lemma_wrap_keeps_lines(
    font: &PxFont,
    bounds: WrapBox,
    s: Seq<char>,
    from: int,
    x: int,
    y: int,
    m: Measure,
)
    requires
        font.wf(),
        0 <= from <= s.len(),
        0 <= bounds.width,
        words_fit(font, bounds, s),
        pen_covers(font, bounds, m, x),
    ensures
        ({
            let out = mark_chars(wrap_from(font, bounds, s, from, x, y));
            let end = measure_on(font, m, out, 0, out.len() as int);
            &&& 0 <= end.widest <= bounds.width
            &&& 0 <= end.line <= bounds.width
        }),
    decreases s.len() - from,
{
    let marks = wrap_from(font, bounds, s, from, x, y);
    let out = mark_chars(marks);
    if from >= s.len() {
        assert(out.len() == 0);
    } else {
        lemma_word_len_bounds(s, from);
        let n = word_len(s, from) as int;
        let width = word_width(font, s, from, n);
        assert(width <= bounds.width);
        lemma_word_width_nonnegative(font, s, from, n);
        let breaks = x + width > bounds.width;
        let lead: Seq<Mark> = if breaks {
            seq![inserted_break()]
        } else {
            Seq::empty()
        };
        let k = lead.len() as int;
        let x1 = if breaks {
            width + font.spec_spacing()
        } else {
            x + width + font.spec_spacing()
        };
        let y1 = if breaks {
            y + font.line_height()
        } else {
            y
        };
        let ends_line = s[from + n - 1] == '\n';
        let x2 = if ends_line {
            0
        } else {
            x1
        };
        let y2 = if ends_line {
            y1 + font.line_height()
        } else {
            y1
        };
        // The measure behind the line break that the word got, if it got one.
        let m1 = if breaks {
            measure_step(font, m, '\n')
        } else {
            m
        };
        assert(measure_on(font, m, out, 0, 0) == m);
        if y2 + font.line_height() > bounds.height {
            assert(marks == lead);
            assert(out.len() == k);
            if breaks {
                assert(out[0] == '\n');
                assert(measure_on(font, m, out, 0, 1) == m1);
            }
        } else {
            let rest = wrap_from(font, bounds, s, from + n, x2, y2);
            let rest_out = mark_chars(rest);
            assert(marks == lead + marks_of(s, from, n) + rest);
            assert(out.len() == k + n + rest.len());
            assert forall|j: int| k <= j < k + n implies #[trigger] out[j] == s[j - k + from] by {
                assert(marks[j] == marks_of(s, from, n)[j - k]);
            }
            assert forall|j: int| k + n <= j < k + n + rest.len() implies #[trigger] out[j]
                == rest_out[j - (k + n) + 0] by {
                assert(marks[j] == rest[j - (k + n)]);
            }
            if breaks {
                assert(out[0] == '\n');
                assert(measure_on(font, m, out, 0, 1) == m1);
            }
            assert(measure_on(font, m, out, 0, k) == m1);
            // The word, measured on from the line it stands on.
            let m2 = measure_on(font, m1, s, from, n);
            lemma_measure_split(font, m, out, 0, k, n);
            lemma_measure_same(font, m1, out, k, s, from, n);
            lemma_measure_split(font, m, out, 0, k + n, rest.len() as int);
            lemma_measure_same(font, m2, out, k + n, rest_out, 0, rest.len() as int);
            assert(measure_on(font, m, out, 0, out.len() as int) == measure_on(
                font,
                m2,
                rest_out,
                0,
                rest_out.len() as int,
            ));
            // What the word does to the measure.
            let body = if ends_line {
                n - 1
            } else {
                n
            };
            assert forall|j: int| from <= j < from + body implies #[trigger] s[j] != '\n' by {
                if j - from + 1 < n {
                    lemma_word_breaks_last(s, from, j - from);
                }
            }
            lemma_measure_run(font, m1, s, from, body);
            lemma_measure_run(font, measure_start(), s, from, body);
            let alone = measure_on(font, measure_start(), s, from, body);
            if ends_line {
                assert(measure_on(font, measure_start(), s, from, n) == measure_step(
                    font,
                    alone,
                    '\n',
                ));
                assert(m2 == measure_step(font, measure_on(font, m1, s, from, body), '\n'));
            }
            assert(width == alone.line);
            assert(pen_covers(font, bounds, m2, x2));
            lemma_wrap_keeps_lines(font, bounds, s, from + n, x2, y2, m2);
        }
    }
}

/// No line of a wrapped text is wider than the box: where every word of `s`
/// is at most as wide as the box, the widest line of `s` wrapped from the
/// box's top left is at most as wide as the box.
pub proof fn lemma_wrapped_lines_fit(font: &PxFont, bounds: WrapBox, s: Seq<char>)
    requires
        font.wf(),
        0 <= bounds.width,
        words_fit(font, bounds, s),
    ensures
        ({
            let out = mark_chars(wrap_from(font, bounds, s, 0, 0, 0));
            widest_line(measure(font, out, out.len() as int)) <= bounds.width
        }),
{
    lemma_wrap_keeps_lines(font, bounds, s, 0, 0, 0, measure_start());
}

} // verus!
