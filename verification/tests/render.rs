use std::path::PathBuf;

use pxtxt::bitmap::{Bitmap, Rgba};
use pxtxt::pxfont::PxFont;
use pxtxt::pxfontdata::{CharLayout, GlyphWidth, PxFontData};
use pxtxt::pxtext::{PickableText, PxText, PxTextSection};
use pxtxt::rect::ScreenRect;
use pxtxt::layout::layout;
use pxtxt::measure::{text_height, text_width};
use pxtxt::wrap::{word_separator, wrap_words};
use pxtxt::pick::{pick_rects, top_left};
use pxtxt::render_text::render_text;

const A: Rgba = Rgba { r: 255, g: 255, b: 255, a: 255 };
const B: Rgba = Rgba { r: 200, g: 100, b: 50, a: 255 };
const CLEAR: Rgba = Rgba { r: 0, g: 0, b: 0, a: 0 };

/// A font of three columns by five rows for each of `A`, `B`, the space and
/// the hyphen: `A` is white, `B` is brown, the other two show nothing.
fn font_with(spacing: u32, descender: u32) -> PxFont {
    let mut bytes = Vec::new();
    for _y in 0..(3 + descender) {
        for x in 0..12 {
            let p = if x < 3 { A } else if x < 6 { B } else { CLEAR };
            bytes.extend_from_slice(&[p.r, p.g, p.b, p.a]);
        }
    }
    let source = Bitmap::from_raw(12, 3 + descender, bytes).unwrap();
    let data = PxFontData {
        name: String::from("test"),
        image: PathBuf::from("test.png"),
        glyph_width: GlyphWidth::Monospace(3),
        ascender: 3,
        descender,
        char_layout: CharLayout::Listed(vec!['A', 'B', ' ', '-']),
        spacing,
        padding: (0, 0),
    };
    PxFont::from_atlas(data, source).unwrap()
}

fn font() -> PxFont {
    font_with(1, 2)
}

/// A font whose lines are higher than an image can be; it holds no glyph.
fn towering_font() -> PxFont {
    let data = PxFontData {
        name: String::from("towering"),
        image: PathBuf::from("towering.png"),
        glyph_width: GlyphWidth::Monospace(3),
        ascender: u32::MAX,
        descender: 2,
        char_layout: CharLayout::Listed(vec!['A']),
        spacing: 1,
        padding: (0, 0),
    };
    PxFont::from_atlas(data, Bitmap::new(3, 5).unwrap()).unwrap()
}

/// A font of three columns by five rows with glyphs for `A` and `B` only.
fn font_without_space() -> PxFont {
    let data = PxFontData {
        name: String::from("letters"),
        image: PathBuf::from("letters.png"),
        glyph_width: GlyphWidth::Monospace(3),
        ascender: 3,
        descender: 2,
        char_layout: CharLayout::Listed(vec!['A', 'B']),
        spacing: 1,
        padding: (0, 0),
    };
    PxFont::from_atlas(data, Bitmap::new(6, 5).unwrap()).unwrap()
}

fn rows(image: &Bitmap) -> Vec<Vec<Rgba>> {
    (0..image.height()).map(|y| (0..image.width()).map(|x| image.get_pixel(x, y)).collect()).collect()
}

fn row(pattern: &str, tint: Rgba) -> Vec<Rgba> {
    pattern
        .chars()
        .map(|c| match c {
            'A' => A.tinted(tint),
            'B' => B.tinted(tint),
            '_' => A.tinted(tint),
            _ => CLEAR,
        })
        .collect()
}

#[test]
fn two_glyphs_of_three_pixels_one_apart_are_nine_wide() {
    let text = PxText::from_section("AB", 0);
    assert_eq!(font().glyph('A').unwrap().width() + 1, 3);
    assert_eq!(font().spacing(), 1);
    assert_eq!(text_width(&text, &font()), Some(9));
}

#[test]
fn glyphs_of_four_columns_and_one_of_spacing() {
    let data = PxFontData {
        name: String::from("wide"),
        image: PathBuf::from("wide.png"),
        glyph_width: GlyphWidth::Monospace(4),
        ascender: 3,
        descender: 2,
        char_layout: CharLayout::Listed(vec!['A', 'B']),
        spacing: 1,
        padding: (0, 0),
    };
    let wide = PxFont::from_atlas(data, Bitmap::new(8, 5).unwrap()).unwrap();
    assert_eq!(wide.glyph('A').unwrap().width(), 3);
    assert_eq!(text_width(&PxText::from_section("AB", 0), &wide), Some(4 + 1 + 4 + 1 + 1));
}

#[test]
fn the_widest_line_gives_the_width() {
    let text = PxText::from_sections(
        vec![PxTextSection::new("A\nAB"), PxTextSection::new("A\nB")],
        0,
    );
    assert_eq!(text_width(&text, &font()), Some(3 + 1 + 3 + 1 + 3 + 1 + 1));
}

#[test]
fn a_line_break_and_a_missing_glyph_add_no_width() {
    let alone = text_width(&PxText::from_section("A", 0), &font());
    assert_eq!(alone, Some(3 + 1 + 1));
    assert_eq!(text_width(&PxText::from_section("A\n", 0), &font()), alone);
    assert_eq!(text_width(&PxText::from_section("A\nA", 0), &font()), alone);
    assert_eq!(text_width(&PxText::from_section("A?", 0), &font()), alone);
    assert_eq!(text_width(&PxText::from_section("?A", 0), &font()), alone);
    assert_eq!(text_width(&PxText::from_section("A?A", 0), &font()), Some(3 + 1 + 3 + 1 + 1));
}

#[test]
fn an_empty_text_has_the_border_and_one_column_and_is_one_line_high() {
    let text = PxText::from_sections(Vec::new(), 0);
    assert_eq!(text_width(&text, &font()), Some(2));
    assert_eq!(text_height(&text, &font()), Some(5));
}

#[test]
fn each_line_adds_a_line_height() {
    let text = PxText::from_sections(
        vec![PxTextSection::new("A\nB"), PxTextSection::new("\nA")],
        0,
    );
    assert_eq!(text_height(&text, &font()), Some((3 + 2) * 3));
    let spaced = PxText::from_section("A\nB", 0).with_line_spacing(5);
    assert_eq!(text_height(&spaced, &font()), Some((3 + 2) * 2));
    assert_eq!(text_height(&PxText::from_section("A\nB", 0), &font_with(1, 1)), Some((3 + 1) * 2));
}

#[test]
fn a_bounding_box_gives_the_size() {
    let text = PxText::from_section("AB\nAB\nAB", 0).with_bounding_box((5, 7));
    assert_eq!(text_width(&text, &font()), Some(5));
    assert_eq!(text_height(&text, &font()), Some(7));
    let image = render_text(&text, &font()).unwrap();
    assert_eq!((image.width(), image.height()), (5, 7));
}

#[test]
fn a_text_too_high_for_an_image_has_no_height() {
    let text = PxText::from_section("A\nB", 0);
    assert_eq!(text_height(&text, &towering_font()), None);
    assert!(render_text(&text, &towering_font()).is_none());
}

#[test]
fn white_space_and_the_hyphen_end_words() {
    assert!(word_separator(' '));
    assert!(word_separator('\n'));
    assert!(word_separator('\t'));
    assert!(word_separator('\u{A0}'));
    assert!(word_separator('-'));
    assert!(!word_separator('A'));
    assert!(!word_separator('_'));
}

#[test]
fn the_second_of_two_words_of_fifteen_pixels_wraps_in_twenty() {
    let wrapped = wrap_words((0, 0), "AAA AAAA", &font(), (20, 100));
    assert_eq!(wrapped, "AAA \nAAAA");
}

#[test]
fn words_that_fit_stay_on_their_line() {
    let wrapped = wrap_words((0, 0), "AAA AAAA", &font(), (31, 100));
    assert_eq!(wrapped, "AAA AAAA");
    let wrapped = wrap_words((0, 0), "AAA AAAA", &font(), (30, 100));
    assert_eq!(wrapped, "AAA \nAAAA");
    let wrapped = wrap_words((0, 0), "AAAA", &font(), (15, 100));
    assert_eq!(wrapped, "AAAA");
    let wrapped = wrap_words((0, 0), "AAAA", &font(), (14, 100));
    assert_eq!(wrapped, "\nAAAA");
}

#[test]
fn a_word_keeps_its_separator() {
    let wrapped = wrap_words((0, 0), "A-B-A B", &font(), (8, 100));
    assert_eq!(wrapped, "A-\nB-\nA \nB");
}

#[test]
fn the_pen_before_the_text_counts() {
    let wrapped = wrap_words((11, 0), "AA", &font(), (17, 100));
    assert_eq!(wrapped, "\nAA");
    let wrapped = wrap_words((10, 0), "AA", &font(), (17, 100));
    assert_eq!(wrapped, "AA");
}

#[test]
fn wrapping_ends_where_the_box_is_full() {
    let wrapped = wrap_words((0, 0), "AA AA AA", &font(), (12, 12));
    assert_eq!(wrapped, "AA \nAA \n");
    let wrapped = wrap_words((0, 0), "AA AA AA", &font(), (8, 12));
    assert_eq!(wrapped, "\nAA \n");
    let wrapped = wrap_words((0, 0), "AA\nAA\nAA", &font(), (9, 9));
    assert_eq!(wrapped, "");
    let wrapped = wrap_words((0, 0), "AA\nAA\nAA", &font(), (9, 10));
    assert_eq!(wrapped, "AA\n");
    let wrapped = wrap_words((0, 0), "AA\nAA\nAA", &font(), (9, 14));
    assert_eq!(wrapped, "AA\n");
    let wrapped = wrap_words((0, 0), "AA\nAA\nAA", &font(), (9, 15));
    assert_eq!(wrapped, "AA\nAA\nAA");
    let wrapped = wrap_words((0, 7), "AA", &font(), (8, 12));
    assert_eq!(wrapped, "AA");
    let wrapped = wrap_words((0, 8), "AA", &font(), (8, 12));
    assert_eq!(wrapped, "");
}

#[test]
fn the_spacing_behind_a_word_counts_after_a_line_break_too() {
    let wrapped = wrap_words((0, 0), "AAA BBB AA", &font_without_space(), (18, 100));
    assert_eq!(wrapped, "AAA \nBBB \nAA");
    let wrapped = wrap_words((0, 0), "AAA BBB AA", &font_without_space(), (19, 100));
    assert_eq!(wrapped, "AAA \nBBB AA");
}

#[test]
fn no_wrapped_line_is_wider_than_the_box() {
    for width in 15..40u32 {
        let wrapped = wrap_words((0, 0), "AAA BBB AA A-B AAA", &font(), (width, 1000));
        for line in wrapped.split('\n') {
            let measured = text_width(&PxText::from_section(line, 0), &font()).unwrap() - 2;
            assert!(measured <= width);
        }
    }
}

#[test]
fn a_word_that_fits_a_box_of_one_line_stays() {
    assert_eq!(wrap_words((0, 0), "AA", &font(), (8, 5)), "AA");
    assert_eq!(wrap_words((0, 0), "AA", &font(), (7, 5)), "AA");
    assert_eq!(wrap_words((0, 0), "AA", &font(), (8, 4)), "");
}

#[test]
fn white_space_is_what_the_standard_library_tells() {
    let listed = |c: char| {
        matches!(
            c as u32,
            0x09..=0x0D
                | 0x20
                | 0x85
                | 0xA0
                | 0x1680
                | 0x2000..=0x200A
                | 0x2028
                | 0x2029
                | 0x202F
                | 0x205F
                | 0x3000
        )
    };
    for code in 0..=0x10FFFFu32 {
        if let Some(c) = char::from_u32(code) {
            assert_eq!(word_separator(c), listed(c) || c == '-');
        }
    }
}

#[test]
fn a_word_wider_than_the_box_goes_to_a_line_of_its_own() {
    let wrapped = wrap_words((0, 0), "A AAAA A", &font(), (8, 100));
    assert_eq!(wrapped, "A \nAAAA \nA");
}

#[test]
fn two_glyphs_side_by_side() {
    let image = render_text(&PxText::from_section("AB", 0), &font()).unwrap();
    assert_eq!((image.width(), image.height()), (9, 5));
    assert_eq!(rows(&image), vec![row("AAA.BBB..", A); 5]);
}

#[test]
fn a_tint_multiplies_the_pixels_of_its_section() {
    let tint = Rgba::new(128, 255, 0, 255);
    let text = PxText::from_sections(
        vec![PxTextSection::new("B").with_color(tint), PxTextSection::new("B")],
        0,
    );
    let image = render_text(&text, &font()).unwrap();
    assert_eq!(image.get_pixel(0, 0), Rgba::new(100, 100, 0, 255));
    assert_eq!(image.get_pixel(2, 4), Rgba::new(100, 100, 0, 255));
    assert_eq!(image.get_pixel(3, 0), CLEAR);
    assert_eq!(image.get_pixel(4, 0), B);
}

#[test]
fn an_underline_is_drawn_below_the_ascender_in_white() {
    let tint = Rgba::new(127, 127, 127, 255);
    let text = PxText::from_sections(vec![PxTextSection::new("AB").with_color(tint).underlined()], 0);
    let image = render_text(&text, &font()).unwrap();
    let line = Rgba::new(255, 255, 255, 255);
    assert_eq!(rows(&image)[4], vec![line, line, line, line, line, line, line, CLEAR, CLEAR]);
    assert_eq!(rows(&image)[3], row("AAA.BBB..", tint));
    let shallow = render_text(&text, &font_with(1, 1)).unwrap();
    assert_eq!(shallow.height(), 4);
    assert_eq!(rows(&shallow)[3], vec![line, line, line, line, line, line, line, CLEAR, CLEAR]);
    assert_eq!(rows(&shallow)[2], row("AAA.BBB..", tint));
}

#[test]
fn without_spacing_the_column_before_a_glyph_is_tinted_again() {
    let tint = Rgba::new(128, 128, 128, 255);
    let text = PxText::from_sections(vec![PxTextSection::new("AA").with_color(tint)], 0);
    let image = render_text(&text, &font_with(0, 2)).unwrap();
    assert_eq!(image.width(), 8);
    assert_eq!(image.get_pixel(1, 0), Rgba::new(128, 128, 128, 255));
    assert_eq!(image.get_pixel(2, 0), Rgba::new(64, 64, 64, 255));
    assert_eq!(image.get_pixel(3, 0), Rgba::new(128, 128, 128, 255));
}

#[test]
fn a_section_after_a_space_does_not_reach_back() {
    let red = Rgba::new(255, 0, 0, 255);
    let plain = PxText::from_sections(
        vec![PxTextSection::new("A").underlined(), PxTextSection::new("A").with_color(red).underlined()],
        0,
    );
    let image = render_text(&plain, &font()).unwrap();
    assert_eq!(image.get_pixel(3, 4), A);
    assert_eq!(image.get_pixel(4, 3), red);
    let after_space = PxText::from_sections(
        vec![PxTextSection::new(" ").underlined(), PxTextSection::new("A").with_color(red).underlined()],
        0,
    );
    let image = render_text(&after_space, &font()).unwrap();
    assert_eq!(image.get_pixel(2, 4), A);
    assert_eq!(image.get_pixel(3, 4), CLEAR);
    assert_eq!(image.get_pixel(4, 4), A);
    assert_eq!(image.get_pixel(4, 3), red);
}

#[test]
fn a_line_break_starts_the_next_line() {
    let image = render_text(&PxText::from_section("A\nB", 0), &font()).unwrap();
    assert_eq!((image.width(), image.height()), (5, 10));
    let mut expected = vec![row("AAA..", A); 5];
    expected.extend(vec![row("BBB..", A); 5]);
    assert_eq!(rows(&image), expected);
}

#[test]
fn a_character_without_glyph_is_passed_over() {
    let image = render_text(&PxText::from_section("A?B", 0), &font()).unwrap();
    assert_eq!(image.width(), 9);
    assert_eq!(rows(&image)[0], row("AAA.BBB..", A));
}

#[test]
fn a_glyph_past_the_right_edge_goes_to_the_next_line() {
    let text = PxText::from_section("AB", 0).with_truncating_wrap().with_bounding_box((6, 12));
    let image = render_text(&text, &font()).unwrap();
    assert_eq!(rows(&image)[0], row("AAA...", A));
    assert_eq!(rows(&image)[4], row("AAA...", A));
    assert_eq!(rows(&image)[5], row("BBB...", A));
    assert_eq!(rows(&image)[9], row("BBB...", A));
    assert_eq!(rows(&image)[10], row("......", A));
}

#[test]
fn a_glyph_below_the_box_ends_the_drawing() {
    let text = PxText::from_section("A\nBA", 0).with_char_wrap().with_bounding_box((8, 9));
    let image = render_text(&text, &font()).unwrap();
    assert_eq!(rows(&image)[0], row("AAA.....", A));
    for y in 5..9 {
        assert_eq!(rows(&image)[y], row("........", A));
    }
    let fitting = PxText::from_section("A\nBA", 0).with_char_wrap().with_bounding_box((8, 10));
    let image = render_text(&fitting, &font()).unwrap();
    assert_eq!(rows(&image)[9], row("BBB.AAA.", A));
}

#[test]
fn words_wrap_inside_a_box() {
    let text = PxText::from_section("AB AB", 0).with_bounding_box((16, 12));
    let image = render_text(&text, &font()).unwrap();
    assert_eq!(rows(&image)[0], row("AAA.BBB.........", A));
    assert_eq!(rows(&image)[5], row("AAA.BBB.........", A));
    let unwrapped = PxText::from_section("AB AB", 0).with_truncating_wrap().with_bounding_box((16, 12));
    let image = render_text(&unwrapped, &font()).unwrap();
    assert_eq!(rows(&image)[0], row("AAA.BBB.....AAA.", A));
    assert_eq!(rows(&image)[5], row("BBB.............", A));
}

#[test]
fn a_glyph_wider_than_the_box_is_cut_off() {
    let text = PxText::from_section("B", 0).with_truncating_wrap().with_bounding_box((2, 12));
    let image = render_text(&text, &font()).unwrap();
    assert_eq!(rows(&image)[0], row("..", A));
    assert_eq!(rows(&image)[5], vec![B, B]);
}

#[test]
fn a_word_wider_than_the_box_is_never_drawn() {
    let text = PxText::from_section("B", 0).with_bounding_box((2, 12));
    let image = render_text(&text, &font()).unwrap();
    assert_eq!(image.into_raw(), vec![0u8; 2 * 12 * 4]);
}

#[test]
fn drawing_the_same_text_twice_gives_the_same_bytes() {
    let text = PxText::from_sections(
        vec![
            PxTextSection::new("AB A-B\n").with_color(Rgba::new(9, 200, 77, 128)).underlined(),
            PxTextSection::new("BA?A"),
        ],
        0,
    )
    .with_bounding_box((14, 30));
    let first = render_text(&text, &font()).unwrap().into_raw();
    let second = render_text(&text, &font()).unwrap().into_raw();
    assert_eq!(first, second);
    assert_eq!(first.len(), 14 * 30 * 4);
}

#[test]
fn the_corner_of_an_image_from_its_centre() {
    assert_eq!(top_left((100, 50), 9, 6), Some((96, 53)));
    assert_eq!(top_left((0, 0), 0, 0), Some((0, 0)));
    assert_eq!(top_left((i32::MIN, 0), 2, 0), None);
    assert_eq!(top_left((0, i32::MAX), 0, 2), None);
    assert_eq!(top_left((i32::MAX, i32::MIN), u32::MAX, u32::MAX), Some((0, -1)));
}

#[test]
fn a_picked_text_of_two_lines_has_two_rectangles() {
    let text = PxText::from_section("AB\nA", 0);
    let rects = pick_rects(&text, &font(), (10, 100), &PickableText::Whole).unwrap();
    assert_eq!(
        rects,
        vec![
            ScreenRect { min_x: 10, min_y: 95, max_x: 18, max_y: 100 },
            ScreenRect { min_x: 10, min_y: 90, max_x: 14, max_y: 95 },
        ]
    );
}

#[test]
fn a_picked_section_starts_where_the_pen_stands() {
    let text = PxText::from_sections(
        vec![PxTextSection::new("A\nB"), PxTextSection::new("AB"), PxTextSection::new("A")],
        0,
    )
    .with_line_spacing(2);
    let rects = pick_rects(&text, &font(), (0, 0), &PickableText::Sections(1..2)).unwrap();
    assert_eq!(rects, vec![ScreenRect { min_x: 4, min_y: -10, max_x: 12, max_y: -5 }]);
}

#[test]
fn picked_characters_in_the_middle_of_a_line() {
    let text = PxText::from_section("ABAB", 0);
    let rects = pick_rects(&text, &font(), (0, 0), &PickableText::Chars(1..3)).unwrap();
    assert_eq!(rects, vec![ScreenRect { min_x: 4, min_y: -5, max_x: 12, max_y: 0 }]);
}

#[test]
fn lines_before_the_picked_range_have_no_rectangle() {
    let text = PxText::from_section("A\nB\nA", 0);
    let rects = pick_rects(&text, &font(), (0, 0), &PickableText::Chars(4..5)).unwrap();
    assert_eq!(rects, vec![ScreenRect { min_x: 0, min_y: -15, max_x: 4, max_y: -10 }]);
}

#[test]
fn a_selector_outside_the_text_has_no_rectangle() {
    let text = PxText::from_section("AB", 0);
    let rects = pick_rects(&text, &font(), (0, 0), &PickableText::Chars(5..9)).unwrap();
    assert!(rects.is_empty());
}

#[test]
fn a_pen_that_leaves_the_screen_gives_no_rectangles() {
    let text = PxText::from_section("AB", 0);
    assert_eq!(pick_rects(&text, &font(), (i32::MAX - 5, 0), &PickableText::Whole), None);
    assert_eq!(pick_rects(&text, &font(), (0, i32::MIN + 4), &PickableText::Whole), None);
    assert!(pick_rects(&text, &font(), (i32::MAX - 8, i32::MIN + 5), &PickableText::Whole).is_some());
}

#[test]
fn picked_words_follow_the_wrapped_lines() {
    let text = PxText::from_section("AB AB", 0).with_bounding_box((16, 12));
    let rects = pick_rects(&text, &font(), (0, 0), &PickableText::Whole).unwrap();
    assert_eq!(
        rects,
        vec![
            ScreenRect { min_x: 0, min_y: -5, max_x: 12, max_y: 0 },
            ScreenRect { min_x: 0, min_y: -10, max_x: 8, max_y: -5 },
        ]
    );
    let second_word = pick_rects(&text, &font(), (0, 0), &PickableText::Chars(3..5)).unwrap();
    assert_eq!(second_word, vec![ScreenRect { min_x: 0, min_y: -10, max_x: 8, max_y: -5 }]);
}

#[test]
fn a_glyph_that_goes_to_the_next_line_starts_a_new_rectangle() {
    let text = PxText::from_section("AB", 0).with_truncating_wrap().with_bounding_box((6, 12));
    let rects = pick_rects(&text, &font(), (100, 50), &PickableText::Whole).unwrap();
    assert_eq!(
        rects,
        vec![
            ScreenRect { min_x: 100, min_y: 45, max_x: 104, max_y: 50 },
            ScreenRect { min_x: 100, min_y: 40, max_x: 104, max_y: 45 },
        ]
    );
}

#[test]
fn what_is_not_drawn_has_no_rectangle() {
    let text = PxText::from_section("A\nBA", 0).with_char_wrap().with_bounding_box((8, 9));
    let rects = pick_rects(&text, &font(), (0, 0), &PickableText::Whole).unwrap();
    assert_eq!(rects, vec![ScreenRect { min_x: 0, min_y: -5, max_x: 4, max_y: 0 }]);
    let below = pick_rects(&text, &font(), (0, 0), &PickableText::Chars(2..4)).unwrap();
    assert!(below.is_empty());
}

#[test]
fn characters_without_glyph_take_no_room_in_a_rectangle() {
    let text = PxText::from_section("?A?B?", 0);
    let rects = pick_rects(&text, &font(), (0, 0), &PickableText::Whole).unwrap();
    assert_eq!(rects, vec![ScreenRect { min_x: 0, min_y: -5, max_x: 8, max_y: 0 }]);
    let none = pick_rects(&text, &font(), (0, 0), &PickableText::Chars(2..3)).unwrap();
    assert!(none.is_empty());
}

#[test]
fn a_picked_range_across_sections_is_one_rectangle_on_a_line() {
    let text = PxText::from_sections(
        vec![PxTextSection::new("AB"), PxTextSection::new("BA"), PxTextSection::new("AA")],
        0,
    );
    let rects = pick_rects(&text, &font(), (0, 0), &PickableText::Chars(1..5)).unwrap();
    assert_eq!(rects, vec![ScreenRect { min_x: 4, min_y: -5, max_x: 20, max_y: 0 }]);
}

#[test]
fn a_text_too_high_for_an_image_has_no_rectangles() {
    let text = PxText::from_section("A\nB", 0);
    assert_eq!(pick_rects(&text, &towering_font(), (0, 0), &PickableText::Whole), None);
    assert!(layout(&text, &towering_font()).is_none());
}

#[test]
fn a_layout_tells_where_each_glyph_stands() {
    let text = PxText::from_sections(vec![PxTextSection::new("A?"), PxTextSection::new("\nB")], 0);
    let laid = layout(&text, &font()).unwrap();
    assert_eq!(laid.len(), 4);
    let summary: Vec<(char, Option<usize>, usize, Option<(u32, u32, u32)>)> = laid
        .iter()
        .map(|l| (l.c, l.index, l.section, l.spot.map(|s| (s.x, s.left, s.y))))
        .collect();
    assert_eq!(
        summary,
        vec![
            ('A', Some(0), 0, Some((0, 0, 0))),
            ('?', Some(1), 0, None),
            ('\n', Some(2), 1, None),
            ('B', Some(3), 1, Some((0, 0, 5))),
        ]
    );
    assert_eq!(laid[3].spot.unwrap().rect, font().glyph('B').unwrap());
}

#[test]
fn a_layout_marks_the_line_breaks_that_wrapping_put_in() {
    let text = PxText::from_section("AB AB", 0).with_bounding_box((16, 12));
    let laid = layout(&text, &font()).unwrap();
    let summary: Vec<(char, Option<usize>, Option<(u32, u32, u32)>)> =
        laid.iter().map(|l| (l.c, l.index, l.spot.map(|s| (s.x, s.left, s.y)))).collect();
    assert_eq!(
        summary,
        vec![
            ('A', Some(0), Some((0, 0, 0))),
            ('B', Some(1), Some((4, 3, 0))),
            (' ', Some(2), Some((8, 7, 0))),
            ('\n', None, None),
            ('A', Some(3), Some((0, 0, 5))),
            ('B', Some(4), Some((4, 3, 5))),
        ]
    );
}
