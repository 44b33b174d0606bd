use pxtxt::bitmap::Rgba;
use pxtxt::input::{pick_events, pick_type};
use pxtxt::pxtext::{
    chars_of, string_of, EventType, PickableText, PxText, PxTextEvent, PxTextSection, WrapMode,
};
use pxtxt::rect::ScreenRect;

fn three_sections() -> PxText {
    PxText::from_sections(
        vec![PxTextSection::new("one "), PxTextSection::new("two\n"), PxTextSection::new("three")],
        0,
    )
}

fn event(pick_type: EventType) -> PxTextEvent {
    PxTextEvent {
        entity: 1,
        range: 0..0,
        value: String::new(),
        rect: ScreenRect::from_corners((0, 0), (0, 0)),
        pick_type,
    }
}

#[test]
fn a_new_section_is_white_and_not_underlined() {
    let s = PxTextSection::new("hello");
    assert_eq!(s.value, "hello");
    assert_eq!(s.color, Rgba::white());
    assert!(!s.underline);
}

#[test]
fn a_section_takes_a_tint_and_an_underline() {
    let s = PxTextSection::new("hello").with_color(Rgba::new(1, 2, 3, 4)).underlined();
    assert_eq!(s.value, "hello");
    assert_eq!(s.color, Rgba::new(1, 2, 3, 4));
    assert!(s.underline);
}

#[test]
fn a_text_of_one_section_has_the_defaults() {
    let t = PxText::from_section("hello", 7);
    assert_eq!(t.sections.len(), 1);
    assert_eq!(t.sections[0].value, "hello");
    assert_eq!(t.sections[0].color, Rgba::white());
    assert!(!t.sections[0].underline);
    assert_eq!(t.font, 7);
    assert_eq!(t.line_spacing, 1);
    assert_eq!(t.wrap_mode, WrapMode::WrapWord);
    assert_eq!(t.bounding_box, None);
}

#[test]
fn a_text_of_sections_keeps_them_in_order() {
    let t = three_sections();
    assert_eq!(t.sections.len(), 3);
    assert_eq!(t.sections[1].value, "two\n");
    assert_eq!(t.line_spacing, 1);
    assert_eq!(t.wrap_mode, WrapMode::WrapWord);
    assert_eq!(t.bounding_box, None);
}

#[test]
fn a_text_takes_its_layout_settings() {
    let t = three_sections().with_line_spacing(5).with_bounding_box((40, 30));
    assert_eq!(t.line_spacing, 5);
    assert_eq!(t.bounding_box, Some((40, 30)));
    assert_eq!(t.sections.len(), 3);
    assert_eq!(three_sections().with_truncating_wrap().wrap_mode, WrapMode::Truncate);
    assert_eq!(three_sections().with_char_wrap().wrap_mode, WrapMode::WrapChar);
    let back = three_sections().with_char_wrap().with_word_wrap();
    assert_eq!(back.wrap_mode, WrapMode::WrapWord);
}

#[test]
fn the_default_wrap_mode_keeps_words_whole() {
    assert_eq!(WrapMode::default(), WrapMode::WrapWord);
}

#[test]
fn the_characters_of_a_string_and_back() {
    let chars = chars_of("aé\n");
    assert_eq!(chars, vec!['a', 'é', '\n']);
    assert_eq!(string_of(&chars, 1, 3), "é\n");
    assert_eq!(string_of(&chars, 2, 2), "");
}

#[test]
fn a_flattened_text_knows_where_its_sections_start() {
    let (flat, starts) = three_sections().flatten();
    assert_eq!(flat.iter().collect::<String>(), "one two\nthree");
    assert_eq!(starts, vec![0, 4, 8, 13]);
}

#[test]
fn whole_covers_all_characters() {
    let (value, range) = PickableText::Whole.get_string(&three_sections());
    assert_eq!(value, "one two\nthree");
    assert_eq!(range, 0..13);
}

#[test]
fn whole_counts_characters_not_bytes() {
    let text = PxText::from_sections(vec![PxTextSection::new("né"), PxTextSection::new("€")], 0);
    let (value, range) = PickableText::Whole.get_string(&text);
    assert_eq!(value, "né€");
    assert_eq!(range, 0..3);
}

#[test]
fn whole_of_an_empty_text_is_empty() {
    let text = PxText::from_sections(Vec::new(), 0);
    let (value, range) = PickableText::Whole.get_string(&text);
    assert_eq!(value, "");
    assert_eq!(range, 0..0);
}

#[test]
fn the_second_of_three_sections() {
    let (value, range) = PickableText::Sections(1..2).get_string(&three_sections());
    assert_eq!(value, "two\n");
    assert_eq!(range, 4..8);
}

#[test]
fn sections_past_the_end_are_cut_off() {
    let (value, range) = PickableText::Sections(1..9).get_string(&three_sections());
    assert_eq!(value, "two\nthree");
    assert_eq!(range, 4..13);
}

#[test]
fn sections_outside_the_text_resolve_to_nothing() {
    for selector in [PickableText::Sections(3..5), PickableText::Sections(2..2), PickableText::Sections(2..1)] {
        let (value, range) = selector.get_string(&three_sections());
        assert_eq!(value, "");
        assert_eq!(range, 0..0);
    }
}

#[test]
fn characters_are_counted_across_sections() {
    let (value, range) = PickableText::Chars(2..9).get_string(&three_sections());
    assert_eq!(value, "e two\nt");
    assert_eq!(range, 2..9);
}

#[test]
fn characters_past_the_end_are_cut_off() {
    let (value, range) = PickableText::Chars(10..99).get_string(&three_sections());
    assert_eq!(value, "ree");
    assert_eq!(range, 10..13);
}

#[test]
fn characters_outside_the_text_resolve_to_nothing() {
    for selector in [PickableText::Chars(13..20), PickableText::Chars(5..5), PickableText::Chars(6..2)] {
        let (value, range) = selector.get_string(&three_sections());
        assert_eq!(value, "");
        assert_eq!(range, 0..0);
    }
}

#[test]
fn the_left_button_comes_first() {
    assert_eq!(pick_type(true, false), EventType::LeftClick);
    assert_eq!(pick_type(true, true), EventType::LeftClick);
    assert_eq!(pick_type(false, true), EventType::RightClick);
    assert_eq!(pick_type(false, false), EventType::Hover);
}

#[test]
fn an_event_tells_what_the_pointer_did() {
    let left = event(EventType::LeftClick);
    assert!(left.clicked() && left.left_clicked() && !left.right_clicked() && !left.hovered());
    let right = event(EventType::RightClick);
    assert!(right.clicked() && !right.left_clicked() && right.right_clicked() && !right.hovered());
    let hover = event(EventType::Hover);
    assert!(!hover.clicked() && !hover.left_clicked() && !hover.right_clicked() && hover.hovered());
}

#[test]
fn a_click_over_a_rectangle_gives_one_event_and_no_hover() {
    let rects = vec![ScreenRect::from_corners((0, 0), (10, 10))];
    let events =
        pick_events(42, &three_sections(), &PickableText::Sections(1..2), &rects, (5, 5), true, false);
    assert_eq!(events.len(), 1);
    assert_eq!(events[0].entity, 42);
    assert_eq!(events[0].range, 4..8);
    assert_eq!(events[0].value, "two\n");
    assert_eq!(events[0].rect, rects[0]);
    assert_eq!(events[0].pick_type, EventType::LeftClick);
    assert!(!events[0].hovered());
}

#[test]
fn each_rectangle_under_the_pointer_gives_an_event() {
    let rects = vec![
        ScreenRect::from_corners((0, 0), (10, 10)),
        ScreenRect::from_corners((20, 0), (30, 10)),
        ScreenRect::from_corners((5, 5), (6, 6)),
    ];
    let events = pick_events(1, &three_sections(), &PickableText::Whole, &rects, (5, 5), false, false);
    assert_eq!(events.len(), 2);
    assert_eq!(events[0].rect, rects[0]);
    assert_eq!(events[1].rect, rects[2]);
    assert!(events.iter().all(|e| e.pick_type == EventType::Hover));
    assert!(events.iter().all(|e| e.range == (0..13) && e.value == "one two\nthree"));
}

#[test]
fn a_pointer_beside_the_rectangles_gives_no_event() {
    let rects = vec![ScreenRect::from_corners((0, 0), (10, 10))];
    let events = pick_events(1, &three_sections(), &PickableText::Whole, &rects, (11, 5), true, true);
    assert!(events.is_empty());
}
