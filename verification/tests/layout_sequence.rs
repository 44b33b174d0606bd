use pxtxt::pxfontdata::{one, zerozero, CharLayout};

fn collect(layout: CharLayout, limit: usize) -> Vec<char> {
    let mut it = layout.into_iter();
    let mut out = Vec::new();
    while out.len() < limit {
        match it.next() {
            Some(c) => out.push(c),
            None => break,
        }
    }
    out
}

#[test]
fn ranges_are_walked_in_listed_order() {
    let layout = CharLayout::Ranges(vec!['a'..='c', 'x'..='z']);
    assert_eq!(collect(layout, 100), vec!['a', 'b', 'c', 'x', 'y', 'z']);
}

#[test]
fn ranges_are_neither_sorted_nor_merged() {
    let layout = CharLayout::Ranges(vec!['x'..='z', 'a'..='b', 'a'..='a']);
    assert_eq!(collect(layout, 100), vec!['x', 'y', 'z', 'a', 'b', 'a']);
}

#[test]
fn overlapping_ranges_repeat_their_characters() {
    let layout = CharLayout::Ranges(vec!['a'..='c', 'b'..='d']);
    assert_eq!(collect(layout, 100), vec!['a', 'b', 'c', 'b', 'c', 'd']);
}

#[test]
fn a_range_that_runs_backwards_is_empty() {
    let layout = CharLayout::Ranges(vec!['c'..='a', 'k'..='l']);
    assert_eq!(collect(layout, 100), vec!['k', 'l']);
}

#[test]
fn ranges_end_after_the_last_range() {
    let mut it = CharLayout::Ranges(vec!['a'..='b']).into_iter();
    assert_eq!(it.next(), Some('a'));
    assert_eq!(it.next(), Some('b'));
    assert_eq!(it.next(), None);
    assert_eq!(it.next(), None);
}

#[test]
fn a_range_across_the_surrogates_skips_them() {
    let layout = CharLayout::Ranges(vec!['\u{D7FF}'..='\u{E000}']);
    assert_eq!(collect(layout, 100), vec!['\u{D7FF}', '\u{E000}']);
}

#[test]
fn no_ranges_give_no_characters() {
    let mut it = CharLayout::Ranges(Vec::new()).into_iter();
    assert_eq!(it.next(), None);
}

#[test]
fn listed_characters_come_in_the_order_given() {
    let layout = CharLayout::Listed(vec!['q', 'a', 'q', '!']);
    assert_eq!(collect(layout, 100), vec!['q', 'a', 'q', '!']);
}

#[test]
fn an_empty_list_gives_no_characters() {
    let mut it = CharLayout::Listed(Vec::new()).into_iter();
    assert_eq!(it.next(), None);
    assert_eq!(it.next(), None);
}

#[test]
fn starting_at_ascends_from_its_seed() {
    assert_eq!(collect(CharLayout::StartingAt(' '), 4), vec![' ', '!', '"', '#']);
}

#[test]
fn starting_at_skips_the_surrogates() {
    let layout = CharLayout::StartingAt('\u{D7FE}');
    assert_eq!(collect(layout, 4), vec!['\u{D7FE}', '\u{D7FF}', '\u{E000}', '\u{E001}']);
}

#[test]
fn starting_at_ends_at_the_last_character() {
    let mut it = CharLayout::StartingAt('\u{10FFFE}').into_iter();
    assert_eq!(it.next(), Some('\u{10FFFE}'));
    assert_eq!(it.next(), Some('\u{10FFFF}'));
    assert_eq!(it.next(), None);
    assert_eq!(it.next(), None);
}

#[test]
fn the_same_layout_gives_the_same_sequence_again() {
    let first = collect(CharLayout::Ranges(vec!['a'..='c', 'x'..='z']), 100);
    let second = collect(CharLayout::Ranges(vec!['a'..='c', 'x'..='z']), 100);
    assert_eq!(first, second);
}

#[test]
fn the_default_layout_starts_at_the_space() {
    assert_eq!(collect(CharLayout::default(), 2), vec![' ', '!']);
}

#[test]
fn get_adds_the_index_to_the_code_point() {
    let layout = CharLayout::StartingAt(' ');
    assert_eq!(layout.get(0), Some(' '));
    assert_eq!(layout.get(33), Some('A'));
}

#[test]
fn get_gives_nothing_for_a_code_point_that_is_no_character() {
    assert_eq!(CharLayout::StartingAt('\u{D7FF}').get(1), None);
    assert_eq!(CharLayout::StartingAt('\u{D7FF}').get(0x801), Some('\u{E000}'));
    assert_eq!(CharLayout::StartingAt('\u{10FFFF}').get(1), None);
    assert_eq!(CharLayout::StartingAt('a').get(u32::MAX), None);
}

#[test]
fn defaults_of_a_definition() {
    assert_eq!(one(), 1);
    assert_eq!(zerozero(), (0, 0));
}
