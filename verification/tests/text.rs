use cargo_tap::color::Rgba;
use cargo_tap::text::{ColoredChar, ColoredLine, ColoredText};

const WHITE: Rgba = Rgba { r: 255, g: 255, b: 255, a: 255 };
const GREEN: Rgba = Rgba { r: 0, g: 255, b: 0, a: 255 };

fn flatten(text: &ColoredText) -> String {
    let lines: Vec<String> = text.lines.iter().map(|l| l.chars.iter().map(|c| c.ch).collect()).collect();
    lines.join("\n")
}

#[test]
fn a_new_text_has_one_empty_line() {
    let text = ColoredText::new();
    assert_eq!(text.lines.len(), 1);
    assert_eq!(text.line_count(), 1);
    assert!(text.lines[0].chars.is_empty());
    assert_eq!(text.total_char_count(), 0);
}

#[test]
fn pushing_two_lines_char_by_char() {
    let mut text = ColoredText::new();
    for ch in "AB\nCD".chars() {
        text.push(ch, WHITE);
    }
    assert_eq!(text.lines.len(), 2);
    assert_eq!(text.lines[0].chars.len(), 2);
    assert_eq!(text.lines[1].chars.len(), 2);
    assert_eq!(text.total_char_count(), 4);
    assert_eq!(text.lines[1].chars[0], ColoredChar { ch: 'C', color: WHITE, background_color: None });
}

#[test]
fn a_line_feed_is_never_stored() {
    let mut text = ColoredText::new();
    text.push_str("\n\na\n", GREEN);
    assert_eq!(text.lines.len(), 4);
    assert_eq!(text.total_char_count(), 1);
    assert!(text.lines.iter().all(|l| l.chars.iter().all(|c| c.ch != '\n')));
    text.push_with_background('\n', WHITE, GREEN);
    assert_eq!(text.lines.len(), 5);
    assert_eq!(text.total_char_count(), 1);
}

#[test]
fn round_trip_through_lines() {
    let text = ColoredText::from_str_with_color("hello\nworld", GREEN);
    assert_eq!(text.lines.len(), 2);
    assert_eq!(flatten(&text), "hello\nworld");
    assert!(text.lines.iter().all(|l| l.chars.iter().all(|c| c.color == GREEN && c.background_color.is_none())));
    for sample in ["", "\n", "a", "a\n", "\na", "x\n\ny\n"] {
        assert_eq!(flatten(&ColoredText::from_str_with_color(sample, WHITE)), sample);
    }
}

#[test]
fn push_str_is_push_for_each_character() {
    let mut one = ColoredText::new();
    one.push_str("ab\ncd\n", GREEN);
    let mut other = ColoredText::new();
    for ch in "ab\ncd\n".chars() {
        other.push(ch, GREEN);
    }
    assert_eq!(flatten(&one), flatten(&other));
    assert_eq!(one.lines.len(), other.lines.len());
}

#[test]
fn highlights_are_kept() {
    let mut text = ColoredText::new();
    text.push('a', WHITE);
    text.push_with_background('b', WHITE, GREEN);
    text.push_colored_char(ColoredChar::with_background('c', GREEN, WHITE));
    assert_eq!(text.lines[0].chars[0].background_color, None);
    assert_eq!(text.lines[0].chars[1].background_color, Some(GREEN));
    assert_eq!(text.lines[0].chars[2], ColoredChar { ch: 'c', color: GREEN, background_color: Some(WHITE) });
    assert_eq!(ColoredChar::new('z', GREEN), ColoredChar { ch: 'z', color: GREEN, background_color: None });
}

#[test]
fn a_line_break_takes_a_slot_that_holds_no_character() {
    let text = ColoredText::from_str_with_color("AB\nCD", WHITE);
    assert_eq!(text.get_char(0).map(|c| c.ch), Some('A'));
    assert_eq!(text.get_char(1).map(|c| c.ch), Some('B'));
    assert_eq!(text.get_char(2).map(|c| c.ch), None);
    assert_eq!(text.get_char(3).map(|c| c.ch), Some('C'));
    assert_eq!(text.get_char(4).map(|c| c.ch), Some('D'));
    assert_eq!(text.get_char(5).map(|c| c.ch), None);
    assert_eq!(text.get_char(usize::MAX).map(|c| c.ch), None);
    assert_eq!(text.locate(3), Some((1, 0)));
    assert_eq!(text.locate(2), None);
}

#[test]
fn empty_lines_take_one_slot_each() {
    let text = ColoredText::from_str_with_color("\n\nx", WHITE);
    assert_eq!(text.get_char(0).map(|c| c.ch), None);
    assert_eq!(text.get_char(1).map(|c| c.ch), None);
    assert_eq!(text.get_char(2).map(|c| c.ch), Some('x'));
    assert_eq!(ColoredText::new().get_char(0).map(|c| c.ch), None);
}

#[test]
fn a_character_is_changed_in_place() {
    let mut text = ColoredText::from_str_with_color("AB\nCD", WHITE);
    text.get_char_mut(3).unwrap().background_color = Some(GREEN);
    assert_eq!(text.lines[1].chars[0].background_color, Some(GREEN));
    assert_eq!(text.lines[1].chars[1].background_color, None);
    assert_eq!(text.lines[0].chars[0].background_color, None);
    assert!(text.get_char_mut(2).is_none());
    assert!(text.get_char_mut(5).is_none());
    assert_eq!(flatten(&text), "AB\nCD");
}

#[test]
fn lines_collect_characters() {
    let mut line = ColoredLine::new();
    assert_eq!(line.len(), 0);
    line.push('a', WHITE);
    line.push_str("bc\n", GREEN);
    assert_eq!(line.len(), 4);
    assert_eq!(line.chars[3], ColoredChar { ch: '\n', color: GREEN, background_color: None });
    let copy = line.copy();
    assert_eq!(copy.chars, line.chars);
}

#[test]
fn colors_are_made_of_channels() {
    assert_eq!(Rgba::new(1, 2, 3, 4), Rgba { r: 1, g: 2, b: 3, a: 4 });
    assert_eq!(Rgba::opaque(1, 2, 3), Rgba { r: 1, g: 2, b: 3, a: 255 });
}
