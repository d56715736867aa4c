use cargo_tap::code_state::CodeState;
use cargo_tap::color::Rgba;
use cargo_tap::text::{ColoredChar, ColoredText};
use cargo_tap::ui::{
    add_line_numbers_to_colored_text, apply_scroll_offset, apply_scroll_offset_colored, caret_color,
    current_line_color, line_number_color, plain_color, separator_color, utf8_width,
};

fn flatten(text: &ColoredText) -> String {
    let lines: Vec<String> = text.lines.iter().map(|l| l.chars.iter().map(|c| c.ch).collect()).collect();
    lines.join("\n")
}

#[test]
fn test_apply_scroll_offset() {
    let text = "line1\nline2\nline3\nline4\nline5";

    let result = apply_scroll_offset(text, 0);
    assert_eq!(result, text);

    let result = apply_scroll_offset(text, 2);
    assert_eq!(result, "line3\nline4\nline5");

    let result = apply_scroll_offset(text, 5);
    assert_eq!(result, "");
}

#[test]
fn test_add_line_numbers_to_colored_text() {
    let mut colored_text = ColoredText::new();
    let test_code = "fn main() {\n    println!(\"Hello\");\n}";
    let line_num_color = Rgba::new(128, 128, 153, 255);
    let separator_color = Rgba::new(102, 102, 128, 255);

    add_line_numbers_to_colored_text(
        &mut colored_text,
        test_code,
        line_num_color,
        line_num_color,
        separator_color,
        0,
        None,
        0,
        Rgba::new(0, 255, 0, 255),
    );

    let result: String = flatten(&colored_text);

    assert!(result.contains("  1 │"));
    assert!(result.contains("  2 │"));
    assert!(result.contains("  3 │"));

    assert!(result.contains("fn main() {"));
    assert!(result.contains("println!"));
}

#[test]
fn test_add_line_numbers_with_scroll_offset() {
    let mut colored_text = ColoredText::new();
    let test_code = "line1\nline2\nline3";
    let line_num_color = Rgba::new(128, 128, 153, 255);
    let separator_color = Rgba::new(102, 102, 128, 255);

    add_line_numbers_to_colored_text(
        &mut colored_text,
        test_code,
        line_num_color,
        line_num_color,
        separator_color,
        10,
        None,
        0,
        Rgba::new(0, 255, 0, 255),
    );

    let result: String = flatten(&colored_text);

    assert!(result.contains(" 11 │"));
    assert!(result.contains(" 12 │"));
    assert!(result.contains(" 13 │"));
}

#[test]
fn test_caret_background_color() {
    let code = "hello world".to_string();
    let mut code_state = CodeState::new(code);

    for _ in 0..5 {
        code_state.type_character();
    }

    let full_code = code_state.get_full_code();
    let cursor_position = code_state.get_cursor_position();
    assert_eq!(cursor_position, 5);

    let mut colored_text = ColoredText::new();
    let caret_bg_color = Rgba::new(0, 255, 0, 255);

    let mut char_index = 0;
    for ch in full_code.chars() {
        if char_index == cursor_position {
            colored_text.push_with_background(ch, Rgba::new(255, 255, 255, 255), caret_bg_color);
        } else {
            colored_text.push(ch, Rgba::new(255, 255, 255, 255));
        }
        char_index += ch.len_utf8();
    }

    let chars = &colored_text.lines[0].chars;
    assert_eq!(chars[5].ch, ' ');
    assert_eq!(chars[5].background_color, Some(caret_bg_color));

    assert_eq!(chars[0].background_color, None);
    assert_eq!(chars[4].background_color, None);
}

#[test]
fn scrolling_past_the_end_leaves_nothing() {
    assert_eq!(apply_scroll_offset("a\nb", 1), "b");
    assert_eq!(apply_scroll_offset("a\nb", 2), "");
    assert_eq!(apply_scroll_offset("a\nb\n", 2), "");
    assert_eq!(apply_scroll_offset("\n\nx", 2), "x");
    assert_eq!(apply_scroll_offset("", 0), "");
    assert_eq!(apply_scroll_offset("", 3), "");
    assert_eq!(apply_scroll_offset("abc", usize::MAX), "");
}

#[test]
fn scrolling_colored_text_drops_lines() {
    let text = ColoredText::from_str_with_color("a\nbc\n\nd", plain_color());
    assert_eq!(flatten(&apply_scroll_offset_colored(&text, 0)), "a\nbc\n\nd");
    assert_eq!(flatten(&apply_scroll_offset_colored(&text, 1)), "bc\n\nd");
    assert_eq!(apply_scroll_offset_colored(&text, 3).lines.len(), 1);
    assert_eq!(flatten(&apply_scroll_offset_colored(&text, 3)), "d");
    let past = apply_scroll_offset_colored(&text, 4);
    assert_eq!(past.lines.len(), 1);
    assert!(past.lines[0].chars.is_empty());
    assert_eq!(apply_scroll_offset_colored(&text, usize::MAX).lines.len(), 1);
}

#[test]
fn numbered_lines_in_full() {
    let mut text = ColoredText::new();
    text.push('>', plain_color());
    let gray = line_number_color();
    let gold = current_line_color();
    let bar = separator_color();
    let caret = caret_color();
    add_line_numbers_to_colored_text(&mut text, "ab\né!", gray, gold, bar, 8, Some(10), 2, caret);
    assert_eq!(flatten(&text), ">  9 │ ab\n 10 │ é!");
    let first = &text.lines[0].chars;
    assert_eq!(first[0], ColoredChar::new('>', plain_color()));
    assert_eq!(first[3], ColoredChar::new('9', gray));
    assert_eq!(first[4], ColoredChar::new(' ', bar));
    assert_eq!(first[5], ColoredChar::new('│', bar));
    assert_eq!(first[7], ColoredChar::new('a', plain_color()));
    assert_eq!(first[8], ColoredChar::new('b', plain_color()));
    let second = &text.lines[1].chars;
    assert_eq!(second[1], ColoredChar::new('1', gold));
    assert_eq!(second[2], ColoredChar::new('0', gold));
    assert_eq!(second[6], ColoredChar::new('é', plain_color()));
    assert_eq!(second[7], ColoredChar::with_background('!', plain_color(), caret));
}

#[test]
fn the_gutter_grows_with_the_last_number() {
    let mut text = ColoredText::new();
    let c = plain_color();
    add_line_numbers_to_colored_text(&mut text, "a\nb", c, c, c, 998, None, 9, c);
    assert_eq!(flatten(&text), " 999 │ a\n1000 │ b");
    let mut text = ColoredText::new();
    add_line_numbers_to_colored_text(&mut text, "", c, c, c, 0, None, 0, c);
    assert_eq!(flatten(&text), "  1 │ ");
}

#[test]
fn characters_take_one_to_four_bytes() {
    for ch in ['a', '\u{7F}', '\u{80}', 'é', '\u{7FF}', '\u{800}', '│', '\u{FFFF}', '\u{10000}', '🦀'] {
        assert_eq!(utf8_width(ch) as usize, ch.len_utf8());
    }
}
