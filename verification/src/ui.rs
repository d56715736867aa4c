//! The view on the code: scrolling, line numbers and the caret.

use crate::color::Rgba;
use crate::format::{decimal, right_aligned, to_decimal, to_decimal_padded};
use crate::surface::{TextSurface, after_block, line_views, write_block};
use crate::text::{
    ColoredChar,
    ColoredLine,
    ColoredText,
    addresses,
    char_seq,
    colored,
    lemma_address_unique,
    plain_char,
    push_all,
    push_char,
};
use vstd::prelude::*;
use vstd::string::*;

verus! {

/// The color of line numbers.
#[verifier::when_used_as_spec(spec_line_number_color)]
pub fn line_number_color() -> (c: Rgba)
    ensures
        c == spec_line_number_color(),
{
    Rgba { r: 128, g: 128, b: 153, a: 255 }
}

/// The color of line numbers.
pub open spec fn spec_line_number_color() -> Rgba {
    Rgba { r: 128, g: 128, b: 153, a: 255 }
}

/// The color of the number of the line that the caret is on.
#[verifier::when_used_as_spec(spec_current_line_color)]
pub fn current_line_color() -> (c: Rgba)
    ensures
        c == spec_current_line_color(),
{
    Rgba { r: 255, g: 217, b: 51, a: 255 }
}

/// The color of the number of the line that the caret is on.
pub open spec fn spec_current_line_color() -> Rgba {
    Rgba { r: 255, g: 217, b: 51, a: 255 }
}

/// The color of the bar between line numbers and code.
#[verifier::when_used_as_spec(spec_separator_color)]
pub fn separator_color() -> (c: Rgba)
    ensures
        c == spec_separator_color(),
{
    Rgba { r: 102, g: 102, b: 128, a: 255 }
}

/// The color of the bar between line numbers and code.
pub open spec fn spec_separator_color() -> Rgba {
    Rgba { r: 102, g: 102, b: 128, a: 255 }
}

/// The highlight of the character that the caret is on.
#[verifier::when_used_as_spec(spec_caret_color)]
pub fn caret_color() -> (c: Rgba)
    ensures
        c == spec_caret_color(),
{
    Rgba { r: 0, g: 255, b: 0, a: 128 }
}

/// The highlight of the character that the caret is on.
pub open spec fn spec_caret_color() -> Rgba {
    Rgba { r: 0, g: 255, b: 0, a: 128 }
}

/// The color of code that is numbered from plain text.
#[verifier::when_used_as_spec(spec_plain_color)]
pub fn plain_color() -> (c: Rgba)
    ensures
        c == spec_plain_color(),
{
    Rgba { r: 255, g: 255, b: 255, a: 255 }
}

/// The color of code that is numbered from plain text.
pub open spec fn spec_plain_color() -> Rgba {
    Rgba { r: 255, g: 255, b: 255, a: 255 }
}

/// What follows the first `n` line feeds of `s`; nothing, if `s` has fewer.
pub open spec fn after_line_feeds(s: Seq<char>, n: int) -> Seq<char>
    decreases s.len(),
{
    if n <= 0 || s.len() == 0 {
        s
    } else {
        after_line_feeds(
            s.drop_first(),
            if s[0] == '\n' {
                n - 1
            } else {
                n
            },
        )
    }
}

/// The text without its first `scroll_offset` lines.
pub fn apply_scroll_offset(text: &str, scroll_offset: usize) -> (r: String)
    ensures
        r@ == after_line_feeds(text@, scroll_offset as int),
{
    let mut skipped: usize = 0;
    let mut r = String::new();
    assert(text@.skip(0) =~= text@);
    for ch in it: text.chars()
        invariant
            it.seq() == text@,
            skipped <= scroll_offset,
            skipped < scroll_offset ==> r@.len() == 0,
            after_line_feeds(text@, scroll_offset as int) == r@ + after_line_feeds(
                text@.skip(it.index() as int),
                scroll_offset - skipped,
            ),
    {
        proof {
            let rest = text@.skip(it.index() as int);
            assert(rest.drop_first() =~= text@.skip(it.index() + 1));
            assert(rest[0] == ch);
        }
        if skipped >= scroll_offset {
            r.push(ch);
            assert(after_line_feeds(text@, scroll_offset as int) =~= r@ + text@.skip(it.index() + 1));
        } else if ch == '\n' {
            skipped += 1;
        }
    }
    assert(text@.skip(text@.len() as int) =~= Seq::<char>::empty());
    assert(after_line_feeds(text@, scroll_offset as int) =~= r@);
    r
}

/// The lines without the first `n` of them; one empty line, if none is left.
pub open spec fn scrolled(lines: Seq<Seq<ColoredChar>>, n: int) -> Seq<Seq<ColoredChar>> {
    if n < lines.len() {
        lines.skip(n)
    } else {
        seq![Seq::<ColoredChar>::empty()]
    }
}

/// The text without its first `scroll_offset` lines.
pub fn apply_scroll_offset_colored(colored_text: &ColoredText, scroll_offset: usize) -> (r: ColoredText)
    ensures
        r.wf(),
        r@ == scrolled(colored_text@, scroll_offset as int),
{
    let mut lines: Vec<ColoredLine> = Vec::new();
    let mut i: usize = scroll_offset;
    while i < colored_text.lines.len()
        invariant
            scroll_offset <= i,
            i <= colored_text.lines.len() || i == scroll_offset,
            lines@.len() == if i <= colored_text.lines.len() {
                i - scroll_offset
            } else {
                0
            },
            forall|j: int| 0 <= j < lines@.len() ==> (#[trigger] lines@[j])@ == colored_text@[scroll_offset + j],
        decreases colored_text.lines.len() - i,
    {
        lines.push(colored_text.lines[i].copy());
        i += 1;
    }
    if lines.len() == 0 {
        lines.push(ColoredLine::new());
    }
    let r = ColoredText { lines };
    proof {
        let want = scrolled(colored_text@, scroll_offset as int);
        assert(r@.len() == want.len());
        assert forall|j: int| 0 <= j < r@.len() implies r@[j] == want[j] by {
            assert(r@[j] == r.lines@[j]@);
        }
        assert(r@ =~= want);
    }
    r
}

/// The number of bytes of `c` in UTF-8.
pub open spec fn char_width(c: char) -> int {
    if (c as u32) < 0x80 {
        1
    } else if (c as u32) < 0x800 {
        2
    } else if (c as u32) < 0x10000 {
        3
    } else {
        4
    }
}

/// The number of bytes of the first `k` characters of `line` in UTF-8.
pub open spec fn byte_offset(line: Seq<ColoredChar>, k: int) -> int
    decreases k,
{
    if k <= 0 {
        0
    } else {
        byte_offset(line, k - 1) + char_width(line[k - 1].ch)
    }
}

/// The number of bytes of `c` in UTF-8.
pub fn utf8_width(c: char) -> (w: u8)
    ensures
        w == char_width(c),
{
    let v: u32 = c as u32;
    if v < 0x80 {
        1
    } else if v < 0x800 {
        2
    } else if v < 0x10000 {
        3
    } else {
        4
    }
}

/// The number of a line and the bar after it: the number in base 10,
/// right-aligned in `width` columns, then a space, a bar and a space.
pub open spec fn gutter(number: int, width: int, color: Rgba, separator_color: Rgba) -> Seq<ColoredChar> {
    colored(right_aligned(decimal(number), width), color) + colored(seq![' ', '│', ' '], separator_color)
}

/// The columns that line numbers take when the last line has the number
/// `last`: as many as it has digits, and at least three.
pub open spec fn gutter_width(last: int) -> int {
    if decimal(last).len() > 3 {
        decimal(last).len() as int
    } else {
        3
    }
}

/// The color of the number `number`, given the line that the caret is on.
pub open spec fn number_color(
    number: int,
    current_line: Option<usize>,
    line_number_color: Rgba,
    current_line_color: Rgba,
) -> Rgba {
    if current_line is Some && current_line->0 == number {
        current_line_color
    } else {
        line_number_color
    }
}

/// How line numbers look, and where they start.
pub struct Numbering {
    pub line_number_color: Rgba,
    pub current_line_color: Rgba,
    pub separator_color: Rgba,
    pub scroll_offset: usize,
    pub current_line: Option<usize>,
}

/// The gutter of line `i` of `count` lines.
pub open spec fn gutter_of(n: Numbering, i: int, count: int) -> Seq<ColoredChar> {
    gutter(
        n.scroll_offset + 1 + i,
        gutter_width(count + n.scroll_offset),
        number_color(n.scroll_offset + 1 + i, n.current_line, n.line_number_color, n.current_line_color),
        n.separator_color,
    )
}

/// A line of plain code with the caret: the character that starts at byte
/// `cursor_position` of the line is highlighted.
pub open spec fn with_caret(line: Seq<ColoredChar>, cursor_position: int, caret_bg_color: Rgba) -> Seq<
    ColoredChar,
> {
    Seq::new(
        line.len(),
        |k: int|
            if byte_offset(line, k) == cursor_position {
                ColoredChar { ch: line[k].ch, color: plain_color(), background_color: Some(caret_bg_color) }
            } else {
                plain_char(line[k].ch, plain_color())
            },
    )
}

/// The first `upto` of `lines` with their gutters and the caret, a line
/// feed after each but the last of all.
pub open spec fn numbered(
    lines: Seq<Seq<ColoredChar>>,
    upto: int,
    n: Numbering,
    cursor_position: int,
    caret_bg_color: Rgba,
) -> Seq<ColoredChar>
    decreases upto,
{
    if upto <= 0 {
        Seq::empty()
    } else {
        numbered(lines, upto - 1, n, cursor_position, caret_bg_color) + gutter_of(n, upto - 1, lines.len() as int)
            + with_caret(lines[upto - 1], cursor_position, caret_bg_color) + if upto < lines.len() {
            seq![plain_char('\n', plain_color())]
        } else {
            Seq::empty()
        }
    }
}

/// The lines that `text` splits into at its line feeds.
pub open spec fn source_lines(text: Seq<char>) -> Seq<Seq<ColoredChar>> {
    push_all(seq![Seq::<ColoredChar>::empty()], colored(text, plain_color()))
}

/// Writes the gutter of the line with the number `number`.
fn push_gutter(colored_text: &mut ColoredText, number: u128, width: usize, color: Rgba, separator_color: Rgba)
    requires
        old(colored_text).wf(),
    ensures
        final(colored_text).wf(),
        final(colored_text)@ == push_all(
            old(colored_text)@,
            gutter(number as int, width as int, color, separator_color),
        ),
{
    let digits = to_decimal_padded(number, width);
    colored_text.push_str(digits.as_str(), color);
    let ghost middle = colored_text@;
    colored_text.push(' ', separator_color);
    let ghost one = colored_text@;
    colored_text.push('│', separator_color);
    let ghost two = colored_text@;
    colored_text.push(' ', separator_color);
    proof {
        let bar = colored(seq![' ', '│', ' '], separator_color);
        let bar2 = bar.drop_last();
        let bar1 = bar2.drop_last();
        assert(bar1.drop_last() =~= Seq::<ColoredChar>::empty());
        assert(bar1.last() == plain_char(' ', separator_color));
        assert(bar2.last() == plain_char('│', separator_color));
        assert(bar.last() == plain_char(' ', separator_color));
        assert(push_all(middle, bar1.drop_last()) == middle);
        assert(push_all(middle, bar1) == one);
        assert(push_all(middle, bar2) == two);
        assert(colored_text@ == push_all(middle, bar));
        crate::text::lemma_push_all_concat(
            old(colored_text)@,
            colored(right_aligned(decimal(number as int), width as int), color),
            bar,
        );
    }
}

/// Appends the lines of `text` with line numbers: before each line its
/// number, right-aligned, and a bar. Numbers start after `scroll_offset`;
/// that of `current_line` is in `current_line_color`. The character that
/// starts at byte `cursor_position` of its line is highlighted in
/// `caret_bg_color`.
pub fn add_line_numbers_to_colored_text(
    colored_text: &mut ColoredText,
    text: &str,
    line_number_color: Rgba,
    current_line_color: Rgba,
    separator_color: Rgba,
    scroll_offset: usize,
    current_line: Option<usize>,
    cursor_position: usize,
    caret_bg_color: Rgba,
)
    requires
        old(colored_text).wf(),
    ensures
        final(colored_text).wf(),
        final(colored_text)@ == push_all(
            old(colored_text)@,
            numbered(
                source_lines(text@),
                source_lines(text@).len() as int,
                Numbering { line_number_color, current_line_color, separator_color, scroll_offset, current_line },
                cursor_position as int,
                caret_bg_color,
            ),
        ),
{
    let source = ColoredText::from_str_with_color(text, plain_color());
    let ghost n = Numbering { line_number_color, current_line_color, separator_color, scroll_offset, current_line };
    let total_lines = source.lines.len();
    let last = to_decimal(total_lines as u128 + scroll_offset as u128);
    let digits = last.as_str().unicode_len();
    let width = if digits > 3 {
        digits
    } else {
        3
    };
    let mut i: usize = 0;
    while i < total_lines
        invariant
            i <= total_lines,
            total_lines == source@.len(),
            source@ == source_lines(text@),
            width == gutter_width(total_lines + scroll_offset),
            n == (Numbering { line_number_color, current_line_color, separator_color, scroll_offset, current_line }),
            colored_text.wf(),
            colored_text@ == push_all(
                old(colored_text)@,
                numbered(source@, i as int, n, cursor_position as int, caret_bg_color),
            ),
        decreases total_lines - i,
    {
        let ghost done = numbered(source@, i as int, n, cursor_position as int, caret_bg_color);
        let number: u128 = scroll_offset as u128 + 1 + i as u128;
        let color = match current_line {
            Some(current) if current as u128 == number => current_line_color,
            _ => line_number_color,
        };
        push_gutter(colored_text, number, width, color, separator_color);
        let ghost after_gutter = colored_text@;
        let line = &source.lines[i];
        let ghost caret_line = with_caret(line@, cursor_position as int, caret_bg_color);
        let mut k: usize = 0;
        let mut offset: u128 = 0;
        while k < line.chars.len()
            invariant
                k <= line@.len(),
                line@ == source@[i as int],
                offset == byte_offset(line@, k as int),
                offset <= 4 * k,
                caret_line == with_caret(line@, cursor_position as int, caret_bg_color),
                colored_text.wf(),
                colored_text@ == push_all(after_gutter, caret_line.take(k as int)),
            decreases line.chars.len() - k,
        {
            let ch = line.chars[k].ch;
            if offset == cursor_position as u128 {
                colored_text.push_with_background(ch, plain_color(), caret_bg_color);
            } else {
                colored_text.push(ch, plain_color());
            }
            proof {
                assert(caret_line.take(k + 1).drop_last() =~= caret_line.take(k as int));
            }
            offset = offset + utf8_width(ch) as u128;
            k += 1;
        }
        let ghost after_code = colored_text@;
        if i + 1 < total_lines {
            colored_text.push('\n', plain_color());
        }
        proof {
            assert(caret_line.take(line@.len() as int) =~= caret_line);
            let gut = gutter_of(n, i as int, total_lines as int);
            let end = if i + 1 < total_lines {
                seq![plain_char('\n', plain_color())]
            } else {
                Seq::<ColoredChar>::empty()
            };
            assert(push_all(after_code, end) == colored_text@) by {
                if i + 1 < total_lines {
                    assert(end.drop_last() =~= Seq::<ColoredChar>::empty());
                    assert(push_all(after_code, end.drop_last()) == after_code);
                }
            }
            crate::text::lemma_push_all_concat(old(colored_text)@, done, gut);
            crate::text::lemma_push_all_concat(old(colored_text)@, done + gut, caret_line);
            crate::text::lemma_push_all_concat(old(colored_text)@, done + gut + caret_line, end);
        }
        i += 1;
    }
}

/// The text with the caret at the flat index `index`: the character there
/// is highlighted in `caret`; where the index holds no character, a
/// highlighted space in `color` is appended.
pub open spec fn marked(lines: Seq<Seq<ColoredChar>>, index: int, caret: Rgba, color: Rgba) -> Seq<
    Seq<ColoredChar>,
> {
    if exists|l: int, c: int| addresses(lines, index, l, c) {
        let (l, c) = choose|l: int, c: int| addresses(lines, index, l, c);
        lines.update(
            l,
            lines[l].update(
                c,
                ColoredChar { ch: lines[l][c].ch, color: lines[l][c].color, background_color: Some(caret) },
            ),
        )
    } else {
        push_char(lines, ColoredChar { ch: ' ', color, background_color: Some(caret) })
    }
}

/// The lines of code behind their gutters, with the caret at the flat
/// index `index`.
pub open spec fn code_lines(display: Seq<Seq<ColoredChar>>, index: int, n: Numbering, color: Rgba) -> Seq<
    Seq<ColoredChar>,
> {
    let lines = marked(display, index, caret_color(), color);
    Seq::new(lines.len(), |i: int| gutter_of(n, i, lines.len() as int) + lines[i])
}

/// The numbering of the code view.
pub open spec fn code_numbering(scroll_offset: usize, current_line: Option<usize>) -> Numbering {
    Numbering {
        line_number_color: line_number_color(),
        current_line_color: current_line_color(),
        separator_color: separator_color(),
        scroll_offset,
        current_line,
    }
}

/// The code behind line numbers, with the caret at the flat index
/// `cursor_position_in_display`: the lines that
/// [`render_code_with_line_numbers`] writes.
pub fn numbered_code_lines(
    display_colored: &ColoredText,
    cursor_position_in_display: usize,
    scroll_offset: usize,
    current_line: Option<usize>,
    text_default: Rgba,
) -> (lines: Vec<ColoredLine>)
    requires
        display_colored.wf(),
    ensures
        line_views(lines@) == code_lines(
            display_colored@,
            cursor_position_in_display as int,
            code_numbering(scroll_offset, current_line),
            text_default,
        ),
{
    let ghost n = code_numbering(scroll_offset, current_line);
    let mut display = display_colored.copy();
    match display.get_char_mut(cursor_position_in_display) {
        Some(c) => {
            c.background_color = Some(caret_color());
        },
        None => {
            display.push_colored_char(
                ColoredChar { ch: ' ', color: text_default, background_color: Some(caret_color()) },
            );
        },
    }
    proof {
        let index = cursor_position_in_display as int;
        if exists|l: int, c: int| addresses(display_colored@, index, l, c) {
            let (l, c) = choose|l: int, c: int| addresses(display_colored@, index, l, c);
            let (l2, c2) = choose|l2: int, c2: int|
                #![trigger addresses(display_colored@, index, l2, c2)]
                addresses(display_colored@, index, l2, c2) && display@ == display_colored@.update(
                    l2,
                    display_colored@[l2].update(
                        c2,
                        ColoredChar {
                            ch: display_colored@[l2][c2].ch,
                            color: display_colored@[l2][c2].color,
                            background_color: Some(caret_color()),
                        },
                    ),
                );
            lemma_address_unique(display_colored@, index, l, c, l2, c2);
        }
        assert(display@ == marked(display_colored@, index, caret_color(), text_default));
    }
    let line_count = display.lines.len();
    let last = to_decimal(line_count as u128 + scroll_offset as u128);
    let digits = last.as_str().unicode_len();
    let width = if digits > 3 {
        digits
    } else {
        3
    };
    let mut lines: Vec<ColoredLine> = Vec::new();
    let mut i: usize = 0;
    while i < line_count
        invariant
            i <= line_count,
            line_count == display@.len(),
            width == gutter_width(line_count + scroll_offset),
            n == code_numbering(scroll_offset, current_line),
            lines@.len() == i,
            forall|j: int|
                0 <= j < i ==> (#[trigger] lines@[j])@ == gutter_of(n, j, line_count as int) + display@[j],
        decreases line_count - i,
    {
        let number: u128 = scroll_offset as u128 + 1 + i as u128;
        let color = match current_line {
            Some(current) if current as u128 == number => current_line_color(),
            _ => line_number_color(),
        };
        let mut line = ColoredLine::new();
        let digits = to_decimal_padded(number, width);
        line.push_str(digits.as_str(), color);
        line.push(' ', separator_color());
        line.push('│', separator_color());
        line.push(' ', separator_color());
        assert(line@ =~= gutter_of(n, i as int, line_count as int));
        let code = &display.lines[i];
        let mut k: usize = 0;
        while k < code.chars.len()
            invariant
                k <= code@.len(),
                line@ == gutter_of(n, i as int, line_count as int) + code@.take(k as int),
            decreases code.chars.len() - k,
        {
            line.chars.push(code.chars[k]);
            assert(code@.take(k + 1) =~= code@.take(k as int).push(code@[k as int]));
            assert(line@ =~= gutter_of(n, i as int, line_count as int) + code@.take(k + 1));
            k += 1;
        }
        assert(code@.take(code@.len() as int) =~= code@);
        lines.push(line);
        i += 1;
    }
    assert(line_views(lines@) =~= code_lines(
        display_colored@,
        cursor_position_in_display as int,
        n,
        text_default,
    ));
    lines
}

/// Writes the code on the surface, each line behind its number and a bar,
/// with the caret at the flat index `cursor_position_in_display`. Lines
/// are numbered from `scroll_offset` on; the number of `current_line` stands
/// out. A line that overflows is cut off where it does.
pub fn render_code_with_line_numbers<S: TextSurface>(
    surface: &mut S,
    display_colored: &ColoredText,
    cursor_position_in_display: usize,
    scroll_offset: usize,
    current_line: Option<usize>,
    text_default: Rgba,
)
    requires
        old(surface).wf(),
        display_colored.wf(),
    ensures
        final(surface).wf(),
        final(surface).bounds() == old(surface).bounds(),
        final(surface).metrics() == old(surface).metrics(),
        final(surface).state() == ({
            let lines = code_lines(
                display_colored@,
                cursor_position_in_display as int,
                code_numbering(scroll_offset, current_line),
                text_default,
            );
            after_block(
                old(surface).bounds(),
                old(surface).metrics(),
                old(surface).state(),
                lines,
                lines.len() as int,
            )
        }),
{
    let lines = numbered_code_lines(
        display_colored,
        cursor_position_in_display,
        scroll_offset,
        current_line,
        text_default,
    );
    write_block(surface, &lines);
}

} // verus!
