//! The blocks of the typing view. Each block shows one thing, the file or
//! the progress or the code, as lines of colored text, and writes its lines
//! on a surface one below the other.
//!
//! What a block shows comes from a [`UiContext`]. Numbers that are shown
//! with decimal places come as text, formatted by the caller.

use crate::color::Rgba;
use crate::format::{decimal, to_decimal};
use crate::surface::{TextSurface, after_block, line_views, write_block};
use crate::text::{ColoredChar, ColoredLine, ColoredText, colored, plain_char, push_all};
use crate::ui::{
    apply_scroll_offset_colored,
    byte_offset,
    code_lines,
    code_numbering,
    numbered_code_lines,
    scrolled,
    utf8_width,
};
use vstd::prelude::*;
use vstd::string::*;

verus! {

/// Where the typing session stands, with what is shown of it.
#[derive(Debug, Clone)]
pub enum SessionView {
    /// The session waits for the first key.
    NotStarted,
    /// The session runs: the time that remains, and the speed so far in
    /// characters per minute, once any time has passed.
    Active { time_remaining: String, speed: Option<String> },
    /// The session's time is up: the summary of its statistics, if any
    /// were kept.
    Finished { summary: Option<String> },
}

/// What the blocks show.
#[derive(Debug, Clone)]
pub struct UiContext {
    /// The color of the title.
    pub header_color: Rgba,
    /// The color of text that has no color of its own.
    pub default_color: Rgba,
    /// The path of the file that is typed.
    pub file_path: String,
    /// Where the caret stands, in bytes from the start of the code.
    pub cursor_position: usize,
    /// The length of the code in bytes.
    pub total_length: usize,
    /// The typed share of the code in percent, as it is shown.
    pub progress_percent: String,
    /// Whether all timings are shown.
    pub show_profiling_info: bool,
    /// Frames per second, as shown.
    pub fps: String,
    /// Milliseconds spent on the last key, as shown.
    pub key_ms: String,
    /// Milliseconds spent on the last update of the text, as shown.
    pub text_update_ms: String,
    /// Milliseconds spent on building the view, as shown.
    pub ui_generation_ms: String,
    /// Whether the sample of text in many colors is shown.
    pub rainbow_effects: bool,
    /// Where the session stands.
    pub session: SessionView,
    /// The code in its colors.
    pub code: ColoredText,
    /// How many lines the view is scrolled down.
    pub scroll_offset: usize,
    /// The number of the line that the caret is on, counted from 1.
    pub cursor_line: usize,
}

/// A block of the view.
pub trait UiBlock {
    /// The lines that the block shows.
    spec fn lines(&self, ctx: &UiContext) -> Seq<Seq<ColoredChar>>;

    /// The lines that the block shows.
    fn build(&self, ctx: &UiContext) -> (lines: Vec<ColoredLine>)
        ensures
            line_views(lines@) == self.lines(ctx),
    ;

    /// Writes the block's lines on the surface, a line break after each.
    fn render<S: TextSurface>(&self, ctx: &UiContext, surface: &mut S)
        requires
            old(surface).wf(),
        ensures
            final(surface).wf(),
            final(surface).bounds() == old(surface).bounds(),
            final(surface).metrics() == old(surface).metrics(),
            final(surface).state() == after_block(
                old(surface).bounds(),
                old(surface).metrics(),
                old(surface).state(),
                self.lines(ctx),
                self.lines(ctx).len() as int,
            ),
    ;
}

/// `count` times `c`.
pub open spec fn repeated(c: char, count: int) -> Seq<char> {
    Seq::new(
        if count > 0 {
            count as nat
        } else {
            0
        },
        |i: int| c,
    )
}

/// The line of `text` in `color`.
pub fn line_of(text: &str, color: Rgba) -> (line: ColoredLine)
    ensures
        line@ == colored(text@, color),
{
    let mut line = ColoredLine::new();
    line.push_str(text, color);
    assert(line@ =~= colored(text@, color));
    line
}

/// A rule of `width` dashes in `color`.
pub fn rule(width: usize, color: Rgba) -> (line: ColoredLine)
    ensures
        line@ == colored(repeated('─', width as int), color),
{
    let mut line = ColoredLine::new();
    let mut i: usize = 0;
    while i < width
        invariant
            i <= width,
            line@ == colored(repeated('─', i as int), color),
        decreases width - i,
    {
        line.push('─', color);
        i += 1;
        assert(line@ =~= colored(repeated('─', i as int), color));
    }
    line
}

/// The color of rules.
pub open spec fn rule_color() -> Rgba {
    Rgba { r: 128, g: 204, b: 255, a: 255 }
}

/// The title of the program.
pub struct HeaderBlock;

/// The line of the title.
pub open spec fn header_line(ctx: &UiContext) -> Seq<ColoredChar> {
    colored("🦀 CargoTap "@, Rgba { r: 255, g: 128, b: 0, a: 255 }) + colored("Live Demo"@, ctx.header_color)
}

impl UiBlock for HeaderBlock {
    open spec fn lines(&self, ctx: &UiContext) -> Seq<Seq<ColoredChar>> {
        seq![header_line(ctx)]
    }

    fn build(&self, ctx: &UiContext) -> (lines: Vec<ColoredLine>) {
        let mut line = ColoredLine::new();
        line.push_str("🦀 CargoTap ", Rgba { r: 255, g: 128, b: 0, a: 255 });
        line.push_str("Live Demo", ctx.header_color);
        let mut lines: Vec<ColoredLine> = Vec::new();
        lines.push(line);
        assert(line_views(lines@) =~= self.lines(ctx));
        lines
    }

    fn render<S: TextSurface>(&self, ctx: &UiContext, surface: &mut S) {
        let lines = self.build(ctx);
        write_block(surface, &lines);
    }
}

/// The file that is typed.
pub struct FileInfoBlock;

/// The words about the file.
pub open spec fn file_info_text(ctx: &UiContext) -> Seq<char> {
    "📄 File: "@ + ctx.file_path@ + " "@
}

impl UiBlock for FileInfoBlock {
    open spec fn lines(&self, ctx: &UiContext) -> Seq<Seq<ColoredChar>> {
        seq![colored(file_info_text(ctx), Rgba { r: 128, g: 255, b: 255, a: 255 })]
    }

    fn build(&self, ctx: &UiContext) -> (lines: Vec<ColoredLine>) {
        let mut text = String::new();
        text.append("📄 File: ");
        text.append(ctx.file_path.as_str());
        text.append(" ");
        assert(text@ =~= file_info_text(ctx));
        let mut lines: Vec<ColoredLine> = Vec::new();
        lines.push(line_of(text.as_str(), Rgba { r: 128, g: 255, b: 255, a: 255 }));
        assert(line_views(lines@) =~= self.lines(ctx));
        lines
    }

    fn render<S: TextSurface>(&self, ctx: &UiContext, surface: &mut S) {
        let lines = self.build(ctx);
        write_block(surface, &lines);
    }
}

/// How much of the code is typed.
pub struct ProgressBlock;

/// The words about the progress: the caret's position, the length of the
/// code, and the typed share in percent.
pub open spec fn progress_text(ctx: &UiContext) -> Seq<char> {
    "| Progress: "@ + decimal(ctx.cursor_position as int) + "/"@ + decimal(ctx.total_length as int) + " ("@
        + ctx.progress_percent@ + "%)"@
}

impl UiBlock for ProgressBlock {
    open spec fn lines(&self, ctx: &UiContext) -> Seq<Seq<ColoredChar>> {
        seq![colored(progress_text(ctx), Rgba { r: 0, g: 255, b: 128, a: 255 })]
    }

    fn build(&self, ctx: &UiContext) -> (lines: Vec<ColoredLine>) {
        let mut text = String::new();
        text.append("| Progress: ");
        text.append(to_decimal(ctx.cursor_position as u128).as_str());
        text.append("/");
        text.append(to_decimal(ctx.total_length as u128).as_str());
        text.append(" (");
        text.append(ctx.progress_percent.as_str());
        text.append("%)");
        assert(text@ =~= progress_text(ctx));
        let mut lines: Vec<ColoredLine> = Vec::new();
        lines.push(line_of(text.as_str(), Rgba { r: 0, g: 255, b: 128, a: 255 }));
        assert(line_views(lines@) =~= self.lines(ctx));
        lines
    }

    fn render<S: TextSurface>(&self, ctx: &UiContext, surface: &mut S) {
        let lines = self.build(ctx);
        write_block(surface, &lines);
    }
}

/// The speed of the program itself.
pub struct FpsBlock;

/// The words about the timings: all of them, or the frame rate and the
/// time of the last key alone.
pub open spec fn fps_text(ctx: &UiContext) -> Seq<char> {
    if ctx.show_profiling_info {
        "📊 FPS: "@ + ctx.fps@ + " | Key: "@ + ctx.key_ms@ + "ms | Text Update: "@ + ctx.text_update_ms@
            + "ms | UI Gen: "@ + ctx.ui_generation_ms@ + "ms"@
    } else {
        "📊 FPS: "@ + ctx.fps@ + " | Key Processing: "@ + ctx.key_ms@ + " ms"@
    }
}

impl UiBlock for FpsBlock {
    open spec fn lines(&self, ctx: &UiContext) -> Seq<Seq<ColoredChar>> {
        seq![colored(fps_text(ctx), Rgba { r: 204, g: 204, b: 204, a: 255 })]
    }

    fn build(&self, ctx: &UiContext) -> (lines: Vec<ColoredLine>) {
        let mut text = String::new();
        text.append("📊 FPS: ");
        text.append(ctx.fps.as_str());
        if ctx.show_profiling_info {
            text.append(" | Key: ");
            text.append(ctx.key_ms.as_str());
            text.append("ms | Text Update: ");
            text.append(ctx.text_update_ms.as_str());
            text.append("ms | UI Gen: ");
            text.append(ctx.ui_generation_ms.as_str());
            text.append("ms");
        } else {
            text.append(" | Key Processing: ");
            text.append(ctx.key_ms.as_str());
            text.append(" ms");
        }
        assert(text@ =~= fps_text(ctx));
        let mut lines: Vec<ColoredLine> = Vec::new();
        lines.push(line_of(text.as_str(), Rgba { r: 204, g: 204, b: 204, a: 255 }));
        assert(line_views(lines@) =~= self.lines(ctx));
        lines
    }

    fn render<S: TextSurface>(&self, ctx: &UiContext, surface: &mut S) {
        let lines = self.build(ctx);
        write_block(surface, &lines);
    }
}

/// A rule across the view.
pub struct SeparatorBlock {
    pub width: usize,
}

impl UiBlock for SeparatorBlock {
    open spec fn lines(&self, ctx: &UiContext) -> Seq<Seq<ColoredChar>> {
        seq![colored(repeated('─', self.width as int), rule_color())]
    }

    fn build(&self, ctx: &UiContext) -> (lines: Vec<ColoredLine>) {
        let mut lines: Vec<ColoredLine> = Vec::new();
        lines.push(rule(self.width, Rgba { r: 128, g: 204, b: 255, a: 255 }));
        assert(line_views(lines@) =~= self.lines(ctx));
        lines
    }

    fn render<S: TextSurface>(&self, ctx: &UiContext, surface: &mut S) {
        let lines = self.build(ctx);
        write_block(surface, &lines);
    }
}

/// Where the typing session stands.
pub struct SessionStateBlock;

/// The words about a running session: the time that remains.
pub open spec fn time_text(time_remaining: Seq<char>) -> Seq<char> {
    "⏱️  Time: "@ + time_remaining + " "@
}

/// The words about the speed of a running session.
pub open spec fn speed_text(speed: Seq<char>) -> Seq<char> {
    "| "@ + speed + " CPM "@
}

/// The lines about the session: for one that is over, its summary and how
/// to go on; for one that runs, its time and speed; for one that waits, a
/// word of encouragement. Under each a rule. A session that is over and has
/// no summary shows nothing.
pub open spec fn session_lines(session: SessionView) -> Seq<Seq<ColoredChar>> {
    match session {
        SessionView::Finished { summary: Some(summary) } => seq![
            colored("⏰ SESSION COMPLETE! "@, Rgba { r: 255, g: 255, b: 0, a: 255 }),
            colored(summary@, Rgba { r: 0, g: 255, b: 0, a: 255 }),
            colored("Press SPACE to start new session"@, Rgba { r: 0, g: 255, b: 255, a: 255 }),
            colored(repeated('─', 30), rule_color()),
        ],
        SessionView::Finished { summary: None } => Seq::empty(),
        SessionView::Active { time_remaining, speed } => seq![
            colored(time_text(time_remaining@), Rgba { r: 255, g: 255, b: 0, a: 255 }) + match speed {
                Some(speed) => colored(speed_text(speed@), Rgba { r: 0, g: 255, b: 0, a: 255 }),
                None => Seq::empty(),
            },
            colored(repeated('─', 30), rule_color()),
        ],
        SessionView::NotStarted => seq![
            colored("Start typing to begin session..."@, Rgba { r: 178, g: 178, b: 178, a: 255 }),
            colored(repeated('─', 30), rule_color()),
        ],
    }
}

impl UiBlock for SessionStateBlock {
    open spec fn lines(&self, ctx: &UiContext) -> Seq<Seq<ColoredChar>> {
        session_lines(ctx.session)
    }

    fn build(&self, ctx: &UiContext) -> (lines: Vec<ColoredLine>) {
        let mut lines: Vec<ColoredLine> = Vec::new();
        match &ctx.session {
            SessionView::Finished { summary: Some(summary) } => {
                lines.push(line_of("⏰ SESSION COMPLETE! ", Rgba { r: 255, g: 255, b: 0, a: 255 }));
                lines.push(line_of(summary.as_str(), Rgba { r: 0, g: 255, b: 0, a: 255 }));
                lines.push(line_of("Press SPACE to start new session", Rgba { r: 0, g: 255, b: 255, a: 255 }));
                lines.push(rule(30, Rgba { r: 128, g: 204, b: 255, a: 255 }));
            },
            SessionView::Finished { summary: None } => {},
            SessionView::Active { time_remaining, speed } => {
                let mut text = String::new();
                text.append("⏱️  Time: ");
                text.append(time_remaining.as_str());
                text.append(" ");
                assert(text@ =~= time_text(time_remaining@));
                let mut line = line_of(text.as_str(), Rgba { r: 255, g: 255, b: 0, a: 255 });
                match speed {
                    Some(speed) => {
                        let mut text = String::new();
                        text.append("| ");
                        text.append(speed.as_str());
                        text.append(" CPM ");
                        assert(text@ =~= speed_text(speed@));
                        line.push_str(text.as_str(), Rgba { r: 0, g: 255, b: 0, a: 255 });
                    },
                    None => {
                        assert(line@ + Seq::<ColoredChar>::empty() =~= line@);
                    },
                }
                lines.push(line);
                lines.push(rule(30, Rgba { r: 128, g: 204, b: 255, a: 255 }));
            },
            SessionView::NotStarted => {
                lines.push(line_of("Start typing to begin session...", Rgba { r: 178, g: 178, b: 178, a: 255 }));
                lines.push(rule(30, Rgba { r: 128, g: 204, b: 255, a: 255 }));
            },
        }
        assert(line_views(lines@) =~= self.lines(ctx));
        lines
    }

    fn render<S: TextSurface>(&self, ctx: &UiContext, surface: &mut S) {
        let lines = self.build(ctx);
        write_block(surface, &lines);
    }
}

/// The code behind its line numbers, with the caret.
pub struct CodeDisplayBlock;

/// The bytes that the first `n` of `lines` take, a byte for each line break.
pub open spec fn bytes_before(lines: Seq<Seq<ColoredChar>>, n: int) -> int
    decreases n,
{
    if n <= 0 {
        0
    } else {
        bytes_before(lines, n - 1) + byte_offset(lines[n - 1], lines[n - 1].len() as int) + 1
    }
}

/// Where the caret stands in the lines that are shown: its position less
/// the bytes of the lines that are scrolled away, and no less than 0.
pub open spec fn cursor_in_display(lines: Seq<Seq<ColoredChar>>, cursor_position: int, scroll_offset: int) -> int {
    let hidden = if scroll_offset < lines.len() {
        scroll_offset
    } else {
        lines.len() as int
    };
    if bytes_before(lines, hidden) >= cursor_position {
        0
    } else {
        cursor_position - bytes_before(lines, hidden)
    }
}

/// The bytes of characters and line breaks are not negative.
pub proof fn lemma_bytes_nonnegative(lines: Seq<Seq<ColoredChar>>, n: int)
    ensures
        bytes_before(lines, n) >= 0,
        forall|l: int, k: int| #[trigger] byte_offset(lines[l], k) >= 0,
    decreases n,
{
    assert forall|l: int, k: int| #[trigger] byte_offset(lines[l], k) >= 0 by {
        lemma_offset_nonnegative(lines[l], k);
    }
    if n > 0 {
        lemma_bytes_nonnegative(lines, n - 1);
    }
}

/// The bytes of characters are not negative.
pub proof fn lemma_offset_nonnegative(line: Seq<ColoredChar>, k: int)
    ensures
        byte_offset(line, k) >= 0,
    decreases k,
{
    if k > 0 {
        lemma_offset_nonnegative(line, k - 1);
    }
}

/// Computes [`cursor_in_display`].
pub fn display_cursor(code: &ColoredText, cursor_position: usize, scroll_offset: usize) -> (r: usize)
    ensures
        r == cursor_in_display(code@, cursor_position as int, scroll_offset as int),
{
    let hidden = if scroll_offset < code.lines.len() {
        scroll_offset
    } else {
        code.lines.len()
    };
    let mut skipped: usize = 0;
    let mut l: usize = 0;
    while l < hidden
        invariant
            l <= hidden <= code@.len(),
            skipped <= cursor_position,
            skipped == if bytes_before(code@, l as int) >= cursor_position {
                cursor_position as int
            } else {
                bytes_before(code@, l as int)
            },
        decreases hidden - l,
    {
        let line = &code.lines[l];
        let ghost base = bytes_before(code@, l as int);
        let mut k: usize = 0;
        proof {
            lemma_bytes_nonnegative(code@, l as int);
        }
        while k < line.chars.len()
            invariant
                k <= line@.len(),
                line@ == code@[l as int],
                base >= 0,
                skipped <= cursor_position,
                skipped == if base + byte_offset(line@, k as int) >= cursor_position {
                    cursor_position as int
                } else {
                    base + byte_offset(line@, k as int)
                },
            decreases line.chars.len() - k,
        {
            proof {
                lemma_offset_nonnegative(line@, k as int);
            }
            let w = utf8_width(line.chars[k].ch) as usize;
            if cursor_position - skipped <= w {
                skipped = cursor_position;
            } else {
                skipped = skipped + w;
            }
            k += 1;
        }
        proof {
            lemma_offset_nonnegative(line@, line@.len() as int);
        }
        if cursor_position - skipped <= 1 {
            skipped = cursor_position;
        } else {
            skipped = skipped + 1;
        }
        l += 1;
    }
    cursor_position - skipped
}

impl UiBlock for CodeDisplayBlock {
    open spec fn lines(&self, ctx: &UiContext) -> Seq<Seq<ColoredChar>> {
        code_lines(
            scrolled(ctx.code@, ctx.scroll_offset as int),
            if ctx.scroll_offset == 0 {
                ctx.cursor_position as int
            } else {
                cursor_in_display(ctx.code@, ctx.cursor_position as int, ctx.scroll_offset as int)
            },
            code_numbering(ctx.scroll_offset, Some(ctx.cursor_line)),
            ctx.default_color,
        )
    }

    fn build(&self, ctx: &UiContext) -> (lines: Vec<ColoredLine>) {
        let display = apply_scroll_offset_colored(&ctx.code, ctx.scroll_offset);
        let cursor = if ctx.scroll_offset == 0 {
            ctx.cursor_position
        } else {
            display_cursor(&ctx.code, ctx.cursor_position, ctx.scroll_offset)
        };
        numbered_code_lines(&display, cursor, ctx.scroll_offset, Some(ctx.cursor_line), ctx.default_color)
    }

    fn render<S: TextSurface>(&self, ctx: &UiContext, surface: &mut S) {
        let lines = self.build(ctx);
        write_block(surface, &lines);
    }
}

/// The color of the `i`-th character of rainbow text.
pub open spec fn rainbow_color(i: int) -> Rgba {
    let k = i % 7;
    if k == 0 {
        Rgba { r: 255, g: 0, b: 0, a: 255 }
    } else if k == 1 {
        Rgba { r: 255, g: 128, b: 0, a: 255 }
    } else if k == 2 {
        Rgba { r: 255, g: 255, b: 0, a: 255 }
    } else if k == 3 {
        Rgba { r: 0, g: 255, b: 0, a: 255 }
    } else if k == 4 {
        Rgba { r: 0, g: 0, b: 255, a: 255 }
    } else if k == 5 {
        Rgba { r: 128, g: 0, b: 255, a: 255 }
    } else {
        Rgba { r: 255, g: 0, b: 255, a: 255 }
    }
}

/// The characters of `text`, each in the next color of the rainbow.
pub open spec fn rainbow(text: Seq<char>) -> Seq<ColoredChar> {
    Seq::new(text.len(), |i: int| plain_char(text[i], rainbow_color(i)))
}

/// Computes [`rainbow_color`] for a number below 7.
fn rainbow_step(k: u8) -> (c: Rgba)
    requires
        k < 7,
    ensures
        c == rainbow_color(k as int),
{
    if k == 0 {
        Rgba { r: 255, g: 0, b: 0, a: 255 }
    } else if k == 1 {
        Rgba { r: 255, g: 128, b: 0, a: 255 }
    } else if k == 2 {
        Rgba { r: 255, g: 255, b: 0, a: 255 }
    } else if k == 3 {
        Rgba { r: 0, g: 255, b: 0, a: 255 }
    } else if k == 4 {
        Rgba { r: 0, g: 0, b: 255, a: 255 }
    } else if k == 5 {
        Rgba { r: 128, g: 0, b: 255, a: 255 }
    } else {
        Rgba { r: 255, g: 0, b: 255, a: 255 }
    }
}

/// The characters of `text` in the colors of the rainbow, appended to `line`.
pub fn push_rainbow(line: &mut ColoredLine, text: &str)
    ensures
        final(line)@ == old(line)@ + rainbow(text@),
{
    let mut k: u8 = 0;
    for ch in it: text.chars()
        invariant
            it.seq() == text@,
            k == it.index() % 7,
            line@ == old(line)@ + rainbow(text@.take(it.index() as int)),
    {
        line.push(ch, rainbow_step(k));
        assert(text@.take(it.index() + 1) =~= text@.take(it.index() as int).push(ch));
        assert(rainbow(text@.take(it.index() + 1)) =~= rainbow(text@.take(it.index() as int)).push(
            plain_char(ch, rainbow_color(it.index() as int)),
        ));
        assert(line@ =~= old(line)@ + rainbow(text@.take(it.index() + 1)));
        k = if k == 6 {
            0
        } else {
            k + 1
        };
    }
    assert(text@.take(text@.len() as int) =~= text@);
}

/// The text of `text` in the colors of the rainbow; line feeds break lines.
pub fn create_rainbow_text(text: &str) -> (r: ColoredText)
    ensures
        r.wf(),
        r@ == push_all(seq![Seq::<ColoredChar>::empty()], rainbow(text@)),
{
    let mut line = ColoredLine::new();
    push_rainbow(&mut line, text);
    assert(line@ =~= rainbow(text@));
    let mut r = ColoredText::new();
    let mut i: usize = 0;
    while i < line.chars.len()
        invariant
            i <= line@.len(),
            r.wf(),
            r@ == push_all(seq![Seq::<ColoredChar>::empty()], line@.take(i as int)),
        decreases line.chars.len() - i,
    {
        r.push_colored_char(line.chars[i]);
        assert(line@.take(i + 1).drop_last() =~= line@.take(i as int));
        i += 1;
    }
    assert(line@.take(line@.len() as int) =~= line@);
    r
}

/// A sample of text in many colors.
pub struct RainbowEffectsBlock;

impl UiBlock for RainbowEffectsBlock {
    open spec fn lines(&self, ctx: &UiContext) -> Seq<Seq<ColoredChar>> {
        seq![
            Seq::<ColoredChar>::empty(),
            colored("✨ Rainbow: "@, ctx.default_color) + rainbow("Per-character colors work!"@),
        ]
    }

    fn build(&self, ctx: &UiContext) -> (lines: Vec<ColoredLine>) {
        let mut lines: Vec<ColoredLine> = Vec::new();
        lines.push(ColoredLine::new());
        let mut line = line_of("✨ Rainbow: ", ctx.default_color);
        push_rainbow(&mut line, "Per-character colors work!");
        lines.push(line);
        assert(line_views(lines@) =~= self.lines(ctx));
        lines
    }

    fn render<S: TextSurface>(&self, ctx: &UiContext, surface: &mut S) {
        let lines = self.build(ctx);
        write_block(surface, &lines);
    }
}

/// The keys that lead elsewhere.
pub struct FooterBlock;

impl UiBlock for FooterBlock {
    open spec fn lines(&self, ctx: &UiContext) -> Seq<Seq<ColoredChar>> {
        seq![
            Seq::<ColoredChar>::empty(),
            colored(
                "Press Cmd+P to change file | Press Ctrl+T / Cmd+T to view statistics"@,
                Rgba { r: 128, g: 128, b: 128, a: 255 },
            ),
        ]
    }

    fn build(&self, ctx: &UiContext) -> (lines: Vec<ColoredLine>) {
        let mut lines: Vec<ColoredLine> = Vec::new();
        lines.push(ColoredLine::new());
        lines.push(
            line_of(
                "Press Cmd+P to change file | Press Ctrl+T / Cmd+T to view statistics",
                Rgba { r: 128, g: 128, b: 128, a: 255 },
            ),
        );
        assert(line_views(lines@) =~= self.lines(ctx));
        lines
    }

    fn render<S: TextSurface>(&self, ctx: &UiContext, surface: &mut S) {
        let lines = self.build(ctx);
        write_block(surface, &lines);
    }
}

} // verus!
