//! Whole screens as colored text: the typing view, the statistics and
//! the choice of a file.
//!
//! Numbers that are shown with decimal places come as text, formatted by
//! the caller.

use crate::color::Rgba;
use crate::format::{decimal, to_decimal};
use crate::surface::line_views;
use crate::text::{ColoredChar, ColoredLine, ColoredText, colored, lemma_push_all_concat, push_all};
use crate::ui_blocks::{
    repeated,
    CodeDisplayBlock,
    FileInfoBlock,
    FooterBlock,
    FpsBlock,
    HeaderBlock,
    ProgressBlock,
    RainbowEffectsBlock,
    SeparatorBlock,
    SessionStateBlock,
    UiBlock,
    UiContext,
};
use vstd::prelude::*;
use vstd::string::*;

verus! {

/// Which screen is shown.
#[derive(Debug, Clone, Copy, PartialEq, Eq)]
pub enum Screen {
    FileSelection,
    Statistics,
    Typing,
}

/// The screen to show: the choice of a file goes before the statistics,
/// and both go before the typing view.
pub fn current_screen(file_selection_mode: bool, show_statistics: bool) -> (s: Screen)
    ensures
        s == if file_selection_mode {
            Screen::FileSelection
        } else if show_statistics {
            Screen::Statistics
        } else {
            Screen::Typing
        },
{
    if file_selection_mode {
        Screen::FileSelection
    } else if show_statistics {
        Screen::Statistics
    } else {
        Screen::Typing
    }
}

/// A run of text in one color.
#[derive(Debug, Clone)]
pub struct Segment {
    pub text: String,
    pub color: Rgba,
}

/// What a [`Segment`] holds.
pub struct Part {
    pub text: Seq<char>,
    pub color: Rgba,
}

impl View for Segment {
    type V = Part;

    open spec fn view(&self) -> Part {
        Part { text: self.text@, color: self.color }
    }
}

/// The views of segments.
pub open spec fn parts_of(segments: Seq<Segment>) -> Seq<Part> {
    Seq::new(segments.len(), |i: int| segments[i]@)
}

/// The characters of the first `upto` of `parts`, one part after the other.
pub open spec fn part_chars(parts: Seq<Part>, upto: int) -> Seq<ColoredChar>
    decreases upto,
{
    if upto <= 0 {
        Seq::empty()
    } else {
        part_chars(parts, upto - 1) + colored(parts[upto - 1].text, parts[upto - 1].color)
    }
}

/// The text that the parts make: line feeds in them break the lines.
pub open spec fn screen_of(parts: Seq<Part>) -> Seq<Seq<ColoredChar>> {
    push_all(seq![Seq::<ColoredChar>::empty()], part_chars(parts, parts.len() as int))
}

/// The view of one more segment is one more part.
pub proof fn lemma_parts_push(segments: Seq<Segment>, x: Segment)
    ensures
        parts_of(segments.push(x)) == parts_of(segments).push(x@),
{
    assert(parts_of(segments.push(x)) =~= parts_of(segments).push(x@));
}

/// The view of one more line is one more line.
pub proof fn lemma_views_push(lines: Seq<ColoredLine>, x: ColoredLine)
    ensures
        line_views(lines.push(x)) == line_views(lines).push(x@),
{
    assert(line_views(lines.push(x)) =~= line_views(lines).push(x@));
}

/// The segment of `text` in `color`.
pub fn segment(text: &str, color: Rgba) -> (s: Segment)
    ensures
        s@ == (Part { text: text@, color }),
{
    Segment { text: text.to_owned(), color }
}

/// The text that the segments make.
pub fn text_of_segments(segments: &Vec<Segment>) -> (r: ColoredText)
    ensures
        r.wf(),
        r@ == screen_of(parts_of(segments@)),
{
    let ghost parts = parts_of(segments@);
    let ghost start = seq![Seq::<ColoredChar>::empty()];
    let mut r = ColoredText::new();
    let mut i: usize = 0;
    while i < segments.len()
        invariant
            i <= segments@.len(),
            parts == parts_of(segments@),
            start == seq![Seq::<ColoredChar>::empty()],
            r.wf(),
            r@ == push_all(start, part_chars(parts, i as int)),
        decreases segments.len() - i,
    {
        proof {
            lemma_push_all_concat(
                start,
                part_chars(parts, i as int),
                colored(segments@[i as int].text@, segments@[i as int].color),
            );
        }
        r.push_str(segments[i].text.as_str(), segments[i].color);
        i += 1;
    }
    r
}

/// The color of frames and headings.
pub open spec fn cyan() -> Rgba {
    Rgba { r: 0, g: 255, b: 255, a: 255 }
}

/// The color of rules.
pub open spec fn sky() -> Rgba {
    Rgba { r: 128, g: 204, b: 255, a: 255 }
}

/// The color of hints.
pub open spec fn gray() -> Rgba {
    Rgba { r: 178, g: 178, b: 178, a: 255 }
}

/// The color of what stands out.
pub open spec fn green() -> Rgba {
    Rgba { r: 0, g: 255, b: 0, a: 255 }
}

/// The color of headings.
pub open spec fn yellow() -> Rgba {
    Rgba { r: 255, g: 255, b: 0, a: 255 }
}

/// The color of records.
pub open spec fn orange() -> Rgba {
    Rgba { r: 255, g: 128, b: 0, a: 255 }
}

/// The color of medals.
pub open spec fn gold() -> Rgba {
    Rgba { r: 255, g: 214, b: 0, a: 255 }
}

/// The parts of the screen on which a file is chosen: the path typed so
/// far in `input` with a block for the caret, the file that is open, and
/// what the keys do.
pub open spec fn file_selection_parts(input: Seq<char>, current_file_path: Seq<char>, default_color: Rgba) -> Seq<
    Part,
> {
    seq![
        Part { text: "╔═══════════════════════════════════════════════╗\n"@, color: cyan() },
        Part { text: "║              FILE SELECTION MODE              ║\n"@, color: cyan() },
        Part { text: "╚═══════════════════════════════════════════════╝\n\n"@, color: cyan() },
        Part { text: "Enter file path to load:\n\n"@, color: Rgba { r: 255, g: 255, b: 255, a: 255 } },
        Part { text: "📝 "@, color: gold() },
        Part { text: input, color: green() },
        Part { text: "█"@, color: green() },
        Part { text: "\n\n"@, color: default_color },
        Part { text: "━━━━━━━━━━━━━━━━━━━━━━━━━━━━━━━━━━━━━━━━━━━━━━━\n"@, color: sky() },
        Part { text: "Current file: "@, color: gray() },
        Part { text: current_file_path, color: Rgba { r: 128, g: 255, b: 255, a: 255 } },
        Part { text: "\n\n"@, color: default_color },
        Part { text: "Instructions:\n"@, color: yellow() },
        Part { text: "  • Edit the file path below (pre-filled with current path)\n"@, color: gray() },
        Part { text: "  • Press ENTER to load the file\n"@, color: gray() },
        Part { text: "  • Press ESC to cancel\n"@, color: gray() },
        Part { text: "  • Use BACKSPACE to delete characters\n\n"@, color: gray() },
        Part { text: "Examples:\n"@, color: Rgba { r: 0, g: 255, b: 128, a: 255 } },
        Part { text: "  • src/main.rs\n"@, color: default_color },
        Part { text: "  • /absolute/path/to/file.rs\n"@, color: default_color },
        Part { text: "  • ../other_project/code.rs\n"@, color: default_color },
    ]
}

/// The screen on which a file is chosen.
pub fn create_file_selection_screen(file_input_buffer: &str, current_file_path: &str, default_color: Rgba) -> (r:
    ColoredText)
    ensures
        r.wf(),
        r@ == screen_of(file_selection_parts(file_input_buffer@, current_file_path@, default_color)),
{
    let cyan = Rgba { r: 0, g: 255, b: 255, a: 255 };
    let sky = Rgba { r: 128, g: 204, b: 255, a: 255 };
    let gray = Rgba { r: 178, g: 178, b: 178, a: 255 };
    let green = Rgba { r: 0, g: 255, b: 0, a: 255 };
    let mut s: Vec<Segment> = Vec::new();
    s.push(segment("╔═══════════════════════════════════════════════╗\n", cyan));
    s.push(segment("║              FILE SELECTION MODE              ║\n", cyan));
    s.push(segment("╚═══════════════════════════════════════════════╝\n\n", cyan));
    s.push(segment("Enter file path to load:\n\n", Rgba { r: 255, g: 255, b: 255, a: 255 }));
    s.push(segment("📝 ", Rgba { r: 255, g: 214, b: 0, a: 255 }));
    s.push(segment(file_input_buffer, green));
    s.push(segment("█", green));
    s.push(segment("\n\n", default_color));
    s.push(segment("━━━━━━━━━━━━━━━━━━━━━━━━━━━━━━━━━━━━━━━━━━━━━━━\n", sky));
    s.push(segment("Current file: ", gray));
    s.push(segment(current_file_path, Rgba { r: 128, g: 255, b: 255, a: 255 }));
    s.push(segment("\n\n", default_color));
    s.push(segment("Instructions:\n", Rgba { r: 255, g: 255, b: 0, a: 255 }));
    s.push(segment("  • Edit the file path below (pre-filled with current path)\n", gray));
    s.push(segment("  • Press ENTER to load the file\n", gray));
    s.push(segment("  • Press ESC to cancel\n", gray));
    s.push(segment("  • Use BACKSPACE to delete characters\n\n", gray));
    s.push(segment("Examples:\n", Rgba { r: 0, g: 255, b: 128, a: 255 }));
    s.push(segment("  • src/main.rs\n", default_color));
    s.push(segment("  • /absolute/path/to/file.rs\n", default_color));
    s.push(segment("  • ../other_project/code.rs\n", default_color));
    assert(parts_of(s@) =~= file_selection_parts(file_input_buffer@, current_file_path@, default_color));
    text_of_segments(&s)
}

/// `count` times `c`.
pub fn repeat_char(c: char, count: usize) -> (r: String)
    ensures
        r@ == repeated(c, count as int),
{
    let mut r = String::new();
    let mut i: usize = 0;
    while i < count
        invariant
            i <= count,
            r@ == repeated(c, i as int),
        decreases count - i,
    {
        r.push(c);
        i += 1;
        assert(r@ =~= repeated(c, i as int));
    }
    r
}

/// The parts of the header of the color demo: the title in three colors,
/// a double rule, and a line on what is shown.
pub open spec fn header_demo_parts() -> Seq<Part> {
    let white = Rgba { r: 255, g: 255, b: 255, a: 255 };
    seq![
        Part { text: "🦀 "@, color: orange() },
        Part { text: "CargoTap "@, color: cyan() },
        Part { text: "Colored Text Demo"@, color: yellow() },
        Part { text: "\n"@, color: white },
        Part { text: repeated('═', 50), color: sky() },
        Part { text: "\n"@, color: white },
        Part { text: "Demonstrating per-character color support"@, color: gray() },
        Part { text: "\n"@, color: white },
        Part { text: "\n"@, color: white },
    ]
}

/// The header of the color demo.
pub fn create_header_demo() -> (r: ColoredText)
    ensures
        r.wf(),
        r@ == screen_of(header_demo_parts()),
{
    let white = Rgba { r: 255, g: 255, b: 255, a: 255 };
    let mut s: Vec<Segment> = Vec::new();
    s.push(segment("🦀 ", Rgba { r: 255, g: 128, b: 0, a: 255 }));
    s.push(segment("CargoTap ", Rgba { r: 0, g: 255, b: 255, a: 255 }));
    s.push(segment("Colored Text Demo", Rgba { r: 255, g: 255, b: 0, a: 255 }));
    s.push(segment("\n", white));
    s.push(Segment { text: repeat_char('═', 50), color: Rgba { r: 128, g: 204, b: 255, a: 255 } });
    s.push(segment("\n", white));
    s.push(segment("Demonstrating per-character color support", Rgba { r: 178, g: 178, b: 178, a: 255 }));
    s.push(segment("\n", white));
    s.push(segment("\n", white));
    assert(parts_of(s@) =~= header_demo_parts());
    text_of_segments(&s)
}

/// One session in the list of the latest sessions.
#[derive(Debug, Clone)]
pub struct SessionLine {
    /// Characters per minute, as shown.
    pub cpm: String,
    /// Words per minute, as shown.
    pub wpm: String,
    /// Accuracy in percent, as shown.
    pub accuracy: String,
    /// Characters typed.
    pub chars_typed: usize,
}

/// How the latest sessions compare with those before them: the change of
/// speed in percent, as shown.
#[derive(Debug, Clone)]
pub enum Trend {
    Improved(String),
    Declined(String),
    Flat,
}

/// The averages of the latest sessions.
#[derive(Debug, Clone)]
pub struct RecentView {
    pub sessions: usize,
    pub avg_cpm: String,
    pub avg_wpm: String,
    pub avg_accuracy: String,
    pub trend: Trend,
}

/// The statistics of all sessions, as they are shown.
#[derive(Debug, Clone)]
pub struct StatisticsView {
    pub total_sessions: usize,
    pub total_chars: usize,
    pub total_minutes: String,
    pub avg_cpm: String,
    pub avg_wpm: String,
    pub avg_accuracy: String,
    pub total_errors: usize,
    pub best_cpm: String,
    pub best_wpm: String,
    pub best_accuracy: String,
    /// The averages of the latest sessions, if there are any.
    pub recent: Option<RecentView>,
    /// The latest sessions, the last one first.
    pub recent_sessions: Vec<SessionLine>,
}

/// The words on a speed: characters and words per minute.
pub open spec fn speed_words(label: Seq<char>, cpm: Seq<char>, wpm: Seq<char>) -> Seq<char> {
    label + cpm + " CPM / "@ + wpm + " WPM\n"@
}

/// The words on the `i`-th of the latest sessions.
pub open spec fn session_words(i: int, line: SessionLine) -> Seq<char> {
    "  "@ + decimal(i + 1) + ". "@ + line.cpm@ + " CPM / "@ + line.wpm@ + " WPM | "@ + line.accuracy@
        + "% acc | "@ + decimal(line.chars_typed as int) + " chars\n"@
}

/// The parts on the sessions of all time.
pub open spec fn all_time_parts(v: StatisticsView, default_color: Rgba) -> Seq<Part> {
    seq![
        Part {
            text: "📊 ALL-TIME STATS ("@ + decimal(v.total_sessions as int) + " sessions)\n"@,
            color: yellow(),
        },
        Part { text: "━━━━━━━━━━━━━━━━━━━━━━━━━━━━━━━━━━━━━━━━━━━━━━━\n"@, color: sky() },
        Part { text: "  Total Characters: "@ + decimal(v.total_chars as int) + "\n"@, color: default_color },
        Part { text: "  Total Time: "@ + v.total_minutes@ + " minutes\n"@, color: default_color },
        Part { text: speed_words("  Avg Speed: "@, v.avg_cpm@, v.avg_wpm@), color: green() },
        Part { text: "  Avg Accuracy: "@ + v.avg_accuracy@ + "%\n"@, color: green() },
        Part { text: "  Total Errors: "@ + decimal(v.total_errors as int) + "\n\n"@, color: default_color },
        Part { text: "🏆 BEST PERFORMANCES\n"@, color: gold() },
        Part { text: "━━━━━━━━━━━━━━━━━━━━━━━━━━━━━━━━━━━━━━━━━━━━━━━\n"@, color: sky() },
        Part { text: speed_words("  Best Speed: "@, v.best_cpm@, v.best_wpm@), color: orange() },
        Part { text: "  Best Accuracy: "@ + v.best_accuracy@ + "%\n\n"@, color: orange() },
    ]
}

/// The parts on the latest sessions' averages, and on how they compare.
pub open spec fn recent_parts(r: RecentView, default_color: Rgba) -> Seq<Part> {
    seq![
        Part {
            text: "📈 RECENT PERFORMANCE (last "@ + decimal(r.sessions as int) + " sessions)\n"@,
            color: Rgba { r: 128, g: 255, b: 128, a: 255 },
        },
        Part { text: "━━━━━━━━━━━━━━━━━━━━━━━━━━━━━━━━━━━━━━━━━━━━━━━\n"@, color: sky() },
        Part { text: speed_words("  Avg Speed: "@, r.avg_cpm@, r.avg_wpm@), color: green() },
        Part { text: "  Avg Accuracy: "@ + r.avg_accuracy@ + "%\n"@, color: green() },
    ] + match r.trend {
        Trend::Improved(by) => seq![
            Part {
                text: "  📊 Improvement: +"@ + by@ + "% 🎉\n"@,
                color: Rgba { r: 0, g: 255, b: 128, a: 255 },
            },
        ],
        Trend::Declined(by) => seq![Part { text: "  📊 Change: "@ + by@ + "%\n"@, color: orange() }],
        Trend::Flat => Seq::empty(),
    } + seq![Part { text: "\n"@, color: default_color }]
}

/// The parts of the list of the latest sessions.
pub open spec fn session_list_parts(sessions: Seq<SessionLine>, default_color: Rgba) -> Seq<Part> {
    seq![
        Part { text: "📝 RECENT SESSIONS\n"@, color: Rgba { r: 178, g: 178, b: 255, a: 255 } },
        Part { text: "━━━━━━━━━━━━━━━━━━━━━━━━━━━━━━━━━━━━━━━━━━━━━━━\n"@, color: sky() },
    ] + Seq::new(sessions.len(), |i: int| Part { text: session_words(i, sessions[i]), color: default_color })
}

/// The parts on recorded sessions: those of all time, the latest
/// sessions' averages if there are any, and the latest sessions one by one.
pub open spec fn recorded_parts(v: StatisticsView, default_color: Rgba) -> Seq<Part> {
    all_time_parts(v, default_color) + match v.recent {
        Some(r) => recent_parts(r, default_color),
        None => Seq::empty(),
    } + session_list_parts(v.recent_sessions@, default_color)
}

/// The parts of the statistics screen: a frame with the title; then
/// either a word that no session is recorded, or the sessions of all time,
/// the latest sessions' averages if there are any, and the latest sessions
/// one by one; then what the keys do.
pub open spec fn statistics_parts(v: StatisticsView, default_color: Rgba) -> Seq<Part> {
    seq![
        Part { text: "╔═══════════════════════════════════════════════╗\n"@, color: cyan() },
        Part { text: "║          SESSION STATISTICS REPORT            ║\n"@, color: cyan() },
        Part { text: "╚═══════════════════════════════════════════════╝\n\n"@, color: cyan() },
    ] + if v.total_sessions == 0 {
        seq![
            Part { text: "No sessions recorded yet.\n"@, color: gray() },
            Part { text: "Start typing to track your progress!\n\n"@, color: gray() },
        ]
    } else {
        recorded_parts(v, default_color)
    } + seq![
        Part { text: "\n━━━━━━━━━━━━━━━━━━━━━━━━━━━━━━━━━━━━━━━━━━━━━━━\n"@, color: sky() },
        Part { text: "Press ESC to return | Press Ctrl+T / Cmd+T to view stats\n"@, color: gray() },
    ]
}

/// `a`, `b` and `c`, one after the other.
fn join3(a: &str, b: &str, c: &str) -> (r: String)
    ensures
        r@ == a@ + b@ + c@,
{
    let mut r = a.to_owned();
    r.append(b);
    r.append(c);
    r
}

/// The words on a speed.
fn speed_line(label: &str, cpm: &str, wpm: &str) -> (r: String)
    ensures
        r@ == speed_words(label@, cpm@, wpm@),
{
    let mut r = label.to_owned();
    r.append(cpm);
    r.append(" CPM / ");
    r.append(wpm);
    r.append(" WPM\n");
    r
}

/// The words on the `i`-th of the latest sessions.
fn session_line(i: usize, line: &SessionLine) -> (r: String)
    ensures
        r@ == session_words(i as int, *line),
{
    let mut r = String::new();
    r.append("  ");
    r.append(to_decimal(i as u128 + 1).as_str());
    r.append(". ");
    r.append(line.cpm.as_str());
    r.append(" CPM / ");
    r.append(line.wpm.as_str());
    r.append(" WPM | ");
    r.append(line.accuracy.as_str());
    r.append("% acc | ");
    r.append(to_decimal(line.chars_typed as u128).as_str());
    r.append(" chars\n");
    assert(r@ =~= session_words(i as int, *line));
    r
}

/// The segments on the sessions of all time.
fn all_time_segments(v: &StatisticsView, default_color: Rgba) -> (s: Vec<Segment>)
    ensures
        parts_of(s@) == all_time_parts(*v, default_color),
{
    let sky = Rgba { r: 128, g: 204, b: 255, a: 255 };
    let green = Rgba { r: 0, g: 255, b: 0, a: 255 };
    let orange = Rgba { r: 255, g: 128, b: 0, a: 255 };
    let mut s: Vec<Segment> = Vec::new();
    let sessions = to_decimal(v.total_sessions as u128);
    s.push(
        Segment {
            text: join3("📊 ALL-TIME STATS (", sessions.as_str(), " sessions)\n"),
            color: Rgba { r: 255, g: 255, b: 0, a: 255 },
        },
    );
    s.push(segment("━━━━━━━━━━━━━━━━━━━━━━━━━━━━━━━━━━━━━━━━━━━━━━━\n", sky));
    let chars = to_decimal(v.total_chars as u128);
    s.push(Segment { text: join3("  Total Characters: ", chars.as_str(), "\n"), color: default_color });
    s.push(Segment { text: join3("  Total Time: ", v.total_minutes.as_str(), " minutes\n"), color: default_color });
    s.push(Segment { text: speed_line("  Avg Speed: ", v.avg_cpm.as_str(), v.avg_wpm.as_str()), color: green });
    s.push(Segment { text: join3("  Avg Accuracy: ", v.avg_accuracy.as_str(), "%\n"), color: green });
    let errors = to_decimal(v.total_errors as u128);
    s.push(Segment { text: join3("  Total Errors: ", errors.as_str(), "\n\n"), color: default_color });
    s.push(segment("🏆 BEST PERFORMANCES\n", Rgba { r: 255, g: 214, b: 0, a: 255 }));
    s.push(segment("━━━━━━━━━━━━━━━━━━━━━━━━━━━━━━━━━━━━━━━━━━━━━━━\n", sky));
    s.push(Segment { text: speed_line("  Best Speed: ", v.best_cpm.as_str(), v.best_wpm.as_str()), color: orange });
    s.push(Segment { text: join3("  Best Accuracy: ", v.best_accuracy.as_str(), "%\n\n"), color: orange });
    assert(parts_of(s@) =~= all_time_parts(*v, default_color));
    s
}

/// The segments on the latest sessions' averages.
fn recent_segments(r: &RecentView, default_color: Rgba) -> (s: Vec<Segment>)
    ensures
        parts_of(s@) == recent_parts(*r, default_color),
{
    let sky = Rgba { r: 128, g: 204, b: 255, a: 255 };
    let green = Rgba { r: 0, g: 255, b: 0, a: 255 };
    let mut s: Vec<Segment> = Vec::new();
    let sessions = to_decimal(r.sessions as u128);
    s.push(
        Segment {
            text: join3("📈 RECENT PERFORMANCE (last ", sessions.as_str(), " sessions)\n"),
            color: Rgba { r: 128, g: 255, b: 128, a: 255 },
        },
    );
    s.push(segment("━━━━━━━━━━━━━━━━━━━━━━━━━━━━━━━━━━━━━━━━━━━━━━━\n", sky));
    s.push(Segment { text: speed_line("  Avg Speed: ", r.avg_cpm.as_str(), r.avg_wpm.as_str()), color: green });
    s.push(Segment { text: join3("  Avg Accuracy: ", r.avg_accuracy.as_str(), "%\n"), color: green });
    match &r.trend {
        Trend::Improved(by) => {
            s.push(
                Segment {
                    text: join3("  📊 Improvement: +", by.as_str(), "% 🎉\n"),
                    color: Rgba { r: 0, g: 255, b: 128, a: 255 },
                },
            );
        },
        Trend::Declined(by) => {
            s.push(
                Segment {
                    text: join3("  📊 Change: ", by.as_str(), "%\n"),
                    color: Rgba { r: 255, g: 128, b: 0, a: 255 },
                },
            );
        },
        Trend::Flat => {},
    }
    s.push(segment("\n", default_color));
    assert(parts_of(s@) =~= recent_parts(*r, default_color));
    s
}

/// Appends the segments of `more` to `s`.
fn append_segments(s: &mut Vec<Segment>, more: Vec<Segment>)
    ensures
        parts_of(final(s)@) == parts_of(old(s)@) + parts_of(more@),
{
    let mut more = more;
    let ghost all = more@;
    let mut tail: Vec<Segment> = Vec::new();
    while more.len() > 0
        invariant
            more@.len() + tail@.len() == all.len(),
            more@ == all.take(more@.len() as int),
            forall|j: int| 0 <= j < tail@.len() ==> (#[trigger] tail@[j])@ == all[all.len() - 1 - j]@,
        decreases more.len(),
    {
        let x = more.pop().unwrap();
        tail.push(x);
    }
    while tail.len() > 0
        invariant
            tail@.len() <= all.len(),
            forall|j: int| 0 <= j < tail@.len() ==> (#[trigger] tail@[j])@ == all[all.len() - 1 - j]@,
            parts_of(s@) == parts_of(old(s)@) + parts_of(all).take(all.len() - tail@.len()),
        decreases tail.len(),
    {
        let ghost n = all.len() - tail@.len();
        let ghost prev = s@;
        let x = tail.pop().unwrap();
        s.push(x);
        proof {
            lemma_parts_push(prev, x);
            assert(x@ == all[n]@);
            assert(parts_of(all).take(n + 1) =~= parts_of(all).take(n).push(all[n]@));
            assert(parts_of(s@) =~= parts_of(old(s)@) + parts_of(all).take(n + 1));
        }
    }
    assert(parts_of(all).take(all.len() as int) =~= parts_of(all));
}

/// The screen of the statistics of all sessions.
pub fn create_statistics_screen(view: &StatisticsView, default_color: Rgba) -> (r: ColoredText)
    ensures
        r.wf(),
        r@ == screen_of(statistics_parts(*view, default_color)),
{
    let cyan = Rgba { r: 0, g: 255, b: 255, a: 255 };
    let sky = Rgba { r: 128, g: 204, b: 255, a: 255 };
    let gray = Rgba { r: 178, g: 178, b: 178, a: 255 };
    let mut s: Vec<Segment> = Vec::new();
    s.push(segment("╔═══════════════════════════════════════════════╗\n", cyan));
    s.push(segment("║          SESSION STATISTICS REPORT            ║\n", cyan));
    s.push(segment("╚═══════════════════════════════════════════════╝\n\n", cyan));
    let ghost head = parts_of(s@);
    let ghost middle: Seq<Part>;
    if view.total_sessions == 0 {
        s.push(segment("No sessions recorded yet.\n", gray));
        s.push(segment("Start typing to track your progress!\n\n", gray));
        proof {
            middle = seq![
                Part { text: "No sessions recorded yet.\n"@, color: gray },
                Part { text: "Start typing to track your progress!\n\n"@, color: gray },
            ];
            assert(parts_of(s@) =~= head + middle);
        }
    } else {
        append_segments(&mut s, all_time_segments(view, default_color));
        match &view.recent {
            Some(recent) => {
                append_segments(&mut s, recent_segments(recent, default_color));
            },
            None => {
                assert(parts_of(s@) + Seq::<Part>::empty() =~= parts_of(s@));
            },
        }
        let ghost before = parts_of(s@);
        s.push(segment("📝 RECENT SESSIONS\n", Rgba { r: 178, g: 178, b: 255, a: 255 }));
        s.push(segment("━━━━━━━━━━━━━━━━━━━━━━━━━━━━━━━━━━━━━━━━━━━━━━━\n", sky));
        assert(parts_of(s@) =~= before + session_list_parts(view.recent_sessions@.take(0), default_color));
        let mut i: usize = 0;
        while i < view.recent_sessions.len()
            invariant
                i <= view.recent_sessions@.len(),
                parts_of(s@) == before + session_list_parts(view.recent_sessions@.take(i as int), default_color),
            decreases view.recent_sessions.len() - i,
        {
            let ghost prev = s@;
            let x = Segment { text: session_line(i, &view.recent_sessions[i]), color: default_color };
            s.push(x);
            proof {
                lemma_parts_push(prev, x);
                let sessions = view.recent_sessions@;
                assert(session_list_parts(sessions.take(i + 1), default_color) =~= session_list_parts(
                    sessions.take(i as int),
                    default_color,
                ).push(x@));
            }
            i += 1;
            assert(parts_of(s@) =~= before + session_list_parts(
                view.recent_sessions@.take(i as int),
                default_color,
            ));
        }
        proof {
            assert(view.recent_sessions@.take(view.recent_sessions@.len() as int) =~= view.recent_sessions@);
            middle = recorded_parts(*view, default_color);
            assert(parts_of(s@) =~= head + middle);
        }
    }
    let ghost so_far = s@;
    s.push(segment("\n━━━━━━━━━━━━━━━━━━━━━━━━━━━━━━━━━━━━━━━━━━━━━━━\n", sky));
    s.push(segment("Press ESC to return | Press Ctrl+T / Cmd+T to view stats\n", gray));
    proof {
        let tail = seq![
            Part { text: "\n━━━━━━━━━━━━━━━━━━━━━━━━━━━━━━━━━━━━━━━━━━━━━━━\n"@, color: sky },
            Part { text: "Press ESC to return | Press Ctrl+T / Cmd+T to view stats\n"@, color: gray },
        ];
        assert(parts_of(s@) =~= parts_of(so_far) + tail);
        assert(head =~= seq![
            Part { text: "╔═══════════════════════════════════════════════╗\n"@, color: cyan },
            Part { text: "║          SESSION STATISTICS REPORT            ║\n"@, color: cyan },
            Part { text: "╚═══════════════════════════════════════════════╝\n\n"@, color: cyan },
        ]);
        assert(statistics_parts(*view, default_color) == head + middle + tail);
    }
    text_of_segments(&s)
}

/// The lines of the typing view: the title, the file, the progress, the
/// timings, a rule, the session, the code, the sample of colors if it is
/// wanted, and the keys.
pub open spec fn typing_lines(ctx: &UiContext) -> Seq<Seq<ColoredChar>> {
    HeaderBlock.lines(ctx) + FileInfoBlock.lines(ctx) + ProgressBlock.lines(ctx) + FpsBlock.lines(ctx) + (SeparatorBlock {
        width: 50,
    }).lines(ctx) + SessionStateBlock.lines(ctx) + CodeDisplayBlock.lines(ctx) + if ctx.rainbow_effects {
        RainbowEffectsBlock.lines(ctx)
    } else {
        Seq::empty()
    } + FooterBlock.lines(ctx)
}

/// Appends the lines of `more` to `lines`.
fn append_lines(lines: &mut Vec<ColoredLine>, more: Vec<ColoredLine>)
    ensures
        line_views(final(lines)@) == line_views(old(lines)@) + line_views(more@),
{
    let mut i: usize = 0;
    while i < more.len()
        invariant
            i <= more@.len(),
            line_views(lines@) == line_views(old(lines)@) + line_views(more@).take(i as int),
        decreases more.len() - i,
    {
        let ghost prev = lines@;
        let line = more[i].copy();
        lines.push(line);
        proof {
            lemma_views_push(prev, line);
            assert(line_views(more@).take(i + 1) =~= line_views(more@).take(i as int).push(more@[i as int]@));
        }
        i += 1;
        assert(line_views(lines@) =~= line_views(old(lines)@) + line_views(more@).take(i as int));
    }
    assert(line_views(more@).take(more@.len() as int) =~= line_views(more@));
}

/// The typing view as text, the lines of its blocks one below the other.
pub fn create_colored_text(ctx: &UiContext) -> (r: ColoredText)
    ensures
        r.wf(),
        r@ == typing_lines(ctx),
{
    let mut lines: Vec<ColoredLine> = HeaderBlock.build(ctx);
    append_lines(&mut lines, FileInfoBlock.build(ctx));
    append_lines(&mut lines, ProgressBlock.build(ctx));
    append_lines(&mut lines, FpsBlock.build(ctx));
    append_lines(&mut lines, (SeparatorBlock { width: 50 }).build(ctx));
    append_lines(&mut lines, SessionStateBlock.build(ctx));
    append_lines(&mut lines, CodeDisplayBlock.build(ctx));
    if ctx.rainbow_effects {
        append_lines(&mut lines, RainbowEffectsBlock.build(ctx));
    } else {
        assert(line_views(lines@) + Seq::<Seq<ColoredChar>>::empty() =~= line_views(lines@));
    }
    append_lines(&mut lines, FooterBlock.build(ctx));
    let r = ColoredText { lines };
    assert(r@ =~= line_views(r.lines@));
    r
}

} // verus!
