use cargo_tap::color::Rgba;
use cargo_tap::screens::{
    create_colored_text, create_file_selection_screen, create_statistics_screen, current_screen, segment,
    text_of_segments, RecentView, Screen, SessionLine, StatisticsView, Trend,
};
use cargo_tap::text::{ColoredChar, ColoredText};
use cargo_tap::ui_blocks::{create_rainbow_text, SessionView, UiContext};

const DEFAULT: Rgba = Rgba { r: 230, g: 230, b: 230, a: 255 };

fn flatten(text: &ColoredText) -> String {
    let lines: Vec<String> = text.lines.iter().map(|l| l.chars.iter().map(|c| c.ch).collect()).collect();
    lines.join("\n")
}

fn statistics() -> StatisticsView {
    StatisticsView {
        total_sessions: 3,
        total_chars: 525,
        total_minutes: "1.5".to_string(),
        avg_cpm: "350".to_string(),
        avg_wpm: "70".to_string(),
        avg_accuracy: "92.3".to_string(),
        total_errors: 22,
        best_cpm: "400".to_string(),
        best_wpm: "80".to_string(),
        best_accuracy: "95.0".to_string(),
        recent: Some(RecentView {
            sessions: 3,
            avg_cpm: "350".to_string(),
            avg_wpm: "70".to_string(),
            avg_accuracy: "92.3".to_string(),
            trend: Trend::Improved("10.0".to_string()),
        }),
        recent_sessions: vec![
            SessionLine { cpm: "350".to_string(), wpm: "70".to_string(), accuracy: "92.0".to_string(), chars_typed: 175 },
            SessionLine { cpm: "400".to_string(), wpm: "80".to_string(), accuracy: "90.0".to_string(), chars_typed: 200 },
        ],
    }
}

fn context() -> UiContext {
    UiContext {
        header_color: Rgba::new(0, 255, 255, 255),
        default_color: DEFAULT,
        file_path: "src/main.rs".to_string(),
        cursor_position: 4,
        total_length: 11,
        progress_percent: "36.4".to_string(),
        show_profiling_info: false,
        fps: "60.0".to_string(),
        key_ms: "0.120".to_string(),
        text_update_ms: "1.500".to_string(),
        ui_generation_ms: "0.300".to_string(),
        rainbow_effects: false,
        session: SessionView::NotStarted,
        code: ColoredText::from_str_with_color("fn a\nb", DEFAULT),
        scroll_offset: 0,
        cursor_line: 1,
    }
}

#[test]
fn the_choice_of_a_file_goes_first() {
    assert_eq!(current_screen(true, true), Screen::FileSelection);
    assert_eq!(current_screen(true, false), Screen::FileSelection);
    assert_eq!(current_screen(false, true), Screen::Statistics);
    assert_eq!(current_screen(false, false), Screen::Typing);
}

#[test]
fn segments_make_lines_at_their_line_feeds() {
    let red = Rgba::opaque(255, 0, 0);
    let text = text_of_segments(&vec![segment("ab", red), segment("c\n", DEFAULT), segment("", red), segment("d", red)]);
    assert_eq!(flatten(&text), "abc\nd");
    assert_eq!(text.lines[0].chars[1], ColoredChar::new('b', red));
    assert_eq!(text.lines[0].chars[2], ColoredChar::new('c', DEFAULT));
    assert_eq!(text.lines[1].chars[0], ColoredChar::new('d', red));
    assert_eq!(flatten(&text_of_segments(&Vec::new())), "");
}

#[test]
fn the_file_selection_screen_shows_the_input_and_the_open_file() {
    let text = create_file_selection_screen("src/li", "src/main.rs", DEFAULT);
    let shown = flatten(&text);
    assert_eq!(text.lines.len(), 22);
    assert!(shown.starts_with("╔═══════════════════════════════════════════════╗\n║              FILE SELECTION MODE              ║\n"));
    assert!(shown.contains("\nEnter file path to load:\n\n📝 src/li█\n\n━"));
    assert!(shown.contains("\nCurrent file: src/main.rs\n\nInstructions:\n"));
    assert!(shown.ends_with("  • ../other_project/code.rs\n"));
    let input = &text.lines[6].chars;
    assert_eq!(input[2], ColoredChar::new('s', Rgba::new(0, 255, 0, 255)));
    assert_eq!(input[0], ColoredChar::new('📝', Rgba::new(255, 214, 0, 255)));
    assert_eq!(text.lines[18].chars[2], ColoredChar::new('•', DEFAULT));
    assert_eq!(text.lines[12].chars[2], ColoredChar::new('•', Rgba::new(178, 178, 178, 255)));
}

#[test]
fn the_statistics_screen_without_sessions() {
    let mut view = statistics();
    view.total_sessions = 0;
    let shown = flatten(&create_statistics_screen(&view, DEFAULT));
    assert_eq!(
        shown,
        "╔═══════════════════════════════════════════════╗\n\
         ║          SESSION STATISTICS REPORT            ║\n\
         ╚═══════════════════════════════════════════════╝\n\n\
         No sessions recorded yet.\n\
         Start typing to track your progress!\n\n\n\
         ━━━━━━━━━━━━━━━━━━━━━━━━━━━━━━━━━━━━━━━━━━━━━━━\n\
         Press ESC to return | Press Ctrl+T / Cmd+T to view stats\n"
    );
}

#[test]
fn the_statistics_screen_in_full() {
    let shown = flatten(&create_statistics_screen(&statistics(), DEFAULT));
    let rule = "━━━━━━━━━━━━━━━━━━━━━━━━━━━━━━━━━━━━━━━━━━━━━━━\n";
    let want = [
        "╔═══════════════════════════════════════════════╗\n",
        "║          SESSION STATISTICS REPORT            ║\n",
        "╚═══════════════════════════════════════════════╝\n\n",
        "📊 ALL-TIME STATS (3 sessions)\n",
        rule,
        "  Total Characters: 525\n",
        "  Total Time: 1.5 minutes\n",
        "  Avg Speed: 350 CPM / 70 WPM\n",
        "  Avg Accuracy: 92.3%\n",
        "  Total Errors: 22\n\n",
        "🏆 BEST PERFORMANCES\n",
        rule,
        "  Best Speed: 400 CPM / 80 WPM\n",
        "  Best Accuracy: 95.0%\n\n",
        "📈 RECENT PERFORMANCE (last 3 sessions)\n",
        rule,
        "  Avg Speed: 350 CPM / 70 WPM\n",
        "  Avg Accuracy: 92.3%\n",
        "  📊 Improvement: +10.0% 🎉\n",
        "\n",
        "📝 RECENT SESSIONS\n",
        rule,
        "  1. 350 CPM / 70 WPM | 92.0% acc | 175 chars\n",
        "  2. 400 CPM / 80 WPM | 90.0% acc | 200 chars\n",
        "\n",
        rule,
        "Press ESC to return | Press Ctrl+T / Cmd+T to view stats\n",
    ]
    .concat();
    assert_eq!(shown, want);
}

#[test]
fn the_statistics_screen_tells_a_decline_and_keeps_quiet_about_none() {
    let mut view = statistics();
    view.recent.as_mut().unwrap().trend = Trend::Declined("-3.5".to_string());
    let shown = flatten(&create_statistics_screen(&view, DEFAULT));
    assert!(shown.contains("  Avg Accuracy: 92.3%\n  📊 Change: -3.5%\n\n📝 RECENT SESSIONS\n"));
    view.recent.as_mut().unwrap().trend = Trend::Flat;
    let shown = flatten(&create_statistics_screen(&view, DEFAULT));
    assert!(shown.contains("  Avg Accuracy: 92.3%\n\n📝 RECENT SESSIONS\n"));
    view.recent = None;
    view.recent_sessions.clear();
    let shown = flatten(&create_statistics_screen(&view, DEFAULT));
    assert!(shown.contains("  Best Accuracy: 95.0%\n\n📝 RECENT SESSIONS\n━"));
    assert!(shown.contains("━\n\n━"));
}

#[test]
fn the_typing_view_as_text() {
    let text = create_colored_text(&context());
    assert_eq!(
        flatten(&text),
        [
            "🦀 CargoTap Live Demo",
            "📄 File: src/main.rs ",
            "| Progress: 4/11 (36.4%)",
            "📊 FPS: 60.0 | Key Processing: 0.120 ms",
            "──────────────────────────────────────────────────",
            "Start typing to begin session...",
            "──────────────────────────────",
            "  1 │ fn a",
            "  2 │ b ",
            "",
            "Press Cmd+P to change file | Press Ctrl+T / Cmd+T to view statistics",
        ]
        .join("\n")
    );
    let code = &text.lines[7].chars;
    assert_eq!(code[2], ColoredChar::new('1', Rgba::new(255, 217, 51, 255)));
    assert_eq!(code[6], ColoredChar::new('f', DEFAULT));
    assert_eq!(text.lines[8].chars[6], ColoredChar::new('b', DEFAULT));
    assert_eq!(
        text.lines[8].chars[7],
        ColoredChar::with_background('\u{20}', DEFAULT, Rgba::new(0, 255, 0, 128))
    );
    assert_eq!(text.lines[8].chars[2], ColoredChar::new('2', Rgba::new(128, 128, 153, 255)));
    assert_eq!(text.lines[0].chars[0], ColoredChar::new('🦀', Rgba::new(255, 128, 0, 255)));
    assert_eq!(text.lines[0].chars[11], ColoredChar::new('L', Rgba::new(0, 255, 255, 255)));
}

#[test]
fn the_typing_view_with_everything_switched_on() {
    let mut ctx = context();
    ctx.show_profiling_info = true;
    ctx.rainbow_effects = true;
    ctx.session = SessionView::Active { time_remaining: "02:59".to_string(), speed: Some("120".to_string()) };
    ctx.scroll_offset = 1;
    ctx.cursor_position = 5;
    ctx.cursor_line = 2;
    let text = create_colored_text(&ctx);
    assert_eq!(
        flatten(&text),
        [
            "🦀 CargoTap Live Demo",
            "📄 File: src/main.rs ",
            "| Progress: 5/11 (36.4%)",
            "📊 FPS: 60.0 | Key: 0.120ms | Text Update: 1.500ms | UI Gen: 0.300ms",
            "──────────────────────────────────────────────────",
            "⏱️  Time: 02:59 | 120 CPM ",
            "──────────────────────────────",
            "  2 │ b",
            "",
            "✨ Rainbow: Per-character colors work!",
            "",
            "Press Cmd+P to change file | Press Ctrl+T / Cmd+T to view statistics",
        ]
        .join("\n")
    );
    assert_eq!(
        text.lines[7].chars[6],
        ColoredChar::with_background('b', DEFAULT, Rgba::new(0, 255, 0, 128))
    );
    assert_eq!(text.lines[7].chars[2], ColoredChar::new('2', Rgba::new(255, 217, 51, 255)));
    let rainbow = &text.lines[9].chars;
    assert_eq!(rainbow[11], ColoredChar::new('P', Rgba::new(255, 0, 0, 255)));
    assert_eq!(rainbow[12], ColoredChar::new('e', Rgba::new(255, 128, 0, 255)));
    assert_eq!(rainbow[17], ColoredChar::new('a', Rgba::new(255, 0, 255, 255)));
    assert_eq!(rainbow[18], ColoredChar::new('r', Rgba::new(255, 0, 0, 255)));
}

#[test]
fn the_session_block_follows_the_session() {
    let mut ctx = context();
    ctx.session = SessionView::Finished { summary: Some("Time: 60.0s | Chars: 120".to_string()) };
    let shown = flatten(&create_colored_text(&ctx));
    assert!(shown.contains(
        "\n⏰ SESSION COMPLETE! \nTime: 60.0s | Chars: 120\nPress SPACE to start new session\n──────────────────────────────\n  1 │"
    ));
    ctx.session = SessionView::Finished { summary: None };
    let shown = flatten(&create_colored_text(&ctx));
    assert!(shown.contains("──────────────────────────────────────────────────\n  1 │"));
    ctx.session = SessionView::Active { time_remaining: "00:10".to_string(), speed: None };
    let shown = flatten(&create_colored_text(&ctx));
    assert!(shown.contains("\n⏱️  Time: 00:10 \n──────────────────────────────\n"));
}

#[test]
fn rainbow_text_cycles_through_seven_colors() {
    let text = create_rainbow_text("TEST");
    assert_eq!(text.lines.len(), 1);
    let chars = &text.lines[0].chars;
    assert_eq!(chars.len(), 4);
    for i in 0..chars.len() - 1 {
        assert_ne!(chars[i].color, chars[i + 1].color);
    }
    let long = create_rainbow_text("abcdefg\nh");
    assert_eq!(long.lines.len(), 2);
    assert_eq!(long.lines[0].chars[0].color, Rgba::new(255, 0, 0, 255));
    assert_eq!(long.lines[0].chars[4].color, Rgba::new(0, 0, 255, 255));
    assert_eq!(long.lines[0].chars[5].color, Rgba::new(128, 0, 255, 255));
    assert_eq!(long.lines[1].chars[0], ColoredChar::new('h', Rgba::new(255, 128, 0, 255)));
}

#[test]
fn test_rainbow_text_creation() {
    let rainbow = create_rainbow_text("TEST");
    let chars = &rainbow.lines[0].chars;
    assert_eq!(chars.len(), 4);

    for i in 0..chars.len() - 1 {
        assert_ne!(chars[i].color, chars[i + 1].color);
    }
}
