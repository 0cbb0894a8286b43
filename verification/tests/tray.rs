use tidysync::tray::{elide, icon_rgba, recent_labels, status_line, TrayMemory, TrayRefresh, MAX_LABEL};
use tidysync::watcher::{Status, WatchState};

#[test]
fn elide_keeps_short_lines_intact() {
    assert_eq!(elide("Moved report.pdf"), "Moved report.pdf");
}

#[test]
fn elide_truncates_and_takes_only_the_first_line() {
    let long = "x".repeat(100);
    let elided = elide(&long);
    assert_eq!(elided.chars().count(), MAX_LABEL);
    assert!(elided.ends_with('…'));

    assert_eq!(elide("first\nsecond"), "first");
}

#[test]
fn elide_counts_characters_not_bytes() {
    // Multi-byte input must not panic on a byte-boundary slice.
    let wide = "é".repeat(100);
    assert_eq!(elide(&wide).chars().count(), MAX_LABEL);
}

#[test]
fn elide_drops_a_carriage_return_before_the_newline() {
    assert_eq!(elide("first\r\nsecond"), "first");
    assert_eq!(elide("first\r"), "first\r");
    assert_eq!(elide(""), "");
    assert_eq!(elide("\nsecond"), "");
    let exactly = "y".repeat(MAX_LABEL);
    assert_eq!(elide(&exactly), exactly);
}

fn status(state: WatchState, moved: u64, last_error: Option<&str>) -> Status {
    Status { state, moved, last_error: last_error.map(|e| e.to_string()), generation: 0 }
}

#[test]
fn status_line_shows_state_and_count() {
    assert_eq!(status_line(&status(WatchState::Watching, 3, None)), "Watching — 3 moved");
    assert_eq!(status_line(&status(WatchState::Paused, 0, None)), "Paused — 0 moved");
    assert_eq!(status_line(&status(WatchState::Scanning, 1234567890, None)), "Scanning — 1234567890 moved");
}

#[test]
fn status_line_shows_the_error_when_failed() {
    assert_eq!(
        status_line(&status(WatchState::Failed, 2, Some("boom\ncaused by"))),
        "Error: boom"
    );
    // An error only shows while the state is Failed.
    assert_eq!(status_line(&status(WatchState::Watching, 2, Some("old"))), "Watching — 2 moved");
    assert_eq!(status_line(&status(WatchState::Failed, 2, None)), "Failed — 2 moved");
}

#[test]
fn recent_rows_are_newest_first_and_elided() {
    let lines = vec!["one".to_string(), "two".to_string(), "three\nmore".to_string()];
    assert_eq!(recent_labels(&lines, 3), vec!["three", "two", "one"]);
    assert_eq!(recent_labels(&lines, 2), vec!["three", "two"]);
    assert_eq!(recent_labels(&lines, 10).len(), 3);
    assert!(recent_labels(&vec![], 5).is_empty());
}

#[test]
fn icon_is_drawn_per_state() {
    let watching = icon_rgba(WatchState::Watching);
    assert_eq!(watching.len(), 32 * 32 * 4);
    let px = |v: &Vec<u8>, x: usize, y: usize| v[(y * 32 + x) * 4..(y * 32 + x) * 4 + 4].to_vec();
    // Corners are transparent, the middle of the background is the accent.
    assert_eq!(px(&watching, 0, 0), vec![0, 0, 0, 0]);
    assert_eq!(px(&watching, 2, 2), vec![0, 0, 0, 0]);
    assert_eq!(px(&watching, 5, 16), vec![0x4c, 0x8d, 0xf6, 0xff]);
    // The arrow shaft and the tray are white.
    assert_eq!(px(&watching, 16, 10), vec![0xff, 0xff, 0xff, 0xff]);
    assert_eq!(px(&watching, 10, 25), vec![0xff, 0xff, 0xff, 0xff]);
    let paused = icon_rgba(WatchState::Paused);
    assert_eq!(px(&paused, 5, 16), vec![0x8a, 0x8a, 0x8a, 0xff]);
    let failed = icon_rgba(WatchState::Failed);
    assert_eq!(px(&failed, 5, 16), vec![0xe0, 0x8b, 0x2c, 0xff]);
    assert_eq!(px(&failed, 16, 10), vec![0xff, 0xff, 0xff, 0xff]);
}

#[test]
fn tray_redraws_only_what_changed() {
    let mut memory = TrayMemory::new();
    let mut s = status(WatchState::Paused, 0, None);
    let first = memory.refresh(&s, true, false);
    assert_eq!(first, TrayRefresh {
        status_text: Some("Paused — 0 moved".to_string()),
        checked: Some(true),
        icon: Some(WatchState::Paused),
    });
    // Same generation: nothing to redraw.
    assert_eq!(memory.refresh(&s, false, true), TrayRefresh { status_text: None, checked: None, icon: None });
    // New generation, same state: the text but not the icon.
    s.generation = 1;
    s.moved = 2;
    assert_eq!(memory.refresh(&s, true, true), TrayRefresh {
        status_text: Some("Paused — 2 moved".to_string()),
        checked: None,
        icon: None,
    });
    s.generation = 2;
    s.state = WatchState::Watching;
    assert_eq!(memory.refresh(&s, true, true).icon, Some(WatchState::Watching));
}

/// `elide` as `str::lines` and `str::chars` spell it.
fn elide_by_std(message: &str) -> String {
    let line = message.lines().next().unwrap_or_default();
    if line.chars().count() > MAX_LABEL {
        format!("{}…", line.chars().take(MAX_LABEL - 1).collect::<String>())
    } else {
        line.to_owned()
    }
}

#[test]
fn elide_agrees_with_str_lines() {
    let long = "ab\u{e9}".repeat(40);
    let corpus = [
        "", "\n", "\r\n", "\r", "a\rb\nc", "a\r\r\nb", "\r\r", "x\n\ny", " lead", "tail \r",
        long.as_str(), "\u{1f600}\u{1f600}\nsecond",
    ];
    for m in corpus {
        assert_eq!(elide(m), elide_by_std(m), "{m:?}");
    }
    let sixty_one = "z".repeat(61) + "\r\nrest";
    assert_eq!(elide(&sixty_one), elide_by_std(&sixty_one));
}
