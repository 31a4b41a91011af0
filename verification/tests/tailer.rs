use slycer::progress::ProgressReading;
use slycer::recent::RecentLines;
use slycer::tailer::{format_progress, format_slots, route_line, LineUpdate, PROGRESS_LENGTH};

#[test]
fn progress_line_moves_the_bar() {
    let mut recent = RecentLines::new();
    let line = "[download]  81.6% of   59.10MiB at    3.47MiB/s ETA 00:01".to_string();
    match route_line(&mut recent, line) {
        LineUpdate::Progress { length, position, message } => {
            assert_eq!(length, 1000);
            assert_eq!(position, 816);
            assert_eq!(message, "81.6%\x1b[90m |  3.47MiB/s\x1b[0m");
        }
        other => panic!("{other:?}"),
    }
    assert_eq!(recent.len(), 0);
}

#[test]
fn plain_line_enters_the_window() {
    let mut recent = RecentLines::new();
    match route_line(&mut recent, "[download] Destination: audio.mp3".to_string()) {
        LineUpdate::Log { message, slots } => {
            assert_eq!(message, "Downloading audio");
            assert_eq!(
                slots,
                vec![
                    "\x1b[90m[download] Destination: audio.mp3\x1b[0m".to_string(),
                    String::new(),
                    String::new(),
                    String::new(),
                    String::new(),
                ]
            );
        }
        other => panic!("{other:?}"),
    }
    assert_eq!(recent.snapshot(), vec!["[download] Destination: audio.mp3".to_string()]);
}

#[test]
fn progress_lines_never_enter_the_window() {
    let mut recent = RecentLines::new();
    let mut plain = Vec::new();
    for i in 0..20 {
        let progress = format!("[download]  {i}.0% of 1MiB at 1 KiB/s ETA 00:01");
        assert!(matches!(route_line(&mut recent, progress), LineUpdate::Progress { .. }));
        let line = format!("log {i}");
        plain.push(line.clone());
        assert!(matches!(route_line(&mut recent, line), LineUpdate::Log { .. }));
        let from = plain.len().saturating_sub(5);
        assert_eq!(recent.snapshot(), plain[from..].to_vec());
    }
    assert_eq!(
        recent.snapshot(),
        vec!["log 15", "log 16", "log 17", "log 18", "log 19"]
    );
}

#[test]
fn log_slots_show_the_window_oldest_first() {
    let mut recent = RecentLines::new();
    let mut last = None;
    for i in 0..7 {
        last = Some(route_line(&mut recent, format!("line {i}")));
    }
    match last.unwrap() {
        LineUpdate::Log { slots, .. } => {
            let expected: Vec<String> =
                (2..7).map(|i| format!("\x1b[90mline {i}\x1b[0m")).collect();
            assert_eq!(slots, expected);
        }
        other => panic!("{other:?}"),
    }
}

#[test]
fn malformed_progress_is_routed_as_log() {
    let mut recent = RecentLines::new();
    let update = route_line(&mut recent, "[download] abc% of 1MiB".to_string());
    assert!(matches!(update, LineUpdate::Log { .. }));
    assert_eq!(recent.len(), 1);
}

#[test]
fn message_without_speed_has_a_blank_field() {
    let reading = ProgressReading { permille: 500, speed: None, eta: None };
    assert_eq!(format_progress(&reading), "50.0%\x1b[90m |           \x1b[0m");
}

#[test]
fn message_pads_the_speed_to_ten() {
    let reading = ProgressReading { permille: 7, speed: Some("1 B/s".to_string()), eta: None };
    assert_eq!(format_progress(&reading), "0.7%\x1b[90m |      1 B/s\x1b[0m");
    let reading = ProgressReading { permille: 1000, speed: Some("1234567890".to_string()), eta: None };
    assert_eq!(format_progress(&reading), "100.0%\x1b[90m | 1234567890\x1b[0m");
}

#[test]
fn message_keeps_a_long_speed_whole() {
    let speed = "123.45 GiB/s".to_string();
    let reading = ProgressReading { permille: 999, speed: Some(speed), eta: Some("1".to_string()) };
    assert_eq!(format_progress(&reading), "99.9%\x1b[90m | 123.45 GiB/s\x1b[0m");
}

#[test]
fn message_counts_characters_not_bytes() {
    let reading = ProgressReading { permille: 10, speed: Some("\u{e9}\u{e9}".to_string()), eta: None };
    assert_eq!(format_progress(&reading), "1.0%\x1b[90m |         \u{e9}\u{e9}\x1b[0m");
}

#[test]
fn position_is_capped_at_the_length() {
    assert_eq!(PROGRESS_LENGTH, 1000);
    let mut recent = RecentLines::new();
    match route_line(&mut recent, "[download] 400.0%".to_string()) {
        LineUpdate::Progress { position, message, .. } => {
            assert_eq!(position, 1000);
            assert_eq!(message, "100.0%\x1b[90m |           \x1b[0m");
        }
        other => panic!("{other:?}"),
    }
}

#[test]
fn slots_are_always_five() {
    assert_eq!(format_slots(&Vec::new()), vec![String::new(); 5]);
    let many: Vec<String> = (0..8).map(|i| i.to_string()).collect();
    let slots = format_slots(&many);
    assert_eq!(slots.len(), 5);
    assert_eq!(slots[4], "\x1b[90m4\x1b[0m");
}
