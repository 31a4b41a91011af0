use slycer::progress::{parse_ytdlp_progress, ProgressReading};

fn read(line: &str) -> ProgressReading {
    parse_ytdlp_progress(line).unwrap()
}

#[test]
fn reads_a_full_progress_line() {
    let reading = read("[download]  81.6% of   59.10MiB at    3.47MiB/s ETA 00:01");
    assert_eq!(reading.permille, 816);
    assert_eq!(reading.speed.as_deref(), Some("3.47MiB/s"));
    assert_eq!(reading.eta.as_deref(), Some("00:01"));
}

#[test]
fn destination_line_is_no_progress() {
    assert!(parse_ytdlp_progress("[download] Destination: audio.mp3").is_none());
}

#[test]
fn reads_speed_with_its_unit() {
    let reading = read("[download]  42.0% of ~10MiB at 1.5 MiB/s ETA 00:10");
    assert_eq!(reading.permille, 420);
    assert_eq!(reading.speed.as_deref(), Some("1.5 MiB/s"));
    assert_eq!(reading.eta.as_deref(), Some("00:10"));
}

#[test]
fn reads_every_well_formed_percentage() {
    for whole in 0u64..=99 {
        for tenth in 0u64..=9 {
            let line = format!("[download]  {whole}.{tenth}% of 1MiB at 2 KiB/s ETA 01:02:03");
            let reading = read(&line);
            assert_eq!(reading.permille, whole * 10 + tenth);
            assert_eq!(reading.speed.as_deref(), Some("2 KiB/s"));
            assert_eq!(reading.eta.as_deref(), Some("01:02:03"));
        }
    }
}

#[test]
fn line_without_marker_is_no_progress() {
    assert!(parse_ytdlp_progress("download 50.0% of 1MiB").is_none());
    assert!(parse_ytdlp_progress(" [download] 50.0% of 1MiB").is_none());
    assert!(parse_ytdlp_progress("").is_none());
}

#[test]
fn line_without_percent_is_no_progress() {
    assert!(parse_ytdlp_progress("[download] 50.0 of 1MiB at 2 KiB/s ETA 00:01").is_none());
    assert!(parse_ytdlp_progress("[download]").is_none());
}

#[test]
fn percentage_beyond_100_is_capped() {
    assert_eq!(read("[download]  250.0% of 1MiB").permille, 1000);
    assert_eq!(read("[download]  100.1% of 1MiB").permille, 1000);
    assert_eq!(read("[download]  100.0% of 1MiB").permille, 1000);
    assert_eq!(read("[download]  99.9% of 1MiB").permille, 999);
}

#[test]
fn percentage_of_any_length_is_capped() {
    assert_eq!(read("[download]  99999999999999999999999999999.5% of 1MiB").permille, 1000);
    assert_eq!(read("[download]  000000000000000000000000000012.3% of 1MiB").permille, 123);
}

#[test]
fn percentage_without_decimal_counts_whole_percents() {
    assert_eq!(read("[download] 100% of 5MiB").permille, 1000);
    assert_eq!(read("[download] 7% of 5MiB").permille, 70);
    assert_eq!(read("[download] 5.% of 5MiB").permille, 50);
    assert_eq!(read("[download] 5.x% of 5MiB").permille, 50);
    assert_eq!(read("[download] 5..7% of 5MiB").permille, 50);
    assert_eq!(read("[download] 5.79% of 5MiB").permille, 57);
}

#[test]
fn plus_sign_may_open_the_percentage() {
    assert_eq!(read("[download] +5.5% of 5MiB").permille, 55);
    assert!(parse_ytdlp_progress("[download] +% of 5MiB").is_none());
    assert!(parse_ytdlp_progress("[download] -5.5% of 5MiB").is_none());
}

#[test]
fn malformed_percentage_is_no_progress() {
    assert!(parse_ytdlp_progress("[download] abc% of 5MiB").is_none());
    assert!(parse_ytdlp_progress("[download]% of 5MiB").is_none());
    assert!(parse_ytdlp_progress("[download] .5% of 5MiB").is_none());
    assert!(parse_ytdlp_progress("[download] 1a.5% of 5MiB").is_none());
    assert!(parse_ytdlp_progress("[download] 12 % of 5MiB").is_some());
    assert!(parse_ytdlp_progress("[download] x % of 5MiB").is_none());
}

#[test]
fn only_the_first_percent_sign_counts() {
    assert_eq!(read("[download] 12.5% of 99.9%").permille, 125);
    assert!(parse_ytdlp_progress("[download] no% 12.5%").is_none());
}

#[test]
fn unknown_speed_is_no_speed() {
    let reading = read("[download]  10.0% of 5MiB at Unknown B/s ETA 00:05");
    assert_eq!(reading.permille, 100);
    assert_eq!(reading.speed, None);
    assert_eq!(reading.eta.as_deref(), Some("00:05"));
}

#[test]
fn unknown_eta_is_no_eta() {
    let reading = read("[download]  10.0% of 5MiB at 1.0 MiB/s ETA Unknown");
    assert_eq!(reading.speed.as_deref(), Some("1.0 MiB/s"));
    assert_eq!(reading.eta, None);
}

#[test]
fn missing_fields_are_no_error() {
    let reading = read("[download] 3.0%");
    assert_eq!(reading.permille, 30);
    assert_eq!(reading.speed, None);
    assert_eq!(reading.eta, None);
    assert_eq!(read("[download] 3.0% at").speed, None);
    assert_eq!(read("[download] 3.0% ETA").eta, None);
}

#[test]
fn speed_without_unit_keeps_its_blank() {
    assert_eq!(read("[download] 3.0% at 5").speed.as_deref(), Some("5 "));
}

#[test]
fn only_a_closing_eta_leaves_the_speed() {
    assert_eq!(read("[download] 3.0% at 5 ETA").speed.as_deref(), Some("5"));
    assert_eq!(read("[download] 3.0% at 5 ETAx").speed.as_deref(), Some("5 ETAx"));
    assert_eq!(read("[download] 3.0% at 5 ETAx").eta, None);
}

#[test]
fn eta_is_looked_for_in_every_token() {
    let reading = read("[download] 3.0% at ETA 7");
    assert_eq!(reading.speed.as_deref(), Some("ETA 7"));
    assert_eq!(reading.eta.as_deref(), Some("7"));
}

#[test]
fn the_last_known_value_decides() {
    assert_eq!(read("[download] 1.0% at 1 a at 2 b").speed.as_deref(), Some("2 b"));
    assert_eq!(read("[download] 1.0% at 1 a at Unknown b").speed.as_deref(), Some("1 a"));
    assert_eq!(read("[download] 1.0% ETA 1 ETA 2").eta.as_deref(), Some("2"));
    assert_eq!(read("[download] 1.0% ETA 1 ETA Unknown").eta.as_deref(), Some("1"));
}

#[test]
fn tokens_behind_at_are_not_read_as_at() {
    assert_eq!(read("[download] 1.0% at at at x y").speed.as_deref(), Some("at at"));
    assert_eq!(read("[download] 1.0% ETA ETA 5").eta.as_deref(), Some("ETA"));
}

#[test]
fn any_white_space_separates_tokens() {
    let reading = read("[download]\u{a0}12.3%\tof\u{2003}1MiB\u{3000}at\t9\u{2028}B/s\u{85}ETA\u{1680}0:1");
    assert_eq!(reading.permille, 123);
    assert_eq!(reading.speed.as_deref(), Some("9 B/s"));
    assert_eq!(reading.eta.as_deref(), Some("0:1"));
}

#[test]
fn readings_never_exceed_1000() {
    for line in [
        "[download] 0.0%",
        "[download] 100.9%",
        "[download] 18446744073709551615.9%",
        "[download] 18446744073709551616.0%",
        "[download] 1000%",
    ] {
        assert!(read(line).permille <= 1000);
    }
}
