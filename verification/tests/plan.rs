use slycer::metadata::decode_metadata;
use slycer::naming::NamingOptions;
use slycer::plan::{
    download_arguments, metadata_arguments, split_arguments, track_filename, track_title,
};

#[test]
fn downloader_extracts_audio_line_by_line() {
    assert_eq!(
        download_arguments("mp3", "out.mp3", "https://example.com/v"),
        vec![
            "--extract-audio",
            "--audio-format",
            "mp3",
            "--no-playlist",
            "--newline",
            "--output",
            "out.mp3",
            "https://example.com/v",
        ]
    );
}

#[test]
fn downloader_prints_metadata_as_json() {
    assert_eq!(metadata_arguments("https://example.com/v"), vec!["-J", "https://example.com/v"]);
}

#[test]
fn media_tool_copies_one_stretch() {
    assert_eq!(
        split_arguments("12.500", "60.000", "out.mp3", "dir/01_Intro.mp3"),
        vec![
            "-hide_banner",
            "-loglevel",
            "error",
            "-y",
            "-ss",
            "12.500",
            "-t",
            "60.000",
            "-i",
            "out.mp3",
            "-c",
            "copy",
            "dir/01_Intro.mp3",
        ]
    );
}

#[test]
fn track_title_falls_back_to_its_number() {
    assert_eq!(track_title("Intro: The Start", 0), "Intro_The_Start");
    assert_eq!(track_title("???", 0), "part-1");
    assert_eq!(track_title("", 41), "part-42");
}

#[test]
fn track_filename_uses_the_video_title_on_demand() {
    let metadata = decode_metadata(true, b"{\"title\": \"Big Album (Remaster)\"}").unwrap();
    let options = NamingOptions { prefix: None, numbers: true, audio_format: "mp3".to_string() };
    assert_eq!(
        track_filename(&options, true, &metadata, 2, 2, "Third Song"),
        "big_album_03_Third_Song.mp3"
    );
    assert_eq!(track_filename(&options, false, &metadata, 2, 2, "Third Song"), "03_Third_Song.mp3");
    assert_eq!(track_filename(&options, true, &metadata, 9, 2, "!!"), "big_album_10_part-10.mp3");
}

#[test]
fn track_filename_without_a_title_in_the_metadata() {
    let metadata = decode_metadata(true, b"{}").unwrap();
    let options =
        NamingOptions { prefix: Some("x".to_string()), numbers: false, audio_format: "ogg".to_string() };
    assert_eq!(track_filename(&options, true, &metadata, 0, 0, "One"), "x_One.ogg");
}
