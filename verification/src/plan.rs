//! What to run for a download, and what the chapter files are called.

use crate::format::{add_word, decimal_text, push_decimal};
use crate::metadata::{make_title_prefix, member_text, text_members};
use crate::naming::{
    build_output_filename, output_filename, sanitize, sanitized, title_prefix_of, NamingOptions,
};
use crate::text::{text_of, texts};
use serde_json::Value;
use vstd::prelude::*;

verus! {

/// The arguments with which the downloader extracts the audio of `url` into
/// `output`, one line of progress after the other.
pub open spec fn download_words(audio_format: Seq<char>, output: Seq<char>, url: Seq<char>) -> Seq<
    Seq<char>,
> {
    seq![
        "--extract-audio"@,
        "--audio-format"@,
        audio_format,
        "--no-playlist"@,
        "--newline"@,
        "--output"@,
        output,
        url,
    ]
}

/// The arguments of the downloader for the audio of `url`.
pub fn download_arguments(audio_format: &str, output: &str, url: &str) -> (args: Vec<String>)
    ensures
        texts(args@) == download_words(audio_format@, output@, url@),
{
    let mut args: Vec<String> = Vec::new();
    assert(texts(args@) =~= Seq::<Seq<char>>::empty());
    add_word(&mut args, "--extract-audio");
    add_word(&mut args, "--audio-format");
    add_word(&mut args, audio_format);
    add_word(&mut args, "--no-playlist");
    add_word(&mut args, "--newline");
    add_word(&mut args, "--output");
    add_word(&mut args, output);
    add_word(&mut args, url);
    assert(texts(args@) =~= download_words(audio_format@, output@, url@));
    args
}

/// The arguments of the downloader for the metadata of `url`.
pub fn metadata_arguments(url: &str) -> (args: Vec<String>)
    ensures
        texts(args@) == seq!["-J"@, url@],
{
    let mut args: Vec<String> = Vec::new();
    assert(texts(args@) =~= Seq::<Seq<char>>::empty());
    add_word(&mut args, "-J");
    add_word(&mut args, url);
    assert(texts(args@) =~= seq!["-J"@, url@]);
    args
}

/// The arguments with which the media tool copies the stretch of `input`
/// that begins at `start` and lasts `duration` into `output`, quietly and
/// over whatever is there.
pub open spec fn split_words(
    start: Seq<char>,
    duration: Seq<char>,
    input: Seq<char>,
    output: Seq<char>,
) -> Seq<Seq<char>> {
    seq![
        "-hide_banner"@,
        "-loglevel"@,
        "error"@,
        "-y"@,
        "-ss"@,
        start,
        "-t"@,
        duration,
        "-i"@,
        input,
        "-c"@,
        "copy"@,
        output,
    ]
}

/// The arguments of the media tool for one chapter. `start` and `duration`
/// are seconds, written by the caller.
pub fn split_arguments(start: &str, duration: &str, input: &str, output: &str) -> (args: Vec<
    String,
>)
    ensures
        texts(args@) == split_words(start@, duration@, input@, output@),
{
    let mut args: Vec<String> = Vec::new();
    assert(texts(args@) =~= Seq::<Seq<char>>::empty());
    add_word(&mut args, "-hide_banner");
    add_word(&mut args, "-loglevel");
    add_word(&mut args, "error");
    add_word(&mut args, "-y");
    add_word(&mut args, "-ss");
    add_word(&mut args, start);
    add_word(&mut args, "-t");
    add_word(&mut args, duration);
    add_word(&mut args, "-i");
    add_word(&mut args, input);
    add_word(&mut args, "-c");
    add_word(&mut args, "copy");
    add_word(&mut args, output);
    assert(texts(args@) =~= split_words(start@, duration@, input@, output@));
    args
}

/// The title under which the chapter at `index` is filed: the file name that
/// its title gives, or `part-` and its number, counted from one, where the
/// title gives none.
pub open spec fn track_title_of(title: Seq<char>, index: nat) -> Seq<char> {
    match sanitized(title) {
        Some(name) => name,
        None => "part-"@ + decimal_text(index + 1),
    }
}

/// The title under which the chapter at `index` is filed.
pub fn track_title(title: &str, index: usize) -> (name: String)
    ensures
        name@ == track_title_of(title@, index as nat),
{
    match sanitize(title) {
        Some(name) => name,
        None => {
            let mut name = "part-".to_owned();
            push_decimal(&mut name, index as u128 + 1);
            name
        },
    }
}

/// The prefix that the title of the video gives, where it is asked for.
pub open spec fn wanted_prefix(use_title: bool, metadata: Value) -> Option<Seq<char>> {
    if use_title {
        match member_text(text_members(metadata), "title"@) {
            Some(title) => title_prefix_of(title),
            None => None,
        }
    } else {
        None
    }
}

/// The name of the file of the chapter at `index`, whose title is `title`.
pub fn track_filename(
    options: &NamingOptions,
    use_title: bool,
    metadata: &Value,
    index: usize,
    pad_width: usize,
    title: &str,
) -> (name: String)
    ensures
        name@ == output_filename(
            text_of(options.prefix),
            options.numbers,
            options.audio_format@,
            index as nat,
            pad_width as nat,
            track_title_of(title@, index as nat),
            wanted_prefix(use_title, *metadata),
        ),
{
    let safe_title = track_title(title, index);
    let prefix = if use_title {
        make_title_prefix(metadata)
    } else {
        None
    };
    match &prefix {
        Some(text) => build_output_filename(
            options,
            index,
            pad_width,
            safe_title.as_str(),
            Some(text.as_str()),
        ),
        None => build_output_filename(options, index, pad_width, safe_title.as_str(), None),
    }
}

} // verus!
