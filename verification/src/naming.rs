//! The names of the files that the chapters are written to.

use crate::format::{decimal_text, join_with, joined, pad_left, padded_left, push_decimal};
use crate::text::{
    chars_of, find_char, find_from, find_text, first_index, is_space, span_texts, text_of, texts,
};
use crate::tokens::{is_word, lemma_tokens_are_words, token_spans, tokens};
use vstd::prelude::*;

verus! {

/// Whether `c` may stand in a file name: an ASCII letter or digit, `_` or
/// `-`.
pub open spec fn is_name_char(c: char) -> bool {
    let u = c as int;
    ||| 0x61 <= u <= 0x7A
    ||| 0x41 <= u <= 0x5A
    ||| 0x30 <= u <= 0x39
    ||| c == '_'
    ||| c == '-'
}

/// `title` with a blank in place of every character that may not stand in a
/// file name.
pub open spec fn cleaned(title: Seq<char>) -> Seq<char> {
    Seq::new(
        title.len(),
        |i: int|
            if is_name_char(title[i]) {
                title[i]
            } else {
                ' '
            },
    )
}

/// The file name that `title` gives: its words of name characters, joined by
/// `_`; nothing where it holds no such word.
pub open spec fn sanitized(title: Seq<char>) -> Option<Seq<char>> {
    let name = joined(tokens(cleaned(title)), "_"@);
    if name.len() == 0 {
        None
    } else {
        Some(name)
    }
}

/// Tells whether `c` may stand in a file name.
fn name_char(c: char) -> (b: bool)
    ensures
        b == is_name_char(c),
{
    ('a' <= c && c <= 'z') || ('A' <= c && c <= 'Z') || ('0' <= c && c <= '9') || c == '_' || c
        == '-'
}

/// Turns `title` into a file name: what is no ASCII letter, digit, `_` or
/// `-` separates words, and the words are joined by `_`.
pub fn sanitize(title: &str) -> (r: Option<String>)
    ensures
        text_of(r) == sanitized(title@),
{
    let chars = chars_of(title);
    let mut clean: Vec<char> = Vec::new();
    let mut i: usize = 0;
    while i < chars.len()
        invariant
            i <= chars.len(),
            chars@ == title@,
            clean@ == cleaned(title@).take(i as int),
        decreases chars.len() - i,
    {
        let c = chars[i];
        clean.push(
            if name_char(c) {
                c
            } else {
                ' '
            },
        );
        proof {
            assert(clean@ =~= cleaned(title@).take(i + 1));
        }
        i += 1;
    }
    proof {
        assert(clean@ =~= cleaned(title@));
    }
    let spans = token_spans(&clean, clean.len());
    proof {
        assert(clean@.take(clean.len() as int) == clean@);
        lemma_tokens_are_words(clean@);
    }
    let ghost words = tokens(cleaned(title@));
    let mut name = String::new();
    let mut k: usize = 0;
    while k < spans.len()
        invariant
            k <= spans.len(),
            clean@ == cleaned(title@),
            words == tokens(clean@),
            span_texts(clean@, spans@) == words,
            crate::tokens::spans_within(spans@, clean.len() as int),
            forall|j: int| 0 <= j < words.len() ==> is_word(#[trigger] words[j]),
            name@ == joined(words.take(k as int), "_"@),
        decreases spans.len() - k,
    {
        let span = spans[k];
        proof {
            let word = words[k as int];
            assert(word == span_texts(clean@, spans@)[k as int]);
            assert(is_word(word));
            assert(title@.subrange(span.start as int, span.end as int) =~= word) by {
                assert forall|j: int| 0 <= j < word.len() implies title@[span.start + j]
                    == word[j] by {
                    assert(!is_space(word[j]));
                    assert(word[j] == clean@[span.start + j]);
                }
            }
            let longer = words.take(k + 1);
            assert(longer.drop_last() == words.take(k as int));
            assert(longer.last() == word);
            if k == 0 {
                assert(Seq::<char>::empty() + word == word);
            }
        }
        if k > 0 {
            name.append("_");
        }
        name.append(title.substring_char(span.start, span.end));
        k += 1;
    }
    proof {
        assert(words.take(spans.len() as int) == words);
    }
    if name.as_str().is_empty() {
        None
    } else {
        Some(name)
    }
}

/// How many digits a track number is padded to: none where tracks are not
/// numbered, else as many as `count` has, at most four.
pub open spec fn pad_width_for(use_numbers: bool, count: nat) -> nat {
    if !use_numbers {
        0
    } else if count <= 9 {
        1
    } else if count <= 99 {
        2
    } else if count <= 999 {
        3
    } else {
        4
    }
}

/// The width that the track numbers of `count` chapters are padded to.
pub fn compute_pad_width(use_numbers: bool, count: usize) -> (width: usize)
    ensures
        width == pad_width_for(use_numbers, count as nat),
{
    if !use_numbers {
        0
    } else if count <= 9 {
        1
    } else if count <= 99 {
        2
    } else if count <= 999 {
        3
    } else {
        4
    }
}

/// What decides the names of the chapter files.
#[derive(Clone, Debug)]
pub struct NamingOptions {
    /// A prefix for every file name.
    pub prefix: Option<String>,
    /// Whether file names carry the number of their track.
    pub numbers: bool,
    /// The extension of the files.
    pub audio_format: String,
}

/// The part that an optional text adds to a name: itself, unless it is
/// missing or empty.
pub open spec fn optional_part(text: Option<Seq<char>>) -> Seq<Seq<char>> {
    match text {
        Some(s) => if s.len() > 0 {
            seq![s]
        } else {
            Seq::empty()
        },
        None => Seq::empty(),
    }
}

/// The part that the track number adds to a name: the number, counted from
/// one and padded with zeros, where tracks are numbered.
pub open spec fn number_part(numbers: bool, index: nat, pad_width: nat) -> Seq<Seq<char>> {
    if numbers && pad_width > 0 {
        seq![padded_left(decimal_text(index + 1), pad_width, "0"@)]
    } else {
        Seq::empty()
    }
}

/// The name of the file of the chapter at `index`: prefix, title prefix and
/// track number as far as there are any, then the title, joined by `_`, and
/// the extension behind a `.`.
pub open spec fn output_filename(
    prefix: Option<Seq<char>>,
    numbers: bool,
    audio_format: Seq<char>,
    index: nat,
    pad_width: nat,
    safe_title: Seq<char>,
    title_prefix: Option<Seq<char>>,
) -> Seq<char> {
    joined(
        optional_part(prefix) + optional_part(title_prefix) + number_part(numbers, index, pad_width)
            + seq![safe_title],
        "_"@,
    ) + "."@ + audio_format
}

/// The text of an optional string slice.
pub open spec fn slice_text(s: Option<&str>) -> Option<Seq<char>> {
    match s {
        Some(t) => Some(t@),
        None => None,
    }
}

/// Builds the file name of the chapter at `index`.
pub fn build_output_filename(
    options: &NamingOptions,
    index: usize,
    pad_width: usize,
    safe_title: &str,
    title_prefix: Option<&str>,
) -> (name: String)
    ensures
        name@ == output_filename(
            text_of(options.prefix),
            options.numbers,
            options.audio_format@,
            index as nat,
            pad_width as nat,
            safe_title@,
            slice_text(title_prefix),
        ),
{
    let mut parts: Vec<String> = Vec::new();
    match &options.prefix {
        Some(prefix) => {
            if !prefix.as_str().is_empty() {
                parts.push(prefix.clone());
            }
        },
        None => {},
    }
    assert(texts(parts@) =~= optional_part(text_of(options.prefix)));
    match title_prefix {
        Some(text) => {
            if !text.is_empty() {
                parts.push(text.to_owned());
            }
        },
        None => {},
    }
    assert(texts(parts@) =~= optional_part(text_of(options.prefix)) + optional_part(
        slice_text(title_prefix),
    ));
    if options.numbers && pad_width > 0 {
        let mut digits = String::new();
        push_decimal(&mut digits, index as u128 + 1);
        proof {
            assert(Seq::<char>::empty() + decimal_text(index as nat + 1) == decimal_text(
                index as nat + 1,
            ));
        }
        parts.push(pad_left(digits.as_str(), pad_width, "0"));
    }
    assert(texts(parts@) =~= optional_part(text_of(options.prefix)) + optional_part(
        slice_text(title_prefix),
    ) + number_part(options.numbers, index as nat, pad_width as nat));
    let ghost before = texts(parts@);
    parts.push(safe_title.to_owned());
    assert(texts(parts@) =~= before + seq![safe_title@]);
    let mut name = join_with(&parts, "_");
    name.append(".");
    name.append(options.audio_format.as_str());
    name
}

/// The most characters that a title gives to a prefix.
pub const PREFIX_LIMIT: usize = 40;

/// Where the headline of `title` ends: at the first ` - `, `(` or `[`,
/// whichever comes first, or at the end of the title.
pub open spec fn cut_point(title: Seq<char>) -> int {
    let dash = find_from(title, " - "@, 0);
    let round = first_index(title, '(');
    let square = first_index(title, '[');
    if dash <= round && dash <= square {
        dash
    } else if round <= square {
        round
    } else {
        square
    }
}

/// `s` without the `c` that close it.
pub open spec fn without_trailing(s: Seq<char>, c: char) -> Seq<char>
    decreases s.len(),
{
    if s.len() > 0 && s.last() == c {
        without_trailing(s.drop_last(), c)
    } else {
        s
    }
}

/// The prefix that a headline gives once it is in lower case: its file name,
/// cut to [`PREFIX_LIMIT`] characters, without `_` at its end; nothing where
/// nothing is left.
pub open spec fn prefix_of_lowered(lowered: Seq<char>) -> Option<Seq<char>> {
    match sanitized(lowered) {
        Some(name) => {
            let kept = if name.len() <= PREFIX_LIMIT {
                name
            } else {
                name.take(PREFIX_LIMIT as int)
            };
            let short = without_trailing(kept, '_');
            if short.len() == 0 {
                None
            } else {
                Some(short)
            }
        },
        None => None,
    }
}

/// What `str::to_lowercase` of the standard library makes of a text.
pub uninterp spec fn lowercase_of(text: Seq<char>) -> Seq<char>;

/// The prefix that a title gives: that of its headline in lower case.
pub open spec fn title_prefix_of(title: Seq<char>) -> Option<Seq<char>> {
    prefix_of_lowered(lowercase_of(title.take(cut_point(title))))
}

/// `str::to_lowercase` of the standard library: `text` in the lower case of
/// Unicode. All that is claimed is that the result depends on the text
/// alone.
#[verifier::external_body]
fn lowercased(text: &str) -> (lower: String)
    ensures
        lower@ == lowercase_of(text@),
{
    text.to_lowercase()
}

/// The prefix that a headline gives that is in lower case already.
pub fn prefix_from_lowered(lowered: &str) -> (r: Option<String>)
    ensures
        text_of(r) == prefix_of_lowered(lowered@),
{
    let name = match sanitize(lowered) {
        Some(name) => name,
        None => { return None; },
    };
    let chars = chars_of(name.as_str());
    let kept: usize = if chars.len() <= PREFIX_LIMIT {
        chars.len()
    } else {
        PREFIX_LIMIT
    };
    let ghost whole = name@.take(kept as int);
    proof {
        if chars.len() <= PREFIX_LIMIT {
            assert(whole == name@);
        }
    }
    let mut end: usize = kept;
    while end > 0 && chars[end - 1] == '_'
        invariant
            end <= kept <= chars.len(),
            chars@ == name@,
            whole == name@.take(kept as int),
            without_trailing(whole, '_') == without_trailing(name@.take(end as int), '_'),
        decreases end,
    {
        proof {
            let cur = name@.take(end as int);
            assert(cur.drop_last() == name@.take(end - 1));
        }
        end -= 1;
    }
    proof {
        let cur = name@.take(end as int);
        assert(without_trailing(cur, '_') == cur);
        assert(name@.subrange(0, end as int) == cur);
    }
    if end == 0 {
        None
    } else {
        Some(name.as_str().substring_char(0, end).to_owned())
    }
}

/// The prefix that the title of a video gives to the names of its files.
pub fn title_prefix(title: &str) -> (r: Option<String>)
    ensures
        text_of(r) == title_prefix_of(title@),
{
    let chars = chars_of(title);
    let dash = find_text(&chars, " - ");
    let round = find_char(&chars, '(');
    let square = find_char(&chars, '[');
    let cut = if dash <= round && dash <= square {
        dash
    } else if round <= square {
        round
    } else {
        square
    };
    let lower = lowercased(title.substring_char(0, cut));
    prefix_from_lowered(lower.as_str())
}

} // verus!
