//! The addresses of a batch: one per line of a text file.

use crate::text::{
    chars_of, index_from, lemma_index_from, span_is, span_string, texts, trim_within, trimmed, Span,
};
use vstd::prelude::*;

verus! {

/// Whether a trimmed line is an entry: not empty, and no comment behind `#`.
pub open spec fn is_entry(line: Seq<char>) -> bool {
    line.len() > 0 && line[0] != '#'
}

/// What the piece of text between two line ends adds to the entries: itself
/// without the white space around it, where that is an entry.
pub open spec fn entry_of(piece: Seq<char>) -> Seq<Seq<char>> {
    if is_entry(trimmed(piece)) {
        seq![trimmed(piece)]
    } else {
        Seq::empty()
    }
}

/// The entries of the lines of `content` from index `i` on, in their order.
pub open spec fn entries_from(content: Seq<char>, i: int) -> Seq<Seq<char>>
    decreases content.len() - i,
    when 0 <= i <= content.len()
    via entries_from_decreases
{
    let end = index_from(content, '\n', i);
    if end >= content.len() {
        entry_of(content.subrange(i, content.len() as int))
    } else {
        entry_of(content.subrange(i, end)) + entries_from(content, end + 1)
    }
}

#[via_fn]
proof fn entries_from_decreases(content: Seq<char>, i: int) {
    lemma_index_from(content, '\n', i);
}

/// The entries of `content`: its lines without the white space around them,
/// but for the empty ones and those that open with `#`.
pub open spec fn entries(content: Seq<char>) -> Seq<Seq<char>> {
    entries_from(content, 0)
}

/// Why a batch cannot be worked.
#[derive(Clone, Copy, Debug, PartialEq, Eq)]
pub enum BatchError {
    /// The file holds no entry.
    NoUrls,
}

/// The entries of a batch file, in their order.
pub fn batch_entries(content: &str) -> (lines: Vec<String>)
    ensures
        texts(lines@) == entries(content@),
{
    let chars = chars_of(content);
    let n = chars.len();
    let mut lines: Vec<String> = Vec::new();
    let mut start: usize = 0;
    let mut done = false;
    assert(texts(lines@) =~= Seq::<Seq<char>>::empty());
    while !done
        invariant
            start <= n,
            n == chars.len(),
            chars@ == content@,
            !done ==> entries(content@) == texts(lines@) + entries_from(content@, start as int),
            done ==> entries(content@) == texts(lines@),
        decreases n - start + (if done { 0int } else { 1int }),
    {
        let mut end: usize = start;
        while end < n && chars[end] != '\n'
            invariant
                start <= end <= n,
                n == chars.len(),
                index_from(chars@, '\n', end as int) == index_from(chars@, '\n', start as int),
            decreases n - end,
        {
            end += 1;
        }
        let span = trim_within(&chars, start, end);
        let ghost before = texts(lines@);
        let ghost piece = content@.subrange(start as int, end as int);
        if span.end > span.start && chars[span.start] != '#' {
            proof {
                assert(trimmed(piece)[0] == chars@[span.start as int]);
            }
            lines.push(span_string(content, span));
            assert(texts(lines@) =~= before + entry_of(piece));
        } else {
            proof {
                if span.end > span.start {
                    assert(trimmed(piece)[0] == chars@[span.start as int]);
                }
                assert(before + entry_of(piece) =~= before);
            }
        }
        if end >= n {
            done = true;
        } else {
            proof {
                assert(before + (entry_of(piece) + entries_from(content@, end + 1)) =~= (before
                    + entry_of(piece)) + entries_from(content@, end + 1));
            }
            start = end + 1;
        }
    }
    lines
}

/// The entries of a batch file, or the reason why it cannot be worked: it
/// holds none.
pub fn batch_urls(content: &str) -> (r: Result<Vec<String>, BatchError>)
    ensures
        match r {
            Ok(lines) => texts(lines@) == entries(content@) && lines@.len() > 0,
            Err(e) => e == BatchError::NoUrls && entries(content@).len() == 0,
        },
{
    let lines = batch_entries(content);
    if lines.len() == 0 {
        Err(BatchError::NoUrls)
    } else {
        Ok(lines)
    }
}

/// Whether `url` is an address that can be downloaded: one that opens with
/// `https://`.
pub open spec fn valid_url(url: Seq<char>) -> bool {
    "https://"@.is_prefix_of(url)
}

/// Tells whether `url` opens with `https://`.
pub fn is_valid_url(url: &str) -> (valid: bool)
    ensures
        valid == valid_url(url@),
{
    let chars = chars_of(url);
    let n = "https://".unicode_len();
    n <= chars.len() && span_is(&chars, Span { start: 0, end: n }, "https://")
}

/// Those of `lines` that are valid addresses, or those that are not, in
/// their order.
pub open spec fn urls_that_are(lines: Seq<Seq<char>>, valid: bool) -> Seq<Seq<char>>
    decreases lines.len(),
{
    if lines.len() == 0 {
        Seq::empty()
    } else if valid_url(lines.last()) == valid {
        urls_that_are(lines.drop_last(), valid).push(lines.last())
    } else {
        urls_that_are(lines.drop_last(), valid)
    }
}

/// The entries of a batch, sorted into those to download and those to skip.
#[derive(Debug)]
pub struct UrlList {
    /// The valid addresses, in their order.
    pub valid: Vec<String>,
    /// The entries that are no valid address, in their order.
    pub skipped: Vec<String>,
}

/// Sorts the entries of a batch into valid addresses and the rest.
pub fn sort_urls(lines: Vec<String>) -> (list: UrlList)
    ensures
        texts(list.valid@) == urls_that_are(texts(lines@), true),
        texts(list.skipped@) == urls_that_are(texts(lines@), false),
{
    let mut valid: Vec<String> = Vec::new();
    let mut skipped: Vec<String> = Vec::new();
    let ghost all = texts(lines@);
    let mut i: usize = 0;
    assert(texts(valid@) =~= urls_that_are(all.take(0), true));
    assert(texts(skipped@) =~= urls_that_are(all.take(0), false));
    while i < lines.len()
        invariant
            i <= lines.len(),
            all == texts(lines@),
            texts(valid@) == urls_that_are(all.take(i as int), true),
            texts(skipped@) == urls_that_are(all.take(i as int), false),
        decreases lines.len() - i,
    {
        proof {
            let longer = all.take(i + 1);
            assert(longer.drop_last() == all.take(i as int));
            assert(longer.last() == lines@[i as int]@);
        }
        let line = lines[i].clone();
        if is_valid_url(line.as_str()) {
            let ghost before = texts(valid@);
            valid.push(line);
            assert(texts(valid@) =~= before.push(lines@[i as int]@));
        } else {
            let ghost before = texts(skipped@);
            skipped.push(line);
            assert(texts(skipped@) =~= before.push(lines@[i as int]@));
        }
        i += 1;
    }
    proof {
        assert(all.take(lines.len() as int) == all);
    }
    UrlList { valid, skipped }
}

} // verus!
