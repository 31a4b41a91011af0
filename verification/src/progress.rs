//! Reading a download's progress out of one line of the downloader's output.

use crate::reading_laws::lemma_plain_line_reports_nothing;
use crate::text::{
    chars_of, find_char, first_index, span_chars, span_is, span_string, span_texts, text_of, Span,
};
use crate::tokens::{spans_within, token_spans, tokens};
use vstd::prelude::*;

verus! {

/// One progress update, as a line of output gave it.
#[derive(Debug)]
pub struct ProgressReading {
    /// Tenths of a percent, from 0 to 1000.
    pub permille: u64,
    /// Speed and unit, where the line gives them.
    pub speed: Option<String>,
    /// Time left, where the line gives it.
    pub eta: Option<String>,
}

/// What a [`ProgressReading`] says.
pub struct Reading {
    pub permille: nat,
    pub speed: Option<Seq<char>>,
    pub eta: Option<Seq<char>>,
}

impl View for ProgressReading {
    type V = Reading;

    open spec fn view(&self) -> Reading {
        Reading {
            permille: self.permille as nat,
            speed: text_of(self.speed),
            eta: text_of(self.eta),
        }
    }
}

impl ProgressReading {
    /// A reading never lies beyond 100 percent.
    pub open spec fn well_formed(&self) -> bool {
        self.permille <= 1000
    }
}

/// What an optional reading says.
pub open spec fn reading_of(r: Option<ProgressReading>) -> Option<Reading> {
    match r {
        Some(p) => Some(p@),
        None => None,
    }
}

/// The marker that opens every progress line.
pub open spec fn marker() -> Seq<char> {
    "[download]"@
}

/// The word that stands before the speed.
pub open spec fn word_at() -> Seq<char> {
    "at"@
}

/// The word that stands before the time left.
pub open spec fn word_eta() -> Seq<char> {
    "ETA"@
}

/// The placeholder for a value that the downloader does not know.
pub open spec fn word_unknown() -> Seq<char> {
    "Unknown"@
}

/// Whether `c` is one of the decimal digits `0` to `9`.
pub open spec fn is_digit(c: char) -> bool {
    0x30 <= c as int <= 0x39
}

/// The value of the decimal digit `c`.
pub open spec fn digit_value(c: char) -> nat {
    (c as int - 0x30) as nat
}

/// Whether `s` holds decimal digits only.
pub open spec fn all_digits(s: Seq<char>) -> bool {
    forall|i: int| 0 <= i < s.len() ==> is_digit(#[trigger] s[i])
}

/// The number that the decimal digits `s` write.
pub open spec fn decimal_number(s: Seq<char>) -> nat
    decreases s.len(),
{
    if s.len() == 0 {
        0
    } else {
        decimal_number(s.drop_last()) * 10 + digit_value(s.last())
    }
}

/// The number that `s` writes: one or more decimal digits, with or without a
/// `+` in front. Anything else writes no number.
pub open spec fn unsigned_number(s: Seq<char>) -> Option<nat> {
    let digits = if s.len() > 0 && s[0] == '+' {
        s.drop_first()
    } else {
        s
    };
    if digits.len() > 0 && all_digits(digits) {
        Some(decimal_number(digits))
    } else {
        None
    }
}

/// The digit of the tenths in `token`, whose first `.` stands at `dot`: the
/// digit right behind the `.`, or 0 where none stands there.
pub open spec fn tenths(token: Seq<char>, dot: int) -> nat {
    if dot + 1 < token.len() && is_digit(token[dot + 1]) {
        digit_value(token[dot + 1])
    } else {
        0
    }
}

/// The tenths of a percent that the token in front of `%` writes, at most
/// 1000; nothing where no number stands before the token's first `.`.
pub open spec fn percent_permille(token: Seq<char>) -> Option<nat> {
    let dot = first_index(token, '.');
    match unsigned_number(token.take(dot)) {
        Some(whole) => {
            let exact = whole * 10 + tenths(token, dot);
            Some(
                if exact <= 1000 {
                    exact
                } else {
                    1000
                },
            )
        },
        None => None,
    }
}

/// `s` without `suffix` at its end, or `s` itself where it does not end so.
pub open spec fn without_suffix(s: Seq<char>, suffix: Seq<char>) -> Seq<char> {
    if suffix.is_suffix_of(s) {
        s.take(s.len() - suffix.len())
    } else {
        s
    }
}

/// The speed as it is shown: value, a blank and the unit, without a
/// closing ` ETA`.
pub open spec fn speed_text(value: Seq<char>, unit: Seq<char>) -> Seq<char> {
    without_suffix(value + seq![' '] + unit, " ETA"@)
}

/// `later` where it holds something, else `earlier`.
pub open spec fn later_or<T>(later: Option<T>, earlier: Option<T>) -> Option<T> {
    if later is Some {
        later
    } else {
        earlier
    }
}

/// The speed that the tokens from index `i` on give. Each `at` takes the two
/// tokens behind it as value and unit; the last `at` with a known value
/// decides.
pub open spec fn speed_from(toks: Seq<Seq<char>>, i: int) -> Option<Seq<char>>
    decreases toks.len() + 2 - i,
{
    if i >= toks.len() {
        None
    } else if toks[i] != word_at() {
        speed_from(toks, i + 1)
    } else if i + 1 >= toks.len() {
        None
    } else {
        let here = if toks[i + 1] == word_unknown() {
            None
        } else {
            Some(
                speed_text(
                    toks[i + 1],
                    if i + 2 < toks.len() {
                        toks[i + 2]
                    } else {
                        Seq::empty()
                    },
                ),
            )
        };
        later_or(speed_from(toks, i + 3), here)
    }
}

/// The time left that the tokens from index `i` on give. Each `ETA` takes the
/// token behind it as its value; the last `ETA` with a known value decides.
pub open spec fn eta_from(toks: Seq<Seq<char>>, i: int) -> Option<Seq<char>>
    decreases toks.len() + 1 - i,
{
    if i >= toks.len() {
        None
    } else if toks[i] != word_eta() {
        eta_from(toks, i + 1)
    } else if i + 1 >= toks.len() {
        None
    } else {
        let here = if toks[i + 1] == word_unknown() {
            None
        } else {
            Some(toks[i + 1])
        };
        later_or(eta_from(toks, i + 2), here)
    }
}

/// What `line` reports: nothing unless it opens with the marker, holds a `%`
/// and writes a number in the token that ends right before its first `%`.
pub open spec fn parse_line(line: Seq<char>) -> Option<Reading> {
    let percent = first_index(line, '%');
    let head = tokens(line.take(percent));
    if !marker().is_prefix_of(line) || percent >= line.len() || head.len() == 0 {
        None
    } else {
        match percent_permille(head.last()) {
            Some(permille) => Some(
                Reading {
                    permille,
                    speed: speed_from(tokens(line), 0),
                    eta: eta_from(tokens(line), 0),
                },
            ),
            None => None,
        }
    }
}

/// Whether `chars` opens with `word`.
fn opens_with(chars: &Vec<char>, word: &str) -> (b: bool)
    ensures
        b == word@.is_prefix_of(chars@),
{
    let n = word.unicode_len();
    n <= chars.len() && span_is(chars, Span { start: 0, end: n }, word)
}

/// Reads the tenths of a percent out of the token in front of `%`.
fn percent_of(token: &Vec<char>) -> (r: Option<u64>)
    ensures
        match r {
            Some(v) => percent_permille(token@) == Some(v as nat),
            None => percent_permille(token@) is None,
        },
{
    let dot = find_char(token, '.');
    let first: usize = if dot > 0 && token[0] == '+' {
        1
    } else {
        0
    };
    let ghost whole = token@.take(dot as int);
    let ghost digits = token@.subrange(first as int, dot as int);
    proof {
        if first == 1 {
            assert(whole.drop_first() == digits);
        } else {
            assert(whole == digits);
        }
    }
    let ghost number = unsigned_number(whole);
    assert(number == if digits.len() > 0 && all_digits(digits) {
        Some(decimal_number(digits))
    } else {
        None
    });
    if first == dot {
        return None;
    }
    let mut capped: u64 = 0;
    let mut i: usize = first;
    while i < dot
        invariant
            first <= i <= dot <= token.len(),
            dot == first_index(token@, '.'),
            digits == token@.subrange(first as int, dot as int),
            number == unsigned_number(token@.take(dot as int)),
            number == if digits.len() > 0 && all_digits(digits) {
                Some(decimal_number(digits))
            } else {
                None
            },
            all_digits(digits.take(i - first)),
            capped <= 1000,
            capped == if decimal_number(digits.take(i - first)) <= 1000 {
                decimal_number(digits.take(i - first))
            } else {
                1000
            },
        decreases dot - i,
    {
        let c = token[i];
        if !('0' <= c && c <= '9') {
            proof {
                assert(digits[i - first] == c);
                assert(!all_digits(digits));
            }
            return None;
        }
        proof {
            let longer = digits.take(i - first + 1);
            assert(longer.drop_last() == digits.take(i - first));
            assert(longer.last() == c);
            assert forall|k: int| 0 <= k < longer.len() implies is_digit(#[trigger] longer[k]) by {
                if k < i - first {
                    assert(digits.take(i - first)[k] == longer[k]);
                }
            }
        }
        let digit: u64 = (c as u32 - '0' as u32) as u64;
        capped = if capped >= 1000 {
            1000
        } else if capped * 10 + digit > 1000 {
            1000
        } else {
            capped * 10 + digit
        };
        i += 1;
    }
    proof {
        assert(digits.take(dot - first) == digits);
    }
    let tenth: u64 = if token.len() - dot > 1 && '0' <= token[dot + 1] && token[dot + 1] <= '9' {
        (token[dot + 1] as u32 - '0' as u32) as u64
    } else {
        0
    };
    let exact: u64 = capped * 10 + tenth;
    Some(
        if exact <= 1000 {
            exact
        } else {
            1000
        },
    )
}

/// Joins value and unit as the speed is shown.
fn shown_speed(value: &str, unit: &str) -> (s: String)
    ensures
        s@ == speed_text(value@, unit@),
{
    proof {
        reveal_strlit(" ");
        reveal_strlit(" ETA");
    }
    let joined = value.to_owned().concat(" ").concat(unit);
    assert(joined@ == value@ + seq![' '] + unit@);
    let letters = chars_of(joined.as_str());
    let n = letters.len();
    if n >= 4 && span_is(&letters, Span { start: n - 4, end: n }, " ETA") {
        joined.as_str().substring_char(0, n - 4).to_owned()
    } else {
        joined
    }
}

/// Looks for the speed among the tokens of `line`.
fn scan_speed(line: &str, chars: &Vec<char>, spans: &Vec<Span>) -> (speed: Option<String>)
    requires
        chars@ == line@,
        spans_within(spans@, chars.len() as int),
    ensures
        text_of(speed) == speed_from(span_texts(chars@, spans@), 0),
{
    let ghost toks = span_texts(chars@, spans@);
    let n = spans.len();
    let mut speed: Option<String> = None;
    let mut i: usize = 0;
    while i < n
        invariant
            n == spans.len(),
            chars@ == line@,
            spans_within(spans@, chars.len() as int),
            toks == span_texts(chars@, spans@),
            speed_from(toks, 0) == later_or(speed_from(toks, i as int), text_of(speed)),
        decreases n + 2 - i,
    {
        if !span_is(chars, spans[i], "at") {
            i += 1;
        } else if i + 1 >= n {
            i = n;
        } else {
            if !span_is(chars, spans[i + 1], "Unknown") {
                let value = span_string(line, spans[i + 1]);
                let unit = if i + 2 < n {
                    span_string(line, spans[i + 2])
                } else {
                    String::new()
                };
                speed = Some(shown_speed(value.as_str(), unit.as_str()));
            }
            proof {
                if i + 3 > n {
                    assert(speed_from(toks, i + 3) is None);
                    assert(speed_from(toks, n as int) is None);
                }
            }
            i = if n - i >= 3 {
                i + 3
            } else {
                n
            };
        }
    }
    speed
}

/// Looks for the time left among the tokens of `line`.
fn scan_eta(line: &str, chars: &Vec<char>, spans: &Vec<Span>) -> (eta: Option<String>)
    requires
        chars@ == line@,
        spans_within(spans@, chars.len() as int),
    ensures
        text_of(eta) == eta_from(span_texts(chars@, spans@), 0),
{
    let ghost toks = span_texts(chars@, spans@);
    let n = spans.len();
    let mut eta: Option<String> = None;
    let mut i: usize = 0;
    while i < n
        invariant
            n == spans.len(),
            chars@ == line@,
            spans_within(spans@, chars.len() as int),
            toks == span_texts(chars@, spans@),
            eta_from(toks, 0) == later_or(eta_from(toks, i as int), text_of(eta)),
        decreases n + 1 - i,
    {
        if !span_is(chars, spans[i], "ETA") {
            i += 1;
        } else if i + 1 >= n {
            i = n;
        } else {
            if !span_is(chars, spans[i + 1], "Unknown") {
                eta = Some(span_string(line, spans[i + 1]));
            }
            i = i + 2;
        }
    }
    eta
}

/// Reads `line` as a progress line of the downloader.
///
/// A line reports progress when it opens with `[download]`, holds a `%`, and
/// the token that ends right before its first `%` writes a number. Speed and
/// time left are read from behind the words `at` and `ETA`.
pub fn parse_ytdlp_progress(line: &str) -> (r: Option<ProgressReading>)
    ensures
        reading_of(r) == parse_line(line@),
        r matches Some(p) ==> p.well_formed(),
        !marker().is_prefix_of(line@) || !line@.contains('%') ==> r is None,
{
    proof {
        if !marker().is_prefix_of(line@) || !line@.contains('%') {
            lemma_plain_line_reports_nothing(line@);
        }
    }
    let chars = chars_of(line);
    if !opens_with(&chars, "[download]") {
        return None;
    }
    let percent = find_char(&chars, '%');
    if percent >= chars.len() {
        return None;
    }
    let head = token_spans(&chars, percent);
    if head.len() == 0 {
        return None;
    }
    let token = span_chars(&chars, head[head.len() - 1]);
    proof {
        let texts = span_texts(chars@, head@);
        assert(texts.last() == token@);
    }
    let permille = match percent_of(&token) {
        Some(v) => v,
        None => { return None; },
    };
    let spans = token_spans(&chars, chars.len());
    proof {
        assert(chars@.take(chars.len() as int) == chars@);
    }
    let speed = scan_speed(line, &chars, &spans);
    let eta = scan_eta(line, &chars, &spans);
    Some(ProgressReading { permille, speed, eta })
}

} // verus!
