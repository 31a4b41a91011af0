//! What holds of every progress line: the laws of [`parse_line`].

use crate::progress::{
    all_digits, decimal_number, digit_value, eta_from, is_digit, marker, parse_line,
    percent_permille, speed_from, speed_text, unsigned_number, word_at, word_eta, word_unknown,
    Reading,
};
use crate::text::{first_index, is_space, lemma_first_index_is, lemma_index_from};
use crate::tokens::{
    all_space, is_word, lemma_tokens_concat, lemma_tokens_of_word, lemma_tokens_then_word, tokens,
};
use vstd::prelude::*;

verus! {

/// A line that does not open with the marker, or that holds no `%`, reports
/// nothing.
pub proof fn lemma_plain_line_reports_nothing(line: Seq<char>)
    requires
        !marker().is_prefix_of(line) || !line.contains('%'),
    ensures
        parse_line(line) is None,
{
    lemma_index_from(line, '%', 0);
}

/// No reading lies beyond 100 percent, and a token that writes more than 100
/// percent is read as 100 percent.
pub proof fn lemma_percent_is_capped(token: Seq<char>)
    ensures
        match percent_permille(token) {
            Some(permille) => {
                let dot = first_index(token, '.');
                &&& permille <= 1000
                &&& unsigned_number(token.take(dot)) matches Some(whole)
                &&& whole >= 100 ==> permille == 1000
                &&& whole < 100 ==> permille == whole * 10 + crate::progress::tenths(token, dot)
            },
            None => unsigned_number(token.take(first_index(token, '.'))) is None,
        },
{
}

/// Every reading of a line lies between 0 and 1000.
pub proof fn lemma_reading_is_capped(line: Seq<char>)
    ensures
        parse_line(line) matches Some(reading) ==> reading.permille <= 1000,
{
}

/// Tokens that are not `at` give no speed and hide none.
pub proof fn lemma_speed_skips(toks: Seq<Seq<char>>, i: int, j: int)
    requires
        0 <= i <= j <= toks.len(),
        forall|k: int| i <= k < j ==> toks[k] != word_at(),
    ensures
        speed_from(toks, i) == speed_from(toks, j),
    decreases j - i,
{
    if i < j {
        lemma_speed_skips(toks, i + 1, j);
    }
}

/// Tokens that are not `ETA` give no time left and hide none.
pub proof fn lemma_eta_skips(toks: Seq<Seq<char>>, i: int, j: int)
    requires
        0 <= i <= j <= toks.len(),
        forall|k: int| i <= k < j ==> toks[k] != word_eta(),
    ensures
        eta_from(toks, i) == eta_from(toks, j),
    decreases j - i,
{
    if i < j {
        lemma_eta_skips(toks, i + 1, j);
    }
}

/// A line whose speed reads `Unknown` gives no speed: `at` stands at token
/// `k`, `Unknown` behind it, and no other `at` before them or behind the unit.
pub proof fn lemma_unknown_speed(line: Seq<char>, k: int)
    requires
        0 <= k,
        k + 1 < tokens(line).len(),
        tokens(line)[k] == word_at(),
        tokens(line)[k + 1] == word_unknown(),
        forall|j: int|
            0 <= j < tokens(line).len() && (j < k || j > k + 2) ==> tokens(line)[j] != word_at(),
    ensures
        speed_from(tokens(line), 0) is None,
        parse_line(line) matches Some(reading) ==> reading.speed is None,
{
    let toks = tokens(line);
    lemma_speed_skips(toks, 0, k);
    if k + 3 <= toks.len() {
        lemma_speed_skips(toks, k + 3, toks.len() as int);
    }
}

/// A line whose time left reads `Unknown` gives no time left: `ETA` stands at
/// token `k`, `Unknown` behind it, and no other `ETA` anywhere.
pub proof fn lemma_unknown_eta(line: Seq<char>, k: int)
    requires
        0 <= k,
        k + 1 < tokens(line).len(),
        tokens(line)[k] == word_eta(),
        tokens(line)[k + 1] == word_unknown(),
        forall|j: int| 0 <= j < tokens(line).len() && j != k ==> tokens(line)[j] != word_eta(),
    ensures
        eta_from(tokens(line), 0) is None,
        parse_line(line) matches Some(reading) ==> reading.eta is None,
{
    let toks = tokens(line);
    lemma_eta_skips(toks, 0, k);
    lemma_eta_skips(toks, k + 2, toks.len() as int);
}

/// A speed whose unit is a word other than `ETA` is shown as value, blank
/// and unit.
pub proof fn lemma_speed_text_plain(value: Seq<char>, unit: Seq<char>)
    requires
        is_word(unit),
        unit != word_eta(),
    ensures
        speed_text(value, unit) == value + seq![' '] + unit,
{
    reveal_strlit(" ETA");
    reveal_strlit("ETA");
    let joined = value + seq![' '] + unit;
    let suffix = " ETA"@;
    if suffix.is_suffix_of(joined) {
        let tail = joined.subrange(joined.len() - 4, joined.len() as int);
        assert(tail == suffix);
        if unit.len() >= 4 {
            assert(tail[0] == unit[unit.len() - 4]);
            assert(is_space(unit[unit.len() - 4]));
        } else if unit.len() == 3 {
            assert(tail[1] == unit[0]);
            assert(tail[2] == unit[1]);
            assert(tail[3] == unit[2]);
            assert(unit =~= word_eta());
        } else if unit.len() == 2 {
            assert(tail[1] == ' ');
        } else {
            assert(tail[2] == ' ');
        }
    }
}

/// The line that reports `whole`.`tenth` percent, then `middle`, then speed,
/// unit and time left behind the words `at` and `ETA`.
pub open spec fn progress_line(
    gap: Seq<char>,
    whole: Seq<char>,
    tenth: char,
    middle: Seq<char>,
    speed: Seq<char>,
    unit: Seq<char>,
    eta: Seq<char>,
) -> Seq<char> {
    marker() + gap + whole + seq!['.', tenth] + seq!['%'] + middle + seq![' '] + word_at() + seq![
        ' ',
    ] + speed + seq![' '] + unit + seq![' '] + word_eta() + seq![' '] + eta
}

/// The line up to its `%`: marker, white space, the digits, `.` and the
/// tenth.
pub open spec fn progress_opening(gap: Seq<char>, whole: Seq<char>, tenth: char) -> Seq<char> {
    marker() + gap + whole + seq!['.', tenth]
}

/// The token in front of `%` writes the percentage to the tenth.
proof fn lemma_number_is_read(whole: Seq<char>, tenth: char)
    requires
        whole.len() > 0,
        all_digits(whole),
        is_digit(tenth),
    ensures
        percent_permille(whole + seq!['.', tenth]) == Some(
            if decimal_number(whole) * 10 + digit_value(tenth) <= 1000 {
                decimal_number(whole) * 10 + digit_value(tenth)
            } else {
                1000
            },
        ),
{
    let number = whole + seq!['.', tenth];
    assert forall|j: int| 0 <= j < whole.len() implies number[j] != '.' by {
        assert(number[j] == whole[j]);
    }
    lemma_first_index_is(number, '.', whole.len() as int);
    assert(number.take(whole.len() as int) == whole);
    assert(whole[0] != '+');
    assert(number[whole.len() as int + 1] == tenth);
}

/// Where the first `%` of a progress line stands, and which token ends there.
proof fn lemma_opening_is_found(line: Seq<char>, gap: Seq<char>, whole: Seq<char>, tenth: char)
    requires
        gap.len() > 0,
        all_space(gap),
        whole.len() > 0,
        all_digits(whole),
        is_digit(tenth),
        progress_opening(gap, whole, tenth).len() < line.len(),
        line.take(progress_opening(gap, whole, tenth).len() as int) == progress_opening(
            gap,
            whole,
            tenth,
        ),
        line[progress_opening(gap, whole, tenth).len() as int] == '%',
    ensures
        marker().is_prefix_of(line),
        first_index(line, '%') == progress_opening(gap, whole, tenth).len(),
        tokens(progress_opening(gap, whole, tenth)) == seq![marker(), whole + seq!['.', tenth]],
{
    reveal_strlit("[download]");
    let number = whole + seq!['.', tenth];
    let opening = progress_opening(gap, whole, tenth);
    let percent = opening.len() as int;
    assert(opening == marker() + gap + number);
    assert forall|j: int| 0 <= j < percent implies line[j] != '%' by {
        assert(line[j] == opening[j]);
        if j < marker().len() {
        } else if j < marker().len() + gap.len() {
            assert(opening[j] == gap[j - marker().len()]);
        } else if j < marker().len() + gap.len() + whole.len() {
            assert(opening[j] == whole[j - marker().len() - gap.len()]);
        }
    }
    lemma_first_index_is(line, '%', percent);
    assert(marker().is_prefix_of(line)) by {
        assert(line.subrange(0, marker().len() as int) == opening.subrange(
            0,
            marker().len() as int,
        ));
        assert(opening.subrange(0, marker().len() as int) == marker());
    }
    assert(is_word(marker()));
    assert(is_word(number)) by {
        assert forall|j: int| 0 <= j < number.len() implies !is_space(#[trigger] number[j]) by {
            if j < whole.len() {
                assert(number[j] == whole[j]);
            }
        }
    }
    lemma_tokens_of_word(marker());
    lemma_tokens_then_word(marker(), gap, number);
}

/// What a field gives that reads `value` and is shown as `shown`: nothing
/// where the value is `Unknown`.
pub open spec fn known(value: Seq<char>, shown: Seq<char>) -> Option<Seq<char>> {
    if value == word_unknown() {
        None
    } else {
        Some(shown)
    }
}

/// Tokens that end in `at`, speed, unit, `ETA` and time left, with neither
/// `at` nor `ETA` before, give that speed and that time left, as far as they
/// are known.
pub proof fn lemma_closing_tokens_are_read(
    front: Seq<Seq<char>>,
    speed: Seq<char>,
    unit: Seq<char>,
    eta: Seq<char>,
)
    requires
        forall|k: int|
            0 <= k < front.len() ==> front[k] != word_at() && front[k] != word_eta(),
        is_word(unit),
        unit != word_eta(),
        speed != word_eta() || eta != word_unknown(),
    ensures
        speed_from(front + seq![word_at(), speed, unit, word_eta(), eta], 0) == known(
            speed,
            speed + seq![' '] + unit,
        ),
        eta_from(front + seq![word_at(), speed, unit, word_eta(), eta], 0) == known(eta, eta),
{
    reveal_strlit("at");
    reveal_strlit("ETA");
    let toks = front + seq![word_at(), speed, unit, word_eta(), eta];
    let n = front.len() as int;
    assert forall|k: int| 0 <= k < n implies toks[k] != word_at() && toks[k] != word_eta() by {
        assert(toks[k] == front[k]);
    }
    assert(toks[n] == word_at());
    assert(toks[n + 1] == speed);
    assert(toks[n + 2] == unit);
    assert(toks[n + 3] == word_eta());
    assert(toks[n + 4] == eta);
    assert(word_at().len() == 2 && word_eta().len() == 3);

    lemma_speed_skips(toks, 0, n);
    lemma_speed_text_plain(speed, unit);
    assert(speed_from(toks, n + 3) is None) by {
        assert(speed_from(toks, n + 5) is None);
        if eta != word_at() {
            assert(speed_from(toks, n + 4) == speed_from(toks, n + 5));
        }
    }

    lemma_eta_skips(toks, 0, n + 1);
    assert(eta_from(toks, n + 5) is None);
    assert(eta_from(toks, n + 3) == known(eta, eta));
    if speed != word_eta() {
        assert(eta_from(toks, n + 1) == eta_from(toks, n + 2));
        assert(eta_from(toks, n + 2) == eta_from(toks, n + 3));
    }
}

/// The tokens of a progress line: marker, percentage, those of the middle,
/// then `at`, speed, unit, `ETA` and time left.
proof fn lemma_progress_line_tokens(
    gap: Seq<char>,
    whole: Seq<char>,
    tenth: char,
    middle: Seq<char>,
    speed: Seq<char>,
    unit: Seq<char>,
    eta: Seq<char>,
)
    requires
        gap.len() > 0,
        all_space(gap),
        whole.len() > 0,
        all_digits(whole),
        is_digit(tenth),
        middle.len() == 0 || is_space(middle[0]),
        is_word(speed),
        is_word(unit),
        is_word(eta),
    ensures
        tokens(progress_line(gap, whole, tenth, middle, speed, unit, eta)) == seq![
            marker(),
            whole + seq!['.', tenth] + seq!['%'],
        ] + tokens(middle) + seq![word_at(), speed, unit, word_eta(), eta],
{
    reveal_strlit("[download]");
    reveal_strlit("at");
    reveal_strlit("ETA");
    let blank = seq![' '];
    let sign = whole + seq!['.', tenth] + seq!['%'];
    let start = marker() + gap + sign;
    assert(is_word(marker()));
    assert(is_word(sign)) by {
        assert forall|j: int| 0 <= j < sign.len() implies !is_space(#[trigger] sign[j]) by {
            if j < whole.len() {
                assert(sign[j] == whole[j]);
            }
        }
    }
    lemma_tokens_of_word(marker());
    lemma_tokens_then_word(marker(), gap, sign);
    let a0 = start + middle;
    lemma_tokens_concat(start, middle);
    let a1 = a0 + blank + word_at();
    lemma_tokens_then_word(a0, blank, word_at());
    let a2 = a1 + blank + speed;
    lemma_tokens_then_word(a1, blank, speed);
    let a3 = a2 + blank + unit;
    lemma_tokens_then_word(a2, blank, unit);
    let a4 = a3 + blank + word_eta();
    lemma_tokens_then_word(a3, blank, word_eta());
    let a5 = a4 + blank + eta;
    lemma_tokens_then_word(a4, blank, eta);
    assert(start == marker() + gap + whole + seq!['.', tenth] + seq!['%']);
    let front = seq![marker(), sign] + tokens(middle);
    assert(tokens(a5) == front.push(word_at()).push(speed).push(unit).push(word_eta()).push(eta));
    assert(front.push(word_at()).push(speed).push(unit).push(word_eta()).push(eta) == front
        + seq![word_at(), speed, unit, word_eta(), eta]);
}

/// A well-formed progress line is read exactly: the percentage to the tenth,
/// capped at 100 percent, the speed with its unit, and the time left; a
/// speed or a time left that reads `Unknown` is left out.
///
/// The line opens with the marker and white space, writes the percentage
/// with one decimal, and ends in ` at SPEED UNIT ETA TIME`. What stands
/// between holds neither `at` nor `ETA` as a word, the unit is not the word
/// `ETA`, and the speed is not where the time left is unknown.
pub proof fn lemma_progress_line_is_read(
    gap: Seq<char>,
    whole: Seq<char>,
    tenth: char,
    middle: Seq<char>,
    speed: Seq<char>,
    unit: Seq<char>,
    eta: Seq<char>,
)
    requires
        gap.len() > 0,
        all_space(gap),
        whole.len() > 0,
        all_digits(whole),
        is_digit(tenth),
        middle.len() == 0 || is_space(middle[0]),
        forall|k: int|
            0 <= k < tokens(middle).len() ==> tokens(middle)[k] != word_at() && tokens(middle)[k]
                != word_eta(),
        is_word(speed),
        is_word(unit),
        is_word(eta),
        unit != word_eta(),
        speed != word_eta() || eta != word_unknown(),
    ensures
        parse_line(progress_line(gap, whole, tenth, middle, speed, unit, eta)) == Some(
            Reading {
                permille: if decimal_number(whole) * 10 + digit_value(tenth) <= 1000 {
                    decimal_number(whole) * 10 + digit_value(tenth)
                } else {
                    1000
                },
                speed: known(speed, speed + seq![' '] + unit),
                eta: known(eta, eta),
            },
        ),
{
    let line = progress_line(gap, whole, tenth, middle, speed, unit, eta);
    let opening = progress_opening(gap, whole, tenth);
    let sign = whole + seq!['.', tenth] + seq!['%'];
    let front = seq![marker(), sign] + tokens(middle);

    assert(line.take(opening.len() as int) == opening);
    assert(line[opening.len() as int] == '%');
    lemma_opening_is_found(line, gap, whole, tenth);
    lemma_number_is_read(whole, tenth);
    assert(tokens(opening).last() == whole + seq!['.', tenth]);

    lemma_progress_line_tokens(gap, whole, tenth, middle, speed, unit, eta);
    assert(sign != word_at() && sign != word_eta()) by {
        reveal_strlit("at");
        reveal_strlit("ETA");
        assert(sign[0] == whole[0]);
    }
    assert(marker() != word_at() && marker() != word_eta()) by {
        reveal_strlit("[download]");
        reveal_strlit("at");
        reveal_strlit("ETA");
    }
    assert forall|k: int| 0 <= k < front.len() implies front[k] != word_at() && front[k]
        != word_eta() by {
        if k >= 2 {
            assert(front[k] == tokens(middle)[k - 2]);
        }
    }
    lemma_closing_tokens_are_read(front, speed, unit, eta);
}

} // verus!
