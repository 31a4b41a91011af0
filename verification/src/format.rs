//! Writing numbers and lists as text.

use crate::text::texts;
use vstd::prelude::*;

verus! {

/// `words` written one behind the other, with `sep` between each two.
pub open spec fn joined(words: Seq<Seq<char>>, sep: Seq<char>) -> Seq<char>
    decreases words.len(),
{
    if words.len() == 0 {
        Seq::empty()
    } else if words.len() == 1 {
        words[0]
    } else {
        joined(words.drop_last(), sep) + sep + words.last()
    }
}

/// `parts` written one behind the other, with `sep` between each two.
pub fn join_with(parts: &Vec<String>, sep: &str) -> (s: String)
    ensures
        s@ == joined(texts(parts@), sep@),
{
    let mut s = String::new();
    let mut i: usize = 0;
    while i < parts.len()
        invariant
            i <= parts.len(),
            s@ == joined(texts(parts@).take(i as int), sep@),
        decreases parts.len() - i,
    {
        proof {
            let longer = texts(parts@).take(i + 1);
            assert(longer.drop_last() == texts(parts@).take(i as int));
            assert(longer.last() == parts@[i as int]@);
            if i == 0 {
                assert(Seq::<char>::empty() + parts@[0]@ == parts@[0]@);
            }
        }
        if i > 0 {
            s.append(sep);
        }
        s.append(parts[i].as_str());
        i += 1;
    }
    proof {
        assert(texts(parts@).take(parts.len() as int) == texts(parts@));
    }
    s
}

/// The decimal digit that writes `d`.
pub open spec fn digit_char(d: nat) -> char {
    (0x30 + d) as char
}

/// `n` written in decimal digits.
pub open spec fn decimal_text(n: nat) -> Seq<char>
    decreases n,
{
    if n < 10 {
        seq![digit_char(n)]
    } else {
        decimal_text(n / 10).push(digit_char(n % 10))
    }
}

/// The text of the decimal digit `d`.
fn digit_str(d: u128) -> (s: &'static str)
    requires
        d < 10,
    ensures
        s@ == seq![digit_char(d as nat)],
{
    proof {
        reveal_strlit("0");
        reveal_strlit("1");
        reveal_strlit("2");
        reveal_strlit("3");
        reveal_strlit("4");
        reveal_strlit("5");
        reveal_strlit("6");
        reveal_strlit("7");
        reveal_strlit("8");
        reveal_strlit("9");
    }
    let s = if d == 0 {
        "0"
    } else if d == 1 {
        "1"
    } else if d == 2 {
        "2"
    } else if d == 3 {
        "3"
    } else if d == 4 {
        "4"
    } else if d == 5 {
        "5"
    } else if d == 6 {
        "6"
    } else if d == 7 {
        "7"
    } else if d == 8 {
        "8"
    } else {
        "9"
    };
    assert(s@ =~= seq![digit_char(d as nat)]);
    s
}

/// Writes `n` in decimal digits behind `out`.
pub fn push_decimal(out: &mut String, n: u128)
    ensures
        final(out)@ == old(out)@ + decimal_text(n as nat),
    decreases n,
{
    if n >= 10 {
        push_decimal(out, n / 10);
    }
    out.append(digit_str(n % 10));
    proof {
        if n >= 10 {
            assert(old(out)@ + decimal_text(n as nat / 10) + seq![digit_char(n as nat % 10)]
                == old(out)@ + decimal_text(n as nat));
        }
    }
}

/// `fill` written `n` times.
pub open spec fn repeated(fill: Seq<char>, n: nat) -> Seq<char>
    decreases n,
{
    if n == 0 {
        Seq::empty()
    } else {
        repeated(fill, (n - 1) as nat) + fill
    }
}

/// `s` with `fill` in front of it once for every character that it is
/// short of `width`; `s` itself where it is that long already.
pub open spec fn padded_left(s: Seq<char>, width: nat, fill: Seq<char>) -> Seq<char> {
    if s.len() >= width {
        s
    } else {
        repeated(fill, (width - s.len()) as nat) + s
    }
}

/// `text`, filled up on the left: `fill` stands in front of it once for
/// every character that it is short of `width`.
pub fn pad_left(text: &str, width: usize, fill: &str) -> (s: String)
    ensures
        s@ == padded_left(text@, width as nat, fill@),
{
    let n = text.unicode_len();
    let mut s = String::new();
    let mut k: usize = n;
    while k < width
        invariant
            n <= k,
            n == text@.len(),
            n < width ==> k <= width,
            n >= width ==> k == n,
            s@ == repeated(fill@, (k - n) as nat),
        decreases width - k,
    {
        s.append(fill);
        k += 1;
    }
    s.append(text);
    proof {
        if n >= width {
            assert(repeated(fill@, 0) + text@ =~= text@);
        }
    }
    s
}

/// Puts `word` behind `words`.
pub fn add_word(words: &mut Vec<String>, word: &str)
    ensures
        texts(final(words)@) == texts(old(words)@).push(word@),
{
    words.push(word.to_owned());
    assert(texts(words@) =~= texts(old(words)@).push(word@));
}

/// Puts all of `more` behind `words`.
pub fn add_words(words: &mut Vec<String>, more: &Vec<String>)
    ensures
        texts(final(words)@) == texts(old(words)@) + texts(more@),
{
    let mut i: usize = 0;
    assert(texts(words@) =~= texts(old(words)@) + texts(more@.take(0)));
    while i < more.len()
        invariant
            i <= more.len(),
            texts(words@) == texts(old(words)@) + texts(more@.take(i as int)),
        decreases more.len() - i,
    {
        let ghost before = texts(words@);
        words.push(more[i].clone());
        assert(texts(words@) =~= texts(old(words)@) + texts(more@.take(i + 1))) by {
            assert(texts(words@) =~= before.push(more@[i as int]@));
            assert(texts(more@.take(i + 1)) =~= texts(more@.take(i as int)).push(more@[i as int]@));
        }
        i += 1;
    }
    proof {
        assert(more@.take(more.len() as int) == more@);
    }
}

} // verus!
