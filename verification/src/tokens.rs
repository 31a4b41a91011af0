//! The tokens of a text: what stands between its white space.

use crate::text::{is_space, is_whitespace, span_texts, Span};
use vstd::prelude::*;

verus! {

/// The whitespace-separated tokens of `s`, in order: its maximal runs of
/// characters that are not white space.
pub open spec fn tokens(s: Seq<char>) -> Seq<Seq<char>>
    decreases s.len(),
{
    if s.len() == 0 {
        Seq::empty()
    } else {
        let before = tokens(s.drop_last());
        let c = s.last();
        if is_space(c) {
            before
        } else if s.len() >= 2 && !is_space(s[s.len() - 2]) {
            before.drop_last().push(before.last().push(c))
        } else {
            before.push(seq![c])
        }
    }
}

/// Whether `s` holds white space only.
pub open spec fn all_space(s: Seq<char>) -> bool {
    forall|i: int| 0 <= i < s.len() ==> is_space(#[trigger] s[i])
}

/// Whether `s` is a word: not empty, and without white space.
pub open spec fn is_word(s: Seq<char>) -> bool {
    s.len() > 0 && forall|i: int| 0 <= i < s.len() ==> !is_space(#[trigger] s[i])
}

/// Whether every span of `spans` is non-empty and ends within the first `n`
/// characters.
pub open spec fn spans_within(spans: Seq<Span>, n: int) -> bool {
    forall|k: int| 0 <= k < spans.len() ==> (#[trigger] spans[k]).start < spans[k].end <= n
}

/// Splits the first `n` characters of `chars` at white space and returns where
/// each token stands.
pub fn token_spans(chars: &Vec<char>, n: usize) -> (spans: Vec<Span>)
    requires
        n <= chars.len(),
    ensures
        span_texts(chars@, spans@) == tokens(chars@.take(n as int)),
        spans_within(spans@, n as int),
{
    let mut spans: Vec<Span> = Vec::new();
    let mut start: usize = 0;
    let mut inside = false;
    let mut i: usize = 0;
    while i < n
        invariant
            i <= n <= chars.len(),
            spans_within(spans@, i as int),
            inside ==> start < i && !is_space(chars@[i - 1]) && tokens(chars@.take(i as int))
                == span_texts(chars@, spans@).push(chars@.subrange(start as int, i as int)),
            !inside ==> (i == 0 || is_space(chars@[i - 1])) && tokens(chars@.take(i as int))
                == span_texts(chars@, spans@),
        decreases n - i,
    {
        let c = chars[i];
        proof {
            assert(chars@.take(i + 1).drop_last() == chars@.take(i as int));
        }
        if is_whitespace(c) {
            if inside {
                proof {
                    assert(span_texts(chars@, spans@.push(Span { start, end: i })) == span_texts(
                        chars@,
                        spans@,
                    ).push(chars@.subrange(start as int, i as int)));
                }
                spans.push(Span { start, end: i });
                inside = false;
            }
        } else {
            if inside {
                proof {
                    assert(chars@.subrange(start as int, i + 1) == chars@.subrange(
                        start as int,
                        i as int,
                    ).push(c));
                    let t = span_texts(chars@, spans@).push(
                        chars@.subrange(start as int, i as int),
                    );
                    assert(t.drop_last() == span_texts(chars@, spans@));
                }
            } else {
                proof {
                    assert(chars@.subrange(i as int, i + 1) == seq![c]);
                }
                start = i;
                inside = true;
            }
        }
        i += 1;
    }
    proof {
        assert(chars@.take(n as int) == chars@.take(i as int));
    }
    if inside {
        proof {
            assert(span_texts(chars@, spans@.push(Span { start, end: n })) == span_texts(
                chars@,
                spans@,
            ).push(chars@.subrange(start as int, n as int)));
        }
        spans.push(Span { start, end: n });
    }
    spans
}

/// Text that ends in a character that is no white space ends in a token.
pub proof fn lemma_tokens_nonempty(s: Seq<char>)
    requires
        s.len() > 0,
        !is_space(s.last()),
    ensures
        tokens(s).len() > 0,
{
}

/// White space alone holds no token.
pub proof fn lemma_tokens_of_space(s: Seq<char>)
    requires
        all_space(s),
    ensures
        tokens(s) == Seq::<Seq<char>>::empty(),
    decreases s.len(),
{
    if s.len() > 0 {
        lemma_tokens_of_space(s.drop_last());
    }
}

/// A word is its own single token.
pub proof fn lemma_tokens_of_word(s: Seq<char>)
    requires
        is_word(s),
    ensures
        tokens(s) == seq![s],
    decreases s.len(),
{
    if s.len() == 1 {
        assert(tokens(s.drop_last()) == Seq::<Seq<char>>::empty());
        assert(seq![s.last()] == s);
    } else {
        let front = s.drop_last();
        lemma_tokens_of_word(front);
        assert(seq![front].drop_last().push(front.push(s.last())) == seq![s]) by {
            assert(front.push(s.last()) == s);
        }
    }
}

/// Every token is a word.
pub proof fn lemma_tokens_are_words(s: Seq<char>)
    ensures
        forall|k: int| 0 <= k < tokens(s).len() ==> is_word(#[trigger] tokens(s)[k]),
    decreases s.len(),
{
    if s.len() > 0 {
        let front = s.drop_last();
        let before = tokens(front);
        let c = s.last();
        lemma_tokens_are_words(front);
        if is_space(c) {
        } else if s.len() >= 2 && !is_space(s[s.len() - 2]) {
            assert(front.last() == s[s.len() - 2]);
            lemma_tokens_nonempty(front);
            let grown = before.last().push(c);
            assert(is_word(before.last()));
            assert(is_word(grown)) by {
                assert forall|i: int| 0 <= i < grown.len() implies !is_space(
                    #[trigger] grown[i],
                ) by {
                    if i < before.last().len() {
                        assert(grown[i] == before.last()[i]);
                    }
                }
            }
            assert forall|k: int| 0 <= k < tokens(s).len() implies is_word(
                #[trigger] tokens(s)[k],
            ) by {
                if k < before.len() - 1 {
                    assert(tokens(s)[k] == before[k]);
                }
            }
        } else {
            assert(is_word(seq![c]));
            assert forall|k: int| 0 <= k < tokens(s).len() implies is_word(
                #[trigger] tokens(s)[k],
            ) by {
                if k < before.len() {
                    assert(tokens(s)[k] == before[k]);
                }
            }
        }
    }
}

/// Two texts that meet at white space, or of which one is empty, hold the
/// tokens of the first followed by those of the second.
pub proof fn lemma_tokens_concat(a: Seq<char>, b: Seq<char>)
    requires
        a.len() == 0 || b.len() == 0 || is_space(a.last()) || is_space(b[0]),
    ensures
        tokens(a + b) == tokens(a) + tokens(b),
    decreases b.len(),
{
    if b.len() == 0 {
        assert(a + b == a);
        assert(tokens(a) + tokens(b) == tokens(a));
    } else if a.len() == 0 {
        assert(a + b == b);
        assert(tokens(a) + tokens(b) == tokens(b));
    } else {
        let front = b.drop_last();
        let c = b.last();
        let whole = a + b;
        assert(whole.drop_last() == a + front);
        assert(whole.last() == c);
        if front.len() == 0 {
            assert(a + front == a);
            assert(tokens(front) == Seq::<Seq<char>>::empty());
            assert(whole[whole.len() - 2] == a.last());
            if is_space(c) {
                assert(tokens(a) + tokens(b) == tokens(a));
            } else {
                assert(tokens(b) == seq![seq![c]]);
                assert(tokens(a) + seq![seq![c]] == tokens(a).push(seq![c]));
            }
        } else {
            lemma_tokens_concat(a, front);
            assert(whole[whole.len() - 2] == front.last());
            assert(b[b.len() - 2] == front.last());
            if is_space(c) {
            } else if !is_space(front.last()) {
                lemma_tokens_nonempty(front);
                let ta = tokens(a);
                let tf = tokens(front);
                assert((ta + tf).last() == tf.last());
                assert((ta + tf).drop_last() == ta + tf.drop_last());
                assert((ta + tf.drop_last()).push(tf.last().push(c)) == ta + tf.drop_last().push(
                    tf.last().push(c),
                ));
            } else {
                assert((tokens(a) + tokens(front)).push(seq![c]) == tokens(a) + tokens(front).push(
                    seq![c],
                ));
            }
        }
    }
}

/// What a word adds to the tokens of the text that it follows after white
/// space.
pub proof fn lemma_tokens_then_word(a: Seq<char>, gap: Seq<char>, word: Seq<char>)
    requires
        gap.len() > 0,
        all_space(gap),
        is_word(word),
    ensures
        tokens(a + gap + word) == tokens(a).push(word),
{
    lemma_tokens_concat(a, gap);
    lemma_tokens_of_space(gap);
    assert(tokens(a) + Seq::<Seq<char>>::empty() == tokens(a));
    assert((a + gap).last() == gap.last());
    lemma_tokens_concat(a + gap, word);
    lemma_tokens_of_word(word);
    assert(tokens(a) + seq![word] == tokens(a).push(word));
}

} // verus!
