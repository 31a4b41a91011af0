//! The rolling window of the lines that were seen last.

use crate::text::texts;
use std::collections::VecDeque;
use vstd::prelude::*;

verus! {

/// How many lines the window keeps.
pub const RECENT_CAPACITY: usize = 5;

/// The last `n` items of `all`, oldest first; all of them where there are
/// fewer.
pub open spec fn last_of<T>(all: Seq<T>, n: nat) -> Seq<T> {
    if all.len() <= n {
        all
    } else {
        all.skip(all.len() - n)
    }
}

/// What the window holds once `line` has arrived behind `window`.
pub open spec fn pushed(window: Seq<Seq<char>>, line: Seq<char>) -> Seq<Seq<char>> {
    last_of(window.push(line), RECENT_CAPACITY as nat)
}

/// What the window holds once all of `lines` have arrived behind `window`,
/// one after the other.
pub open spec fn pushed_all(window: Seq<Seq<char>>, lines: Seq<Seq<char>>) -> Seq<Seq<char>>
    decreases lines.len(),
{
    if lines.len() == 0 {
        window
    } else {
        pushed(pushed_all(window, lines.drop_last()), lines.last())
    }
}

/// The most recent lines of output, at most [`RECENT_CAPACITY`] of them,
/// oldest first.
pub struct RecentLines {
    lines: VecDeque<String>,
}

impl View for RecentLines {
    type V = Seq<Seq<char>>;

    closed spec fn view(&self) -> Seq<Seq<char>> {
        texts(self.lines@)
    }
}

impl RecentLines {
    /// A window never holds more than its capacity.
    pub open spec fn well_formed(&self) -> bool {
        self@.len() <= RECENT_CAPACITY
    }

    /// An empty window.
    pub fn new() -> (window: RecentLines)
        ensures
            window@ == Seq::<Seq<char>>::empty(),
            window.well_formed(),
    {
        RecentLines { lines: VecDeque::with_capacity(RECENT_CAPACITY) }
    }

    /// How many lines the window holds.
    pub fn len(&self) -> (n: usize)
        ensures
            n == self@.len(),
    {
        self.lines.len()
    }

    /// Takes `line` in as the newest, and lets the oldest go where the window
    /// is full.
    pub fn push(&mut self, line: String)
        requires
            old(self).well_formed(),
        ensures
            final(self)@ == pushed(old(self)@, line@),
            final(self).well_formed(),
    {
        let ghost before = self.lines@;
        if self.lines.len() == RECENT_CAPACITY {
            self.lines.pop_front();
        }
        self.lines.push_back(line);
        proof {
            assert(texts(before).push(line@) == texts(before.push(line)));
            if before.len() == RECENT_CAPACITY {
                assert(self.lines@ == before.push(line).skip(1));
                assert(texts(before.push(line).skip(1)) == texts(before.push(line)).skip(1));
            }
        }
    }

    /// The lines of the window, oldest first.
    pub fn snapshot(&self) -> (lines: Vec<String>)
        ensures
            texts(lines@) == self@,
    {
        let mut lines: Vec<String> = Vec::new();
        let n = self.lines.len();
        let mut i: usize = 0;
        while i < n
            invariant
                i <= n,
                n == self.lines@.len(),
                lines@ == self.lines@.take(i as int),
            decreases n - i,
        {
            let line = self.lines[i].clone();
            lines.push(line);
            proof {
                assert(self.lines@.take(i + 1) == self.lines@.take(i as int).push(
                    self.lines@[i as int],
                ));
            }
            i += 1;
        }
        proof {
            assert(self.lines@.take(n as int) == self.lines@);
        }
        lines
    }
}

/// The window never holds more than its capacity, whatever arrives.
pub proof fn lemma_pushed_all_len(window: Seq<Seq<char>>, lines: Seq<Seq<char>>)
    requires
        window.len() <= RECENT_CAPACITY,
    ensures
        pushed_all(window, lines).len() <= RECENT_CAPACITY,
    decreases lines.len(),
{
    if lines.len() > 0 {
        lemma_pushed_all_len(window, lines.drop_last());
    }
}

/// After any lines have arrived, the window holds the last of all that it
/// held and took in, oldest first.
pub proof fn lemma_pushed_all_is_last(window: Seq<Seq<char>>, lines: Seq<Seq<char>>)
    requires
        window.len() <= RECENT_CAPACITY,
    ensures
        pushed_all(window, lines) == last_of(window + lines, RECENT_CAPACITY as nat),
    decreases lines.len(),
{
    if lines.len() == 0 {
        assert(window + lines == window);
    } else {
        let front = lines.drop_last();
        lemma_pushed_all_is_last(window, front);
        assert((window + front).push(lines.last()) == window + lines);
        let before = last_of(window + front, RECENT_CAPACITY as nat);
        assert(last_of(before.push(lines.last()), RECENT_CAPACITY as nat) == last_of(
            (window + front).push(lines.last()),
            RECENT_CAPACITY as nat,
        ));
    }
}

/// A window that starts empty holds the last lines that arrived, oldest
/// first: all of them while they are at most [`RECENT_CAPACITY`].
pub proof fn lemma_window_holds_last_lines(lines: Seq<Seq<char>>)
    ensures
        pushed_all(Seq::empty(), lines) == last_of(lines, RECENT_CAPACITY as nat),
        pushed_all(Seq::empty(), lines).len() <= RECENT_CAPACITY,
{
    lemma_pushed_all_is_last(Seq::empty(), lines);
    assert(Seq::<Seq<char>>::empty() + lines == lines);
}

} // verus!
