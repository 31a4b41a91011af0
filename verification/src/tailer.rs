//! What to show for each line that a running download writes.

use crate::format::{decimal_text, pad_left, padded_left, push_decimal, repeated};
use crate::progress::{parse_line, parse_ytdlp_progress, ProgressReading, Reading};
use crate::recent::{
    last_of, lemma_pushed_all_is_last, pushed, pushed_all, RECENT_CAPACITY, RecentLines,
};
use crate::text::texts;
use vstd::prelude::*;

verus! {

/// The length of the progress bar: its position counts tenths of a percent.
pub const PROGRESS_LENGTH: u64 = 1000;

/// The width of the field that shows the speed.
pub const SPEED_WIDTH: usize = 10;

/// The field that shows the speed: blank where the speed is not known.
pub open spec fn speed_field(speed: Option<Seq<char>>) -> Seq<char> {
    match speed {
        Some(s) => padded_left(s, SPEED_WIDTH as nat, " "@),
        None => repeated(" "@, SPEED_WIDTH as nat),
    }
}

/// The message that goes with a reading: the percentage with one decimal and,
/// dimmed behind a bar, the speed.
pub open spec fn progress_message(reading: Reading) -> Seq<char> {
    decimal_text(reading.permille / 10) + "."@ + decimal_text(reading.permille % 10) + "%"@
        + "\x1b[90m"@ + " | "@ + speed_field(reading.speed) + "\x1b[0m"@
}

/// The message of the progress bar while plain lines arrive.
pub open spec fn busy_message() -> Seq<char> {
    "Downloading audio"@
}

/// A log line as it is shown: dimmed.
pub open spec fn dimmed(line: Seq<char>) -> Seq<char> {
    "\x1b[90m"@ + line + "\x1b[0m"@
}

/// What the log slots show for `window`: its lines, oldest first, and
/// nothing in the slots behind them.
pub open spec fn log_slots(window: Seq<Seq<char>>) -> Seq<Seq<char>> {
    Seq::new(
        RECENT_CAPACITY as nat,
        |i: int|
            if i < window.len() {
                dimmed(window[i])
            } else {
                Seq::empty()
            },
    )
}

/// What a line of output changes on the screen.
#[derive(Debug)]
pub enum LineUpdate {
    /// The line reported progress: length, position and message of the bar.
    Progress { length: u64, position: u64, message: String },
    /// The line was plain: the message of the bar, and the text of every log
    /// slot.
    Log { message: String, slots: Vec<String> },
}

/// What a [`LineUpdate`] says.
pub enum Shown {
    Progress { length: nat, position: nat, message: Seq<char> },
    Log { message: Seq<char>, slots: Seq<Seq<char>> },
}

impl View for LineUpdate {
    type V = Shown;

    open spec fn view(&self) -> Shown {
        match self {
            LineUpdate::Progress { length, position, message } => Shown::Progress {
                length: *length as nat,
                position: *position as nat,
                message: message@,
            },
            LineUpdate::Log { message, slots } => Shown::Log {
                message: message@,
                slots: texts(slots@),
            },
        }
    }
}

/// What is shown for a reading.
pub open spec fn shown_progress(reading: Reading) -> Shown {
    Shown::Progress {
        length: PROGRESS_LENGTH as nat,
        position: if reading.permille <= 1000 {
            reading.permille
        } else {
            1000
        },
        message: progress_message(reading),
    }
}

/// What a line does: a progress line moves the bar and leaves the window
/// alone; any other line enters the window and is shown in the log slots.
pub open spec fn route(window: Seq<Seq<char>>, line: Seq<char>) -> (Seq<Seq<char>>, Shown) {
    match parse_line(line) {
        Some(reading) => (window, shown_progress(reading)),
        None => (
            pushed(window, line),
            Shown::Log { message: busy_message(), slots: log_slots(pushed(window, line)) },
        ),
    }
}

/// The message that the progress bar shows for `reading`.
pub fn format_progress(reading: &ProgressReading) -> (message: String)
    ensures
        message@ == progress_message(reading@),
{
    let mut message = String::new();
    push_decimal(&mut message, (reading.permille / 10) as u128);
    message.append(".");
    push_decimal(&mut message, (reading.permille % 10) as u128);
    message.append("%");
    message.append("\x1b[90m");
    message.append(" | ");
    let field = match &reading.speed {
        Some(speed) => pad_left(speed.as_str(), SPEED_WIDTH, " "),
        None => pad_left("", SPEED_WIDTH, " "),
    };
    proof {
        reveal_strlit("");
        assert(Seq::<char>::empty() + decimal_text(reading.permille as nat / 10) == decimal_text(
            reading.permille as nat / 10,
        ));
        if reading.speed is None {
            assert(repeated(" "@, SPEED_WIDTH as nat) + ""@ == repeated(" "@, SPEED_WIDTH as nat));
        }
    }
    message.append(field.as_str());
    message.append("\x1b[0m");
    message
}

/// The texts of the log slots for the lines of a window, oldest first.
pub fn format_slots(lines: &Vec<String>) -> (slots: Vec<String>)
    ensures
        texts(slots@) == log_slots(texts(lines@)),
{
    let mut slots: Vec<String> = Vec::new();
    let mut i: usize = 0;
    while i < RECENT_CAPACITY
        invariant
            i <= RECENT_CAPACITY,
            slots@.len() == i,
            forall|k: int| 0 <= k < i ==> (#[trigger] slots@[k])@ == log_slots(texts(lines@))[k],
        decreases RECENT_CAPACITY - i,
    {
        let mut slot = String::new();
        if i < lines.len() {
            slot.append("\x1b[90m");
            slot.append(lines[i].as_str());
            slot.append("\x1b[0m");
            proof {
                assert(Seq::<char>::empty() + "\x1b[90m"@ == "\x1b[90m"@);
            }
        }
        slots.push(slot);
        i += 1;
    }
    proof {
        assert(texts(slots@) =~= log_slots(texts(lines@)));
    }
    slots
}

/// Takes one line of output and says what to show for it.
///
/// A progress line moves the bar and leaves the window as it is. Any other
/// line becomes the newest of the window, and every log slot is set anew.
pub fn route_line(recent: &mut RecentLines, line: String) -> (update: LineUpdate)
    requires
        old(recent).well_formed(),
    ensures
        final(recent).well_formed(),
        (final(recent)@, update@) == route(old(recent)@, line@),
        parse_line(line@) is Some <==> update is Progress,
{
    match parse_ytdlp_progress(line.as_str()) {
        Some(reading) => {
            let position = if reading.permille <= 1000 {
                reading.permille
            } else {
                1000
            };
            LineUpdate::Progress {
                length: PROGRESS_LENGTH,
                position,
                message: format_progress(&reading),
            }
        },
        None => {
            recent.push(line);
            let lines = recent.snapshot();
            let slots = format_slots(&lines);
            LineUpdate::Log { message: "Downloading audio".to_owned(), slots }
        },
    }
}

/// The lines of `lines` that report no progress, in their order.
pub open spec fn plain_lines(lines: Seq<Seq<char>>) -> Seq<Seq<char>>
    decreases lines.len(),
{
    if lines.len() == 0 {
        Seq::empty()
    } else if parse_line(lines.last()) is None {
        plain_lines(lines.drop_last()).push(lines.last())
    } else {
        plain_lines(lines.drop_last())
    }
}

/// What the window holds once all of `lines` have been routed, one after the
/// other.
pub open spec fn routed_all(window: Seq<Seq<char>>, lines: Seq<Seq<char>>) -> Seq<Seq<char>>
    decreases lines.len(),
{
    if lines.len() == 0 {
        window
    } else {
        route(routed_all(window, lines.drop_last()), lines.last()).0
    }
}

/// Progress lines never enter the window: routing any lines leaves in it
/// what pushing the plain ones alone would.
pub proof fn lemma_only_plain_lines_enter(window: Seq<Seq<char>>, lines: Seq<Seq<char>>)
    ensures
        routed_all(window, lines) == pushed_all(window, plain_lines(lines)),
    decreases lines.len(),
{
    if lines.len() > 0 {
        lemma_only_plain_lines_enter(window, lines.drop_last());
        if parse_line(lines.last()) is None {
            let before = plain_lines(lines.drop_last());
            assert(before.push(lines.last()).drop_last() == before);
        }
    }
}

/// After any output, a window that started empty holds the last plain lines,
/// oldest first, and never more than its capacity.
pub proof fn lemma_window_holds_last_plain_lines(lines: Seq<Seq<char>>)
    ensures
        routed_all(Seq::empty(), lines) == last_of(plain_lines(lines), RECENT_CAPACITY as nat),
        routed_all(Seq::empty(), lines).len() <= RECENT_CAPACITY,
{
    lemma_only_plain_lines_enter(Seq::empty(), lines);
    lemma_pushed_all_is_last(Seq::empty(), plain_lines(lines));
    assert(Seq::<Seq<char>>::empty() + plain_lines(lines) == plain_lines(lines));
}

} // verus!
