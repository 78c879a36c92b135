//! The logger's rules: how a line is laid out, which stream it goes to,
//! and how many lines a second may hold.

use vstd::prelude::*;
use crate::bytes::{copy_of, decimal, padded, push_all, push_decimal, push_padded, text, text_bytes};

verus! {

/// The level of a log line.
#[derive(Clone, Copy, Debug, PartialEq, Eq, Structural)]
pub enum Level {
    Info,
    /// The logger's own notes.
    Log,
    Error,
}

/// Where a log line is written.
#[derive(Clone, Copy, Debug, PartialEq, Eq, Structural)]
pub enum Stream {
    /// Standard output.
    Standard,
    /// Standard error.
    Diagnostic,
}

impl Level {
    /// Errors go to the diagnostic stream, all else to the standard stream.
    pub open spec fn stream_of(self) -> Stream {
        if self == Level::Error {
            Stream::Diagnostic
        } else {
            Stream::Standard
        }
    }

    pub fn stream(&self) -> (s: Stream)
        ensures
            s == self.stream_of(),
    {
        match self {
            Level::Error => Stream::Diagnostic,
            _ => Stream::Standard,
        }
    }

    /// The name of the level.
    pub open spec fn name_of(self) -> Seq<u8> {
        match self {
            Level::Info => text("INFO"),
            Level::Log => text("LOG"),
            Level::Error => text("ERROR"),
        }
    }

    /// The escape sequence that starts the level's colour: green for
    /// `INFO`, cyan for `LOG`, red for `ERROR`.
    pub open spec fn colour_of(self) -> Seq<u8> {
        match self {
            Level::Info => text("\x1b[32m"),
            Level::Log => text("\x1b[36m"),
            Level::Error => text("\x1b[31m"),
        }
    }

    /// The level as it stands in a line: its name, in colour or plain.
    pub open spec fn tag_of(self, coloured: bool) -> Seq<u8> {
        if coloured {
            self.colour_of() + self.name_of() + text("\x1b[0m")
        } else {
            self.name_of()
        }
    }

    pub fn tag(&self, coloured: bool) -> (t: Vec<u8>)
        ensures
            t@ == self.tag_of(coloured),
    {
        let name = match self {
            Level::Info => text_bytes("INFO"),
            Level::Log => text_bytes("LOG"),
            Level::Error => text_bytes("ERROR"),
        };
        if coloured {
            let colour = match self {
                Level::Info => text_bytes("\x1b[32m"),
                Level::Log => text_bytes("\x1b[36m"),
                Level::Error => text_bytes("\x1b[31m"),
            };
            let mut out = copy_of(colour);
            push_all(&mut out, name);
            push_all(&mut out, text_bytes("\x1b[0m"));
            out
        } else {
            copy_of(name)
        }
    }
}

/// A moment in local time, as the C library breaks it down: the year counts
/// from 1900 and the month from 0.
#[derive(Clone, Copy, Debug, PartialEq, Eq, Structural)]
pub struct LocalTime {
    pub year: i32,
    pub month: i32,
    pub day: i32,
    pub hour: i32,
    pub minute: i32,
    pub second: i32,
}

/// `v` in decimal, filled with zeros to `width` characters; the sign of a
/// negative number counts as one of them.
pub open spec fn signed_padded(v: int, width: nat) -> Seq<u8> {
    if v < 0 {
        seq![45u8] + padded((-v) as nat, if width >= 1 {
            (width - 1) as nat
        } else {
            0
        })
    } else {
        padded(v as nat, width)
    }
}

fn push_signed(out: &mut Vec<u8>, v: i64, width: usize)
    requires
        v > i64::MIN,
    ensures
        final(out)@ == old(out)@ + signed_padded(v as int, width as nat),
{
    if v < 0 {
        out.push(45);
        let w: usize = if width >= 1 {
            width - 1
        } else {
            0
        };
        push_padded(out, (-v) as u64, w);
        assert(out@ =~= old(out)@ + signed_padded(v as int, width as nat));
    } else {
        push_padded(out, v as u64, width);
    }
}

/// The time stamp that starts every line: `[YYYY-MM-DD HH:MM:SS.mmm]`.
pub open spec fn timestamp_of(t: LocalTime, millis: u32) -> Seq<u8> {
    seq![91u8] + signed_padded(t.year + 1900, 4) + seq![45u8] + signed_padded(t.month + 1, 2)
        + seq![45u8] + signed_padded(t.day as int, 2) + seq![32u8] + signed_padded(
        t.hour as int,
        2,
    ) + seq![58u8] + signed_padded(t.minute as int, 2) + seq![58u8] + signed_padded(
        t.second as int,
        2,
    ) + seq![46u8] + padded(millis as nat, 3) + seq![93u8]
}

/// Writes the time stamp for the local time `t` and `millis` milliseconds
/// into the second.
pub fn current_timestamp_prefix(t: &LocalTime, millis: u32) -> (out: Vec<u8>)
    ensures
        out@ == timestamp_of(*t, millis),
{
    let mut out: Vec<u8> = Vec::new();
    out.push(91);
    push_signed(&mut out, t.year as i64 + 1900, 4);
    out.push(45);
    push_signed(&mut out, t.month as i64 + 1, 2);
    out.push(45);
    push_signed(&mut out, t.day as i64, 2);
    out.push(32);
    push_signed(&mut out, t.hour as i64, 2);
    out.push(58);
    push_signed(&mut out, t.minute as i64, 2);
    out.push(58);
    push_signed(&mut out, t.second as i64, 2);
    out.push(46);
    push_padded(&mut out, millis as u64, 3);
    out.push(93);
    assert(out@ =~= timestamp_of(*t, millis));
    out
}

/// A log line: time stamp, level and message, with one space between them.
pub open spec fn line_of(level: Level, coloured: bool, stamp: Seq<u8>, message: Seq<u8>) -> Seq<u8> {
    stamp + seq![32u8] + level.tag_of(coloured) + seq![32u8] + message
}

/// Lays a log line out. The line break is left to whoever writes the line.
pub fn format_line(level: Level, coloured: bool, stamp: &[u8], message: &[u8]) -> (out: Vec<u8>)
    ensures
        out@ == line_of(level, coloured, stamp@, message@),
{
    let mut out = copy_of(stamp);
    out.push(32);
    let tag = level.tag(coloured);
    push_all(&mut out, tag.as_slice());
    out.push(32);
    push_all(&mut out, message);
    assert(out@ =~= line_of(level, coloured, stamp@, message@));
    out
}

/// The message that reports how many lines the last window suppressed.
pub open spec fn suppressed_text(n: u64) -> Seq<u8> {
    text("suppressed ") + decimal(n as nat) + text(" messages in last 1s")
}

/// Words the report that `n` lines were suppressed.
pub fn suppressed_message(n: u64) -> (out: Vec<u8>)
    ensures
        out@ == suppressed_text(n),
{
    let mut out = copy_of(text_bytes("suppressed "));
    push_decimal(&mut out, n);
    push_all(&mut out, text_bytes(" messages in last 1s"));
    out
}

/// The number of throttled lines that one second may hold.
pub const LOGS_PER_SEC: u64 = 50;

/// The rate limiter's state: the second that the window covers, the number
/// of lines asked for in it, and the number of those that were suppressed.
/// The two counters stop at the largest number they can hold.
#[derive(Clone, Copy, Debug, PartialEq, Eq, Structural)]
pub struct RateWindow {
    pub window_second: u64,
    pub count_in_window: u64,
    pub suppressed_in_window: u64,
}

/// What the rate limiter says of one line.
#[derive(Clone, Copy, Debug, PartialEq, Eq, Structural)]
pub struct Throttle {
    /// The line is to be written.
    pub emit: bool,
    /// On the call that opens a window: the number of lines that the window
    /// before it suppressed, to be reported in a line of its own if it is
    /// not zero. Zero on every other call.
    pub suppressed_before: u64,
}

/// A line for the log: its level, whether it goes through the rate
/// limiter, and its message.
#[derive(Debug, PartialEq, Eq)]
pub struct LogLine {
    pub level: Level,
    pub throttled: bool,
    pub message: Vec<u8>,
}

/// The mathematical value of a `LogLine`.
pub ghost struct LogLineView {
    pub level: Level,
    pub throttled: bool,
    pub message: Seq<u8>,
}

impl View for LogLine {
    type V = LogLineView;

    open spec fn view(&self) -> LogLineView {
        LogLineView { level: self.level, throttled: self.throttled, message: self.message@ }
    }
}

impl Throttle {
    /// The report that goes before the line: how many lines the window
    /// before suppressed, where it suppressed any. It is one of the
    /// logger's own notes, at level `LOG`, and is not throttled itself.
    pub open spec fn notice_of(self) -> Option<LogLineView> {
        if self.suppressed_before > 0 {
            Some(
                LogLineView {
                    level: Level::Log,
                    throttled: false,
                    message: suppressed_text(self.suppressed_before),
                },
            )
        } else {
            None
        }
    }

    /// The line to log before the line that was asked for, if there is one.
    pub fn notice(&self) -> (r: Option<LogLine>)
        ensures
            match r {
                Some(line) => self.notice_of() == Some(line@),
                None => self.notice_of() is None,
            },
    {
        if self.suppressed_before > 0 {
            Some(
                LogLine {
                    level: Level::Log,
                    throttled: false,
                    message: suppressed_message(self.suppressed_before),
                },
            )
        } else {
            None
        }
    }
}

/// `n + 1`, or `n` where that is the largest number.
pub open spec fn bump(n: u64) -> u64 {
    if n < u64::MAX {
        (n + 1) as u64
    } else {
        n
    }
}

impl RateWindow {
    /// The window before any line.
    pub open spec fn initial() -> RateWindow {
        RateWindow { window_second: 0, count_in_window: 0, suppressed_in_window: 0 }
    }

    /// No more lines were suppressed than were asked for.
    pub open spec fn wf(self) -> bool {
        self.suppressed_in_window <= self.count_in_window
    }

    /// The window as a line at second `now` finds it: a fresh one if the
    /// second has changed.
    pub open spec fn rolled(self, now: u64) -> RateWindow {
        if now != self.window_second {
            RateWindow { window_second: now, count_in_window: 0, suppressed_in_window: 0 }
        } else {
            self
        }
    }

    /// The window has room for one more line.
    pub open spec fn admits(self) -> bool {
        self.count_in_window < LOGS_PER_SEC
    }

    /// The window after one more line was asked for.
    pub open spec fn counted(self) -> RateWindow {
        RateWindow {
            window_second: self.window_second,
            count_in_window: bump(self.count_in_window),
            suppressed_in_window: if self.admits() {
                self.suppressed_in_window
            } else {
                bump(self.suppressed_in_window)
            },
        }
    }

    /// The window after a line was asked for at second `now`.
    pub open spec fn after(self, now: u64) -> RateWindow {
        self.rolled(now).counted()
    }

    /// What the rate limiter says of a line asked for at second `now`.
    pub open spec fn verdict(self, now: u64) -> Throttle {
        Throttle {
            emit: self.rolled(now).admits(),
            suppressed_before: if now != self.window_second {
                self.suppressed_in_window
            } else {
                0
            },
        }
    }

    pub fn new() -> (w: RateWindow)
        ensures
            w == Self::initial(),
    {
        RateWindow { window_second: 0, count_in_window: 0, suppressed_in_window: 0 }
    }
}

/// Asks the rate limiter for one line at second `now`. The first line of a
/// second opens a new window and learns how many lines the window before
/// suppressed. A window lets its first 50 lines through and counts the
/// others as suppressed.
pub fn log_throttled(window: &mut RateWindow, now: u64) -> (t: Throttle)
    ensures
        *final(window) == old(window).after(now),
        t == old(window).verdict(now),
{
    let mut suppressed_before: u64 = 0;
    if now != window.window_second {
        suppressed_before = window.suppressed_in_window;
        window.window_second = now;
        window.suppressed_in_window = 0;
        window.count_in_window = 0;
    }
    let c = window.count_in_window;
    window.count_in_window = c.saturating_add(1);
    let emit = c < LOGS_PER_SEC;
    if !emit {
        window.suppressed_in_window = window.suppressed_in_window.saturating_add(1);
    }
    Throttle { emit, suppressed_before }
}

/// The window after lines were asked for at the seconds `times`, in order.
pub open spec fn window_after(w: RateWindow, times: Seq<u64>) -> RateWindow
    decreases times.len(),
{
    if times.len() == 0 {
        w
    } else {
        window_after(w.after(times[0]), times.skip(1))
    }
}

/// What the rate limiter says of the `i`-th of the lines asked for at the
/// seconds `times`.
pub open spec fn verdict_at(w: RateWindow, times: Seq<u64>, i: int) -> Throttle
    recommends
        0 <= i < times.len(),
{
    window_after(w, times.subrange(0, i)).verdict(times[i])
}

/// The number of lines written among those asked for at second `s`.
pub open spec fn emitted_at(w: RateWindow, times: Seq<u64>, s: u64) -> nat
    decreases times.len(),
{
    if times.len() == 0 {
        0
    } else {
        let one: nat = if times[0] == s && w.verdict(times[0]).emit {
            1
        } else {
            0
        };
        one + emitted_at(w.after(times[0]), times.skip(1), s)
    }
}

/// The clock never went back between the lines.
pub open spec fn nondecreasing(times: Seq<u64>) -> bool {
    forall|i: int, j: int| 0 <= i <= j < times.len() ==> times[i] <= times[j]
}

proof fn lemma_skip_nondecreasing(times: Seq<u64>)
    requires
        nondecreasing(times),
        times.len() > 0,
    ensures
        nondecreasing(times.skip(1)),
        forall|i: int| 0 <= i < times.skip(1).len() ==> times[0] <= #[trigger] times.skip(1)[i],
{
    assert forall|i: int, j: int| 0 <= i <= j < times.skip(1).len() implies times.skip(1)[i]
        <= times.skip(1)[j] by {
        assert(times.skip(1)[i] == times[i + 1]);
        assert(times.skip(1)[j] == times[j + 1]);
    }
    assert forall|i: int| 0 <= i < times.skip(1).len() implies times[0] <= #[trigger] times.skip(
        1,
    )[i] by {
        assert(times.skip(1)[i] == times[i + 1]);
    }
}

proof fn lemma_none_at(w: RateWindow, times: Seq<u64>, s: u64)
    requires
        forall|i: int| 0 <= i < times.len() ==> #[trigger] times[i] != s,
    ensures
        emitted_at(w, times, s) == 0,
    decreases times.len(),
{
    if times.len() > 0 {
        assert(times[0] != s);
        assert forall|i: int| 0 <= i < times.skip(1).len() implies #[trigger] times.skip(1)[i]
            != s by {
            assert(times.skip(1)[i] == times[i + 1]);
        }
        lemma_none_at(w.after(times[0]), times.skip(1), s);
    }
}

proof fn lemma_emitted_in_window(w: RateWindow, times: Seq<u64>, s: u64)
    requires
        nondecreasing(times),
        w.window_second == s,
        forall|i: int| 0 <= i < times.len() ==> s <= #[trigger] times[i],
    ensures
        w.count_in_window >= LOGS_PER_SEC ==> emitted_at(w, times, s) == 0,
        w.count_in_window < LOGS_PER_SEC ==> emitted_at(w, times, s) <= LOGS_PER_SEC
            - w.count_in_window,
    decreases times.len(),
{
    if times.len() > 0 {
        lemma_skip_nondecreasing(times);
        let rest = times.skip(1);
        if times[0] == s {
            lemma_emitted_in_window(w.after(s), rest, s);
        } else {
            assert(times[0] > s);
            assert forall|i: int| 0 <= i < times.len() implies #[trigger] times[i] != s by {
                assert(times[0] <= times[i]);
            }
            lemma_none_at(w, times, s);
        }
    }
}

/// As long as the clock does not go back, no second sees
/// more than 50 throttled lines written, whatever the window held before
/// and however many lines are asked for.
pub proof fn lemma_rate_limit(w: RateWindow, times: Seq<u64>, s: u64)
    requires
        nondecreasing(times),
    ensures
        emitted_at(w, times, s) <= LOGS_PER_SEC,
    decreases times.len(),
{
    if times.len() > 0 {
        lemma_skip_nondecreasing(times);
        let rest = times.skip(1);
        if times[0] == s {
            if w.window_second == s {
                assert forall|i: int| 0 <= i < times.len() implies s <= #[trigger] times[i] by {
                    assert(times[0] <= times[i]);
                }
                lemma_emitted_in_window(w, times, s);
            } else {
                lemma_emitted_in_window(w.after(s), rest, s);
            }
        } else if times[0] < s {
            lemma_rate_limit(w.after(times[0]), rest, s);
        } else {
            assert forall|i: int| 0 <= i < times.len() implies #[trigger] times[i] != s by {
                assert(times[0] <= times[i]);
            }
            lemma_none_at(w, times, s);
        }
    }
}

/// `count` lines, all asked for at second `s`.
pub open spec fn burst(s: u64, count: nat) -> Seq<u64> {
    Seq::new(count, |i: int| s)
}

proof fn lemma_burst(w: RateWindow, s: u64, count: nat)
    requires
        w.window_second == s,
        w.count_in_window + count <= u64::MAX,
        w.suppressed_in_window + count <= u64::MAX,
    ensures
        window_after(w, burst(s, count)).window_second == s,
        window_after(w, burst(s, count)).count_in_window == w.count_in_window + count,
        w.count_in_window + count <= LOGS_PER_SEC ==> window_after(
            w,
            burst(s, count),
        ).suppressed_in_window == w.suppressed_in_window,
        w.count_in_window >= LOGS_PER_SEC ==> window_after(
            w,
            burst(s, count),
        ).suppressed_in_window == w.suppressed_in_window + count,
        w.count_in_window <= LOGS_PER_SEC <= w.count_in_window + count ==> window_after(
            w,
            burst(s, count),
        ).suppressed_in_window == w.suppressed_in_window + (w.count_in_window + count
            - LOGS_PER_SEC),
    decreases count,
{
    if count > 0 {
        assert(burst(s, count).skip(1) =~= burst(s, (count - 1) as nat));
        lemma_burst(w.after(s), s, (count - 1) as nat);
    }
}

proof fn lemma_burst_second(w: RateWindow, s: u64, count: nat)
    requires
        w.window_second == s,
    ensures
        window_after(w, burst(s, count)).window_second == s,
    decreases count,
{
    if count > 0 {
        assert(burst(s, count).skip(1) =~= burst(s, (count - 1) as nat));
        lemma_burst_second(w.after(s), s, (count - 1) as nat);
    }
}

proof fn lemma_window_after_split(w: RateWindow, a: Seq<u64>, b: Seq<u64>)
    ensures
        window_after(w, a + b) == window_after(window_after(w, a), b),
    decreases a.len(),
{
    if a.len() == 0 {
        assert(a + b =~= b);
    } else {
        assert((a + b).skip(1) =~= a.skip(1) + b);
        lemma_window_after_split(w.after(a[0]), a.skip(1), b);
    }
}

/// Let `count` lines be asked for in a
/// second that is new to the window, and then `more` lines in another
/// second. Of the first second's lines the first 50 are written and the
/// others suppressed. In the next second the first line, and no other,
/// learns how many were suppressed: `count - 50` where that is more than
/// zero, and otherwise nothing is to be reported.
pub proof fn lemma_suppressed_reported_once(
    w: RateWindow,
    first: u64,
    count: nat,
    next: u64,
    more: nat,
    i: int,
)
    requires
        w.window_second != first,
        first != next,
        1 <= count <= u64::MAX,
        0 <= i < count + more,
    ensures
        ({
            let times = burst(first, count) + burst(next, more);
            let v = verdict_at(w, times, i);
            &&& i < count ==> v.emit == (i < LOGS_PER_SEC)
            &&& 0 < i < count ==> v.suppressed_before == 0
            &&& i == count ==> v.suppressed_before == if count > LOGS_PER_SEC {
                (count - LOGS_PER_SEC) as u64
            } else {
                0
            }
            &&& i > count ==> v.suppressed_before == 0
        }),
{
    let times = burst(first, count) + burst(next, more);
    let opened = w.after(first);
    if i == 0 {
        assert(times.subrange(0, 0) =~= Seq::<u64>::empty());
    } else if i <= count {
        // The lines before the i-th: the one that opened the window, and i - 1 more.
        let before = times.subrange(0, i);
        assert(before =~= burst(first, i as nat));
        assert(before.skip(1) =~= burst(first, (i - 1) as nat));
        lemma_burst(opened, first, (i - 1) as nat);
    } else {
        let before = times.subrange(0, i);
        let in_next = (i - count) as nat;
        assert(before =~= burst(first, count) + burst(next, in_next));
        lemma_window_after_split(w, burst(first, count), burst(next, in_next));
        assert(burst(first, count).skip(1) =~= burst(first, (count - 1) as nat));
        lemma_burst(opened, first, (count - 1) as nat);
        let closed = window_after(w, burst(first, count));
        assert(closed.window_second == first);
        assert(burst(next, in_next).skip(1) =~= burst(next, (in_next - 1) as nat));
        lemma_burst_second(closed.after(next), next, (in_next - 1) as nat);
    }
}

/// Within one window the two counters never go down, and the second stays:
/// a line asked for in the window's own second leaves the window with
/// counters at least as large. Only a line in another second starts them
/// again, and it sets the second to its own. Never are more lines
/// suppressed than were asked for.
pub proof fn lemma_window_monotone(w: RateWindow, now: u64)
    ensures
        w.after(now).window_second == now,
        now == w.window_second ==> w.after(now).count_in_window >= w.count_in_window
            && w.after(now).suppressed_in_window >= w.suppressed_in_window,
        now != w.window_second ==> w.after(now).count_in_window == 1 && w.after(
            now,
        ).suppressed_in_window == 0,
        w.wf() ==> w.after(now).wf(),
        RateWindow::initial().wf(),
{
}

} // verus!
