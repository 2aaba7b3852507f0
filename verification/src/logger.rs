//! Log lines: their `HH:MM:SS.mmm` time stamps, their layout, and the
//! bounded buffer of recent lines that the user interface shows. Writing
//! them to the terminal and to the log file is left to the application.

use vstd::prelude::*;
use std::collections::VecDeque;
use crate::text::{push_char, push_str, to_owned_string};

verus! {

broadcast use vstd::std_specs::vecdeque::group_vec_dequeue_axioms;

/// How many recent lines are kept.
pub const RECENT_LOG_CAPACITY: usize = 200;

/// The digit character of `d`.
pub open spec fn digit(d: int) -> char {
    ((d + 48) as u8) as char
}

/// `n` written with exactly `width` decimal digits (the lowest ones),
/// zero-padded.
pub open spec fn padded_digits(n: nat, width: nat) -> Seq<char>
    decreases width,
{
    if width == 0 {
        Seq::empty()
    } else {
        padded_digits(n / 10, (width - 1) as nat).push(digit((n % 10) as int))
    }
}

/// Appends `n` zero-padded to `width` digits.
fn push_padded(s: &mut String, n: u64, width: u32)
    ensures
        final(s)@ == old(s)@ + padded_digits(n as nat, width as nat),
    decreases width,
{
    if width > 0 {
        push_padded(s, n / 10, width - 1);
        let d = (n % 10) as u8;
        push_char(s, (d + 48) as char);
        proof {
            assert(old(s)@ + padded_digits(n as nat, width as nat) =~= old(s)@ + padded_digits(
                (n / 10) as nat,
                (width - 1) as nat,
            ) + seq![digit((n % 10) as int)]);
        }
    } else {
        assert(old(s)@ + padded_digits(n as nat, 0) =~= old(s)@);
    }
}

/// The time of day (UTC) of a moment `total_secs` seconds and `millis`
/// milliseconds after the epoch, as `HH:MM:SS.mmm`.
pub open spec fn timestamp_text(total_secs: u64, millis: u32) -> Seq<char> {
    padded_digits(((total_secs / 3600) % 24) as nat, 2) + ":"@ + padded_digits(((total_secs / 60) % 60) as nat, 2)
        + ":"@ + padded_digits((total_secs % 60) as nat, 2) + "."@ + padded_digits(millis as nat, 3)
}

/// Formats a moment as `HH:MM:SS.mmm` (UTC time of day).
pub fn format_timestamp(total_secs: u64, millis: u32) -> (res: String)
    ensures
        res@ == timestamp_text(total_secs, millis),
{
    let mut s = String::new();
    push_padded(&mut s, (total_secs / 3600) % 24, 2);
    push_str(&mut s, ":");
    push_padded(&mut s, (total_secs / 60) % 60, 2);
    push_str(&mut s, ":");
    push_padded(&mut s, total_secs % 60, 2);
    push_str(&mut s, ".");
    push_padded(&mut s, millis as u64, 3);
    assert(s@ =~= timestamp_text(total_secs, millis));
    s
}

/// A log line: `[<timestamp>] [<level>] <message>`.
pub open spec fn log_line_text(timestamp: Seq<char>, level: Seq<char>, message: Seq<char>) -> Seq<char> {
    "["@ + timestamp + "] ["@ + level + "] "@ + message
}

/// Lays out a log line.
pub fn log_line(timestamp: &str, level: &str, message: &str) -> (res: String)
    ensures
        res@ == log_line_text(timestamp@, level@, message@),
{
    let mut s = to_owned_string("[");
    push_str(&mut s, timestamp);
    push_str(&mut s, "] [");
    push_str(&mut s, level);
    push_str(&mut s, "] ");
    push_str(&mut s, message);
    s
}

/// The lines of `lines`, as texts.
pub open spec fn texts(lines: Seq<String>) -> Seq<Seq<char>> {
    lines.map_values(|l: String| l@)
}

/// The most recent log lines, oldest first, at most `RECENT_LOG_CAPACITY`.
pub struct RecentLogs {
    lines: VecDeque<String>,
}

impl RecentLogs {
    /// The lines held, oldest first.
    pub closed spec fn lines(&self) -> Seq<Seq<char>> {
        texts(self.lines@)
    }

    /// No more lines than the capacity.
    pub closed spec fn wf(&self) -> bool {
        self.lines@.len() <= RECENT_LOG_CAPACITY
    }

    /// An empty buffer.
    pub fn new() -> (res: Self)
        ensures
            res.wf(),
            res.lines() == Seq::<Seq<char>>::empty(),
    {
        let r = RecentLogs { lines: VecDeque::new() };
        assert(r.lines() =~= Seq::<Seq<char>>::empty());
        r
    }

    /// Adds the newest line, dropping the oldest when the buffer is full.
    pub fn push(&mut self, line: String)
        requires
            old(self).wf(),
        ensures
            final(self).wf(),
            final(self).lines() == if old(self).lines().len() >= RECENT_LOG_CAPACITY {
                old(self).lines().drop_first().push(line@)
            } else {
                old(self).lines().push(line@)
            },
    {
        let ghost before = self.lines@;
        if self.lines.len() >= RECENT_LOG_CAPACITY {
            let _ = self.lines.pop_front();
            proof {
                assert(texts(self.lines@) =~= texts(before).drop_first());
            }
        }
        self.lines.push_back(line);
        proof {
            if before.len() >= RECENT_LOG_CAPACITY {
                assert(texts(self.lines@) =~= texts(before).drop_first().push(line@));
            } else {
                assert(texts(self.lines@) =~= texts(before).push(line@));
            }
        }
    }

    /// The lines held, oldest first.
    pub fn recent(&self) -> (res: Vec<String>)
        ensures
            texts(res@) == self.lines(),
    {
        let mut res: Vec<String> = Vec::new();
        let mut i: usize = 0;
        while i < self.lines.len()
            invariant
                0 <= i <= self.lines@.len(),
                res@.len() == i,
                forall|j: int| 0 <= j < i ==> #[trigger] res@[j]@ == self.lines@[j]@,
            decreases self.lines@.len() - i,
        {
            let line = self.lines[i].clone();
            res.push(line);
            i = i + 1;
        }
        assert(texts(res@) =~= texts(self.lines@));
        res
    }
}

} // verus!
