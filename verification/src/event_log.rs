//! A capped in-memory event log: it never holds more than `MAX_ENTRIES`
//! lines, so a session of several days cannot make memory grow.

use vstd::prelude::*;
use chrono::Timelike;
use std::collections::VecDeque;
use crate::text::{append_padded, padded};

verus! {

/// Most lines the log keeps; older ones are dropped first.
pub const MAX_ENTRIES: usize = 300;

/// Kind of a log line.
#[derive(Clone, Copy, Debug, PartialEq, Eq, Structural)]
pub enum Severity {
    Sys,
    Alarm,
    Audio,
    Warn,
}

impl Severity {
    /// The tag shown in brackets in front of the line.
    pub open spec fn tag_text(self) -> Seq<char> {
        match self {
            Severity::Sys => "SYS"@,
            Severity::Alarm => "ALARM"@,
            Severity::Audio => "AUDIO"@,
            Severity::Warn => "WARN"@,
        }
    }

    /// The tag shown in brackets in front of the line.
    pub fn tag(self) -> (t: &'static str)
        ensures
            t@ == self.tag_text(),
    {
        match self {
            Severity::Sys => "SYS",
            Severity::Alarm => "ALARM",
            Severity::Audio => "AUDIO",
            Severity::Warn => "WARN",
        }
    }
}

/// One line of the log.
#[derive(Debug)]
pub struct LogEntry {
    pub timestamp: String,
    pub severity: Severity,
    pub message: String,
}

/// `HH:MM:SS`, each part zero-padded to two digits.
pub open spec fn clock_text(h: u32, m: u32, s: u32) -> Seq<char> {
    padded(h as nat, 2) + ":"@ + padded(m as nat, 2) + ":"@ + padded(s as nat, 2)
}

/// `HH:MM:SS`.
pub fn clock_label(h: u32, m: u32, s: u32) -> (r: String)
    ensures
        r@ == clock_text(h, m, s),
{
    let mut r = String::new();
    append_padded(&mut r, h as u64, 2);
    proof { reveal_strlit(":"); }
    r.append(":");
    append_padded(&mut r, m as u64, 2);
    r.append(":");
    append_padded(&mut r, s as u64, 2);
    assert(r@ =~= clock_text(h, m, s));
    r
}

/// The local wall-clock time of day, read with `chrono::Local::now` and
/// split with chrono's `Timelike::hour`, `minute` and `second`, whose
/// documented ranges are 0 to 23, 0 to 59 and 0 to 59. Which time it is
/// depends on the moment of the call.
#[verifier::external_body]
fn local_time_of_day() -> (t: (u32, u32, u32))
    ensures
        t.0 < 24,
        t.1 < 60,
        t.2 < 60,
{
    let now = chrono::Local::now();
    (now.hour(), now.minute(), now.second())
}

/// The last `MAX_ENTRIES` lines of `s`.
pub open spec fn keep_last(s: Seq<LogEntry>) -> Seq<LogEntry> {
    if s.len() > MAX_ENTRIES {
        s.subrange(s.len() - MAX_ENTRIES, s.len() as int)
    } else {
        s
    }
}

/// What a log that started empty holds after these lines were pushed one
/// by one.
pub open spec fn log_after(pushes: Seq<LogEntry>) -> Seq<LogEntry>
    decreases pushes.len(),
{
    if pushes.len() == 0 {
        Seq::empty()
    } else {
        keep_last(log_after(pushes.drop_last()).push(pushes.last()))
    }
}

/// `t` is a time of day written `HH:MM:SS`.
pub open spec fn is_clock_stamp(t: Seq<char>) -> bool {
    exists|h: u32, m: u32, s: u32| h < 24 && m < 60 && s < 60 && t == clock_text(h, m, s)
}

/// `after` is `before` with one more line, of this severity and message and
/// stamped with some time of day, the oldest lines beyond `MAX_ENTRIES`
/// dropped.
pub open spec fn appended(before: Seq<LogEntry>, after: Seq<LogEntry>, severity: Severity, message: Seq<char>) -> bool {
    exists|e: LogEntry| {
        &&& e.severity == severity
        &&& e.message@ == message
        &&& is_clock_stamp(e.timestamp@)
        &&& after == keep_last(before.push(e))
    }
}

/// `after` is `before` with the given lines appended one after the other
/// (each stamped with some time of day, the oldest lines beyond
/// `MAX_ENTRIES` dropped).
pub open spec fn appended_all(before: Seq<LogEntry>, after: Seq<LogEntry>, lines: Seq<(Severity, Seq<char>)>) -> bool {
    exists|states: Seq<Seq<LogEntry>>| {
        &&& states.len() == lines.len() + 1
        &&& states[0] == before
        &&& states.last() == after
        &&& forall|i: int| 0 <= i < lines.len() ==> appended(states[i], states[i + 1], (#[trigger] lines[i]).0, lines[i].1)
    }
}

/// The capped event log.
pub struct EventLog {
    entries: VecDeque<LogEntry>,
}

impl EventLog {
    /// The lines held, oldest first.
    pub closed spec fn lines(self) -> Seq<LogEntry> {
        self.entries@
    }

    #[verifier::type_invariant]
    spec fn capped(self) -> bool {
        self.entries@.len() <= MAX_ENTRIES
    }

    /// Number of lines held; never more than `MAX_ENTRIES`.
    pub fn len(&self) -> (n: usize)
        ensures
            n == self.lines().len(),
            n <= MAX_ENTRIES,
    {
        proof { use_type_invariant(self); }
        self.entries.len()
    }

    /// An empty log.
    pub fn new() -> (l: Self)
        ensures
            l.lines().len() == 0,
    {
        EventLog { entries: VecDeque::with_capacity(MAX_ENTRIES) }
    }

    /// Appends a line with the given time stamp, dropping the oldest lines
    /// beyond `MAX_ENTRIES`.
    pub fn push_at(&mut self, timestamp: String, severity: Severity, message: String)
        ensures
            final(self).lines() == keep_last(
                old(self).lines().push(LogEntry { timestamp, severity, message }),
            ),
    {
        proof { use_type_invariant(&*self); }
        let mut entries: VecDeque<LogEntry> = VecDeque::new();
        std::mem::swap(&mut entries, &mut self.entries);
        let ghost before = entries@;
        entries.push_back(LogEntry { timestamp, severity, message });
        let ghost all = entries@;
        while entries.len() > MAX_ENTRIES
            invariant
                all.len() <= MAX_ENTRIES + 1,
                entries@ == all || (all.len() == MAX_ENTRIES + 1 && entries@ == all.subrange(1, all.len() as int)),
            decreases entries@.len(),
        {
            entries.pop_front();
        }
        assert(entries@ =~= keep_last(all));
        std::mem::swap(&mut entries, &mut self.entries);
    }

    /// Appends a line stamped with the current local time (`HH:MM:SS`),
    /// dropping the oldest lines beyond `MAX_ENTRIES`.
    pub fn push(&mut self, severity: Severity, message: String)
        ensures
            appended(old(self).lines(), final(self).lines(), severity, message@),
    {
        let (h, m, s) = local_time_of_day();
        let stamp = clock_label(h, m, s);
        let ghost e = LogEntry { timestamp: stamp, severity, message };
        self.push_at(stamp, severity, message);
        assert(is_clock_stamp(e.timestamp@));
    }

    /// The lines held, oldest first.
    pub fn entries(&self) -> (r: &VecDeque<LogEntry>)
        ensures
            r@ == self.lines(),
    {
        &self.entries
    }
}

impl Default for EventLog {
    fn default() -> (l: Self)
        ensures
            l.lines().len() == 0,
    {
        Self::new()
    }
}

/// One more appended line extends a run of appended lines.
pub proof fn lemma_appended_all_push(
    start: Seq<LogEntry>,
    mid: Seq<LogEntry>,
    end: Seq<LogEntry>,
    lines: Seq<(Severity, Seq<char>)>,
    severity: Severity,
    message: Seq<char>,
)
    requires
        appended_all(start, mid, lines),
        appended(mid, end, severity, message),
    ensures
        appended_all(start, end, lines.push((severity, message))),
{
    let all = lines.push((severity, message));
    let states = choose|states: Seq<Seq<LogEntry>>| {
        &&& states.len() == lines.len() + 1
        &&& states[0] == start
        &&& states.last() == mid
        &&& forall|i: int| 0 <= i < lines.len() ==> appended(states[i], states[i + 1], (#[trigger] lines[i]).0, lines[i].1)
    };
    let states2 = states.push(end);
    assert forall|i: int| 0 <= i < all.len() implies appended(states2[i], states2[i + 1], (#[trigger] all[i]).0, all[i].1) by {
        if i < lines.len() {
            assert(all[i] == lines[i]);
            assert(appended(states[i], states[i + 1], lines[i].0, lines[i].1));
        }
    }
    assert(states2.len() == all.len() + 1);
    assert(states2[0] == start);
    assert(states2.last() == end);
}

/// Pushes a line and records what the log then holds.
pub(crate) fn push_line(log: &mut EventLog, severity: Severity, message: String, Ghost(lines): Ghost<Seq<(Severity, Seq<char>)>>, Ghost(start): Ghost<Seq<LogEntry>>)
    requires
        appended_all(start, old(log).lines(), lines),
    ensures
        appended_all(start, final(log).lines(), lines.push((severity, message@))),
{
    let ghost mid = log.lines();
    let ghost m = message@;
    log.push(severity, message);
    proof {
        lemma_appended_all_push(start, mid, log.lines(), lines, severity, m);
    }
}

} // verus!
