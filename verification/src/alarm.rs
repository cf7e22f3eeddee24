//! The data model of a single alarm and its lifecycle state machine.
//!
//! An alarm's lifecycle (`Scheduled` / `Ringing` / `Completed`) is kept apart
//! from its `enabled` switch: a repeating alarm falls back to `Scheduled` on
//! the next day it is due, while a one-shot alarm stays `Completed` once it
//! has fired. `last_triggered_on` is what tells "already handled today"
//! apart from "due again".

use vstd::prelude::*;
use crate::calendar::{Date, DateTime, MAX_DAY};
use crate::text::{append_padded, padded};

verus! {

/// Day of the week.
#[derive(Clone, Copy, Debug, PartialEq, Eq, Structural, Hash)]
pub enum Weekday {
    Mon,
    Tue,
    Wed,
    Thu,
    Fri,
    Sat,
    Sun,
}

impl Weekday {
    /// Position in the week, Monday being 0 and Sunday 6.
    pub open spec fn number(self) -> nat {
        match self {
            Weekday::Mon => 0,
            Weekday::Tue => 1,
            Weekday::Wed => 2,
            Weekday::Thu => 3,
            Weekday::Fri => 4,
            Weekday::Sat => 5,
            Weekday::Sun => 6,
        }
    }

    /// The weekday at position `n` of the week (Sunday for 6 and above).
    pub open spec fn of_number(n: nat) -> Weekday {
        if n == 0 {
            Weekday::Mon
        } else if n == 1 {
            Weekday::Tue
        } else if n == 2 {
            Weekday::Wed
        } else if n == 3 {
            Weekday::Thu
        } else if n == 4 {
            Weekday::Fri
        } else if n == 5 {
            Weekday::Sat
        } else {
            Weekday::Sun
        }
    }

    /// Three-letter name.
    pub open spec fn short_name(self) -> Seq<char> {
        match self {
            Weekday::Mon => "MON"@,
            Weekday::Tue => "TUE"@,
            Weekday::Wed => "WED"@,
            Weekday::Thu => "THU"@,
            Weekday::Fri => "FRI"@,
            Weekday::Sat => "SAT"@,
            Weekday::Sun => "SUN"@,
        }
    }

    /// One-letter name.
    pub open spec fn letter_name(self) -> Seq<char> {
        match self {
            Weekday::Mon => "M"@,
            Weekday::Tue => "T"@,
            Weekday::Wed => "W"@,
            Weekday::Thu => "T"@,
            Weekday::Fri => "F"@,
            Weekday::Sat => "S"@,
            Weekday::Sun => "S"@,
        }
    }

    /// The seven days, Monday first.
    pub open spec fn week() -> Seq<Weekday> {
        seq![
            Weekday::Mon,
            Weekday::Tue,
            Weekday::Wed,
            Weekday::Thu,
            Weekday::Fri,
            Weekday::Sat,
            Weekday::Sun,
        ]
    }

    /// The seven days, Monday first.
    pub fn all() -> (days: [Weekday; 7])
        ensures
            days@ == Self::week(),
    {
        let days = [
            Weekday::Mon,
            Weekday::Tue,
            Weekday::Wed,
            Weekday::Thu,
            Weekday::Fri,
            Weekday::Sat,
            Weekday::Sun,
        ];
        assert(days@ =~= Self::week());
        days
    }

    /// Three-letter upper-case name, e.g. `MON`.
    pub fn short(self) -> (s: &'static str)
        ensures
            s@ == self.short_name(),
    {
        match self {
            Weekday::Mon => "MON",
            Weekday::Tue => "TUE",
            Weekday::Wed => "WED",
            Weekday::Thu => "THU",
            Weekday::Fri => "FRI",
            Weekday::Sat => "SAT",
            Weekday::Sun => "SUN",
        }
    }

    /// One-letter name, e.g. `M`.
    pub fn letter(self) -> (s: &'static str)
        ensures
            s@ == self.letter_name(),
    {
        match self {
            Weekday::Mon => "M",
            Weekday::Tue => "T",
            Weekday::Wed => "W",
            Weekday::Thu => "T",
            Weekday::Fri => "F",
            Weekday::Sat => "S",
            Weekday::Sun => "S",
        }
    }

    /// The weekday at position `n` of the week, Monday being 0.
    pub fn from_number(n: u32) -> (w: Weekday)
        requires
            n < 7,
        ensures
            w.number() == n,
            w == Self::of_number(n as nat),
    {
        if n == 0 {
            Weekday::Mon
        } else if n == 1 {
            Weekday::Tue
        } else if n == 2 {
            Weekday::Wed
        } else if n == 3 {
            Weekday::Thu
        } else if n == 4 {
            Weekday::Fri
        } else if n == 5 {
            Weekday::Sat
        } else {
            Weekday::Sun
        }
    }
}

/// The day of the week of a calendar day, as chrono reckons it.
pub open spec fn weekday_of(d: Date) -> Weekday {
    Weekday::of_number(d.weekday_number() as nat)
}

/// The day of the week of a calendar day, as chrono reckons it.
pub fn weekday_of_date(d: Date) -> (w: Weekday)
    requires
        d.wf(),
    ensures
        w == weekday_of(d),
{
    let n = d.day_of_week();
    Weekday::from_number(n)
}

/// How an alarm repeats, as a mathematical value.
pub enum RepeatView {
    Once,
    Daily,
    Custom(Seq<Weekday>),
}

impl RepeatView {
    /// Whether an alarm with this repeat mode may fire on a day that is `today`
    /// in the week. An empty custom list behaves like `Once`.
    pub open spec fn is_due(self, today: Weekday) -> bool {
        match self {
            RepeatView::Once => true,
            RepeatView::Daily => true,
            RepeatView::Custom(days) => days.len() == 0 || days.contains(today),
        }
    }

    /// Daily and custom alarms repeat; a one-shot, and a custom list without
    /// any day (which behaves like `Once`), do not.
    pub open spec fn is_repeating(self) -> bool {
        match self {
            RepeatView::Once => false,
            RepeatView::Daily => true,
            RepeatView::Custom(days) => days.len() > 0,
        }
    }
}

/// How an alarm repeats.
#[derive(Debug)]
pub enum RepeatMode {
    /// Fires once, then moves to `Completed` for good.
    Once,
    /// Fires every day.
    Daily,
    /// Fires only on the listed weekdays. An empty list behaves like `Once`.
    Custom(Vec<Weekday>),
}

impl View for RepeatMode {
    type V = RepeatView;

    open spec fn view(&self) -> RepeatView {
        match self {
            RepeatMode::Once => RepeatView::Once,
            RepeatMode::Daily => RepeatView::Daily,
            RepeatMode::Custom(days) => RepeatView::Custom(days@),
        }
    }
}

/// A copy of a list of weekdays.
pub fn copy_days(days: &Vec<Weekday>) -> (r: Vec<Weekday>)
    ensures
        r@ == days@,
{
    let mut r: Vec<Weekday> = Vec::new();
    let mut i: usize = 0;
    while i < days.len()
        invariant
            i <= days.len(),
            r@ == days@.take(i as int),
        decreases days.len() - i,
    {
        r.push(days[i]);
        i = i + 1;
        assert(r@ =~= days@.take(i as int));
    }
    assert(days@.take(i as int) =~= days@);
    r
}

impl Clone for RepeatMode {
    fn clone(&self) -> (r: Self)
        ensures
            r@ == self@,
    {
        match self {
            RepeatMode::Once => RepeatMode::Once,
            RepeatMode::Daily => RepeatMode::Daily,
            RepeatMode::Custom(days) => RepeatMode::Custom(copy_days(days)),
        }
    }
}

/// Number of times `w` occurs in `s`.
pub open spec fn count_in(s: Seq<Weekday>, w: Weekday) -> nat
    decreases s.len(),
{
    if s.len() == 0 {
        0
    } else {
        count_in(s.drop_last(), w) + if s.last() == w {
            1nat
        } else {
            0nat
        }
    }
}

/// The days of `days` that fall on the first `k` weekdays of the week, in
/// week order: each weekday repeated as often as it occurs in `days`.
pub open spec fn sorted_prefix(days: Seq<Weekday>, k: nat) -> Seq<Weekday>
    decreases k,
{
    if k == 0 {
        Seq::empty()
    } else {
        let w = Weekday::of_number((k - 1) as nat);
        sorted_prefix(days, (k - 1) as nat) + Seq::new(count_in(days, w), |i: int| w)
    }
}

/// `days` ordered Monday first: the same days, each as often as it occurs,
/// in week order (what a stable sort by position in the week gives).
pub open spec fn sorted_days(days: Seq<Weekday>) -> Seq<Weekday> {
    sorted_prefix(days, 7)
}

/// The three-letter names of `days`, separated by single spaces.
pub open spec fn joined_names(days: Seq<Weekday>) -> Seq<char>
    decreases days.len(),
{
    if days.len() == 0 {
        Seq::empty()
    } else if days.len() == 1 {
        days[0].short_name()
    } else {
        joined_names(days.drop_last()) + " "@ + days.last().short_name()
    }
}

/// The compact label of a repeat mode: `ONCE`, `DAILY`, `MON-FRI`, or the
/// listed days in week order separated by spaces, such as `SAT SUN`.
pub open spec fn repeat_label(r: RepeatView) -> Seq<char> {
    match r {
        RepeatView::Once => "ONCE"@,
        RepeatView::Daily => "DAILY"@,
        RepeatView::Custom(days) => if days.len() == 0 {
            "ONCE"@
        } else {
            let sorted = sorted_days(days);
            if sorted == seq![Weekday::Mon, Weekday::Tue, Weekday::Wed, Weekday::Thu, Weekday::Fri] {
                "MON-FRI"@
            } else {
                joined_names(sorted)
            }
        },
    }
}


/// Number of times `w` occurs in `days`.
pub fn count_day(days: &Vec<Weekday>, w: Weekday) -> (c: usize)
    ensures
        c == count_in(days@, w),
        c <= days@.len(),
{
    let mut c: usize = 0;
    let mut i: usize = 0;
    while i < days.len()
        invariant
            i <= days.len(),
            c <= i,
            c == count_in(days@.take(i as int), w),
        decreases days.len() - i,
    {
        assert(days@.take(i + 1).drop_last() =~= days@.take(i as int));
        if days[i] == w {
            c = c + 1;
        }
        i = i + 1;
    }
    assert(days@.take(i as int) =~= days@);
    c
}

/// The days of `days` in week order, Monday first, each kept as often as
/// it occurs.
pub fn sort_days(days: &Vec<Weekday>) -> (r: Vec<Weekday>)
    ensures
        r@ == sorted_days(days@),
{
    let mut r: Vec<Weekday> = Vec::new();
    let mut k: u32 = 0;
    while k < 7
        invariant
            k <= 7,
            r@ == sorted_prefix(days@, k as nat),
        decreases 7 - k,
    {
        let w = Weekday::from_number(k);
        let c = count_day(days, w);
        let ghost before = r@;
        let mut j: usize = 0;
        while j < c
            invariant
                j <= c,
                r@ == before + Seq::new(j as nat, |i: int| w),
            decreases c - j,
        {
            r.push(w);
            j = j + 1;
            assert(r@ =~= before + Seq::new(j as nat, |i: int| w));
        }
        k = k + 1;
        assert(r@ =~= sorted_prefix(days@, k as nat));
    }
    r
}

/// The three-letter names of `days`, separated by single spaces.
pub fn join_names(days: &Vec<Weekday>) -> (r: String)
    ensures
        r@ == joined_names(days@),
{
    let mut r = String::new();
    let mut i: usize = 0;
    while i < days.len()
        invariant
            i <= days.len(),
            r@ == joined_names(days@.take(i as int)),
        decreases days.len() - i,
    {
        assert(days@.take(i + 1).drop_last() =~= days@.take(i as int));
        if i > 0 {
            proof { reveal_strlit(" "); }
            r.append(" ");
        }
        r.append(days[i].short());
        i = i + 1;
        proof {
            if i == 1 {
                assert(r@ =~= joined_names(days@.take(i as int)));
            } else {
                assert(r@ =~= joined_names(days@.take(i as int)));
            }
        }
    }
    assert(days@.take(i as int) =~= days@);
    r
}

impl RepeatMode {
    /// Compact label for the alarm grid: `ONCE`, `DAILY`, `MON-FRI`, or the
    /// chosen days in week order separated by spaces, such as `SAT SUN`.
    pub fn label(&self) -> (s: String)
        ensures
            s@ == repeat_label(self@),
    {
        match self {
            RepeatMode::Once => String::from_str("ONCE"),
            RepeatMode::Daily => String::from_str("DAILY"),
            RepeatMode::Custom(days) => {
                if days.len() == 0 {
                    return String::from_str("ONCE");
                }
                let sorted = sort_days(days);
                if sorted.len() == 5 && sorted[0] == Weekday::Mon && sorted[1] == Weekday::Tue
                    && sorted[2] == Weekday::Wed && sorted[3] == Weekday::Thu && sorted[4]
                    == Weekday::Fri {
                    assert(sorted@ =~= seq![Weekday::Mon, Weekday::Tue, Weekday::Wed, Weekday::Thu, Weekday::Fri]);
                    return String::from_str("MON-FRI");
                }
                join_names(&sorted)
            },
        }
    }

    /// Whether the alarm may fire on a day that is `today` in the week.
    pub fn is_due(&self, today: Weekday) -> (due: bool)
        ensures
            due == self@.is_due(today),
    {
        match self {
            RepeatMode::Once => true,
            RepeatMode::Daily => true,
            RepeatMode::Custom(days) => {
                if days.len() == 0 {
                    true
                } else {
                    let mut i: usize = 0;
                    while i < days.len()
                        invariant
                            i <= days.len(),
                            self@ == RepeatView::Custom(days@),
                            forall|j: int| 0 <= j < i ==> days@[j] != today,
                        decreases days.len() - i,
                    {
                        if days[i] == today {
                            assert(days@[i as int] == today);
                            assert(days@.contains(today));
                            return true;
                        }
                        i = i + 1;
                    }
                    false
                }
            },
        }
    }

    /// Whether the alarm fires more than once.
    pub fn is_repeating(&self) -> (r: bool)
        ensures
            r == self@.is_repeating(),
    {
        match self {
            RepeatMode::Once => false,
            RepeatMode::Daily => true,
            RepeatMode::Custom(days) => days.len() > 0,
        }
    }
}

/// Lifecycle state of an alarm, independent of the `enabled` switch.
#[derive(Clone, Copy, Debug, PartialEq, Eq, Structural)]
pub enum AlarmState {
    /// Waiting for its trigger time.
    Scheduled,
    /// Currently sounding; waiting for the user to press STOP.
    Ringing,
    /// Already fired (and was stopped) today, or for good for a one-shot alarm.
    Completed,
}

impl Default for AlarmState {
    fn default() -> (s: Self)
        ensures
            s == AlarmState::Scheduled,
    {
        AlarmState::Scheduled
    }
}

/// Colour class of an alarm's status badge.
#[derive(Clone, Copy, Debug, PartialEq, Eq, Structural)]
pub enum BadgeColor {
    Okay,
    Alert,
    Dim,
}

/// An alarm as a mathematical value.
pub struct AlarmView {
    pub id: u64,
    pub name: Seq<char>,
    pub hour: u32,
    pub minute: u32,
    pub enabled: bool,
    pub sound_path: Option<Seq<char>>,
    pub repeat: RepeatView,
    pub state: AlarmState,
    pub last_triggered_on: Option<Date>,
}

/// One alarm.
#[derive(Debug)]
pub struct Alarm {
    pub id: u64,
    pub name: String,
    pub hour: u32,
    pub minute: u32,
    pub enabled: bool,
    pub sound_path: Option<String>,
    pub repeat: RepeatMode,
    pub state: AlarmState,
    /// The calendar day this alarm last started ringing on. It keeps a
    /// trigger from firing twice on one day, and tells when a `Completed`
    /// repeating alarm is due again.
    pub last_triggered_on: Option<Date>,
}

/// The view of an optional string.
pub open spec fn opt_view(s: Option<String>) -> Option<Seq<char>> {
    match s {
        Some(p) => Some(p@),
        None => None,
    }
}

impl View for Alarm {
    type V = AlarmView;

    open spec fn view(&self) -> AlarmView {
        AlarmView {
            id: self.id,
            name: self.name@,
            hour: self.hour,
            minute: self.minute,
            enabled: self.enabled,
            sound_path: opt_view(self.sound_path),
            repeat: self.repeat@,
            state: self.state,
            last_triggered_on: self.last_triggered_on,
        }
    }
}

/// A copy of an optional string.
pub fn copy_opt_string(s: &Option<String>) -> (r: Option<String>)
    ensures
        opt_view(r) == opt_view(*s),
{
    match s {
        Some(p) => Some(p.clone()),
        None => None,
    }
}

impl Clone for Alarm {
    fn clone(&self) -> (r: Self)
        ensures
            r@ == self@,
    {
        Alarm {
            id: self.id,
            name: self.name.clone(),
            hour: self.hour,
            minute: self.minute,
            enabled: self.enabled,
            sound_path: copy_opt_string(&self.sound_path),
            repeat: self.repeat.clone(),
            state: self.state,
            last_triggered_on: self.last_triggered_on,
        }
    }
}

/// `HH:MM`, each part zero-padded to two digits.
pub open spec fn time_text(hour: u32, minute: u32) -> Seq<char> {
    padded(hour as nat, 2) + ":"@ + padded(minute as nat, 2)
}

/// The state an alarm shows on `today`: `enabled` aside, a `Completed`
/// repeating alarm is `Scheduled` again once the day it fired on is over.
pub open spec fn display_state_of(a: AlarmView, today: Date) -> AlarmState {
    if a.state == AlarmState::Ringing {
        AlarmState::Ringing
    } else if a.state == AlarmState::Completed {
        if a.last_triggered_on != Some(today) && a.repeat.is_repeating() {
            AlarmState::Scheduled
        } else {
            AlarmState::Completed
        }
    } else {
        AlarmState::Scheduled
    }
}

/// Text and colour of an alarm's badge on `today`.
pub open spec fn badge_of(a: AlarmView, today: Date) -> (Seq<char>, BadgeColor) {
    if !a.enabled {
        ("OFF"@, BadgeColor::Dim)
    } else {
        match display_state_of(a, today) {
            AlarmState::Ringing => ("RINGING"@, BadgeColor::Alert),
            AlarmState::Completed => ("DONE"@, BadgeColor::Dim),
            AlarmState::Scheduled => ("ACTIVE"@, BadgeColor::Okay),
        }
    }
}

/// Whether the alarm starts ringing at `now`: it is switched on, not
/// already ringing, not a one-shot that completed for good, has not fired
/// on this day yet, is set to this hour and minute, and its repeat mode
/// lets it fire on this day of the week.
pub open spec fn should_trigger_at(a: AlarmView, now: DateTime) -> bool {
    &&& a.enabled
    &&& a.state != AlarmState::Ringing
    &&& !(a.state == AlarmState::Completed && !a.repeat.is_repeating())
    &&& a.last_triggered_on != Some(now.date)
    &&& now.hour == a.hour
    &&& now.minute == a.minute
    &&& a.repeat.is_due(weekday_of(now.date))
}

/// The slot of the alarm `k` days after the day of `from`, at the alarm's
/// hour and minute and zero seconds.
pub open spec fn slot(a: AlarmView, from: DateTime, k: int) -> DateTime {
    DateTime {
        date: Date { days_from_ce: (from.date.days_from_ce + k) as i32 },
        hour: a.hour,
        minute: a.minute,
        second: 0,
    }
}

/// The start of `t`'s minute (its seconds set to zero).
pub open spec fn minute_start(t: DateTime) -> DateTime {
    DateTime { second: 0, ..t }
}

/// Whether the slot `k` days after `from` is the alarm's next occurrence
/// candidate: its day is a due day, it is not before `from`'s own minute,
/// and it is not today's slot of a one-shot alarm that already fired today.
pub open spec fn slot_open(a: AlarmView, from: DateTime, k: int) -> bool {
    let c = slot(a, from, k);
    &&& a.repeat.is_due(weekday_of(c.date))
    &&& c.at_or_after(minute_start(from))
    &&& !(k == 0 && a.last_triggered_on == Some(c.date) && !a.repeat.is_repeating())
}

/// The first open slot among the days `k`, `k + 1`, ..., 7 after `from`.
pub open spec fn first_open_slot(a: AlarmView, from: DateTime, k: int) -> Option<DateTime>
    decreases 8 - k,
{
    if k >= 8 || k < 0 {
        None
    } else if slot_open(a, from, k) {
        Some(slot(a, from, k))
    } else {
        first_open_slot(a, from, k + 1)
    }
}

/// The next time the alarm is due, searching the eight days from the day
/// of `from` on, `from`'s own minute included. None when the alarm is off, is a one-shot that completed, has
/// an hour or minute that names no time of day, or has no open slot.
pub open spec fn next_occurrence_of(a: AlarmView, from: DateTime) -> Option<DateTime> {
    if !a.enabled {
        None
    } else if a.state == AlarmState::Completed && !a.repeat.is_repeating() {
        None
    } else if a.hour >= 24 || a.minute >= 60 {
        None
    } else {
        first_open_slot(a, from, 0)
    }
}

/// Whether the search for the next occurrence stops at the day `k` after
/// the day of `from`: the day is a due day and either the alarm's hour or
/// minute names no time of day or the slot is open.
pub open spec fn search_ends_at(a: AlarmView, from: DateTime, k: int) -> bool {
    &&& a.repeat.is_due(weekday_of(slot(a, from, k).date))
    &&& (a.hour >= 24 || a.minute >= 60 || slot_open(a, from, k))
}

/// Whether the search for the next occurrence only visits days that can be
/// represented (up to `MAX_DAY`): it is not run (the alarm is off or a
/// one-shot that completed), the whole week after `from` is representable,
/// or it stops on a representable day.
pub open spec fn search_in_range(a: AlarmView, from: DateTime) -> bool {
    ||| !a.enabled
    ||| (a.state == AlarmState::Completed && !a.repeat.is_repeating())
    ||| from.date.days_from_ce + 7 <= MAX_DAY
    ||| exists|k: int| 0 <= k < 8 && from.date.days_from_ce + k <= MAX_DAY && #[trigger] search_ends_at(a, from, k)
}

/// Every alarm's search for its next occurrence from `from` stays in range.
pub open spec fn searches_in_range(s: Seq<AlarmView>, from: DateTime) -> bool {
    forall|j: int| 0 <= j < s.len() ==> search_in_range(#[trigger] s[j], from)
}

impl Alarm {
    /// A new one-shot, enabled, scheduled alarm with no sound file; the hour
    /// is capped at 23 and the minute at 59.
    pub fn new(id: u64, name: String, hour: u32, minute: u32) -> (a: Self)
        ensures
            a@ == (AlarmView {
                id,
                name: name@,
                hour: if hour > 23 { 23 } else { hour },
                minute: if minute > 59 { 59 } else { minute },
                enabled: true,
                sound_path: None,
                repeat: RepeatView::Once,
                state: AlarmState::Scheduled,
                last_triggered_on: None,
            }),
    {
        Alarm {
            id,
            name,
            hour: if hour > 23 { 23 } else { hour },
            minute: if minute > 59 { 59 } else { minute },
            enabled: true,
            sound_path: None,
            repeat: RepeatMode::Once,
            state: AlarmState::Scheduled,
            last_triggered_on: None,
        }
    }

    /// `HH:MM`.
    pub fn time_label(&self) -> (s: String)
        ensures
            s@ == time_text(self.hour, self.minute),
    {
        let mut s = String::new();
        append_padded(&mut s, self.hour as u64, 2);
        proof { reveal_strlit(":"); }
        s.append(":");
        append_padded(&mut s, self.minute as u64, 2);
        assert(s@ =~= time_text(self.hour, self.minute));
        s
    }

    /// The state shown on `today`: `Ringing` stays `Ringing`; a `Completed`
    /// repeating alarm shows `Scheduled` again once its day is over.
    pub fn display_state(&self, today: Date) -> (st: AlarmState)
        ensures
            st == display_state_of(self@, today),
    {
        if self.state == AlarmState::Ringing {
            return AlarmState::Ringing;
        }
        if self.state == AlarmState::Completed {
            let still_today = match self.last_triggered_on {
                Some(d) => d == today,
                None => false,
            };
            if !still_today && self.repeat.is_repeating() {
                return AlarmState::Scheduled;
            }
            return AlarmState::Completed;
        }
        AlarmState::Scheduled
    }

    /// Badge text and colour on `today`.
    pub fn badge(&self, today: Date) -> (b: (&'static str, BadgeColor))
        ensures
            (b.0@, b.1) == badge_of(self@, today),
    {
        if !self.enabled {
            return ("OFF", BadgeColor::Dim);
        }
        match self.display_state(today) {
            AlarmState::Ringing => ("RINGING", BadgeColor::Alert),
            AlarmState::Completed => ("DONE", BadgeColor::Dim),
            AlarmState::Scheduled => ("ACTIVE", BadgeColor::Okay),
        }
    }

    /// Whether this alarm starts ringing at `now`.
    pub fn should_trigger(&self, now: DateTime) -> (t: bool)
        requires
            now.wf(),
        ensures
            t == should_trigger_at(self@, now),
    {
        if !self.enabled {
            return false;
        }
        if self.state == AlarmState::Ringing {
            return false;
        }
        if self.state == AlarmState::Completed && !self.repeat.is_repeating() {
            return false;
        }
        let today = now.date;
        let fired_today = match self.last_triggered_on {
            Some(d) => d == today,
            None => false,
        };
        if fired_today {
            return false;
        }
        if now.hour != self.hour || now.minute != self.minute {
            return false;
        }
        self.repeat.is_due(weekday_of_date(now.date))
    }

    /// Whether the search stops at the day `k` after the day of `from`.
    fn ends_search_at(&self, from: DateTime, k: i32) -> (b: bool)
        requires
            from.wf(),
            0 <= k < 8,
            from.date.days_from_ce + k <= MAX_DAY,
        ensures
            b == search_ends_at(self@, from, k as int),
    {
        let candidate_date = Date { days_from_ce: from.date.days_from_ce + k };
        if !self.repeat.is_due(weekday_of_date(candidate_date)) {
            return false;
        }
        if self.hour >= 24 || self.minute >= 60 {
            return true;
        }
        let candidate = DateTime { date: candidate_date, hour: self.hour, minute: self.minute, second: 0 };
        let from_minute = DateTime { second: 0, ..from };
        if !candidate.is_at_or_after(&from_minute) {
            return false;
        }
        let fired_that_day = match self.last_triggered_on {
            Some(d) => d == candidate_date,
            None => false,
        };
        !(k == 0 && fired_that_day && !self.repeat.is_repeating())
    }

    /// Whether the search for the next occurrence from `from` only visits
    /// representable days (see `search_in_range`); `next_occurrence` needs
    /// it.
    pub fn search_stays_in_range(&self, from: DateTime) -> (b: bool)
        requires
            from.wf(),
        ensures
            b == search_in_range(self@, from),
    {
        if !self.enabled {
            return true;
        }
        if self.state == AlarmState::Completed && !self.repeat.is_repeating() {
            return true;
        }
        if from.date.days_from_ce <= MAX_DAY - 7 {
            return true;
        }
        let mut k: i32 = 0;
        while k < 8 && from.date.days_from_ce + k <= MAX_DAY
            invariant
                0 <= k <= 8,
                from.wf(),
                forall|j: int| 0 <= j < k ==> !#[trigger] search_ends_at(self@, from, j),
            decreases 8 - k,
        {
            if self.ends_search_at(from, k) {
                return true;
            }
            k = k + 1;
        }
        assert forall|j: int| 0 <= j < 8 && from.date.days_from_ce + j <= MAX_DAY implies !#[trigger] search_ends_at(self@, from, j) by {
            assert(j < k);
        }
        false
    }

    /// The next time this alarm is due, from `from` on (the slot at `from`'s
    /// own minute included). None if the alarm is off, is a one-shot that
    /// completed, or has no due day in the coming week.
    pub fn next_occurrence(&self, from: DateTime) -> (r: Option<DateTime>)
        requires
            from.wf(),
            search_in_range(self@, from),
        ensures
            r == next_occurrence_of(self@, from),
    {
        if !self.enabled {
            return None;
        }
        if self.state == AlarmState::Completed && !self.repeat.is_repeating() {
            return None;
        }
        let mut day_offset: i32 = 0;
        while day_offset < 8
            invariant
                0 <= day_offset <= 8,
                from.wf(),
                search_in_range(self@, from),
                self@.enabled,
                !(self@.state == AlarmState::Completed && !self@.repeat.is_repeating()),
                forall|j: int| 0 <= j < day_offset ==> !#[trigger] search_ends_at(self@, from, j),
                self.hour < 24 && self.minute < 60 ==> first_open_slot(self@, from, 0)
                    == first_open_slot(self@, from, day_offset as int),
            decreases 8 - day_offset,
        {
            assert(from.date.days_from_ce + day_offset <= MAX_DAY) by {
                if from.date.days_from_ce + 7 > MAX_DAY {
                    let k = choose|k: int| 0 <= k < 8 && from.date.days_from_ce + k <= MAX_DAY && #[trigger] search_ends_at(self@, from, k);
                    assert(k >= day_offset);
                }
            }
            if self.ends_search_at(from, day_offset) {
                if self.hour >= 24 || self.minute >= 60 {
                    return None;
                }
                return Some(DateTime {
                    date: Date { days_from_ce: from.date.days_from_ce + day_offset },
                    hour: self.hour,
                    minute: self.minute,
                    second: 0,
                });
            }
            day_offset = day_offset + 1;
        }
        None
    }
}

/// The characters after the last `/` of `p` (all of `p` without a `/`).
pub open spec fn last_segment(p: Seq<char>) -> Seq<char>
    decreases p.len(),
{
    if p.len() == 0 {
        Seq::empty()
    } else if p.last() == '/' {
        Seq::empty()
    } else {
        last_segment(p.drop_last()).push(p.last())
    }
}

/// What `Path::file_name` gives on every platform, `/` separating path
/// components everywhere and `\` and drive or device prefixes (which use
/// `:` or a leading `//`) only on some: for a path without `\`, a name
/// found is a non-empty piece of the path without `/`; for a path that also
/// has no `:` and does not start with `//`, the name is the final segment
/// after the last `/` when that segment is neither empty, `.` nor `..`.
pub open spec fn file_name_fits(path: Seq<char>, r: Option<Seq<char>>) -> bool {
    &&& !path.contains('\\') ==> (r matches Some(f) ==> {
        &&& f.len() > 0
        &&& !f.contains('/')
        &&& exists|i: int, j: int| 0 <= i <= j <= path.len() && f == path.subrange(i, j)
    })
    &&& (!path.contains('\\') && !path.contains(':') && !(path.len() >= 2 && path[0] == '/'
        && path[1] == '/') && last_segment(path).len() > 0 && last_segment(path) != seq!['.']
        && last_segment(path) != seq!['.', '.']) ==> r == Some(last_segment(path))
}

/// The last component of a file path, asked of `std::path::Path::file_name`
/// and turned back into a `String` with `OsStr::to_string_lossy` (lossless
/// here, the path being UTF-8). The documentation of `file_name` gives the
/// final component of the path, `/` separating components on every
/// platform; the contract states what holds of that on every platform
/// (`file_name_fits`). How `\` and Windows prefixes split a path is left
/// unsaid, as it differs between platforms.
#[verifier::external_body]
pub(crate) fn path_file_name(path: &str) -> (r: Option<String>)
    ensures
        file_name_fits(path@, opt_view(r)),
{
    match std::path::Path::new(path).file_name() {
        Some(name) => Some(name.to_string_lossy().to_string()),
        None => None,
    }
}

/// Label of a sound file given the file name found in its path:
/// the name itself, or `UNKNOWN.WAV` when the path names no file.
pub fn file_label(file_name: Option<String>) -> (s: String)
    ensures
        s@ == match file_name {
            Some(f) => f@,
            None => "UNKNOWN.WAV"@,
        },
{
    match file_name {
        Some(f) => f,
        None => String::from_str("UNKNOWN.WAV"),
    }
}

impl Alarm {
    /// The sound column of the alarm grid: `SYSTEM BEEP` without a sound
    /// file, otherwise the file's name (`UNKNOWN.WAV` if its path has none).
    pub fn sound_label(&self) -> (s: String)
        ensures
            match self.sound_path {
                None => s@ == "SYSTEM BEEP"@,
                Some(p) => exists|f: Option<Seq<char>>| #![trigger file_name_fits(p@, f)] {
                    &&& file_name_fits(p@, f)
                    &&& s@ == match f {
                        Some(x) => x,
                        None => "UNKNOWN.WAV"@,
                    }
                },
            },
    {
        match &self.sound_path {
            Some(p) => {
                let name = path_file_name(p.as_str());
                let ghost f = opt_view(name);
                let s = file_label(name);
                assert(file_name_fits(p@, f));
                s
            },
            None => String::from_str("SYSTEM BEEP"),
        }
    }
}

} // verus!
