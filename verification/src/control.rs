//! The alarm list the dashboard edits: creation and edition from the form,
//! duplication, deletion, the on/off switch, stopping a ringing alarm, and
//! the scheduler pass over the list. Every operation keeps each alarm id
//! below the next id handed out, so new ids never collide with old ones.

use vstd::prelude::*;
use crate::alarm::{
    Alarm, AlarmState, AlarmView, copy_opt_string, opt_view, time_text, path_file_name, file_name_fits,
    searches_in_range,
};
use crate::calendar::DateTime;
use crate::config::ConfigFile;
use crate::event_log::{EventLog, Severity, appended, appended_all, lemma_appended_all_push, push_line};
use crate::form::{AlarmForm, repeat_of};
use crate::scheduler::{
    Scheduler, SchedulerEvent, Trigger, alarm_views, step, step_all, triggers_of, trigger_views,
    next_alarm, earliest,
};
use crate::text::{append_padded, is_trim_of, padded, trim_text, upper_case, upper_text};
use crate::audio::{PlaybackKind, PlaybackView};

verus! {

/// The id the next new alarm gets after loading `s`: one past the largest
/// id, and 1 for an empty list.
pub open spec fn id_after(s: Seq<AlarmView>) -> int
    decreases s.len(),
{
    if s.len() == 0 {
        1
    } else {
        let prev = id_after(s.drop_last());
        if prev >= s.last().id + 1 {
            prev
        } else {
            s.last().id + 1
        }
    }
}

/// One past the largest id is at most any bound above every id (and 1).
pub proof fn lemma_id_after_at_most(s: Seq<AlarmView>, n: u64)
    requires
        ids_below(s, n),
        n >= 1,
    ensures
        id_after(s) <= n,
    decreases s.len(),
{
    if s.len() > 0 {
        let t = s.drop_last();
        assert(ids_below(t, n)) by {
            assert forall|k: int| 0 <= k < t.len() implies #[trigger] t[k].id < n by {
                assert(t[k] == s[k]);
            }
        }
        lemma_id_after_at_most(t, n);
        assert(s[s.len() - 1].id < n);
    }
}

/// `k` is the position of the first alarm of `s` with this id.
pub open spec fn first_with_id(s: Seq<AlarmView>, id: u64, k: int) -> bool {
    &&& 0 <= k < s.len()
    &&& s[k].id == id
    &&& forall|j: int| 0 <= j < k ==> s[j].id != id
}

/// Some alarm of `s` has this id.
pub open spec fn has_id(s: Seq<AlarmView>, id: u64) -> bool {
    exists|k: int| 0 <= k < s.len() && s[k].id == id
}

/// Every alarm id of `s` is below `bound`.
pub open spec fn ids_below(s: Seq<AlarmView>, bound: u64) -> bool {
    forall|k: int| 0 <= k < s.len() ==> #[trigger] s[k].id < bound
}

/// No two alarms of `s` share an id.
pub open spec fn ids_distinct(s: Seq<AlarmView>) -> bool {
    forall|i: int, j: int| 0 <= i < s.len() && 0 <= j < s.len() && i != j ==> #[trigger] s[i].id != #[trigger] s[j].id
}

/// Ids of the ringing alarms of `s`, in list order.
pub open spec fn ringing_of(s: Seq<AlarmView>) -> Seq<u64>
    decreases s.len(),
{
    if s.len() == 0 {
        Seq::empty()
    } else if s.last().state == AlarmState::Ringing {
        ringing_of(s.drop_last()).push(s.last().id)
    } else {
        ringing_of(s.drop_last())
    }
}

/// The alarm once stopped if it was ringing, unchanged otherwise.
pub open spec fn silenced(a: AlarmView) -> AlarmView {
    if a.state == AlarmState::Ringing {
        AlarmView { state: AlarmState::Completed, ..a }
    } else {
        a
    }
}

/// The log lines of stopping every ringing alarm of `s`, in list order.
pub open spec fn stop_lines(s: Seq<AlarmView>) -> Seq<(Severity, Seq<char>)>
    decreases s.len(),
{
    if s.len() == 0 {
        Seq::empty()
    } else if s.last().state == AlarmState::Ringing {
        stop_lines(s.drop_last()).push((Severity::Alarm, s.last().name + " STOPPED BY USER"@))
    } else {
        stop_lines(s.drop_last())
    }
}

/// The position of the first alarm of `s` with this id.
pub open spec fn first_pos(s: Seq<AlarmView>, id: u64) -> int {
    choose|k: int| first_with_id(s, id, k)
}

/// The list once the user stops the alarm with this id: the first alarm
/// with it becomes `Completed`; the list is unchanged without one.
pub open spec fn stopped_first(s: Seq<AlarmView>, id: u64) -> Seq<AlarmView> {
    if has_id(s, id) {
        s.update(first_pos(s, id), AlarmView { state: AlarmState::Completed, ..s[first_pos(s, id)] })
    } else {
        s
    }
}

/// The log line of stopping the alarm with this id: the first alarm's name
/// and `STOPPED BY USER`; no line without such an alarm.
pub open spec fn stop_line(s: Seq<AlarmView>, id: u64) -> Seq<(Severity, Seq<char>)> {
    if has_id(s, id) {
        seq![(Severity::Alarm, s[first_pos(s, id)].name + " STOPPED BY USER"@)]
    } else {
        Seq::empty()
    }
}

/// The list once the alarms with these ids were stopped one after the other.
pub open spec fn stopped_all(s: Seq<AlarmView>, ids: Seq<u64>) -> Seq<AlarmView>
    decreases ids.len(),
{
    if ids.len() == 0 {
        s
    } else {
        stopped_first(stopped_all(s, ids.drop_last()), ids.last())
    }
}

/// The log lines of stopping the alarms with these ids one after the other.
pub open spec fn stop_lines_of(s: Seq<AlarmView>, ids: Seq<u64>) -> Seq<(Severity, Seq<char>)>
    decreases ids.len(),
{
    if ids.len() == 0 {
        Seq::empty()
    } else {
        stop_lines_of(s, ids.drop_last()) + stop_line(stopped_all(s, ids.drop_last()), ids.last())
    }
}

/// There is only one first alarm with an id.
pub proof fn lemma_first_pos(s: Seq<AlarmView>, id: u64, k: int)
    requires
        first_with_id(s, id, k),
    ensures
        first_pos(s, id) == k,
        has_id(s, id),
{
    let j = first_pos(s, id);
    assert(first_with_id(s, id, j));
    if j < k {
        assert(s[j].id != id);
    } else if j > k {
        assert(s[k].id != id);
    }
}

/// Number of switched-on alarms of `s`.
pub open spec fn enabled_count(s: Seq<AlarmView>) -> nat
    decreases s.len(),
{
    if s.len() == 0 {
        0
    } else {
        enabled_count(s.drop_last()) + if s.last().enabled {
            1nat
        } else {
            0nat
        }
    }
}

/// Alarm `i` of `s` is shown before alarm `j`: it is set to an earlier
/// time of day, or to the same time and comes first in the list.
pub open spec fn shown_before(s: Seq<AlarmView>, i: int, j: int) -> bool {
    ||| s[i].hour < s[j].hour
    ||| s[i].hour == s[j].hour && s[i].minute < s[j].minute
    ||| s[i].hour == s[j].hour && s[i].minute == s[j].minute && i < j
}

/// `order` lists every position of `s` once, in display order.
pub open spec fn is_display_order(s: Seq<AlarmView>, order: Seq<usize>) -> bool {
    &&& order.len() == s.len()
    &&& forall|k: int| 0 <= k < order.len() ==> #[trigger] order[k] < s.len()
    &&& forall|k1: int, k2: int| 0 <= k1 < k2 < order.len() ==> shown_before(s, #[trigger] order[k1] as int, #[trigger] order[k2] as int)
}

/// The name the form gives an alarm: its trimmed text in upper case, or
/// `ALARM` when only whitespace is left.
pub open spec fn form_name(trimmed: Seq<char>) -> Seq<char> {
    if trimmed.len() == 0 {
        "ALARM"@
    } else {
        upper_case(trimmed)
    }
}

/// `s` followed by `suffix`.
fn with_suffix(s: &String, suffix: &str) -> (r: String)
    ensures
        r@ == s@ + suffix@,
{
    let mut r = s.clone();
    r.append(suffix);
    r
}

/// A copy of a list of alarms.
pub fn copy_alarms(alarms: &Vec<Alarm>) -> (r: Vec<Alarm>)
    ensures
        alarm_views(r@) == alarm_views(alarms@),
{
    let mut r: Vec<Alarm> = Vec::new();
    let mut i: usize = 0;
    while i < alarms.len()
        invariant
            i <= alarms.len(),
            r@.len() == i,
            forall|k: int| 0 <= k < i ==> #[trigger] r@[k]@ == alarms@[k]@,
        decreases alarms.len() - i,
    {
        r.push(alarms[i].clone());
        i = i + 1;
    }
    assert(alarm_views(r@) =~= alarm_views(alarms@));
    r
}

/// The edited list of alarms, with the next id to hand out.
pub struct AlarmBook {
    alarms: Vec<Alarm>,
    next_id: u64,
}

impl AlarmBook {
    #[verifier::type_invariant]
    spec fn ids_fresh(self) -> bool {
        &&& ids_below(alarm_views(self.alarms@), self.next_id)
        &&& self.next_id >= 1
    }

    /// The alarms, in list order.
    pub closed spec fn list(self) -> Seq<AlarmView> {
        alarm_views(self.alarms@)
    }

    /// The id the next new alarm gets.
    pub closed spec fn next(self) -> u64 {
        self.next_id
    }

    /// The alarms, in list order; every id is below the next id.
    pub fn alarms(&self) -> (r: &Vec<Alarm>)
        ensures
            alarm_views(r@) == self.list(),
            ids_below(self.list(), self.next()),
            self.next() >= 1,
    {
        proof { use_type_invariant(self); }
        &self.alarms
    }

    /// The id the next new alarm gets.
    pub fn next_id(&self) -> (n: u64)
        ensures
            n == self.next(),
            ids_below(self.list(), self.next()),
            n >= 1,
    {
        proof { use_type_invariant(self); }
        self.next_id
    }

    /// The list loaded from a configuration file. The next id is the file's
    /// own, raised to one past the largest alarm id (and to 1 at least).
    pub fn from_config(cfg: ConfigFile) -> (b: Self)
        requires
            forall|k: int| 0 <= k < cfg.alarms@.len() ==> #[trigger] cfg.alarms@[k].id < u64::MAX,
        ensures
            b.list() == alarm_views(cfg.alarms@),
            b.next() == if cfg.next_id >= id_after(alarm_views(cfg.alarms@)) {
                cfg.next_id as int
            } else {
                id_after(alarm_views(cfg.alarms@))
            },
    {
        let ghost views = alarm_views(cfg.alarms@);
        let mut bound: u64 = 1;
        let mut i: usize = 0;
        while i < cfg.alarms.len()
            invariant
                i <= cfg.alarms.len(),
                views == alarm_views(cfg.alarms@),
                forall|k: int| 0 <= k < cfg.alarms@.len() ==> #[trigger] cfg.alarms@[k].id < u64::MAX,
                bound == id_after(views.take(i as int)),
                ids_below(views.take(i as int), bound),
                bound >= 1,
            decreases cfg.alarms.len() - i,
        {
            assert(views.take(i + 1).drop_last() =~= views.take(i as int));
            assert(views.take(i + 1).last() == cfg.alarms@[i as int]@);
            let id = cfg.alarms[i].id;
            if id + 1 > bound {
                bound = id + 1;
            }
            i = i + 1;
            assert(ids_below(views.take(i as int), bound)) by {
                assert forall|k: int| 0 <= k < i implies #[trigger] views.take(i as int)[k].id < bound by {
                    if k < i - 1 {
                        assert(views.take(i as int)[k] == views.take(i - 1)[k]);
                    }
                }
            }
        }
        assert(views.take(i as int) =~= views);
        let next_id = if cfg.next_id >= bound { cfg.next_id } else { bound };
        AlarmBook { alarms: cfg.alarms, next_id }
    }

    /// The configuration to save: schema version 1, the next id, the alarms.
    pub fn to_config(&self) -> (c: ConfigFile)
        ensures
            c.version == 1,
            c.next_id == self.next(),
            alarm_views(c.alarms@) == self.list(),
    {
        ConfigFile { version: 1, next_id: self.next_id, alarms: copy_alarms(&self.alarms) }
    }

    /// Marks the first alarm with this id `Completed` (the user pressed
    /// STOP) and logs `<NAME> STOPPED BY USER`; nothing happens without
    /// such an alarm.
    pub fn stop_alarm(&mut self, id: u64, log: &mut EventLog)
        ensures
            final(self).next() == old(self).next(),
            has_id(old(self).list(), id) ==> exists|k: int| #![trigger first_with_id(old(self).list(), id, k)] {
                &&& first_with_id(old(self).list(), id, k)
                &&& final(self).list() == old(self).list().update(
                    k,
                    AlarmView { state: AlarmState::Completed, ..old(self).list()[k] },
                )
                &&& appended(old(log).lines(), final(log).lines(), Severity::Alarm, old(self).list()[k].name + " STOPPED BY USER"@)
            },
            !has_id(old(self).list(), id) ==> final(self).list() == old(self).list() && final(log).lines() == old(log).lines(),
    {
        match self.position(id) {
            Some(k) => {
                proof { use_type_invariant(&*self); }
                let mut alarms: Vec<Alarm> = Vec::new();
                std::mem::swap(&mut alarms, &mut self.alarms);
                alarms[k].state = AlarmState::Completed;
                let msg = with_suffix(&alarms[k].name, " STOPPED BY USER");
                assert(ids_below(alarm_views(alarms@), self.next_id)) by {
                    assert forall|j: int| 0 <= j < alarms@.len() implies #[trigger] alarm_views(alarms@)[j].id < self.next_id by {
                        assert(alarm_views(old(self).alarms@)[j].id < self.next_id);
                    }
                }
                std::mem::swap(&mut alarms, &mut self.alarms);
                log.push(Severity::Alarm, msg);
                assert(self.list() =~= old(self).list().update(
                    k as int,
                    AlarmView { state: AlarmState::Completed, ..old(self).list()[k as int] },
                ));
            },
            None => {},
        }
    }

    /// Flips the on/off switch of the first alarm with this id and logs
    /// `<NAME> ENABLED` or `<NAME> DISABLED`; nothing happens without such
    /// an alarm.
    pub fn toggle_enabled(&mut self, id: u64, log: &mut EventLog)
        ensures
            final(self).next() == old(self).next(),
            has_id(old(self).list(), id) ==> exists|k: int| #![trigger first_with_id(old(self).list(), id, k)] {
                let a = old(self).list()[k];
                &&& first_with_id(old(self).list(), id, k)
                &&& final(self).list() == old(self).list().update(k, AlarmView { enabled: !a.enabled, ..a })
                &&& appended(
                    old(log).lines(),
                    final(log).lines(),
                    Severity::Alarm,
                    a.name + if !a.enabled { " ENABLED"@ } else { " DISABLED"@ },
                )
            },
            !has_id(old(self).list(), id) ==> final(self).list() == old(self).list() && final(log).lines() == old(log).lines(),
    {
        match self.position(id) {
            Some(k) => {
                proof { use_type_invariant(&*self); }
                let mut alarms: Vec<Alarm> = Vec::new();
                std::mem::swap(&mut alarms, &mut self.alarms);
                let enabled = !alarms[k].enabled;
                alarms[k].enabled = enabled;
                let msg = if enabled {
                    with_suffix(&alarms[k].name, " ENABLED")
                } else {
                    with_suffix(&alarms[k].name, " DISABLED")
                };
                assert(ids_below(alarm_views(alarms@), self.next_id)) by {
                    assert forall|j: int| 0 <= j < alarms@.len() implies #[trigger] alarm_views(alarms@)[j].id < self.next_id by {
                        assert(alarm_views(old(self).alarms@)[j].id < self.next_id);
                    }
                }
                std::mem::swap(&mut alarms, &mut self.alarms);
                log.push(Severity::Alarm, msg);
                assert(self.list() =~= old(self).list().update(
                    k as int,
                    AlarmView { enabled, ..old(self).list()[k as int] },
                ));
            },
            None => {},
        }
    }

    /// Removes the first alarm with this id and logs `<NAME> deleted`;
    /// returns whether there was one (whose sound must then be stopped).
    pub fn delete_alarm(&mut self, id: u64, log: &mut EventLog) -> (removed: bool)
        ensures
            removed == has_id(old(self).list(), id),
            final(self).next() == old(self).next(),
            removed ==> exists|k: int| #![trigger first_with_id(old(self).list(), id, k)] {
                &&& first_with_id(old(self).list(), id, k)
                &&& final(self).list() == old(self).list().remove(k)
                &&& appended(old(log).lines(), final(log).lines(), Severity::Alarm, old(self).list()[k].name + " deleted"@)
            },
            !removed ==> final(self).list() == old(self).list() && final(log).lines() == old(log).lines(),
    {
        match self.position(id) {
            Some(k) => {
                proof { use_type_invariant(&*self); }
                let ghost before = self.alarms@;
                let mut alarms: Vec<Alarm> = Vec::new();
                std::mem::swap(&mut alarms, &mut self.alarms);
                let alarm = alarms.remove(k);
                assert(alarm_views(alarms@) =~= alarm_views(before).remove(k as int));
                assert(ids_below(alarm_views(alarms@), self.next_id)) by {
                    assert forall|j: int| 0 <= j < alarms@.len() implies #[trigger] alarm_views(alarms@)[j].id < self.next_id by {
                        if j < k {
                            assert(alarm_views(before)[j].id < self.next_id);
                        } else {
                            assert(alarm_views(before)[j + 1].id < self.next_id);
                        }
                    }
                }
                std::mem::swap(&mut alarms, &mut self.alarms);
                let msg = with_suffix(&alarm.name, " deleted");
                log.push(Severity::Alarm, msg);
                true
            },
            None => false,
        }
    }

    /// Appends a copy of the first alarm with this id under the next id,
    /// named `<NAME> (COPY)`, `Scheduled` and never triggered, and logs
    /// `<NAME> (COPY) duplicated`; returns whether there was such an alarm.
    pub fn duplicate_alarm(&mut self, id: u64, log: &mut EventLog) -> (copied: bool)
        requires
            has_id(old(self).list(), id) ==> old(self).next() < u64::MAX,
        ensures
            copied == has_id(old(self).list(), id),
            copied ==> exists|k: int| #![trigger first_with_id(old(self).list(), id, k)] {
                let src = old(self).list()[k];
                let copy = AlarmView {
                    id: old(self).next(),
                    name: src.name + " (COPY)"@,
                    state: AlarmState::Scheduled,
                    last_triggered_on: None,
                    ..src
                };
                &&& first_with_id(old(self).list(), id, k)
                &&& final(self).list() == old(self).list().push(copy)
                &&& final(self).next() == old(self).next() + 1
                &&& appended(old(log).lines(), final(log).lines(), Severity::Alarm, copy.name + " duplicated"@)
            },
            !copied ==> {
                &&& final(self).list() == old(self).list()
                &&& final(self).next() == old(self).next()
                &&& final(log).lines() == old(log).lines()
            },
    {
        match self.position(id) {
            Some(k) => {
                proof { use_type_invariant(&*self); }
                let mut copy = self.alarms[k].clone();
                let new_id = self.next_id;
                self.next_id = self.next_id + 1;
                copy.id = new_id;
                copy.name = with_suffix(&copy.name, " (COPY)");
                copy.state = AlarmState::Scheduled;
                copy.last_triggered_on = None;
                let msg = with_suffix(&copy.name, " duplicated");
                log.push(Severity::Alarm, msg);
                let mut alarms: Vec<Alarm> = Vec::new();
                std::mem::swap(&mut alarms, &mut self.alarms);
                let ghost before = alarms@;
                alarms.push(copy);
                assert(alarm_views(alarms@) =~= alarm_views(before).push(copy@));
                assert(ids_below(alarm_views(alarms@), self.next_id)) by {
                    assert forall|j: int| 0 <= j < alarms@.len() implies #[trigger] alarm_views(alarms@)[j].id < self.next_id by {
                        if j < before.len() {
                            assert(alarm_views(before)[j].id < old(self).next_id);
                        }
                    }
                }
                std::mem::swap(&mut alarms, &mut self.alarms);
                true
            },
            None => false,
        }
    }

    /// Saves the form: the name is the form's text trimmed and upper-cased
    /// (`ALARM` when blank), the hour capped at 23 and the minute at 59.
    /// Editing updates the first alarm with the edited id (if it still
    /// exists) and logs `<NAME> reconfigured`; otherwise a new alarm with
    /// the next id is appended and `<NAME> scheduled for HH:MM` logged.
    pub fn save_form(&mut self, form: &AlarmForm, log: &mut EventLog)
        requires
            form.editing_id is None ==> old(self).next() < u64::MAX,
        ensures
            exists|t: Seq<char>| #![trigger is_trim_of(form.name@, t)] {
                let name = form_name(t);
                let hour: u32 = if form.hour > 23 { 23 } else { form.hour };
                let minute: u32 = if form.minute > 59 { 59 } else { form.minute };
                let repeat = repeat_of(form.repeat_kind, form.custom_days@);
                &&& is_trim_of(form.name@, t)
                &&& match form.editing_id {
                    Some(id) => {
                        &&& final(self).next() == old(self).next()
                        &&& has_id(old(self).list(), id) ==> exists|k: int| #![trigger first_with_id(old(self).list(), id, k)] {
                            &&& first_with_id(old(self).list(), id, k)
                            &&& final(self).list() == old(self).list().update(k, AlarmView {
                                name,
                                hour,
                                minute,
                                sound_path: opt_view(form.sound_path),
                                enabled: form.enabled,
                                repeat,
                                ..old(self).list()[k]
                            })
                            &&& appended(old(log).lines(), final(log).lines(), Severity::Alarm, name + " reconfigured"@)
                        }
                        &&& !has_id(old(self).list(), id) ==> final(self).list() == old(self).list() && final(log).lines() == old(log).lines()
                    },
                    None => {
                        &&& final(self).next() == old(self).next() + 1
                        &&& final(self).list() == old(self).list().push(AlarmView {
                            id: old(self).next(),
                            name,
                            hour,
                            minute,
                            enabled: form.enabled,
                            sound_path: opt_view(form.sound_path),
                            repeat,
                            state: AlarmState::Scheduled,
                            last_triggered_on: None,
                        })
                        &&& appended(
                            old(log).lines(),
                            final(log).lines(),
                            Severity::Alarm,
                            name + " scheduled for "@ + time_text(hour, minute),
                        )
                    },
                }
            },
    {
        proof { use_type_invariant(&*self); }
        let trimmed = trim_text(form.name.as_str());
        let name = if trimmed.as_str().is_empty() {
            String::from_str("ALARM")
        } else {
            upper_text(trimmed.as_str())
        };
        let ghost t = trimmed@;
        assert(name@ == form_name(t));
        let repeat = form.build_repeat();
        let hour: u32 = if form.hour > 23 { 23 } else { form.hour };
        let minute: u32 = if form.minute > 59 { 59 } else { form.minute };
        match form.editing_id {
            Some(id) => {
                match self.position(id) {
                    Some(k) => {
                        let mut alarms: Vec<Alarm> = Vec::new();
                        std::mem::swap(&mut alarms, &mut self.alarms);
                        let msg = with_suffix(&name, " reconfigured");
                        alarms[k].name = name;
                        alarms[k].hour = hour;
                        alarms[k].minute = minute;
                        alarms[k].sound_path = copy_opt_string(&form.sound_path);
                        alarms[k].enabled = form.enabled;
                        alarms[k].repeat = repeat;
                        assert(ids_below(alarm_views(alarms@), self.next_id)) by {
                            assert forall|j: int| 0 <= j < alarms@.len() implies #[trigger] alarm_views(alarms@)[j].id < self.next_id by {
                                assert(alarm_views(old(self).alarms@)[j].id < self.next_id);
                            }
                        }
                        std::mem::swap(&mut alarms, &mut self.alarms);
                        log.push(Severity::Alarm, msg);
                        assert(self.list() =~= old(self).list().update(k as int, AlarmView {
                            name: form_name(t),
                            hour,
                            minute,
                            sound_path: opt_view(form.sound_path),
                            enabled: form.enabled,
                            repeat: repeat_of(form.repeat_kind, form.custom_days@),
                            ..old(self).list()[k as int]
                        }));
                    },
                    None => {},
                }
            },
            None => {
                let id = self.next_id;
                self.next_id = self.next_id + 1;
                let mut alarm = Alarm::new(id, name, form.hour, form.minute);
                alarm.sound_path = copy_opt_string(&form.sound_path);
                alarm.enabled = form.enabled;
                alarm.repeat = repeat;
                let mut msg = with_suffix(&alarm.name, " scheduled for ");
                let label = alarm.time_label();
                msg.append(label.as_str());
                log.push(Severity::Alarm, msg);
                let mut alarms: Vec<Alarm> = Vec::new();
                std::mem::swap(&mut alarms, &mut self.alarms);
                let ghost before = alarms@;
                alarms.push(alarm);
                assert(alarm_views(alarms@) =~= alarm_views(before).push(alarm@));
                assert(ids_below(alarm_views(alarms@), self.next_id)) by {
                    assert forall|j: int| 0 <= j < alarms@.len() implies #[trigger] alarm_views(alarms@)[j].id < self.next_id by {
                        if j < before.len() {
                            assert(alarm_views(before)[j].id < old(self).next_id);
                        }
                    }
                }
                std::mem::swap(&mut alarms, &mut self.alarms);
            },
        }
    }

    /// The scheduler's pass at `now` over the list (see `Scheduler::tick`).
    pub fn tick(&mut self, scheduler: &mut Scheduler, now: DateTime) -> (t: Vec<Trigger>)
        requires
            now.wf(),
        ensures
            final(self).next() == old(self).next(),
            final(scheduler).last_checked() == Some(now),
            old(scheduler).last_checked() == Some(now) ==> {
                &&& t@.len() == 0
                &&& final(self).list() == old(self).list()
            },
            old(scheduler).last_checked() != Some(now) ==> {
                &&& final(self).list() == step_all(old(self).list(), now)
                &&& trigger_views(t@) == triggers_of(old(self).list(), now)
            },
    {
        proof { use_type_invariant(&*self); }
        let mut alarms: Vec<Alarm> = Vec::new();
        std::mem::swap(&mut alarms, &mut self.alarms);
        let ghost before = alarms@;
        let t = scheduler.tick(&mut alarms, now);
        assert(ids_below(alarm_views(alarms@), self.next_id)) by {
            assert(alarm_views(alarms@).len() == alarms@.len());
            assert(alarm_views(before).len() == before.len());
            assert(alarms@.len() == before.len());
            assert forall|j: int| 0 <= j < alarms@.len() implies #[trigger] alarm_views(alarms@)[j].id < self.next_id by {
                assert(alarm_views(before)[j].id < self.next_id);
                assert(step(alarm_views(before)[j], now).id == alarm_views(before)[j].id);
            }
        }
        std::mem::swap(&mut alarms, &mut self.alarms);
        t
    }

    /// The soonest upcoming trigger across the list (see `next_alarm`).
    pub fn next_alarm(&self, from: DateTime) -> (r: Option<(&Alarm, DateTime)>)
        requires
            from.wf(),
            searches_in_range(self.list(), from),
        ensures
            r is None <==> earliest(self.list(), from) is None,
            r matches Some((a, d)) ==> exists|k: int| {
                &&& earliest(self.list(), from) == Some((k, d))
                &&& 0 <= k < self.list().len()
                &&& a@ == self.list()[k]
            },
    {
        let r = next_alarm(self.alarms.as_slice(), from);
        proof {
            if let Some((a, d)) = r {
                let k = choose|k: int| {
                    &&& earliest(alarm_views(self.alarms@), from) == Some((k, d))
                    &&& 0 <= k < self.alarms@.len()
                    &&& *a == self.alarms@[k]
                };
                assert(a@ == self.list()[k]);
            }
        }
        r
    }

    /// Ids of the ringing alarms, in list order.
    pub fn ringing_ids(&self) -> (ids: Vec<u64>)
        ensures
            ids@ == ringing_of(self.list()),
    {
        let ghost views = self.list();
        let mut ids: Vec<u64> = Vec::new();
        let mut i: usize = 0;
        while i < self.alarms.len()
            invariant
                i <= self.alarms.len(),
                views == alarm_views(self.alarms@),
                ids@ == ringing_of(views.take(i as int)),
            decreases self.alarms.len() - i,
        {
            assert(views.take(i + 1).drop_last() =~= views.take(i as int));
            assert(views.take(i + 1).last() == self.alarms@[i as int]@);
            if self.alarms[i].state == AlarmState::Ringing {
                ids.push(self.alarms[i].id);
            }
            i = i + 1;
        }
        assert(views.take(i as int) =~= views);
        ids
    }

    /// Whether some alarm is ringing.
    pub fn any_ringing(&self) -> (r: bool)
        ensures
            r == exists|k: int| 0 <= k < self.list().len() && #[trigger] self.list()[k].state == AlarmState::Ringing,
    {
        let mut i: usize = 0;
        while i < self.alarms.len()
            invariant
                i <= self.alarms.len(),
                forall|k: int| 0 <= k < i ==> #[trigger] self.alarms@[k].state != AlarmState::Ringing,
            decreases self.alarms.len() - i,
        {
            if self.alarms[i].state == AlarmState::Ringing {
                assert(self.list()[i as int].state == AlarmState::Ringing);
                return true;
            }
            i = i + 1;
        }
        assert forall|k: int| 0 <= k < self.list().len() implies #[trigger] self.list()[k].state != AlarmState::Ringing by {
            assert(self.list()[k] == self.alarms@[k]@);
        }
        false
    }

    /// Number of switched-on alarms.
    pub fn active_count(&self) -> (n: usize)
        ensures
            n == enabled_count(self.list()),
            n <= self.list().len(),
    {
        let ghost views = self.list();
        let mut n: usize = 0;
        let mut i: usize = 0;
        while i < self.alarms.len()
            invariant
                i <= self.alarms.len(),
                views == alarm_views(self.alarms@),
                n <= i,
                n == enabled_count(views.take(i as int)),
            decreases self.alarms.len() - i,
        {
            assert(views.take(i + 1).drop_last() =~= views.take(i as int));
            assert(views.take(i + 1).last() == self.alarms@[i as int]@);
            if self.alarms[i].enabled {
                n = n + 1;
            }
            i = i + 1;
        }
        assert(views.take(i as int) =~= views);
        n
    }

    /// The positions of the alarms in display order: by hour, then minute,
    /// alarms set to the same time keeping their list order.
    pub fn display_order(&self) -> (order: Vec<usize>)
        ensures
            is_display_order(self.list(), order@),
    {
        let ghost views = self.list();
        let mut order: Vec<usize> = Vec::new();
        let mut i: usize = 0;
        while i < self.alarms.len()
            invariant
                i <= self.alarms.len(),
                views == alarm_views(self.alarms@),
                order@.len() == i,
                forall|k: int| 0 <= k < order@.len() ==> #[trigger] order@[k] < i,
                forall|k1: int, k2: int| 0 <= k1 < k2 < order@.len() ==> shown_before(views, #[trigger] order@[k1] as int, #[trigger] order@[k2] as int),
            decreases self.alarms.len() - i,
        {
            let hour = self.alarms[i].hour;
            let minute = self.alarms[i].minute;
            let mut p: usize = 0;
            while p < order.len()
                invariant
                    i < self.alarms.len(),
                    p <= order@.len(),
                    views == alarm_views(self.alarms@),
                    hour == views[i as int].hour,
                    minute == views[i as int].minute,
                    forall|k: int| 0 <= k < order@.len() ==> #[trigger] order@[k] < i,
                    forall|q: int| 0 <= q < p ==> shown_before(views, #[trigger] order@[q] as int, i as int),
                ensures
                    p <= order@.len(),
                    forall|q: int| 0 <= q < p ==> shown_before(views, #[trigger] order@[q] as int, i as int),
                    p == order@.len() || shown_before(views, i as int, order@[p as int] as int),
                decreases order@.len() - p,
            {
                let j = order[p];
                let hj = self.alarms[j].hour;
                let mj = self.alarms[j].minute;
                if hour < hj || (hour == hj && minute < mj) {
                    break;
                }
                p = p + 1;
            }
            let ghost before = order@;
            order.insert(p, i);
            assert forall|q: int| p <= q < before.len() implies shown_before(views, i as int, #[trigger] before[q] as int) by {
                if q > p {
                    assert(shown_before(views, before[p as int] as int, before[q] as int));
                }
            }
            assert forall|k1: int, k2: int| 0 <= k1 < k2 < order@.len() implies shown_before(views, #[trigger] order@[k1] as int, #[trigger] order@[k2] as int) by {
                if k1 < p && k2 == p {
                } else if k1 == p && k2 > p {
                    if k2 > p + 1 {
                        assert(shown_before(views, before[p as int] as int, before[k2 - 1] as int));
                    }
                } else if k1 < p && k2 > p {
                    assert(shown_before(views, before[k1] as int, before[k2 - 1] as int));
                } else if k1 > p {
                    assert(shown_before(views, before[k1 - 1] as int, before[k2 - 1] as int));
                } else {
                    assert(shown_before(views, before[k1] as int, before[k2] as int));
                }
            }
            i = i + 1;
        }
        order
    }

    /// Stops the ringing alarms: takes the ids of the ringing alarms, in
    /// list order, and stops each id in turn as `stop_alarm` does (the
    /// first alarm with the id becomes `Completed`, logged `<NAME> STOPPED
    /// BY USER`). Returns those ids, whose sounds must then be stopped.
    /// When two alarms share an id, the first one is stopped twice and the
    /// later one keeps ringing; with distinct ids nothing rings afterwards
    /// (`law_stopping_all_silences_all`).
    pub fn stop_all_ringing(&mut self, log: &mut EventLog) -> (ids: Vec<u64>)
        ensures
            ids@ == ringing_of(old(self).list()),
            final(self).next() == old(self).next(),
            final(self).list() == stopped_all(old(self).list(), ids@),
            appended_all(old(log).lines(), final(log).lines(), stop_lines_of(old(self).list(), ids@)),
    {
        let ids = self.ringing_ids();
        let ghost start = self.list();
        let ghost next0 = self.next();
        let ghost log0 = log.lines();
        proof {
            let states = seq![log0];
            assert(states.len() == 1);
            assert(states[0] == log0);
            assert(states.last() == log0);
            assert(appended_all(log0, log.lines(), Seq::empty()));
            assert(ids@.take(0) =~= Seq::<u64>::empty());
        }
        let mut i: usize = 0;
        while i < ids.len()
            invariant
                i <= ids.len(),
                self.next() == next0,
                self.list() == stopped_all(start, ids@.take(i as int)),
                appended_all(log0, log.lines(), stop_lines_of(start, ids@.take(i as int))),
            decreases ids.len() - i,
        {
            let ghost cur = self.list();
            let ghost mid = log.lines();
            let ghost done = ids@.take(i as int);
            let ghost next = ids@.take(i + 1);
            let id = ids[i];
            self.stop_alarm(id, log);
            proof {
                assert(next.drop_last() =~= done);
                assert(next.last() == id);
                if has_id(cur, id) {
                    let k = choose|k: int| #![trigger first_with_id(cur, id, k)] {
                        &&& first_with_id(cur, id, k)
                        &&& self.list() == cur.update(k, AlarmView { state: AlarmState::Completed, ..cur[k] })
                        &&& appended(mid, log.lines(), Severity::Alarm, cur[k].name + " STOPPED BY USER"@)
                    };
                    lemma_first_pos(cur, id, k);
                    lemma_appended_all_push(log0, mid, log.lines(), stop_lines_of(start, done), Severity::Alarm, cur[k].name + " STOPPED BY USER"@);
                    assert(stop_lines_of(start, next) =~= stop_lines_of(start, done).push((Severity::Alarm, cur[k].name + " STOPPED BY USER"@)));
                } else {
                    assert(stop_lines_of(start, next) =~= stop_lines_of(start, done));
                }
            }
            i = i + 1;
        }
        assert(ids@.take(i as int) =~= ids@);
        ids
    }

    /// Position of the first alarm with this id.
    pub fn position(&self, id: u64) -> (r: Option<usize>)
        ensures
            r matches Some(k) ==> first_with_id(self.list(), id, k as int),
            r is None <==> !has_id(self.list(), id),
    {
        let mut i: usize = 0;
        while i < self.alarms.len()
            invariant
                i <= self.alarms.len(),
                forall|j: int| 0 <= j < i ==> #[trigger] self.alarms@[j].id != id,
            decreases self.alarms.len() - i,
        {
            if self.alarms[i].id == id {
                return Some(i);
            }
            i = i + 1;
        }
        None
    }
}

/// The log lines of a scheduler event, given the file name found in the
/// played file's path: the trigger itself, then what happened to its sound.
pub open spec fn event_lines(
    alarm_id: u64,
    name: Seq<char>,
    playback: Result<PlaybackView, Seq<char>>,
    file_name: Option<Seq<char>>,
) -> Seq<(Severity, Seq<char>)> {
    let head = (Severity::Alarm, "ALM-"@ + padded(alarm_id as nat, 4) + " "@ + name + " TRIGGERED"@);
    match playback {
        Ok(PlaybackView::File(path)) => seq![
            head,
            (Severity::Audio, "LOOP PLAYBACK STARTED ("@ + match file_name {
                Some(f) => f,
                None => path,
            } + ")"@),
        ],
        Ok(PlaybackView::FallbackBeep(reason)) => seq![
            head,
            (Severity::Warn, "Falling back to system beep \u{2014} "@ + reason),
            (Severity::Audio, "LOOP PLAYBACK STARTED (fallback beep)"@),
        ],
        Err(reason) => seq![head, (Severity::Warn, "Audio playback failed \u{2014} "@ + reason)],
    }
}

/// The view of a playback result.
pub open spec fn playback_result_view(r: Result<PlaybackKind, String>) -> Result<PlaybackView, Seq<char>> {
    match r {
        Ok(k) => Ok(k@),
        Err(e) => Err(e@),
    }
}

/// Writes the lines of a scheduler event to the log: `ALM-0007 NAME
/// TRIGGERED`, then `LOOP PLAYBACK STARTED (<file name>)` for a sound
/// file (its path when the path names no file; see `file_name_fits`), a
/// warning and `LOOP PLAYBACK STARTED (fallback beep)` for the fallback
/// beep, or a warning when no sound could be started.
pub fn record_scheduler_event(log: &mut EventLog, event: SchedulerEvent)
    ensures
        match event {
            SchedulerEvent::Triggered { alarm_id, name, playback } => exists|file_name: Option<Seq<char>>| {
                &&& playback_result_view(playback) matches Ok(PlaybackView::File(path)) ==> file_name_fits(path, file_name)
                &&& appended_all(old(log).lines(), final(log).lines(), event_lines(alarm_id, name@, playback_result_view(playback), file_name))
            },
        },
{
    let ghost start = log.lines();
    match event {
        SchedulerEvent::Triggered { alarm_id, name, playback } => {
            let ghost pv = playback_result_view(playback);
            let mut head = String::from_str("ALM-");
            append_padded(&mut head, alarm_id, 4);
            head.append(" ");
            head.append(name.as_str());
            head.append(" TRIGGERED");
            proof {
                reveal_strlit(" ");
                let states = seq![start];
                assert(appended_all(start, log.lines(), Seq::empty())) by {
                    assert(states.len() == 1);
                    assert(states[0] == start);
                    assert(states.last() == start);
                }
            }
            push_line(log, Severity::Alarm, head, Ghost(Seq::empty()), Ghost(start));
            let ghost l1 = seq![(Severity::Alarm, "ALM-"@ + padded(alarm_id as nat, 4) + " "@ + name@ + " TRIGGERED"@)];
            assert(Seq::<(Severity, Seq<char>)>::empty().push((Severity::Alarm, head@)) =~= l1);
            match playback {
                Ok(PlaybackKind::File(path)) => {
                    let fname = path_file_name(path.as_str());
                    let ghost fv = opt_view(fname);
                    let shown = match fname {
                        Some(f) => f,
                        None => path,
                    };
                    let mut msg = String::from_str("LOOP PLAYBACK STARTED (");
                    msg.append(shown.as_str());
                    msg.append(")");
                    push_line(log, Severity::Audio, msg, Ghost(l1), Ghost(start));
                    assert(l1.push((Severity::Audio, msg@)) =~= event_lines(alarm_id, name@, pv, fv));
                },
                Ok(PlaybackKind::FallbackBeep(reason)) => {
                    let mut msg = String::from_str("Falling back to system beep \u{2014} ");
                    msg.append(reason.as_str());
                    push_line(log, Severity::Warn, msg, Ghost(l1), Ghost(start));
                    let ghost l2 = l1.push((Severity::Warn, msg@));
                    push_line(log, Severity::Audio, String::from_str("LOOP PLAYBACK STARTED (fallback beep)"), Ghost(l2), Ghost(start));
                    assert(l2.push((Severity::Audio, "LOOP PLAYBACK STARTED (fallback beep)"@)) =~= event_lines(alarm_id, name@, pv, None));
                },
                Err(reason) => {
                    let mut msg = String::from_str("Audio playback failed \u{2014} ");
                    msg.append(reason.as_str());
                    push_line(log, Severity::Warn, msg, Ghost(l1), Ghost(start));
                    assert(l1.push((Severity::Warn, msg@)) =~= event_lines(alarm_id, name@, pv, None));
                },
            }
        },
    }
}

} // verus!
