//! The scheduler is driven from the application's update loop rather than a
//! thread of its own, which keeps the alarm state machine single-threaded.
//! `tick` throttles itself to one pass per wall-clock second.

use vstd::prelude::*;
use crate::alarm::{
    Alarm, AlarmState, AlarmView, opt_view, copy_opt_string, should_trigger_at, next_occurrence_of,
    search_in_range, searches_in_range,
};
use crate::audio::PlaybackKind;
use crate::calendar::{DateTime, lemma_instant_order};

verus! {

/// What the scheduler reports to the event log and the interface.
#[derive(Debug)]
pub enum SchedulerEvent {
    Triggered { alarm_id: u64, name: String, playback: Result<PlaybackKind, String> },
}

/// A request to start the looping sound of an alarm that just fired.
#[derive(Debug)]
pub struct Trigger {
    pub alarm_id: u64,
    pub name: String,
    pub sound_path: Option<String>,
}

/// A trigger request as a mathematical value.
pub struct TriggerView {
    pub alarm_id: u64,
    pub name: Seq<char>,
    pub sound_path: Option<Seq<char>>,
}

impl View for Trigger {
    type V = TriggerView;

    open spec fn view(&self) -> TriggerView {
        TriggerView { alarm_id: self.alarm_id, name: self.name@, sound_path: opt_view(self.sound_path) }
    }
}

impl Trigger {
    /// The event reported for this trigger once its playback was attempted.
    pub fn into_event(self, playback: Result<PlaybackKind, String>) -> (e: SchedulerEvent)
        ensures
            e == (SchedulerEvent::Triggered { alarm_id: self.alarm_id, name: self.name, playback }),
    {
        SchedulerEvent::Triggered { alarm_id: self.alarm_id, name: self.name, playback }
    }
}

/// The alarm once it started ringing at `now`.
pub open spec fn fire(a: AlarmView, now: DateTime) -> AlarmView {
    AlarmView { state: AlarmState::Ringing, last_triggered_on: Some(now.date), ..a }
}

/// The alarm after the scheduler's pass at `now`.
pub open spec fn step(a: AlarmView, now: DateTime) -> AlarmView {
    if should_trigger_at(a, now) {
        fire(a, now)
    } else {
        a
    }
}

/// The views of a list of alarms.
pub open spec fn alarm_views(s: Seq<Alarm>) -> Seq<AlarmView> {
    s.map_values(|a: Alarm| a@)
}

/// Every alarm after the scheduler's pass at `now`.
pub open spec fn step_all(s: Seq<AlarmView>, now: DateTime) -> Seq<AlarmView> {
    s.map_values(|a: AlarmView| step(a, now))
}

/// The trigger request of an alarm.
pub open spec fn trigger_of(a: AlarmView) -> TriggerView {
    TriggerView { alarm_id: a.id, name: a.name, sound_path: a.sound_path }
}

/// The trigger requests of the pass at `now`, in list order.
pub open spec fn triggers_of(s: Seq<AlarmView>, now: DateTime) -> Seq<TriggerView>
    decreases s.len(),
{
    if s.len() == 0 {
        Seq::empty()
    } else {
        let rest = triggers_of(s.drop_last(), now);
        if should_trigger_at(s.last(), now) {
            rest.push(trigger_of(s.last()))
        } else {
            rest
        }
    }
}

/// The views of a list of trigger requests.
pub open spec fn trigger_views(s: Seq<Trigger>) -> Seq<TriggerView> {
    s.map_values(|t: Trigger| t@)
}

/// The alarm scheduler.
pub struct Scheduler {
    last_checked_second: Option<DateTime>,
}

impl Scheduler {
    /// The second of the scheduler's last pass.
    pub closed spec fn last_checked(self) -> Option<DateTime> {
        self.last_checked_second
    }

    /// A scheduler that has made no pass yet.
    pub fn new() -> (s: Self)
        ensures
            s.last_checked() is None,
    {
        Scheduler { last_checked_second: None }
    }

    /// Advances the scheduler to `now`. A second pass within the same second
    /// changes nothing and reports nothing. Otherwise every alarm that
    /// should trigger at `now` turns `Ringing` with `now`'s day as its last
    /// trigger day, the others stay as they are, and the alarms that fired
    /// are returned, in list order, for their sound to be started.
    pub fn tick(&mut self, alarms: &mut Vec<Alarm>, now: DateTime) -> (t: Vec<Trigger>)
        requires
            now.wf(),
        ensures
            final(self).last_checked() == Some(now),
            old(self).last_checked() == Some(now) ==> {
                &&& t@.len() == 0
                &&& alarm_views(final(alarms)@) == alarm_views(old(alarms)@)
            },
            old(self).last_checked() != Some(now) ==> {
                &&& alarm_views(final(alarms)@) == step_all(alarm_views(old(alarms)@), now)
                &&& trigger_views(t@) == triggers_of(alarm_views(old(alarms)@), now)
            },
    {
        let mut events: Vec<Trigger> = Vec::new();
        match self.last_checked_second {
            Some(last) => {
                if last == now {
                    assert(alarm_views(alarms@) =~= alarm_views(old(alarms)@));
                    return events;
                }
            },
            None => {},
        }
        self.last_checked_second = Some(now);
        let ghost start = alarm_views(alarms@);
        let mut i: usize = 0;
        while i < alarms.len()
            invariant
                now.wf(),
                i <= alarms.len(),
                start.len() == alarms@.len(),
                forall|j: int| 0 <= j < i ==> #[trigger] alarms@[j]@ == step(start[j], now),
                forall|j: int| i <= j < alarms@.len() ==> #[trigger] alarms@[j]@ == start[j],
                trigger_views(events@) == triggers_of(start.take(i as int), now),
            decreases alarms.len() - i,
        {
            assert(start.take(i + 1).drop_last() =~= start.take(i as int));
            assert(start.take(i + 1).last() == start[i as int]);
            if alarms[i].should_trigger(now) {
                alarms[i].state = AlarmState::Ringing;
                alarms[i].last_triggered_on = Some(now.date);
                let t = Trigger {
                    alarm_id: alarms[i].id,
                    name: alarms[i].name.clone(),
                    sound_path: copy_opt_string(&alarms[i].sound_path),
                };
                events.push(t);
                assert(trigger_views(events@) =~= triggers_of(start.take(i + 1), now));
            } else {
                assert(trigger_views(events@) =~= triggers_of(start.take(i + 1), now));
            }
            i = i + 1;
        }
        assert(start.take(i as int) =~= start);
        assert(alarm_views(alarms@) =~= step_all(start, now));
        events
    }
}

impl Default for Scheduler {
    fn default() -> (s: Self)
        ensures
            s.last_checked() is None,
    {
        Self::new()
    }
}

/// The soonest upcoming trigger among `s` (by position and time), the
/// first one in list order when several are equally soon.
pub open spec fn earliest(s: Seq<AlarmView>, from: DateTime) -> Option<(int, DateTime)>
    decreases s.len(),
{
    if s.len() == 0 {
        None
    } else {
        let prev = earliest(s.drop_last(), from);
        match next_occurrence_of(s.last(), from) {
            None => prev,
            Some(d) => match prev {
                None => Some(((s.len() - 1) as int, d)),
                Some((k, pd)) => if pd.at_or_after(d) && pd != d {
                    Some(((s.len() - 1) as int, d))
                } else {
                    prev
                },
            },
        }
    }
}

/// What `earliest` finds is an alarm of the list with that next
/// occurrence, and no alarm of the list is due earlier.
proof fn lemma_earliest(s: Seq<AlarmView>, from: DateTime)
    ensures
        earliest(s, from) matches Some((k, d)) ==> {
            &&& 0 <= k < s.len()
            &&& next_occurrence_of(s[k], from) == Some(d)
            &&& forall|j: int| 0 <= j < s.len() ==> (#[trigger] next_occurrence_of(s[j], from) matches Some(e) ==> e.at_or_after(d))
            &&& forall|j: int| 0 <= j < k ==> (#[trigger] next_occurrence_of(s[j], from) matches Some(e) ==> e != d)
        },
        earliest(s, from) is None ==> forall|j: int| 0 <= j < s.len() ==> #[trigger] next_occurrence_of(s[j], from) is None,
    decreases s.len(),
{
    if s.len() > 0 {
        let t = s.drop_last();
        let n = s.len() - 1;
        lemma_earliest(t, from);
        assert forall|j: int| 0 <= j < t.len() implies #[trigger] t[j] == s[j] by {}
        let prev = earliest(t, from);
        if let Some((k, d)) = prev {
            assert(t[k] == s[k]);
        }
        match next_occurrence_of(s.last(), from) {
            None => {
                assert(earliest(s, from) == prev);
                if let Some((k, d)) = prev {
                    assert forall|j: int| 0 <= j < s.len() implies (#[trigger] next_occurrence_of(s[j], from) matches Some(e) ==> e.at_or_after(d)) by {
                        if j < n {
                            assert(t[j] == s[j]);
                        }
                    }
                    assert forall|j: int| 0 <= j < k implies (#[trigger] next_occurrence_of(s[j], from) matches Some(e) ==> e != d) by {
                        assert(t[j] == s[j]);
                    }
                } else {
                    assert forall|j: int| 0 <= j < s.len() implies #[trigger] next_occurrence_of(s[j], from) is None by {
                        if j < n {
                            assert(t[j] == s[j]);
                        }
                    }
                }
            },
            Some(d) => {
                match prev {
                    None => {
                        assert(earliest(s, from) == Some((n as int, d)));
                        assert forall|j: int| 0 <= j < n implies (#[trigger] next_occurrence_of(s[j], from) matches Some(e) ==> e != d) by {
                            assert(t[j] == s[j]);
                        }
                        assert forall|j: int| 0 <= j < s.len() implies (#[trigger] next_occurrence_of(s[j], from) matches Some(e) ==> e.at_or_after(d)) by {
                            lemma_instant_order(d, d, d);
                            if j < n {
                                assert(t[j] == s[j]);
                            }
                        }
                    },
                    Some((k, pd)) => {
                        if pd.at_or_after(d) && pd != d {
                            assert(earliest(s, from) == Some((n as int, d)));
                            assert forall|j: int| 0 <= j < s.len() implies (#[trigger] next_occurrence_of(s[j], from) matches Some(e) ==> e.at_or_after(d)) by {
                                lemma_instant_order(d, d, d);
                                if j < n {
                                    assert(t[j] == s[j]);
                                    if let Some(e) = next_occurrence_of(s[j], from) {
                                        lemma_instant_order(e, pd, d);
                                    }
                                }
                            }
                            assert forall|j: int| 0 <= j < n implies (#[trigger] next_occurrence_of(s[j], from) matches Some(e) ==> e != d) by {
                                assert(t[j] == s[j]);
                                if let Some(e) = next_occurrence_of(s[j], from) {
                                    lemma_instant_order(e, pd, d);
                                    lemma_instant_order(pd, d, e);
                                }
                            }
                        } else {
                            assert(earliest(s, from) == Some((k, pd)));
                            lemma_instant_order(d, pd, d);
                            lemma_instant_order(pd, pd, pd);
                            assert forall|j: int| 0 <= j < s.len() implies (#[trigger] next_occurrence_of(s[j], from) matches Some(e) ==> e.at_or_after(pd)) by {
                                if j < n {
                                    assert(t[j] == s[j]);
                                }
                            }
                            assert forall|j: int| 0 <= j < k implies (#[trigger] next_occurrence_of(s[j], from) matches Some(e) ==> e != pd) by {
                                assert(t[j] == s[j]);
                            }
                        }
                    },
                }
            },
        }
    }
}

/// The soonest upcoming trigger across every alarm, with its time: the
/// first alarm in list order among those due soonest.
pub fn next_alarm(alarms: &[Alarm], from: DateTime) -> (r: Option<(&Alarm, DateTime)>)
    requires
        from.wf(),
        searches_in_range(alarm_views(alarms@), from),
    ensures
        r is None <==> earliest(alarm_views(alarms@), from) is None,
        r matches Some((a, d)) ==> exists|k: int| {
            &&& earliest(alarm_views(alarms@), from) == Some((k, d))
            &&& 0 <= k < alarms@.len()
            &&& *a == alarms@[k]
        },
        r matches Some((a, d)) ==> next_occurrence_of(a@, from) == Some(d),
        r matches Some((a, d)) ==> forall|j: int| 0 <= j < alarms@.len() ==> (#[trigger] next_occurrence_of(alarms@[j]@, from) matches Some(e) ==> e.at_or_after(d)),
{
    let ghost views = alarm_views(alarms@);
    let mut best: Option<(usize, DateTime)> = None;
    let mut i: usize = 0;
    while i < alarms.len()
        invariant
            from.wf(),
            searches_in_range(alarm_views(alarms@), from),
            i <= alarms.len(),
            views == alarm_views(alarms@),
            match best {
                None => earliest(views.take(i as int), from) is None,
                Some((k, d)) => earliest(views.take(i as int), from) == Some((k as int, d)),
            },
        decreases alarms.len() - i,
    {
        assert(views.take(i + 1).drop_last() =~= views.take(i as int));
        assert(views.take(i + 1).last() == alarms@[i as int]@);
        assert(search_in_range(views[i as int], from));
        match alarms[i].next_occurrence(from) {
            None => {},
            Some(d) => {
                match best {
                    None => {
                        best = Some((i, d));
                    },
                    Some((k, pd)) => {
                        if pd.is_at_or_after(&d) && pd != d {
                            best = Some((i, d));
                        }
                    },
                }
            },
        }
        i = i + 1;
    }
    assert(views.take(i as int) =~= views);
    proof {
        lemma_earliest(views, from);
    }
    match best {
        None => None,
        Some((k, d)) => {
            assert(views[k as int] == alarms@[k as int]@);
            assert forall|j: int| 0 <= j < alarms@.len() implies (#[trigger] next_occurrence_of(alarms@[j]@, from) matches Some(e) ==> e.at_or_after(d)) by {
                assert(views[j] == alarms@[j]@);
            }
            Some((&alarms[k], d))
        },
    }
}

} // verus!
