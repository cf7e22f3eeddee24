//! Properties of the alarm model that span several operations.

use vstd::prelude::*;
use crate::alarm::{
    AlarmState, AlarmView, RepeatView, Weekday, count_in, display_state_of, first_open_slot, joined_names, sorted_days,
    minute_start, next_occurrence_of, repeat_label, should_trigger_at, slot, slot_open, sorted_prefix, weekday_of,
};
use crate::calendar::{Date, DateTime};
use crate::control::{
    first_pos, first_with_id, has_id, id_after, ids_below, ids_distinct, lemma_first_pos, lemma_id_after_at_most,
    ringing_of, silenced, stop_line, stop_lines, stop_lines_of, stopped_all, stopped_first,
};
use crate::event_log::{LogEntry, MAX_ENTRIES, Severity, keep_last, log_after};
use crate::form::{RepeatKind, chosen_days, chosen_prefix, flags_of, kind_of, repeat_of};
use crate::scheduler::{fire, step, step_all, triggers_of};

verus! {

/// The alarm once the user stopped it.
pub open spec fn stopped(a: AlarmView) -> AlarmView {
    AlarmView { state: AlarmState::Completed, ..a }
}

/// An alarm rings at most once per calendar day: once it fired at `now`,
/// it does not trigger again on the same day, whether it is still ringing
/// or was stopped.
pub proof fn law_fires_once_per_day(a: AlarmView, now: DateTime, later: DateTime)
    requires
        should_trigger_at(a, now),
        later.date == now.date,
    ensures
        !should_trigger_at(fire(a, now), later),
        !should_trigger_at(stopped(fire(a, now)), later),
{
}

/// Running the scheduler's pass twice at the same second is the same as
/// running it once: the second pass fires nothing and changes nothing.
pub proof fn law_pass_idempotent(s: Seq<AlarmView>, now: DateTime)
    ensures
        triggers_of(step_all(s, now), now).len() == 0,
        step_all(step_all(s, now), now) == step_all(s, now),
    decreases s.len(),
{
    assert forall|i: int| 0 <= i < s.len() implies !should_trigger_at(#[trigger] step(s[i], now), now) by {}
    lemma_no_trigger_after_pass(step_all(s, now), now);
    assert(step_all(step_all(s, now), now) =~= step_all(s, now));
}

/// Nothing in a list that went through the pass at `now` triggers at `now`.
proof fn lemma_no_trigger_after_pass(t: Seq<AlarmView>, now: DateTime)
    requires
        forall|i: int| 0 <= i < t.len() ==> !should_trigger_at(#[trigger] t[i], now),
    ensures
        triggers_of(t, now).len() == 0,
    decreases t.len(),
{
    if t.len() > 0 {
        let u = t.drop_last();
        assert forall|i: int| 0 <= i < u.len() implies !should_trigger_at(#[trigger] u[i], now) by {
            assert(u[i] == t[i]);
        }
        lemma_no_trigger_after_pass(u, now);
        assert(!should_trigger_at(t[t.len() - 1], now));
    }
}

/// A repeating alarm that fired and was stopped shows `Completed` for the
/// rest of that day and `Scheduled` again on any other day.
pub proof fn law_repeating_recovers(a: AlarmView, fired_at: DateTime, today: Date)
    requires
        a.repeat.is_repeating(),
    ensures
        display_state_of(stopped(fire(a, fired_at)), fired_at.date) == AlarmState::Completed,
        today != fired_at.date ==> display_state_of(stopped(fire(a, fired_at)), today) == AlarmState::Scheduled,
{
}

/// A repeating alarm that fired and was stopped rings again at its time on
/// a later due day, if it is still switched on.
pub proof fn law_repeating_fires_again(a: AlarmView, fired_at: DateTime, later: DateTime)
    requires
        a.enabled,
        a.repeat.is_repeating(),
        later.date != fired_at.date,
        later.hour == a.hour,
        later.minute == a.minute,
        a.repeat.is_due(weekday_of(later.date)),
    ensures
        should_trigger_at(stopped(fire(a, fired_at)), later),
{
}

/// A one-shot alarm that fired and was stopped is done for good: it never
/// triggers again, shows `Completed` on every day, and has no next
/// occurrence.
pub proof fn law_one_shot_done_for_good(a: AlarmView, fired_at: DateTime, later: DateTime, today: Date)
    requires
        !a.repeat.is_repeating(),
    ensures
        !should_trigger_at(stopped(fire(a, fired_at)), later),
        display_state_of(stopped(fire(a, fired_at)), today) == AlarmState::Completed,
        next_occurrence_of(stopped(fire(a, fired_at)), later) is None,
{
}

/// The next occurrence is a real slot of the alarm: not before `from`'s minute,
/// within the coming week, at the alarm's hour and minute with zero
/// seconds, on a day its repeat mode allows.
pub proof fn law_next_occurrence_is_a_slot(a: AlarmView, from: DateTime)
    ensures
        next_occurrence_of(a, from) matches Some(d) ==> {
            &&& d.at_or_after(minute_start(from))
            &&& from.date.days_from_ce <= d.date.days_from_ce <= from.date.days_from_ce + 7
            &&& d.hour == a.hour && d.minute == a.minute && d.second == 0
            &&& a.repeat.is_due(weekday_of(d.date))
        },
{
    lemma_first_open_slot(a, from, 0);
}

/// What `first_open_slot` finds is an open slot at or after day `k`.
proof fn lemma_first_open_slot(a: AlarmView, from: DateTime, k: int)
    requires
        0 <= k,
    ensures
        first_open_slot(a, from, k) matches Some(d) ==> exists|j: int| k <= j < 8 && slot_open(a, from, j) && d == #[trigger] slot(a, from, j),
    decreases 8 - k,
{
    if k < 8 && !slot_open(a, from, k) {
        lemma_first_open_slot(a, from, k + 1);
    }
}

/// An open slot from day `j` on makes the search from day `k <= j` find one.
proof fn lemma_first_open_slot_found(a: AlarmView, from: DateTime, k: int, j: int)
    requires
        0 <= k <= j < 8,
        slot_open(a, from, j),
    ensures
        first_open_slot(a, from, k) is Some,
    decreases j - k,
{
    if k < j && !slot_open(a, from, k) {
        lemma_first_open_slot_found(a, from, k + 1, j);
    }
}

/// An alarm that is switched on, not a completed one-shot, and set to a
/// real time of day always has a next occurrence within the coming week.
pub proof fn law_active_alarm_has_next_occurrence(a: AlarmView, from: DateTime)
    requires
        from.wf(),
        a.enabled,
        !(a.state == AlarmState::Completed && !a.repeat.is_repeating()),
        a.hour < 24,
        a.minute < 60,
    ensures
        next_occurrence_of(a, from) is Some,
{
    let d = from.date.days_from_ce;
    let k: int = match a.repeat {
        RepeatView::Custom(days) => if days.len() > 0 {
            let t = days[0].number() as int;
            let r = (t - (d - 1)) % 7;
            if r == 0 {
                7
            } else {
                r
            }
        } else {
            1
        },
        _ => 1,
    };
    assert(1 <= k <= 7);
    let c = slot(a, from, k);
    assert(c.date.days_from_ce == d + k);
    assert(c.at_or_after(minute_start(from)));
    if let RepeatView::Custom(days) = a.repeat {
        if days.len() > 0 {
            let w = days[0];
            let t = w.number() as int;
            assert((d + k - 1) % 7 == t) by {
                assert(0 <= t < 7);
            }
            assert(weekday_of(c.date) == w);
            assert(days.contains(w));
        }
    }
    assert(slot_open(a, from, k));
    lemma_first_open_slot_found(a, from, 0, k);
}

/// The scheduler fires an alarm at its predicted next occurrence, unless
/// it is already ringing or already fired on that day.
pub proof fn law_fires_at_next_occurrence(a: AlarmView, from: DateTime)
    ensures
        next_occurrence_of(a, from) matches Some(d) ==> (a.state != AlarmState::Ringing
            && a.last_triggered_on != Some(d.date) ==> should_trigger_at(a, d)),
{
    law_next_occurrence_is_a_slot(a, from);
}

/// Appending an alarm under the next id keeps the ids distinct and below
/// the (incremented) next id.
pub proof fn law_new_id_is_fresh(s: Seq<AlarmView>, next: u64, a: AlarmView)
    requires
        ids_below(s, next),
        ids_distinct(s),
        a.id == next,
        next < u64::MAX,
    ensures
        ids_below(s.push(a), (next + 1) as u64),
        ids_distinct(s.push(a)),
{
    assert forall|i: int, j: int| 0 <= i < s.push(a).len() && 0 <= j < s.push(a).len() && i != j implies #[trigger] s.push(a)[i].id != #[trigger] s.push(a)[j].id by {
        if i < s.len() && j < s.len() {
            assert(s.push(a)[i] == s[i] && s.push(a)[j] == s[j]);
        } else if i < s.len() {
            assert(s[i].id < next);
        } else {
            assert(s[j].id < next);
        }
    }
    assert forall|k: int| 0 <= k < s.push(a).len() implies #[trigger] s.push(a)[k].id < next + 1 by {
        if k < s.len() {
            assert(s[k].id < next);
        }
    }
}

/// Saving the alarm list and loading it back gives the same next id: the
/// id kept in the file is already past every alarm id.
pub proof fn law_reload_keeps_next_id(s: Seq<AlarmView>, next: u64)
    requires
        ids_below(s, next),
        next >= 1,
    ensures
        (if next >= id_after(s) { next as int } else { id_after(s) }) == next,
        forall|k: int| 0 <= k < s.len() ==> #[trigger] s[k].id < u64::MAX,
{
    lemma_id_after_at_most(s, next);
    assert forall|k: int| 0 <= k < s.len() implies #[trigger] s[k].id < u64::MAX by {
        assert(s[k].id < next);
    }
}

/// Updating an alarm's other fields, or removing an alarm, keeps ids
/// distinct.
pub proof fn law_edits_keep_ids_distinct(s: Seq<AlarmView>, k: int, b: AlarmView)
    requires
        ids_distinct(s),
        0 <= k < s.len(),
        b.id == s[k].id,
    ensures
        ids_distinct(s.update(k, b)),
        ids_distinct(s.remove(k)),
{
    assert forall|i: int, j: int| 0 <= i < s.remove(k).len() && 0 <= j < s.remove(k).len() && i != j implies #[trigger] s.remove(k)[i].id != #[trigger] s.remove(k)[j].id by {
        let i2 = if i < k { i } else { i + 1 };
        let j2 = if j < k { j } else { j + 1 };
        assert(s.remove(k)[i] == s[i2] && s.remove(k)[j] == s[j2]);
    }
    assert forall|i: int, j: int| 0 <= i < s.update(k, b).len() && 0 <= j < s.update(k, b).len() && i != j implies #[trigger] s.update(k, b)[i].id != #[trigger] s.update(k, b)[j].id by {
        assert(s.update(k, b)[i].id == s[i].id);
        assert(s.update(k, b)[j].id == s[j].id);
    }
}

/// The log keeps the newest line: after a push, the last line is the new
/// one, the log is a suffix of the lines so far, and it holds one more line
/// until it reaches `MAX_ENTRIES`.
pub proof fn law_log_keeps_newest(s: Seq<LogEntry>, e: LogEntry)
    requires
        s.len() <= MAX_ENTRIES,
    ensures
        keep_last(s.push(e)).last() == e,
        keep_last(s.push(e)).len() == if s.len() < MAX_ENTRIES { s.len() + 1 } else { MAX_ENTRIES as nat },
        keep_last(s.push(e)) == s.push(e).subrange(s.push(e).len() - keep_last(s.push(e)).len(), s.push(e).len() as int),
{
    if s.len() + 1 <= MAX_ENTRIES {
        assert(s.push(e).subrange(0, s.push(e).len() as int) =~= s.push(e));
    }
}

/// The label of a custom repeat mode does not depend on the order in which
/// its days are listed, only on how often each day occurs.
pub proof fn law_label_ignores_order(d1: Seq<Weekday>, d2: Seq<Weekday>)
    requires
        forall|w: Weekday| #[trigger] count_in(d1, w) == count_in(d2, w),
    ensures
        repeat_label(RepeatView::Custom(d1)) == repeat_label(RepeatView::Custom(d2)),
{
    lemma_sorted_prefix_by_counts(d1, d2, 7);
    lemma_count_last(d1);
    lemma_count_last(d2);
    if d1.len() > 0 {
        assert(count_in(d2, d1.last()) >= 1);
    }
    if d2.len() > 0 {
        assert(count_in(d1, d2.last()) >= 1);
    }
    assert(d1.len() == 0 <==> d2.len() == 0);
}

/// Days listed with the same counts sort to the same sequence.
proof fn lemma_sorted_prefix_by_counts(d1: Seq<Weekday>, d2: Seq<Weekday>, k: nat)
    requires
        forall|w: Weekday| #[trigger] count_in(d1, w) == count_in(d2, w),
    ensures
        sorted_prefix(d1, k) == sorted_prefix(d2, k),
    decreases k,
{
    if k > 0 {
        lemma_sorted_prefix_by_counts(d1, d2, (k - 1) as nat);
        let w = Weekday::of_number((k - 1) as nat);
        assert(count_in(d1, w) == count_in(d2, w));
    }
}

/// A non-empty list counts its last day at least once; an empty one
/// counts nothing.
proof fn lemma_count_last(d: Seq<Weekday>)
    ensures
        d.len() > 0 ==> count_in(d, d.last()) >= 1,
        d.len() == 0 ==> forall|w: Weekday| #[trigger] count_in(d, w) == 0,
{
}

/// Pushing one more line onto a log that holds `log_after(pushes)` (what
/// `EventLog::push_at` and `EventLog::push` do) leaves `log_after` of the
/// longer list: the log after any run of pushes from `EventLog::new` is
/// `log_after` of the lines pushed.
pub proof fn law_push_extends_log(pushes: Seq<LogEntry>, e: LogEntry)
    ensures
        log_after(pushes.push(e)) == keep_last(log_after(pushes).push(e)),
{
    assert(pushes.push(e).drop_last() =~= pushes);
}

/// However many lines were pushed since the log was created, it holds
/// exactly the last `MAX_ENTRIES` of them (all of them while fewer were
/// pushed), oldest first.
pub proof fn law_log_holds_last_pushes(pushes: Seq<LogEntry>)
    ensures
        log_after(pushes) == pushes.subrange(
            pushes.len() - (if pushes.len() < MAX_ENTRIES { pushes.len() as int } else { MAX_ENTRIES as int }),
            pushes.len() as int,
        ),
        log_after(pushes).len() <= MAX_ENTRIES,
    decreases pushes.len(),
{
    if pushes.len() > 0 {
        let q = pushes.drop_last();
        law_log_holds_last_pushes(q);
        let n = pushes.len() as int;
        let prev = log_after(q);
        let m = if q.len() < MAX_ENTRIES { q.len() as int } else { MAX_ENTRIES as int };
        assert(prev == pushes.subrange(n - 1 - m, n - 1));
        assert(prev.push(pushes.last()) =~= pushes.subrange(n - 1 - m, n));
        if m + 1 > MAX_ENTRIES {
            assert(keep_last(prev.push(pushes.last())) =~= pushes.subrange(n - MAX_ENTRIES, n));
        }
    }
}

/// A day chosen in the form appears among the chosen days exactly when its
/// flag is set.
proof fn lemma_chosen_prefix(flags: Seq<bool>, k: nat, w: Weekday)
    requires
        k <= 7,
        flags.len() == 7,
    ensures
        chosen_prefix(flags, k).contains(w) <==> (w.number() < k && flags[w.number() as int]),
    decreases k,
{
    if k > 0 {
        lemma_chosen_prefix(flags, (k - 1) as nat, w);
        let prev = chosen_prefix(flags, (k - 1) as nat);
        let d = Weekday::of_number((k - 1) as nat);
        if flags[k - 1] {
            assert(prev.push(d)[prev.len() as int] == d);
            if prev.push(d).contains(w) {
                let i = choose|i: int| 0 <= i < prev.push(d).len() && prev.push(d)[i] == w;
                if i < prev.len() {
                    assert(prev[i] == w);
                }
            }
            if prev.contains(w) {
                let i = choose|i: int| 0 <= i < prev.len() && prev[i] == w;
                assert(prev.push(d)[i] == w);
            }
        }
    }
}

/// Filling the form from an alarm and saving it gives the alarm's repeat
/// mode back: `Once` and `Daily` exactly, and a custom mode with the same
/// days (listed once each, in week order); an empty custom list comes back
/// as `Once`.
pub proof fn law_form_round_trip(r: RepeatView)
    ensures
        r is Once ==> repeat_of(kind_of(r), flags_of(r)) == RepeatView::Once,
        r is Daily ==> repeat_of(kind_of(r), flags_of(r)) == RepeatView::Daily,
        r matches RepeatView::Custom(days) ==> forall|w: Weekday| #[trigger] chosen_days(flags_of(r)).contains(w) <==> days.contains(w),
        r matches RepeatView::Custom(days) ==> (days.len() == 0 <==> repeat_of(kind_of(r), flags_of(r)) == RepeatView::Once),
{
    if let RepeatView::Custom(days) = r {
        let flags = flags_of(r);
        assert forall|w: Weekday| #[trigger] chosen_days(flags).contains(w) <==> days.contains(w) by {
            lemma_chosen_prefix(flags, 7, w);
            assert(Weekday::of_number(w.number()) == w);
        }
        if days.len() > 0 {
            let w = days[0];
            assert(days.contains(w));
            assert(chosen_days(flags).contains(w));
        } else {
            if chosen_days(flags).len() > 0 {
                let w = chosen_days(flags)[0];
                assert(chosen_days(flags).contains(w));
            }
        }
    }
}

/// When every alarm has its own id, stopping all ringing alarms stops each
/// of them exactly once: every ringing alarm becomes `Completed`, the others
/// are untouched, nothing rings afterwards, and one `<NAME> STOPPED BY USER`
/// line is logged per ringing alarm, in list order.
pub proof fn law_stopping_all_silences_all(s: Seq<AlarmView>)
    requires
        ids_distinct(s),
    ensures
        stopped_all(s, ringing_of(s)) == s.map_values(|a: AlarmView| silenced(a)),
        stop_lines_of(s, ringing_of(s)) == stop_lines(s),
        forall|k: int| 0 <= k < s.len() ==> #[trigger] stopped_all(s, ringing_of(s))[k].state != AlarmState::Ringing,
    decreases s.len(),
{
    if s.len() > 0 {
        let t = s.drop_last();
        let a = s.last();
        assert(t.push(a) =~= s);
        assert(ids_distinct(t)) by {
            assert forall|i: int, j: int| 0 <= i < t.len() && 0 <= j < t.len() && i != j implies #[trigger] t[i].id != #[trigger] t[j].id by {
                assert(s[i] == t[i] && s[j] == t[j]);
            }
        }
        assert forall|j: int| 0 <= j < t.len() implies #[trigger] t[j].id != a.id by {
            assert(s[j] == t[j] && s[t.len() as int] == a);
        }
        law_stopping_all_silences_all(t);
        let r = ringing_of(t);
        lemma_ringing_ids_come_from(t);
        assert forall|m: int| 0 <= m < r.len() implies #[trigger] r[m] != a.id by {
            let j = choose|j: int| 0 <= j < t.len() && t[j].id == r[m];
        }
        lemma_stop_ids_before(t, a, r);
        let y = t.map_values(|b: AlarmView| silenced(b));
        if a.state == AlarmState::Ringing {
            let r2 = r.push(a.id);
            assert(ringing_of(s) == r2);
            assert(r2.drop_last() =~= r);
            let z = y.push(a);
            assert(first_with_id(z, a.id, t.len() as int)) by {
                assert forall|j: int| 0 <= j < t.len() implies z[j].id != a.id by {
                    assert(z[j] == silenced(t[j]));
                }
            }
            lemma_first_pos(z, a.id, t.len() as int);
            assert(stopped_first(z, a.id) =~= s.map_values(|b: AlarmView| silenced(b)));
            assert(stop_line(z, a.id) =~= seq![(Severity::Alarm, a.name + " STOPPED BY USER"@)]);
            assert(stop_lines_of(s, r2) == stop_lines_of(s, r) + stop_line(stopped_all(s, r), a.id));
            assert(stop_lines(t) + seq![(Severity::Alarm, a.name + " STOPPED BY USER"@)] =~= stop_lines(t).push((Severity::Alarm, a.name + " STOPPED BY USER"@)));
        } else {
            assert(ringing_of(s) == r);
            assert(y.push(a) =~= s.map_values(|b: AlarmView| silenced(b)));
        }
    }
    assert forall|k: int| 0 <= k < s.len() implies #[trigger] stopped_all(s, ringing_of(s))[k].state != AlarmState::Ringing by {
        assert(stopped_all(s, ringing_of(s))[k] == silenced(s[k]));
    }
}

/// Each id of `ringing_of(t)` is the id of some alarm of `t`.
proof fn lemma_ringing_ids_come_from(t: Seq<AlarmView>)
    ensures
        forall|m: int| 0 <= m < ringing_of(t).len() ==> exists|j: int| 0 <= j < t.len() && t[j].id == #[trigger] ringing_of(t)[m],
    decreases t.len(),
{
    if t.len() > 0 {
        let u = t.drop_last();
        lemma_ringing_ids_come_from(u);
        assert forall|m: int| 0 <= m < ringing_of(t).len() implies exists|j: int| 0 <= j < t.len() && t[j].id == #[trigger] ringing_of(t)[m] by {
            if m < ringing_of(u).len() {
                let j = choose|j: int| 0 <= j < u.len() && u[j].id == ringing_of(u)[m];
                assert(t[j] == u[j]);
            } else {
                assert(t[t.len() - 1].id == ringing_of(t)[m]);
            }
        }
    }
}

/// Stopping ids other than the last alarm's leaves that alarm, and the
/// lines logged, as they are without it.
proof fn lemma_stop_ids_before(t: Seq<AlarmView>, a: AlarmView, ids: Seq<u64>)
    requires
        forall|m: int| 0 <= m < ids.len() ==> #[trigger] ids[m] != a.id,
    ensures
        stopped_all(t.push(a), ids) == stopped_all(t, ids).push(a),
        stop_lines_of(t.push(a), ids) == stop_lines_of(t, ids),
    decreases ids.len(),
{
    if ids.len() > 0 {
        let rest = ids.drop_last();
        let id = ids.last();
        assert(id == ids[ids.len() - 1]);
        lemma_stop_ids_before(t, a, rest);
        let x = stopped_all(t, rest);
        let xa = x.push(a);
        if has_id(x, id) {
            lemma_first_exists(x, id);
            let k = first_pos(x, id);
            assert(first_with_id(xa, id, k)) by {
                assert forall|j: int| 0 <= j < k implies xa[j].id != id by {
                    assert(xa[j] == x[j]);
                }
            }
            lemma_first_pos(xa, id, k);
            assert(stopped_first(xa, id) =~= stopped_first(x, id).push(a));
            assert(stop_line(xa, id) =~= stop_line(x, id));
        } else {
            assert(!has_id(xa, id)) by {
                if has_id(xa, id) {
                    let k = choose|k: int| 0 <= k < xa.len() && xa[k].id == id;
                    if k < x.len() {
                        assert(xa[k] == x[k]);
                    }
                }
            }
        }
    }
}

/// An id that occurs in `s` has a first occurrence.
proof fn lemma_first_exists(s: Seq<AlarmView>, id: u64)
    requires
        has_id(s, id),
    ensures
        first_with_id(s, id, first_pos(s, id)),
    decreases s.len(),
{
    let u = s.drop_last();
    if has_id(u, id) {
        lemma_first_exists(u, id);
        let k = first_pos(u, id);
        assert(first_with_id(s, id, k)) by {
            assert forall|j: int| 0 <= j < k implies s[j].id != id by {
                assert(s[j] == u[j]);
            }
            assert(s[k] == u[k]);
        }
    } else {
        let k = s.len() - 1;
        assert(first_with_id(s, id, k)) by {
            assert forall|j: int| 0 <= j < k implies s[j].id != id by {
                assert(s[j] == u[j]);
            }
            let w = choose|w: int| 0 <= w < s.len() && s[w].id == id;
            if w < k {
                assert(s[w] == u[w]);
            }
        }
    }
}

/// An alarm only starts ringing at its own hour and minute, and only when
/// it is switched on, not already ringing and has not fired that day yet.
pub proof fn law_triggers_only_at_its_time(a: AlarmView, now: DateTime)
    ensures
        should_trigger_at(a, now) ==> {
            &&& now.hour == a.hour
            &&& now.minute == a.minute
            &&& a.enabled
            &&& a.state != AlarmState::Ringing
            &&& a.last_triggered_on != Some(now.date)
        },
{
}

/// A switched-on alarm that is waiting and has never fired starts ringing
/// at its hour and minute on any day its repeat mode allows.
pub proof fn law_waiting_alarm_triggers_at_its_time(a: AlarmView, now: DateTime)
    requires
        a.enabled,
        a.state == AlarmState::Scheduled,
        a.last_triggered_on is None,
        now.hour == a.hour,
        now.minute == a.minute,
        a.repeat.is_due(weekday_of(now.date)),
    ensures
        should_trigger_at(a, now),
{
}

/// The next occurrence is the earliest slot that can still ring: any
/// instant `c` of the coming week at the alarm's hour and minute (zero
/// seconds), on a day its repeat mode allows, not before `from`'s minute
/// and on a day the alarm has not fired yet, is at or after the next
/// occurrence, which therefore exists.
pub proof fn law_next_occurrence_is_earliest(a: AlarmView, from: DateTime, c: DateTime)
    requires
        from.wf(),
        a.enabled,
        !(a.state == AlarmState::Completed && !a.repeat.is_repeating()),
        a.hour < 24,
        a.minute < 60,
        c.hour == a.hour,
        c.minute == a.minute,
        c.second == 0,
        from.date.days_from_ce <= c.date.days_from_ce <= from.date.days_from_ce + 7,
        a.repeat.is_due(weekday_of(c.date)),
        c.at_or_after(DateTime { second: 0, ..from }),
        a.last_triggered_on != Some(c.date),
    ensures
        next_occurrence_of(a, from) matches Some(d) && c.at_or_after(d),
{
    let k = c.date.days_from_ce - from.date.days_from_ce;
    assert(c == slot(a, from, k));
    assert(slot_open(a, from, k));
    lemma_first_open_slot_within(a, from, 0, k);
}

/// The search from day `m` stops no later than an open slot on day `k`.
proof fn lemma_first_open_slot_within(a: AlarmView, from: DateTime, m: int, k: int)
    requires
        0 <= m <= k < 8,
        slot_open(a, from, k),
    ensures
        first_open_slot(a, from, m) matches Some(d) && exists|i: int| m <= i <= k && d == #[trigger] slot(a, from, i),
    decreases k - m,
{
    if slot_open(a, from, m) {
        assert(first_open_slot(a, from, m) == Some(slot(a, from, m)));
    } else {
        lemma_first_open_slot_within(a, from, m + 1, k);
    }
}

/// A one-shot or daily alarm is due every day; a custom alarm with listed
/// days is due on exactly the listed days (with none listed, every day).
pub proof fn law_due_days(days: Seq<Weekday>, w: Weekday)
    ensures
        RepeatView::Once.is_due(w),
        RepeatView::Daily.is_due(w),
        days.len() > 0 ==> (RepeatView::Custom(days).is_due(w) <==> days.contains(w)),
        days.len() == 0 ==> RepeatView::Custom(days).is_due(w),
{
}

/// The form's repeat choice decides the repeat mode whatever day flags are
/// set: `Once` gives a one-shot, `Daily` every day, and `Custom` the
/// flagged days (a one-shot when none is flagged).
pub proof fn law_form_choice_decides_repeat(flags: Seq<bool>)
    requires
        flags.len() == 7,
    ensures
        repeat_of(RepeatKind::Once, flags) == RepeatView::Once,
        repeat_of(RepeatKind::Daily, flags) == RepeatView::Daily,
        (forall|i: int| 0 <= i < 7 ==> !#[trigger] flags[i]) ==> repeat_of(RepeatKind::Custom, flags) == RepeatView::Once,
        (exists|i: int| 0 <= i < 7 && #[trigger] flags[i]) ==> (repeat_of(RepeatKind::Custom, flags) matches RepeatView::Custom(days)
            && forall|w: Weekday| #[trigger] days.contains(w) <==> flags[w.number() as int]),
{
    let d = chosen_days(flags);
    assert forall|w: Weekday| #[trigger] d.contains(w) <==> flags[w.number() as int] by {
        lemma_chosen_prefix(flags, 7, w);
    }
    if forall|i: int| 0 <= i < 7 ==> !#[trigger] flags[i] {
        if d.len() > 0 {
            assert(d.contains(d[0]));
            assert(flags[d[0].number() as int]);
        }
    }
    if exists|i: int| 0 <= i < 7 && #[trigger] flags[i] {
        let i = choose|i: int| 0 <= i < 7 && #[trigger] flags[i];
        let w = Weekday::of_number(i as nat);
        assert(w.number() == i);
        assert(d.contains(w));
    }
}

/// The label `MON-FRI` is given exactly to the custom selections made of
/// Monday to Friday, each once, and no weekend day.
pub proof fn law_mon_fri_label_is_the_work_week(days: Seq<Weekday>)
    ensures
        repeat_label(RepeatView::Custom(days)) == "MON-FRI"@
            <==> forall|w: Weekday| #[trigger] count_in(days, w) == if w.number() < 5 { 1nat } else { 0nat },
{
    let work = seq![Weekday::Mon, Weekday::Tue, Weekday::Wed, Weekday::Thu, Weekday::Fri];
    let label = repeat_label(RepeatView::Custom(days));
    reveal_strlit("MON-FRI");
    reveal_strlit("ONCE");
    if label == "MON-FRI"@ {
        assert(days.len() > 0) by {
            if days.len() == 0 {
                assert("ONCE"@.len() == 4);
            }
        }
        let sorted = sorted_days(days);
        assert(sorted == work) by {
            if sorted != work {
                lemma_joined_has_no_dash(sorted);
                assert("MON-FRI"@[3] == '-');
                assert(joined_names(sorted)[3] != '-');
            }
        }
        assert forall|w: Weekday| #[trigger] count_in(days, w) == if w.number() < 5 { 1nat } else { 0nat } by {
            lemma_count_sorted_prefix(days, 7, w);
            reveal_with_fuel(count_in, 6);
            assert(work.drop_last().drop_last().drop_last().drop_last().drop_last() =~= Seq::<Weekday>::empty());
            assert(work.drop_last().drop_last().drop_last().drop_last() =~= seq![Weekday::Mon]);
            assert(work.drop_last().drop_last().drop_last() =~= seq![Weekday::Mon, Weekday::Tue]);
            assert(work.drop_last().drop_last() =~= seq![Weekday::Mon, Weekday::Tue, Weekday::Wed]);
            assert(work.drop_last() =~= seq![Weekday::Mon, Weekday::Tue, Weekday::Wed, Weekday::Thu]);
        }
    }
    if forall|w: Weekday| #[trigger] count_in(days, w) == if w.number() < 5 { 1nat } else { 0nat } {
        assert(count_in(days, Weekday::Mon) == 1);
        assert(count_in(days, Weekday::Tue) == 1);
        assert(count_in(days, Weekday::Wed) == 1);
        assert(count_in(days, Weekday::Thu) == 1);
        assert(count_in(days, Weekday::Fri) == 1);
        assert(count_in(days, Weekday::Sat) == 0);
        assert(count_in(days, Weekday::Sun) == 0);
        assert(days.len() > 0);
        reveal_with_fuel(sorted_prefix, 8);
        assert(sorted_days(days) =~= work);
    }
}

/// Counting over a concatenation adds up the counts of the parts.
proof fn lemma_count_concat(a: Seq<Weekday>, b: Seq<Weekday>, w: Weekday)
    ensures
        count_in(a + b, w) == count_in(a, w) + count_in(b, w),
    decreases b.len(),
{
    if b.len() > 0 {
        assert((a + b).drop_last() =~= a + b.drop_last());
        lemma_count_concat(a, b.drop_last(), w);
    } else {
        assert(a + b =~= a);
    }
}

/// A run of `n` copies of `v` counts `w` `n` times when `w` is `v`.
proof fn lemma_count_run(n: nat, v: Weekday, w: Weekday)
    ensures
        count_in(Seq::new(n, |i: int| v), w) == if v == w { n } else { 0 },
    decreases n,
{
    if n > 0 {
        assert(Seq::new(n, |i: int| v).drop_last() =~= Seq::new((n - 1) as nat, |i: int| v));
        lemma_count_run((n - 1) as nat, v, w);
    }
}

/// Sorting the first `k` weekdays keeps how often each of them occurs.
proof fn lemma_count_sorted_prefix(days: Seq<Weekday>, k: nat, w: Weekday)
    requires
        k <= 7,
    ensures
        count_in(sorted_prefix(days, k), w) == if w.number() < k { count_in(days, w) } else { 0 },
    decreases k,
{
    if k > 0 {
        let v = Weekday::of_number((k - 1) as nat);
        lemma_count_sorted_prefix(days, (k - 1) as nat, w);
        lemma_count_concat(sorted_prefix(days, (k - 1) as nat), Seq::new(count_in(days, v), |i: int| v), w);
        lemma_count_run(count_in(days, v), v, w);
        assert(v == w <==> w.number() == k - 1);
    }
}

/// The three-letter names joined by spaces hold no `-`.
proof fn lemma_joined_has_no_dash(days: Seq<Weekday>)
    ensures
        forall|i: int| 0 <= i < joined_names(days).len() ==> #[trigger] joined_names(days)[i] != '-',
    decreases days.len(),
{
    reveal_strlit("MON");
    reveal_strlit("TUE");
    reveal_strlit("WED");
    reveal_strlit("THU");
    reveal_strlit("FRI");
    reveal_strlit("SAT");
    reveal_strlit("SUN");
    reveal_strlit(" ");
    if days.len() == 1 {
        let n = days[0].short_name();
        assert(forall|i: int| 0 <= i < n.len() ==> #[trigger] n[i] != '-');
    } else if days.len() > 1 {
        lemma_joined_has_no_dash(days.drop_last());
        let p = joined_names(days.drop_last());
        let n = days.last().short_name();
        assert(forall|i: int| 0 <= i < n.len() ==> #[trigger] n[i] != '-');
        let j = p + " "@ + n;
        assert forall|i: int| 0 <= i < j.len() implies #[trigger] j[i] != '-' by {
            if i < p.len() {
                assert(j[i] == p[i]);
            } else if i == p.len() {
                assert(j[i] == ' ');
            } else {
                assert(j[i] == n[i - p.len() - 1]);
            }
        }
    }
}

} // verus!
