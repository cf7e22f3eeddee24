//! The small decisions of the dashboard: status texts, counters, the
//! keyboard shortcuts, the always-on-top switch of the alarm mode, the
//! start-up log, and how the temporal radar marks an alarm.

use vstd::prelude::*;
use crate::alarm::{AlarmState, time_text};
use crate::calendar::DateTime;
use crate::control::AlarmBook;
use crate::event_log::{EventLog, Severity, appended_all, push_line};
use crate::scheduler::earliest;
use crate::alarm::searches_in_range;
use crate::text::{append_decimal, append_padded, decimal, padded};

verus! {

/// `HH:MM:SS` of a number of seconds (hours may exceed two digits).
pub open spec fn duration_text(total_secs: u64) -> Seq<char> {
    padded((total_secs / 3600) as nat, 2) + ":"@ + padded(((total_secs % 3600) / 60) as nat, 2)
        + ":"@ + padded((total_secs % 60) as nat, 2)
}

/// `HH:MM:SS` of a number of seconds, as the uptime row shows it.
pub fn format_duration(total_secs: u64) -> (s: String)
    ensures
        s@ == duration_text(total_secs),
{
    let h = total_secs / 3600;
    let m = (total_secs % 3600) / 60;
    let sec = total_secs % 60;
    let mut s = String::new();
    append_padded(&mut s, h, 2);
    proof { reveal_strlit(":"); }
    s.append(":");
    append_padded(&mut s, m, 2);
    s.append(":");
    append_padded(&mut s, sec, 2);
    assert(s@ =~= duration_text(total_secs));
    s
}

/// `ACTIVE/TOTAL`, each zero-padded to two digits.
pub fn alarm_count_label(active: usize, total: usize) -> (s: String)
    ensures
        s@ == padded(active as nat, 2) + "/"@ + padded(total as nat, 2),
{
    let mut s = String::new();
    append_padded(&mut s, active as u64, 2);
    s.append("/");
    append_padded(&mut s, total as u64, 2);
    s
}

/// The time of the next alarm to ring, or `----` when none is due.
pub fn next_alarm_label(book: &AlarmBook, now: DateTime) -> (s: String)
    requires
        now.wf(),
        searches_in_range(book.list(), now),
    ensures
        s@ == match earliest(book.list(), now) {
            Some((k, d)) => time_text(book.list()[k].hour, book.list()[k].minute),
            None => "----"@,
        },
{
    match book.next_alarm(now) {
        Some((a, _)) => a.time_label(),
        None => String::from_str("----"),
    }
}

/// The audio gauge's text: `OFFLINE` without a device, `PLAYING` while a
/// sound loops, `READY` otherwise.
pub fn audio_gauge_label(available: bool, playing: bool) -> (s: &'static str)
    ensures
        s@ == if !available {
            "OFFLINE"@
        } else if playing {
            "PLAYING"@
        } else {
            "READY"@
        },
{
    if !available {
        "OFFLINE"
    } else if playing {
        "PLAYING"
    } else {
        "READY"
    }
}

/// The audio engine row of the operations panel: `PLAYING xN` while `N`
/// sounds loop, `READY` otherwise.
pub fn audio_engine_label(playing_count: usize) -> (s: String)
    ensures
        s@ == if playing_count > 0 {
            "PLAYING x"@ + decimal(playing_count as nat)
        } else {
            "READY"@
        },
{
    if playing_count > 0 {
        let mut s = String::from_str("PLAYING x");
        append_decimal(&mut s, playing_count as u64);
        s
    } else {
        String::from_str("READY")
    }
}

/// The status texts of the top bar: the link state and the status badge.
pub fn status_texts(any_ringing: bool) -> (t: (&'static str, &'static str))
    ensures
        t.0@ == if any_ringing { "ALARM ACTIVE"@ } else { "ONLINE"@ },
        t.1@ == if any_ringing { "ALERT"@ } else { "OPERATIONAL"@ },
{
    if any_ringing {
        ("ALARM ACTIVE", "ALERT")
    } else {
        ("ONLINE", "OPERATIONAL")
    }
}

/// What the keyboard asks for this frame.
#[derive(Clone, Copy, Debug, PartialEq, Eq, Structural)]
pub struct ShortcutAction {
    /// ESC or SPACE while something rings: stop every ringing alarm.
    pub stop_all: bool,
    /// N, outside text entry, with no form open and nothing ringing: open
    /// the new-alarm form.
    pub open_new_form: bool,
}

/// The keyboard shortcuts: ESC / SPACE stop all ringing alarms; N opens
/// the new-alarm form unless text is being typed, the form is already open
/// or an alarm rings.
pub fn shortcut_action(
    any_ringing: bool,
    stop_pressed: bool,
    new_pressed: bool,
    wants_keyboard: bool,
    form_open: bool,
) -> (a: ShortcutAction)
    ensures
        a.stop_all == (any_ringing && stop_pressed),
        a.open_new_form == (new_pressed && !wants_keyboard && !form_open && !any_ringing),
{
    ShortcutAction {
        stop_all: any_ringing && stop_pressed,
        open_new_form: new_pressed && !wants_keyboard && !form_open && !any_ringing,
    }
}

/// The alarm mode follows whether something rings: `Some(true)` when it
/// must start (window on top and focused), `Some(false)` when it must end
/// (window back to normal), None when nothing changes.
pub fn alarm_mode_change(active: bool, any_ringing: bool) -> (c: Option<bool>)
    ensures
        c == if active == any_ringing {
            None::<bool>
        } else {
            Some(any_ringing)
        },
{
    if active == any_ringing {
        None
    } else {
        Some(any_ringing)
    }
}

/// The start-up lines of the log.
pub open spec fn startup_lines(alarm_count: u64, audio_available: bool) -> Seq<(Severity, Seq<char>)> {
    seq![
        (Severity::Sys, "JEXREY ALARM CONTROL SYSTEM initialized"@),
        (Severity::Sys, "Configuration loaded ("@ + decimal(alarm_count as nat) + " alarm(s))"@),
        if audio_available {
            (Severity::Audio, "Audio engine ready"@)
        } else {
            (Severity::Warn, "No audio output device detected \u{2014} alarms will still trigger visually"@)
        },
        (Severity::Sys, "Scheduler online \u{2014} monitoring active"@),
    ]
}

/// Writes the start-up lines: initialisation, the number of alarms loaded,
/// whether audio works, and the scheduler coming online.
pub fn log_startup(log: &mut EventLog, alarm_count: u64, audio_available: bool)
    ensures
        appended_all(old(log).lines(), final(log).lines(), startup_lines(alarm_count, audio_available)),
{
    let ghost start = log.lines();
    proof {
        let states = seq![start];
        assert(states.len() == 1);
        assert(states[0] == start);
        assert(states.last() == start);
        assert(appended_all(start, log.lines(), Seq::empty()));
    }
    let ghost l0 = Seq::<(Severity, Seq<char>)>::empty();
    let m1 = String::from_str("JEXREY ALARM CONTROL SYSTEM initialized");
    let ghost l1 = l0.push((Severity::Sys, m1@));
    push_line(log, Severity::Sys, m1, Ghost(l0), Ghost(start));
    let mut m2 = String::from_str("Configuration loaded (");
    append_decimal(&mut m2, alarm_count);
    m2.append(" alarm(s))");
    let ghost l2 = l1.push((Severity::Sys, m2@));
    push_line(log, Severity::Sys, m2, Ghost(l1), Ghost(start));
    let ghost l3;
    if audio_available {
        let m3 = String::from_str("Audio engine ready");
        proof { l3 = l2.push((Severity::Audio, m3@)); }
        push_line(log, Severity::Audio, m3, Ghost(l2), Ghost(start));
    } else {
        let m3 = String::from_str("No audio output device detected \u{2014} alarms will still trigger visually");
        proof { l3 = l2.push((Severity::Warn, m3@)); }
        push_line(log, Severity::Warn, m3, Ghost(l2), Ghost(start));
    }
    let m4 = String::from_str("Scheduler online \u{2014} monitoring active");
    let ghost l4 = l3.push((Severity::Sys, m4@));
    push_line(log, Severity::Sys, m4, Ghost(l3), Ghost(start));
    assert(l4 =~= startup_lines(alarm_count, audio_available));
}

/// Logs that the configuration could not be saved, and why.
pub fn log_save_failure(log: &mut EventLog, reason: &str)
    ensures
        crate::event_log::appended(old(log).lines(), final(log).lines(), Severity::Warn, "Failed to save configuration: "@ + reason@),
{
    let mut m = String::from_str("Failed to save configuration: ");
    m.append(reason);
    log.push(Severity::Warn, m);
}

/// How the temporal radar marks an alarm.
#[derive(Clone, Copy, Debug, PartialEq, Eq, Structural)]
pub enum RadarMark {
    /// Ringing: red, pulsing.
    Ringing,
    /// Due within 15 minutes: amber, pulsing.
    Imminent,
    /// Due later: green, steady.
    Upcoming,
}

/// Whole minutes until the next trigger, never below zero.
pub open spec fn radar_minutes_of(now: DateTime, next: DateTime) -> int {
    let m = now.whole_minutes_until(next);
    if m < 0 {
        0
    } else {
        m
    }
}

/// Whole minutes from `now` until `next`, never below zero: how far from
/// the radar's centre the alarm sits.
pub fn radar_minutes(now: &DateTime, next: &DateTime) -> (m: i64)
    requires
        now.wf(),
        next.wf(),
    ensures
        m == radar_minutes_of(*now, *next),
{
    let m = now.minutes_until(next);
    if m < 0 {
        0
    } else {
        m
    }
}

/// The radar mark of an alarm in this state, due in this many minutes.
pub fn radar_mark(state: AlarmState, minutes_until: i64) -> (r: RadarMark)
    ensures
        r == if state == AlarmState::Ringing {
            RadarMark::Ringing
        } else if minutes_until <= 15 {
            RadarMark::Imminent
        } else {
            RadarMark::Upcoming
        },
{
    if state == AlarmState::Ringing {
        RadarMark::Ringing
    } else if minutes_until <= 15 {
        RadarMark::Imminent
    } else {
        RadarMark::Upcoming
    }
}

} // verus!
