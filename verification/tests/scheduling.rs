use chrono::Datelike;
use jexrey_alarm::alarm::{Alarm, AlarmState, RepeatMode};
use jexrey_alarm::audio::PlaybackKind;
use jexrey_alarm::calendar::{Date, DateTime, MAX_DAY, MIN_DAY};
use jexrey_alarm::scheduler::{next_alarm, Scheduler, SchedulerEvent};

fn at(y: i32, mo: u32, d: u32, h: u32, mi: u32, s: u32) -> DateTime {
    let n = chrono::NaiveDate::from_ymd_opt(y, mo, d).unwrap().num_days_from_ce();
    DateTime { date: Date { days_from_ce: n }, hour: h, minute: mi, second: s }
}

#[test]
fn tick_fires_due_alarms_in_order() {
    let mut alarms = vec![
        Alarm::new(1, "FIRST".to_string(), 7, 0),
        Alarm::new(2, "OTHER".to_string(), 8, 0),
        Alarm::new(3, "THIRD".to_string(), 7, 0),
    ];
    alarms[2].sound_path = Some("bell.ogg".to_string());
    let mut s = Scheduler::new();
    let now = at(2024, 5, 6, 7, 0, 0);
    let fired = s.tick(&mut alarms, now);
    assert_eq!(fired.len(), 2);
    assert_eq!((fired[0].alarm_id, fired[0].name.as_str()), (1, "FIRST"));
    assert_eq!((fired[1].alarm_id, fired[1].sound_path.as_deref()), (3, Some("bell.ogg")));
    assert_eq!(alarms[0].state, AlarmState::Ringing);
    assert_eq!(alarms[0].last_triggered_on, Some(now.date));
    assert_eq!(alarms[1].state, AlarmState::Scheduled);
    assert_eq!(alarms[1].last_triggered_on, None);
}

#[test]
fn tick_is_throttled_to_one_pass_per_second() {
    let mut alarms = vec![Alarm::new(1, "A".to_string(), 7, 0)];
    let mut s = Scheduler::default();
    let now = at(2024, 5, 6, 7, 0, 0);
    assert_eq!(s.tick(&mut alarms, now).len(), 1);
    // The user stops it within the same second: the repeated pass must
    // not fire it again.
    alarms[0].state = AlarmState::Completed;
    alarms[0].last_triggered_on = None;
    assert_eq!(s.tick(&mut alarms, now).len(), 0);
    assert_eq!(alarms[0].state, AlarmState::Completed);
}

#[test]
fn alarm_rings_once_per_day() {
    let mut alarms = vec![Alarm::new(1, "A".to_string(), 7, 0)];
    alarms[0].repeat = RepeatMode::Daily;
    let mut s = Scheduler::new();
    assert_eq!(s.tick(&mut alarms, at(2024, 5, 6, 7, 0, 0)).len(), 1);
    alarms[0].state = AlarmState::Completed; // stopped by the user
    assert_eq!(s.tick(&mut alarms, at(2024, 5, 6, 7, 0, 1)).len(), 0);
    assert_eq!(s.tick(&mut alarms, at(2024, 5, 6, 7, 0, 59)).len(), 0);
    // Next day, same time: a daily alarm rings again.
    assert_eq!(s.tick(&mut alarms, at(2024, 5, 7, 7, 0, 0)).len(), 1);
}

#[test]
fn trigger_becomes_event() {
    let mut alarms = vec![Alarm::new(5, "A".to_string(), 7, 0)];
    let mut s = Scheduler::new();
    let mut fired = s.tick(&mut alarms, at(2024, 5, 6, 7, 0, 0));
    let t = fired.pop().unwrap();
    let SchedulerEvent::Triggered { alarm_id, name, playback } =
        t.into_event(Ok(PlaybackKind::FallbackBeep("no sound assigned".to_string())));
    assert_eq!(alarm_id, 5);
    assert_eq!(name, "A");
    assert!(matches!(playback, Ok(PlaybackKind::FallbackBeep(_))));
}

#[test]
fn next_alarm_picks_the_soonest_first_in_list() {
    let now = at(2024, 5, 6, 6, 0, 0);
    let mut alarms = vec![
        Alarm::new(1, "LATE".to_string(), 9, 0),
        Alarm::new(2, "EARLY".to_string(), 6, 30),
        Alarm::new(3, "EARLY TOO".to_string(), 6, 30),
        Alarm::new(4, "PAST".to_string(), 5, 0),
    ];
    let (a, when) = next_alarm(&alarms, now).unwrap();
    assert_eq!(a.id, 2);
    assert_eq!(when, at(2024, 5, 6, 6, 30, 0));
    alarms[1].enabled = false;
    alarms[2].enabled = false;
    let (a, _) = next_alarm(&alarms, now).unwrap();
    assert_eq!(a.id, 1);
    alarms[0].enabled = false;
    let (a, when) = next_alarm(&alarms, now).unwrap();
    assert_eq!(a.id, 4);
    assert_eq!(when, at(2024, 5, 7, 5, 0, 0));
    alarms[3].enabled = false;
    assert!(next_alarm(&alarms, now).is_none());
}

#[test]
fn minutes_between_instants() {
    let a = at(2024, 5, 6, 23, 50, 0);
    let b = at(2024, 5, 7, 0, 20, 30);
    assert_eq!(a.minutes_until(&b), 30);
    assert_eq!(b.minutes_until(&a), -30);
    assert!(b.is_at_or_after(&a));
    assert!(!a.is_at_or_after(&b));
    assert!(a.is_at_or_after(&a));
}

#[test]
fn second_pass_at_the_same_second_fires_nothing() {
    let mut alarms = vec![Alarm::new(1, "A".to_string(), 7, 0), Alarm::new(2, "B".to_string(), 7, 0)];
    let now = at(2024, 5, 6, 7, 0, 0);
    assert_eq!(Scheduler::new().tick(&mut alarms, now).len(), 2);
    // Even a fresh scheduler, with no throttle memory, fires nothing more.
    assert_eq!(Scheduler::new().tick(&mut alarms, now).len(), 0);
    assert_eq!(alarms[0].state, AlarmState::Ringing);
}

#[test]
fn alarm_fires_at_its_next_occurrence() {
    let mut a = Alarm::new(1, "A".to_string(), 6, 45);
    a.repeat = RepeatMode::Daily;
    let from = at(2024, 5, 6, 9, 0, 0);
    let next = a.next_occurrence(from).unwrap();
    assert_eq!(next, at(2024, 5, 7, 6, 45, 0));
    assert!(a.should_trigger(next));
}

#[test]
fn day_of_week_cycles_from_a_monday_on_day_one() {
    let samples = (-800i32..800)
        .chain(738_000..739_500)
        .chain([MIN_DAY, MIN_DAY + 1, MAX_DAY - 1, MAX_DAY]);
    for n in samples {
        let by_formula = (n - 1).rem_euclid(7) as u32;
        assert_eq!(Date { days_from_ce: n }.day_of_week(), by_formula, "day {n}");
        let date = chrono::NaiveDate::from_num_days_from_ce_opt(n).unwrap();
        assert_eq!(date.weekday().num_days_from_monday(), by_formula, "day {n}");
    }
    // 2024-05-06 was a Monday.
    let monday = chrono::NaiveDate::from_ymd_opt(2024, 5, 6).unwrap().num_days_from_ce();
    assert_eq!(Date { days_from_ce: monday }.day_of_week(), 0);
}
