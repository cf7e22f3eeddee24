use chrono::Datelike;
use jexrey_alarm::alarm::{Alarm, AlarmState, BadgeColor, RepeatMode, Weekday};
use jexrey_alarm::calendar::{Date, DateTime, MAX_DAY, MIN_DAY};

fn day(y: i32, m: u32, d: u32) -> Date {
    Date { days_from_ce: chrono::NaiveDate::from_ymd_opt(y, m, d).unwrap().num_days_from_ce() }
}

fn at(y: i32, mo: u32, d: u32, h: u32, mi: u32, s: u32) -> DateTime {
    DateTime { date: day(y, mo, d), hour: h, minute: mi, second: s }
}

#[test]
fn weekday_names() {
    assert_eq!(Weekday::Mon.short(), "MON");
    assert_eq!(Weekday::Sun.short(), "SUN");
    assert_eq!(Weekday::Thu.letter(), "T");
    assert_eq!(Weekday::Sat.letter(), "S");
    assert_eq!(Weekday::from_number(2), Weekday::Wed);
    assert_eq!(Weekday::all()[6], Weekday::Sun);
}

#[test]
fn weekday_of_a_date_comes_from_chrono() {
    // 2024-01-15 was a Monday, 2024-01-21 a Sunday.
    assert_eq!(jexrey_alarm::alarm::weekday_of_date(day(2024, 1, 15)), Weekday::Mon);
    assert_eq!(jexrey_alarm::alarm::weekday_of_date(day(2024, 1, 21)), Weekday::Sun);
    assert_eq!(jexrey_alarm::alarm::weekday_of_date(Date { days_from_ce: 1 }), Weekday::Mon);
}

#[test]
fn repeat_labels() {
    assert_eq!(RepeatMode::Once.label(), "ONCE");
    assert_eq!(RepeatMode::Daily.label(), "DAILY");
    assert_eq!(RepeatMode::Custom(vec![]).label(), "ONCE");
    let workweek = vec![Weekday::Fri, Weekday::Mon, Weekday::Wed, Weekday::Thu, Weekday::Tue];
    assert_eq!(RepeatMode::Custom(workweek).label(), "MON-FRI");
    assert_eq!(RepeatMode::Custom(vec![Weekday::Sun, Weekday::Sat]).label(), "SAT SUN");
    assert_eq!(RepeatMode::Custom(vec![Weekday::Wed, Weekday::Mon]).label(), "MON WED");
    assert_eq!(RepeatMode::Custom(vec![Weekday::Mon, Weekday::Mon]).label(), "MON MON");
    assert_eq!(RepeatMode::Custom(vec![Weekday::Sat]).label(), "SAT");
}

#[test]
fn repeat_due_days() {
    let mode = RepeatMode::Custom(vec![Weekday::Tue, Weekday::Thu]);
    assert!(mode.is_due(Weekday::Tue));
    assert!(!mode.is_due(Weekday::Wed));
    assert!(RepeatMode::Once.is_due(Weekday::Sun));
    assert!(RepeatMode::Custom(vec![]).is_due(Weekday::Sun));
    assert!(mode.is_repeating());
    assert!(RepeatMode::Daily.is_repeating());
    assert!(!RepeatMode::Once.is_repeating());
    // An empty custom list behaves like a one-shot.
    assert!(!RepeatMode::Custom(vec![]).is_repeating());
}

#[test]
fn new_alarm_clamps_time() {
    let a = Alarm::new(4, "WAKE".to_string(), 30, 75);
    assert_eq!((a.id, a.hour, a.minute), (4, 23, 59));
    assert!(a.enabled);
    assert_eq!(a.state, AlarmState::Scheduled);
    assert!(a.sound_path.is_none());
    assert!(a.last_triggered_on.is_none());
    assert_eq!(a.repeat.label(), "ONCE");
}

#[test]
fn time_labels_are_zero_padded() {
    assert_eq!(Alarm::new(1, "A".to_string(), 7, 5).time_label(), "07:05");
    assert_eq!(Alarm::new(1, "A".to_string(), 23, 59).time_label(), "23:59");
    let mut a = Alarm::new(1, "A".to_string(), 0, 0);
    a.hour = 100;
    assert_eq!(a.time_label(), "100:00");
}

#[test]
fn sound_labels() {
    let mut a = Alarm::new(1, "A".to_string(), 7, 0);
    assert_eq!(a.sound_label(), "SYSTEM BEEP");
    a.sound_path = Some("/home/user/sounds/klaxon.wav".to_string());
    assert_eq!(a.sound_label(), "klaxon.wav");
    a.sound_path = Some("".to_string());
    assert_eq!(a.sound_label(), "UNKNOWN.WAV");
}

#[test]
fn display_state_and_badges() {
    let today = day(2024, 3, 10);
    let tomorrow = day(2024, 3, 11);
    let mut a = Alarm::new(1, "A".to_string(), 7, 0);
    assert_eq!(a.badge(today), ("ACTIVE", BadgeColor::Okay));
    a.state = AlarmState::Ringing;
    assert_eq!(a.display_state(today), AlarmState::Ringing);
    assert_eq!(a.badge(today), ("RINGING", BadgeColor::Alert));
    a.state = AlarmState::Completed;
    a.last_triggered_on = Some(today);
    assert_eq!(a.badge(today), ("DONE", BadgeColor::Dim));
    // A one-shot stays done; a repeating alarm comes back the next day.
    assert_eq!(a.display_state(tomorrow), AlarmState::Completed);
    a.repeat = RepeatMode::Daily;
    assert_eq!(a.display_state(today), AlarmState::Completed);
    assert_eq!(a.display_state(tomorrow), AlarmState::Scheduled);
    a.enabled = false;
    assert_eq!(a.badge(tomorrow), ("OFF", BadgeColor::Dim));
}

#[test]
fn should_trigger_rules() {
    // 2024-01-15 is a Monday.
    let now = at(2024, 1, 15, 7, 0, 0);
    let mut a = Alarm::new(1, "A".to_string(), 7, 0);
    assert!(a.should_trigger(now));
    assert!(a.should_trigger(at(2024, 1, 15, 7, 0, 42)));
    assert!(!a.should_trigger(at(2024, 1, 15, 7, 1, 0)));
    a.repeat = RepeatMode::Custom(vec![Weekday::Tue]);
    assert!(!a.should_trigger(now));
    assert!(a.should_trigger(at(2024, 1, 16, 7, 0, 0)));
    a.repeat = RepeatMode::Daily;
    a.last_triggered_on = Some(now.date);
    assert!(!a.should_trigger(now));
    a.last_triggered_on = None;
    a.state = AlarmState::Ringing;
    assert!(!a.should_trigger(now));
    a.state = AlarmState::Scheduled;
    a.enabled = false;
    assert!(!a.should_trigger(now));
}

#[test]
fn completed_one_shot_never_fires_again() {
    let mut a = Alarm::new(1, "A".to_string(), 7, 0);
    a.state = AlarmState::Completed;
    a.last_triggered_on = Some(day(2024, 1, 15));
    assert!(!a.should_trigger(at(2024, 1, 16, 7, 0, 0)));
    assert_eq!(a.next_occurrence(at(2024, 1, 16, 6, 0, 0)), None);
    a.repeat = RepeatMode::Daily;
    assert!(a.should_trigger(at(2024, 1, 16, 7, 0, 0)));
}

#[test]
fn next_occurrence_search() {
    let a = Alarm::new(1, "A".to_string(), 7, 30);
    // Later today.
    assert_eq!(a.next_occurrence(at(2024, 1, 15, 6, 0, 0)), Some(at(2024, 1, 15, 7, 30, 0)));
    // The search includes `from`'s own minute, whatever its seconds.
    assert_eq!(a.next_occurrence(at(2024, 1, 15, 7, 30, 0)), Some(at(2024, 1, 15, 7, 30, 0)));
    assert_eq!(a.next_occurrence(at(2024, 1, 15, 7, 30, 30)), Some(at(2024, 1, 15, 7, 30, 0)));
    assert_eq!(a.next_occurrence(at(2024, 1, 15, 7, 31, 0)), Some(at(2024, 1, 16, 7, 30, 0)));
    // Tomorrow when today's time has passed.
    assert_eq!(a.next_occurrence(at(2024, 1, 15, 8, 0, 0)), Some(at(2024, 1, 16, 7, 30, 0)));
    // A one-shot that already fired today skips today's slot.
    let mut b = Alarm::new(2, "B".to_string(), 9, 0);
    b.last_triggered_on = Some(day(2024, 1, 15));
    assert_eq!(b.next_occurrence(at(2024, 1, 15, 8, 0, 0)), Some(at(2024, 1, 16, 9, 0, 0)));
    // Custom days: Monday 2024-01-15, only Fridays -> 2024-01-19.
    let mut c = Alarm::new(3, "C".to_string(), 6, 0);
    c.repeat = RepeatMode::Custom(vec![Weekday::Fri]);
    assert_eq!(c.next_occurrence(at(2024, 1, 15, 12, 0, 0)), Some(at(2024, 1, 19, 6, 0, 0)));
    // Same weekday a week later when today's slot has passed.
    c.repeat = RepeatMode::Custom(vec![Weekday::Mon]);
    assert_eq!(c.next_occurrence(at(2024, 1, 15, 12, 0, 0)), Some(at(2024, 1, 22, 6, 0, 0)));
    // Off, or an hour that names no time of day: none.
    c.enabled = false;
    assert_eq!(c.next_occurrence(at(2024, 1, 15, 12, 0, 0)), None);
    let mut d = Alarm::new(4, "D".to_string(), 6, 0);
    d.hour = 24;
    assert_eq!(d.next_occurrence(at(2024, 1, 15, 12, 0, 0)), None);
}

#[test]
fn clone_keeps_fields() {
    let mut a = Alarm::new(9, "X".to_string(), 5, 6);
    a.repeat = RepeatMode::Custom(vec![Weekday::Mon]);
    a.sound_path = Some("s.wav".to_string());
    let b = a.clone();
    assert_eq!(b.id, 9);
    assert_eq!(b.name, "X");
    assert_eq!(b.sound_path.as_deref(), Some("s.wav"));
    assert_eq!(b.repeat.label(), "MON");
}

#[test]
fn day_range_matches_chrono() {
    assert_eq!(chrono::NaiveDate::MIN.num_days_from_ce(), MIN_DAY);
    assert_eq!(chrono::NaiveDate::MAX.num_days_from_ce(), MAX_DAY);
    assert!(chrono::NaiveDate::from_num_days_from_ce_opt(MIN_DAY - 1).is_none());
    assert!(chrono::NaiveDate::from_num_days_from_ce_opt(MAX_DAY + 1).is_none());
    let last = jexrey_alarm::alarm::weekday_of_date(Date { days_from_ce: MAX_DAY });
    let expected = chrono::NaiveDate::MAX.weekday().num_days_from_monday();
    assert_eq!(Weekday::from_number(expected), last);
}

#[test]
fn search_near_the_last_representable_day() {
    let last = |h: u32, mi: u32, back: i32| DateTime {
        date: Date { days_from_ce: MAX_DAY - back },
        hour: h,
        minute: mi,
        second: 0,
    };
    let a = Alarm::new(1, "A".to_string(), 7, 30);
    // Today's slot is still ahead: found without leaving the range.
    assert!(a.search_stays_in_range(last(6, 0, 0)));
    assert_eq!(a.next_occurrence(last(6, 0, 0)), Some(last(7, 30, 0)));
    // Two days before the end: tomorrow's slot.
    assert!(a.search_stays_in_range(last(8, 0, 2)));
    assert_eq!(a.next_occurrence(last(8, 0, 2)), Some(last(7, 30, 1)));
    // On the last day, after its slot: the search would step past the end.
    assert!(!a.search_stays_in_range(last(8, 0, 0)));
    // A week away from the end, any search stays in range.
    assert!(a.search_stays_in_range(last(8, 0, 7)));
    // An alarm that is off is not searched.
    let mut off = Alarm::new(2, "B".to_string(), 7, 30);
    off.enabled = false;
    assert!(off.search_stays_in_range(last(8, 0, 0)));
    assert_eq!(off.next_occurrence(last(8, 0, 0)), None);
}
