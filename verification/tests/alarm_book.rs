use chrono::Datelike;
use jexrey_alarm::alarm::{Alarm, AlarmState, RepeatMode, Weekday};
use jexrey_alarm::audio::{no_device_error, playback_kind, playback_outcome, sink_error, AudioEngine, PlaybackKind};
use jexrey_alarm::calendar::{Date, DateTime};
use jexrey_alarm::config::ConfigFile;
use jexrey_alarm::control::{record_scheduler_event, AlarmBook};
use jexrey_alarm::dashboard::next_alarm_label;
use jexrey_alarm::event_log::{EventLog, Severity};
use jexrey_alarm::form::{AlarmForm, RepeatKind};
use jexrey_alarm::scheduler::{Scheduler, SchedulerEvent};

fn at(y: i32, mo: u32, d: u32, h: u32, mi: u32, s: u32) -> DateTime {
    let n = chrono::NaiveDate::from_ymd_opt(y, mo, d).unwrap().num_days_from_ce();
    DateTime { date: Date { days_from_ce: n }, hour: h, minute: mi, second: s }
}

fn book_with(ids: &[u64], next_id: u64) -> AlarmBook {
    let alarms = ids.iter().map(|&i| Alarm::new(i, format!("A{i}"), 7, i as u32 % 60)).collect();
    AlarmBook::from_config(ConfigFile { version: 1, next_id, alarms })
}

fn last_message(log: &EventLog) -> String {
    log.entries().back().unwrap().message.clone()
}

#[test]
fn next_id_after_loading() {
    assert_eq!(book_with(&[], 0).next_id(), 1);
    assert_eq!(book_with(&[3, 9, 4], 2).next_id(), 10);
    assert_eq!(book_with(&[3], 42).next_id(), 42);
    let cfg = book_with(&[3, 9], 0).to_config();
    assert_eq!((cfg.version, cfg.next_id, cfg.alarms.len()), (1, 10, 2));
}

#[test]
fn saving_a_new_alarm() {
    let mut book = book_with(&[1], 2);
    let mut log = EventLog::new();
    let mut form = AlarmForm::blank();
    form.name = "  morning run ".to_string();
    form.hour = 6;
    form.minute = 75;
    form.repeat_kind = RepeatKind::Custom;
    form.custom_days[0] = true;
    form.custom_days[2] = true;
    book.save_form(&form, &mut log);
    let a = &book.alarms()[1];
    assert_eq!((a.id, a.name.as_str(), a.hour, a.minute), (2, "MORNING RUN", 6, 59));
    assert_eq!(a.repeat.label(), "MON WED");
    assert_eq!(book.next_id(), 3);
    assert_eq!(last_message(&log), "MORNING RUN scheduled for 06:59");
}

#[test]
fn names_are_trimmed_of_unicode_whitespace_and_upper_cased() {
    let mut book = book_with(&[], 0);
    let mut log = EventLog::new();
    let mut form = AlarmForm::blank();
    form.name = "\u{3000}\tcafé\u{2003} ".to_string();
    book.save_form(&form, &mut log);
    assert_eq!(book.alarms()[0].name, "CAFÉ");
}

#[test]
fn blank_name_becomes_alarm_and_empty_custom_is_once() {
    let mut book = book_with(&[], 0);
    let mut log = EventLog::new();
    let mut form = AlarmForm::blank();
    form.name = "   ".to_string();
    form.repeat_kind = RepeatKind::Custom;
    book.save_form(&form, &mut log);
    let a = &book.alarms()[0];
    assert_eq!(a.name, "ALARM");
    assert!(matches!(a.repeat, RepeatMode::Once));
    assert_eq!((a.hour, a.minute), (7, 0));
}

#[test]
fn editing_an_alarm() {
    let mut book = book_with(&[1, 2], 3);
    let mut log = EventLog::new();
    let mut form = AlarmForm::from_alarm(&book.alarms()[1]);
    assert_eq!(form.editing_id, Some(2));
    form.name = "nap".to_string();
    form.hour = 13;
    form.repeat_kind = RepeatKind::Daily;
    book.save_form(&form, &mut log);
    let a = &book.alarms()[1];
    assert_eq!((a.id, a.name.as_str(), a.hour), (2, "NAP", 13));
    assert!(matches!(a.repeat, RepeatMode::Daily));
    assert_eq!(book.next_id(), 3);
    assert_eq!(last_message(&log), "NAP reconfigured");
    // Editing an alarm that was deleted meanwhile changes nothing.
    form.editing_id = Some(77);
    book.save_form(&form, &mut log);
    assert_eq!(book.alarms().len(), 2);
    assert_eq!(log.len(), 1);
}

#[test]
fn duplicate_toggle_stop_delete() {
    let mut book = book_with(&[1], 2);
    let mut log = EventLog::new();
    assert!(book.duplicate_alarm(1, &mut log));
    let copy = &book.alarms()[1];
    assert_eq!((copy.id, copy.name.as_str(), copy.state), (2, "A1 (COPY)", AlarmState::Scheduled));
    assert_eq!(last_message(&log), "A1 (COPY) duplicated");
    assert!(!book.duplicate_alarm(9, &mut log));

    book.toggle_enabled(2, &mut log);
    assert!(!book.alarms()[1].enabled);
    assert_eq!(last_message(&log), "A1 (COPY) DISABLED");
    book.toggle_enabled(2, &mut log);
    assert_eq!(last_message(&log), "A1 (COPY) ENABLED");

    book.stop_alarm(1, &mut log);
    assert_eq!(book.alarms()[0].state, AlarmState::Completed);
    assert_eq!(last_message(&log), "A1 STOPPED BY USER");

    assert!(book.delete_alarm(1, &mut log));
    assert_eq!(book.alarms().len(), 1);
    assert_eq!(last_message(&log), "A1 deleted");
    assert!(!book.delete_alarm(1, &mut log));
    assert_eq!(book.next_id(), 3);
}

#[test]
fn ringing_counts_and_display_order() {
    let mut book = book_with(&[1, 2, 3], 4);
    let mut log = EventLog::new();
    let mut form = AlarmForm::from_alarm(&book.alarms()[0]);
    form.hour = 5;
    book.save_form(&form, &mut log);
    // Alarms: 1 at 05:01, 2 at 07:02, 3 at 07:03.
    assert_eq!(book.display_order(), vec![0, 1, 2]);
    let mut form = AlarmForm::from_alarm(&book.alarms()[2]);
    form.minute = 2;
    book.save_form(&form, &mut log);
    // 2 and 3 now share 07:02 and keep their list order.
    assert_eq!(book.display_order(), vec![0, 1, 2]);
    let mut form = AlarmForm::from_alarm(&book.alarms()[0]);
    form.hour = 8;
    book.save_form(&form, &mut log);
    assert_eq!(book.display_order(), vec![1, 2, 0]);

    assert!(!book.any_ringing());
    let mut s = Scheduler::new();
    let fired = book.tick(&mut s, at(2024, 5, 6, 7, 2, 0));
    assert_eq!(fired.len(), 2);
    assert!(book.any_ringing());
    assert_eq!(book.ringing_ids(), vec![2, 3]);
    book.toggle_enabled(1, &mut log);
    assert_eq!(book.active_count(), 2);
    assert_eq!(next_alarm_label(&book, at(2024, 5, 6, 7, 2, 0)), "07:02");
}

#[test]
fn form_round_trip() {
    let mut a = Alarm::new(4, "X".to_string(), 9, 15);
    a.repeat = RepeatMode::Custom(vec![Weekday::Sun, Weekday::Tue]);
    a.enabled = false;
    let f = AlarmForm::from_alarm(&a);
    assert_eq!(f.repeat_kind, RepeatKind::Custom);
    assert_eq!(f.custom_days, [false, true, false, false, false, false, true]);
    assert!(!f.enabled);
    assert_eq!(f.build_repeat().label(), "TUE SUN");
    let b = AlarmForm::blank();
    assert_eq!((b.hour, b.minute, b.enabled, b.repeat_kind), (7, 0, true, RepeatKind::Once));
    assert!(matches!(b.build_repeat(), RepeatMode::Once));
}

#[test]
fn scheduler_event_lines() {
    let mut log = EventLog::new();
    record_scheduler_event(&mut log, SchedulerEvent::Triggered {
        alarm_id: 7,
        name: "WAKE".to_string(),
        playback: Ok(PlaybackKind::File("/sounds/ring.mp3".to_string())),
    });
    record_scheduler_event(&mut log, SchedulerEvent::Triggered {
        alarm_id: 12345,
        name: "B".to_string(),
        playback: Ok(PlaybackKind::FallbackBeep("no sound assigned".to_string())),
    });
    record_scheduler_event(&mut log, SchedulerEvent::Triggered {
        alarm_id: 3,
        name: "C".to_string(),
        playback: Err("no audio output device available".to_string()),
    });
    let lines: Vec<(Severity, String)> =
        log.entries().iter().map(|e| (e.severity, e.message.clone())).collect();
    assert_eq!(lines[0], (Severity::Alarm, "ALM-0007 WAKE TRIGGERED".to_string()));
    assert_eq!(lines[1], (Severity::Audio, "LOOP PLAYBACK STARTED (ring.mp3)".to_string()));
    assert_eq!(lines[2], (Severity::Alarm, "ALM-12345 B TRIGGERED".to_string()));
    assert_eq!(lines[3], (Severity::Warn, "Falling back to system beep \u{2014} no sound assigned".to_string()));
    assert_eq!(lines[4], (Severity::Audio, "LOOP PLAYBACK STARTED (fallback beep)".to_string()));
    assert_eq!(lines[5], (Severity::Alarm, "ALM-0003 C TRIGGERED".to_string()));
    assert_eq!(lines[6], (Severity::Warn, "Audio playback failed \u{2014} no audio output device available".to_string()));
    assert_eq!(lines.len(), 7);
}

#[test]
fn audio_engine_bookkeeping() {
    let mut e: AudioEngine<(), u32> = AudioEngine::new(Some(()));
    assert!(e.is_available());
    assert!(!e.any_playing());
    assert_eq!(e.start(1, 10), None);
    assert_eq!(e.start(2, 20), None);
    assert_eq!(e.start(1, 11), Some(10));
    assert_eq!(e.playing_count(), 2);
    assert!(e.is_playing(2));
    assert_eq!(e.stop(2), Some(20));
    assert!(!e.is_playing(2));
    assert_eq!(e.stop(2), None);
    let rest = e.stop_all();
    assert_eq!(rest.get(&1), Some(&11));
    assert!(!e.any_playing());
    let none: AudioEngine<(), u32> = AudioEngine::new(None);
    assert!(!none.is_available());
    assert!(none.device().is_none());
}

#[test]
fn playback_decisions() {
    assert!(matches!(playback_kind(Some("a.wav".to_string()), None), PlaybackKind::File(p) if p == "a.wav"));
    assert!(matches!(playback_kind(Some("a.wav".to_string()), Some("bad".to_string())), PlaybackKind::FallbackBeep(r) if r == "bad"));
    assert!(matches!(playback_kind(None, None), PlaybackKind::FallbackBeep(r) if r == "no sound assigned"));
    assert_eq!(no_device_error(), "no audio output device available");
    assert_eq!(sink_error("busy"), "could not open sink: busy");
}

#[test]
fn reload_keeps_alarms_and_next_id() {
    let mut book = book_with(&[5, 2], 0);
    let mut log = EventLog::new();
    assert!(book.duplicate_alarm(5, &mut log));
    assert!(book.delete_alarm(6, &mut log));
    let reloaded = AlarmBook::from_config(book.to_config());
    assert_eq!(reloaded.next_id(), book.next_id());
    assert_eq!(reloaded.next_id(), 7);
    let ids: Vec<u64> = reloaded.alarms().iter().map(|a| a.id).collect();
    assert_eq!(ids, vec![5, 2]);
}

#[test]
fn stopping_all_ringing_alarms() {
    let alarms = vec![
        Alarm::new(1, "WAKE".to_string(), 7, 0),
        Alarm::new(2, "NAP".to_string(), 9, 0),
        Alarm::new(3, "GYM".to_string(), 7, 0),
    ];
    let mut book = AlarmBook::from_config(ConfigFile { version: 1, next_id: 4, alarms });
    let mut log = EventLog::new();
    let mut s = Scheduler::new();
    assert_eq!(book.tick(&mut s, at(2024, 5, 6, 7, 0, 0)).len(), 2);
    assert_eq!(book.ringing_ids(), vec![1, 3]);

    let stopped = book.stop_all_ringing(&mut log);
    assert_eq!(stopped, vec![1, 3]);
    assert!(!book.any_ringing());
    assert_eq!(book.alarms()[0].state, AlarmState::Completed);
    assert_eq!(book.alarms()[1].state, AlarmState::Scheduled);
    assert_eq!(book.alarms()[2].state, AlarmState::Completed);
    let lines: Vec<(Severity, String)> =
        log.entries().iter().map(|e| (e.severity, e.message.clone())).collect();
    assert_eq!(
        lines,
        vec![
            (Severity::Alarm, "WAKE STOPPED BY USER".to_string()),
            (Severity::Alarm, "GYM STOPPED BY USER".to_string()),
        ]
    );
    assert_eq!(book.next_id(), 4);

    assert!(book.stop_all_ringing(&mut log).is_empty());
    assert_eq!(log.entries().len(), 2);
}

#[test]
fn stopping_all_with_a_shared_id_stops_the_first_twice() {
    let alarms = vec![
        Alarm::new(5, "FIRST".to_string(), 7, 0),
        Alarm::new(5, "SECOND".to_string(), 7, 0),
    ];
    let mut book = AlarmBook::from_config(ConfigFile { version: 1, next_id: 6, alarms });
    let mut log = EventLog::new();
    let mut s = Scheduler::new();
    assert_eq!(book.tick(&mut s, at(2024, 5, 6, 7, 0, 0)).len(), 2);
    assert_eq!(book.stop_all_ringing(&mut log), vec![5, 5]);
    assert_eq!(book.alarms()[0].state, AlarmState::Completed);
    assert_eq!(book.alarms()[1].state, AlarmState::Ringing);
    let lines: Vec<String> = log.entries().iter().map(|e| e.message.clone()).collect();
    assert_eq!(lines, vec!["FIRST STOPPED BY USER".to_string(), "FIRST STOPPED BY USER".to_string()]);
}

#[test]
fn playback_outcomes() {
    assert_eq!(
        playback_outcome(None, Some("a.wav".to_string()), None).err(),
        Some("no audio output device available".to_string())
    );
    assert_eq!(
        playback_outcome(Some(Err("busy".to_string())), None, None).err(),
        Some("could not open sink: busy".to_string())
    );
    assert!(matches!(
        playback_outcome(Some(Ok(())), Some("/s/ring.mp3".to_string()), None),
        Ok(PlaybackKind::File(p)) if p == "/s/ring.mp3"
    ));
    assert!(matches!(
        playback_outcome(Some(Ok(())), Some("x.wav".to_string()), Some("corrupt".to_string())),
        Ok(PlaybackKind::FallbackBeep(r)) if r == "corrupt"
    ));
    assert!(matches!(
        playback_outcome(Some(Ok(())), None, None),
        Ok(PlaybackKind::FallbackBeep(r)) if r == "no sound assigned"
    ));
}

#[test]
fn form_sound_label() {
    let mut f = AlarmForm::blank();
    assert_eq!(f.sound_label(), "SYSTEM BEEP (no file)");
    f.sound_path = Some("/home/user/sounds/klaxon.wav".to_string());
    assert_eq!(f.sound_label(), "klaxon.wav");
    f.sound_path = Some("bell.ogg".to_string());
    assert_eq!(f.sound_label(), "bell.ogg");
    f.sound_path = Some("/".to_string());
    assert_eq!(f.sound_label(), "SYSTEM BEEP (no file)");
}
