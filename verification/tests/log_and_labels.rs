use jexrey_alarm::config::{default_version, ConfigFile};
use jexrey_alarm::dashboard::{
    alarm_count_label, alarm_mode_change, audio_engine_label, audio_gauge_label, format_duration,
    log_save_failure, log_startup, radar_mark, shortcut_action, status_texts, RadarMark,
};
use jexrey_alarm::alarm::AlarmState;
use jexrey_alarm::event_log::{clock_label, EventLog, Severity, MAX_ENTRIES};
use jexrey_alarm::text::padded_string;
use jexrey_alarm::theme::Palette;

#[test]
fn log_is_capped_and_keeps_the_newest() {
    let mut log = EventLog::new();
    for i in 0..(MAX_ENTRIES + 25) {
        log.push_at(format!("{i}"), Severity::Sys, format!("line {i}"));
    }
    assert_eq!(log.len(), MAX_ENTRIES);
    let entries = log.entries();
    assert_eq!(entries.front().unwrap().message, "line 25");
    assert_eq!(entries.back().unwrap().message, format!("line {}", MAX_ENTRIES + 24));
}

#[test]
fn log_push_stamps_the_local_time() {
    let mut log = EventLog::default();
    log.push(Severity::Warn, "careful".to_string());
    let e = log.entries().back().unwrap();
    assert_eq!(e.severity, Severity::Warn);
    assert_eq!(e.message, "careful");
    let t: Vec<char> = e.timestamp.chars().collect();
    assert_eq!(t.len(), 8);
    assert_eq!((t[2], t[5]), (':', ':'));
}

#[test]
fn severity_tags() {
    assert_eq!(Severity::Sys.tag(), "SYS");
    assert_eq!(Severity::Alarm.tag(), "ALARM");
    assert_eq!(Severity::Audio.tag(), "AUDIO");
    assert_eq!(Severity::Warn.tag(), "WARN");
}

#[test]
fn startup_lines() {
    let mut log = EventLog::new();
    log_startup(&mut log, 3, false);
    let msgs: Vec<(Severity, String)> =
        log.entries().iter().map(|e| (e.severity, e.message.clone())).collect();
    assert_eq!(msgs.len(), 4);
    assert_eq!(msgs[0], (Severity::Sys, "JEXREY ALARM CONTROL SYSTEM initialized".to_string()));
    assert_eq!(msgs[1], (Severity::Sys, "Configuration loaded (3 alarm(s))".to_string()));
    assert_eq!(
        msgs[2],
        (Severity::Warn, "No audio output device detected \u{2014} alarms will still trigger visually".to_string())
    );
    assert_eq!(msgs[3], (Severity::Sys, "Scheduler online \u{2014} monitoring active".to_string()));
    let mut log2 = EventLog::new();
    log_startup(&mut log2, 0, true);
    assert_eq!(log2.entries()[2].message, "Audio engine ready");
    assert_eq!(log2.entries()[2].severity, Severity::Audio);
    log_save_failure(&mut log2, "disk full");
    assert_eq!(log2.entries()[4].message, "Failed to save configuration: disk full");
}

#[test]
fn clock_and_duration_texts() {
    assert_eq!(clock_label(7, 5, 9), "07:05:09");
    assert_eq!(format_duration(0), "00:00:00");
    assert_eq!(format_duration(3661), "01:01:01");
    assert_eq!(format_duration(360_000), "100:00:00");
    assert_eq!(padded_string(7, 4), "0007");
    assert_eq!(padded_string(12345, 4), "12345");
}

#[test]
fn dashboard_texts() {
    assert_eq!(alarm_count_label(2, 5), "02/05");
    assert_eq!(audio_gauge_label(false, true), "OFFLINE");
    assert_eq!(audio_gauge_label(true, true), "PLAYING");
    assert_eq!(audio_gauge_label(true, false), "READY");
    assert_eq!(audio_engine_label(3), "PLAYING x3");
    assert_eq!(audio_engine_label(0), "READY");
    assert_eq!(status_texts(true), ("ALARM ACTIVE", "ALERT"));
    assert_eq!(status_texts(false), ("ONLINE", "OPERATIONAL"));
}

#[test]
fn shortcuts_and_alarm_mode() {
    let a = shortcut_action(true, true, true, false, false);
    assert!(a.stop_all);
    assert!(!a.open_new_form);
    let b = shortcut_action(false, true, true, false, false);
    assert!(!b.stop_all);
    assert!(b.open_new_form);
    assert!(!shortcut_action(false, false, true, true, false).open_new_form);
    assert!(!shortcut_action(false, false, true, false, true).open_new_form);
    assert_eq!(alarm_mode_change(false, true), Some(true));
    assert_eq!(alarm_mode_change(true, false), Some(false));
    assert_eq!(alarm_mode_change(true, true), None);
}

#[test]
fn radar_marks() {
    assert_eq!(radar_mark(AlarmState::Ringing, 500), RadarMark::Ringing);
    assert_eq!(radar_mark(AlarmState::Scheduled, 15), RadarMark::Imminent);
    assert_eq!(radar_mark(AlarmState::Scheduled, 16), RadarMark::Upcoming);
}

#[test]
fn palette_channels() {
    assert_eq!(Palette::channels(Palette::GREEN), (57, 255, 136));
    assert_eq!(Palette::channels(Palette::VOID), (6, 10, 10));
    assert_eq!(Palette::severity_color(Severity::Warn), Palette::RED);
}

#[test]
fn config_defaults() {
    assert_eq!(default_version(), 1);
    let c = ConfigFile::default();
    assert_eq!((c.version, c.next_id, c.alarms.len()), (0, 0, 0));
}
