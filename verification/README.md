# jexrey_alarm

A multi-alarm control console. The library in `src/` holds the alarm logic,
written in Verus and proved against its contracts; `app/` is the egui
program around it (window, audio device, files, telemetry thread).

## Library modules

- `calendar` — days numbered as chrono numbers them, instants to the second,
  their order; the weekday of a day is asked of chrono.
- `text` — zero-padded decimal rendering, trimming and upper-casing of names.
- `alarm` — weekdays, repeat modes and their labels, the alarm lifecycle
  (`Scheduled` / `Ringing` / `Completed`), when an alarm triggers, and its
  next occurrence.
- `scheduler` — the once-per-second pass that fires due alarms; the soonest
  upcoming alarm.
- `event_log` — the log capped at 300 lines.
- `audio` — which sound plays and which alarm owns which sink.
- `config`, `form` — the saved configuration and the alarm form.
- `control` — the edited alarm list (create, edit, duplicate, delete, switch,
  stop), whose ids never collide, and the log lines of scheduler events.
- `dashboard`, `theme` — status texts, shortcuts, radar marks, palette.
- `laws` — properties that span several operations (an alarm rings at most
  once a day, a one-shot alarm is done for good, a repeating one comes back
  the next day, the pass is idempotent, ids stay fresh, the log keeps the
  newest lines, the form round-trips a repeat mode).

`tests/` runs the library on concrete values.
