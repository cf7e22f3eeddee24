//! Alarm control library: the calendar model, the alarm lifecycle state
//! machine, the once-per-second scheduler, the capped event log and the
//! decisions the dashboard takes on top of them.

pub mod calendar;
pub mod text;
pub mod alarm;
pub mod audio;
pub mod scheduler;
pub mod event_log;
pub mod config;
pub mod form;
pub mod control;
pub mod dashboard;
pub mod theme;
pub mod laws;
