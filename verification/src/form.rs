//! The alarm creation / edition form: its blank state, its filling from an
//! existing alarm, and the repeat mode it describes.

use vstd::prelude::*;
use crate::alarm::{Alarm, RepeatMode, RepeatView, Weekday, copy_opt_string, file_name_fits, opt_view, path_file_name};

verus! {

/// Repeat choice of the form.
#[derive(Clone, Copy, Debug, PartialEq, Eq, Structural)]
pub enum RepeatKind {
    Once,
    Daily,
    Custom,
}

/// State of the alarm form.
#[derive(Debug)]
pub struct AlarmForm {
    /// The alarm being edited, or None for a new alarm.
    pub editing_id: Option<u64>,
    pub name: String,
    pub hour: u32,
    pub minute: u32,
    pub sound_path: Option<String>,
    pub enabled: bool,
    pub repeat_kind: RepeatKind,
    /// Chosen days of a custom repeat, Monday first.
    pub custom_days: [bool; 7],
}

/// The days whose flag is set among the first `k` of the week, in week order.
pub open spec fn chosen_prefix(flags: Seq<bool>, k: nat) -> Seq<Weekday>
    decreases k,
{
    if k == 0 {
        Seq::empty()
    } else if flags[k - 1] {
        chosen_prefix(flags, (k - 1) as nat).push(Weekday::of_number((k - 1) as nat))
    } else {
        chosen_prefix(flags, (k - 1) as nat)
    }
}

/// The days whose flag is set, in week order.
pub open spec fn chosen_days(flags: Seq<bool>) -> Seq<Weekday> {
    chosen_prefix(flags, 7)
}

/// The repeat mode a form with this choice and these flags describes; a
/// custom choice without any day is a one-shot.
pub open spec fn repeat_of(kind: RepeatKind, flags: Seq<bool>) -> RepeatView {
    match kind {
        RepeatKind::Once => RepeatView::Once,
        RepeatKind::Daily => RepeatView::Daily,
        RepeatKind::Custom => if chosen_days(flags).len() == 0 {
            RepeatView::Once
        } else {
            RepeatView::Custom(chosen_days(flags))
        },
    }
}

/// The day flags of a repeat mode: for a custom mode, whether each day of
/// the week is listed; all unset otherwise.
pub open spec fn flags_of(r: RepeatView) -> Seq<bool> {
    match r {
        RepeatView::Custom(days) => Seq::new(7, |i: int| days.contains(Weekday::of_number(i as nat))),
        _ => Seq::new(7, |i: int| false),
    }
}

/// The repeat choice of a repeat mode.
pub open spec fn kind_of(r: RepeatView) -> RepeatKind {
    match r {
        RepeatView::Once => RepeatKind::Once,
        RepeatView::Daily => RepeatKind::Daily,
        RepeatView::Custom(_) => RepeatKind::Custom,
    }
}

/// Whether `w` is in `days`.
fn contains_day(days: &Vec<Weekday>, w: Weekday) -> (r: bool)
    ensures
        r == days@.contains(w),
{
    let mut i: usize = 0;
    while i < days.len()
        invariant
            i <= days.len(),
            forall|j: int| 0 <= j < i ==> days@[j] != w,
        decreases days.len() - i,
    {
        if days[i] == w {
            assert(days@[i as int] == w);
            return true;
        }
        i = i + 1;
    }
    false
}

impl AlarmForm {
    /// The sound shown in the form: the file name of the chosen sound file,
    /// or `SYSTEM BEEP (no file)` without a file or when its path names none.
    pub fn sound_label(&self) -> (s: String)
        ensures
            match self.sound_path {
                None => s@ == "SYSTEM BEEP (no file)"@,
                Some(p) => exists|f: Option<Seq<char>>| #![trigger file_name_fits(p@, f)] {
                    &&& file_name_fits(p@, f)
                    &&& s@ == match f {
                        Some(x) => x,
                        None => "SYSTEM BEEP (no file)"@,
                    }
                },
            },
    {
        match &self.sound_path {
            Some(p) => {
                let name = path_file_name(p.as_str());
                let ghost f = opt_view(name);
                assert(file_name_fits(p@, f));
                match name {
                    Some(n) => n,
                    None => String::from_str("SYSTEM BEEP (no file)"),
                }
            },
            None => String::from_str("SYSTEM BEEP (no file)"),
        }
    }

    /// The form for a new alarm: no name, 07:00, no sound, enabled, once.
    pub fn blank() -> (f: Self)
        ensures
            f.editing_id is None,
            f.name@ == Seq::<char>::empty(),
            f.hour == 7,
            f.minute == 0,
            f.sound_path is None,
            f.enabled,
            f.repeat_kind == RepeatKind::Once,
            f.custom_days@ == Seq::new(7, |i: int| false),
    {
        let f = AlarmForm {
            editing_id: None,
            name: String::new(),
            hour: 7,
            minute: 0,
            sound_path: None,
            enabled: true,
            repeat_kind: RepeatKind::Once,
            custom_days: [false; 7],
        };
        assert(f.custom_days@ =~= Seq::new(7, |i: int| false));
        f
    }

    /// The form filled from an existing alarm, for editing it.
    pub fn from_alarm(alarm: &Alarm) -> (f: Self)
        ensures
            f.editing_id == Some(alarm.id),
            f.name@ == alarm.name@,
            f.hour == alarm.hour,
            f.minute == alarm.minute,
            opt_view(f.sound_path) == opt_view(alarm.sound_path),
            f.enabled == alarm.enabled,
            f.repeat_kind == kind_of(alarm.repeat@),
            f.custom_days@ == flags_of(alarm.repeat@),
    {
        let (repeat_kind, custom_days) = match &alarm.repeat {
            RepeatMode::Once => (RepeatKind::Once, [false; 7]),
            RepeatMode::Daily => (RepeatKind::Daily, [false; 7]),
            RepeatMode::Custom(days) => {
                let mut flags = [false; 7];
                let mut i: u32 = 0;
                while i < 7
                    invariant
                        i <= 7,
                        flags@.len() == 7,
                        forall|j: int| 0 <= j < i ==> flags@[j] == days@.contains(Weekday::of_number(j as nat)),
                    decreases 7 - i,
                {
                    let wd = Weekday::from_number(i);
                    if contains_day(days, wd) {
                        flags[i as usize] = true;
                    } else {
                        flags[i as usize] = false;
                    }
                    i = i + 1;
                }
                (RepeatKind::Custom, flags)
            },
        };
        let f = AlarmForm {
            editing_id: Some(alarm.id),
            name: alarm.name.clone(),
            hour: alarm.hour,
            minute: alarm.minute,
            sound_path: copy_opt_string(&alarm.sound_path),
            enabled: alarm.enabled,
            repeat_kind,
            custom_days,
        };
        assert(f.custom_days@ =~= flags_of(alarm.repeat@));
        f
    }

    /// The repeat mode the form describes; a custom choice with no day
    /// chosen is a one-shot.
    pub fn build_repeat(&self) -> (r: RepeatMode)
        ensures
            r@ == repeat_of(self.repeat_kind, self.custom_days@),
    {
        match self.repeat_kind {
            RepeatKind::Once => RepeatMode::Once,
            RepeatKind::Daily => RepeatMode::Daily,
            RepeatKind::Custom => {
                let mut days: Vec<Weekday> = Vec::new();
                let mut i: u32 = 0;
                while i < 7
                    invariant
                        i <= 7,
                        self.custom_days@.len() == 7,
                        days@ == chosen_prefix(self.custom_days@, i as nat),
                    decreases 7 - i,
                {
                    if self.custom_days[i as usize] {
                        days.push(Weekday::from_number(i));
                    }
                    i = i + 1;
                }
                if days.len() == 0 {
                    RepeatMode::Once
                } else {
                    RepeatMode::Custom(days)
                }
            },
        }
    }
}

} // verus!
