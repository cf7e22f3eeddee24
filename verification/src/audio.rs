//! What the audio engine decides: which sound an alarm loops, what the
//! event log is told about it, and which alarm owns which playback sink.
//! Opening the output device, decoding files and driving the sinks is the
//! program's business; the engine only keeps them.

use vstd::prelude::*;
use std::collections::HashMap;

verus! {

/// What actually ended up playing for a trigger.
#[derive(Debug)]
pub enum PlaybackKind {
    /// The alarm's own sound file, looping.
    File(String),
    /// The synthesized fallback beep, looping, with the reason it replaced
    /// the file.
    FallbackBeep(String),
}

/// What ended up playing, as a mathematical value.
pub enum PlaybackView {
    File(Seq<char>),
    FallbackBeep(Seq<char>),
}

impl View for PlaybackKind {
    type V = PlaybackView;

    open spec fn view(&self) -> PlaybackView {
        match self {
            PlaybackKind::File(p) => PlaybackView::File(p@),
            PlaybackKind::FallbackBeep(r) => PlaybackView::FallbackBeep(r@),
        }
    }
}

/// The sound an alarm loops, given its sound file (if any) and, when the
/// file could not be decoded, the reason: the file itself; the fallback
/// beep with that reason; or the fallback beep with `no sound assigned`.
pub fn playback_kind(sound_path: Option<String>, decode_error: Option<String>) -> (k: PlaybackKind)
    ensures
        k@ == match sound_path {
            Some(p) => match decode_error {
                None => PlaybackView::File(p@),
                Some(r) => PlaybackView::FallbackBeep(r@),
            },
            None => PlaybackView::FallbackBeep("no sound assigned"@),
        },
{
    match sound_path {
        Some(p) => match decode_error {
            None => PlaybackKind::File(p),
            Some(r) => PlaybackKind::FallbackBeep(r),
        },
        None => PlaybackKind::FallbackBeep(String::from_str("no sound assigned")),
    }
}

/// Why nothing plays when there is no output device.
pub fn no_device_error() -> (e: String)
    ensures
        e@ == "no audio output device available"@,
{
    String::from_str("no audio output device available")
}

/// Why nothing plays when no sink could be opened on the device.
pub fn sink_error(reason: &str) -> (e: String)
    ensures
        e@ == "could not open sink: "@ + reason@,
{
    let mut e = String::from_str("could not open sink: ");
    e.append(reason);
    e
}

/// What a request to loop an alarm's sound reports, given whether a sink
/// could be opened (`None`: no output device; `Some(Err(reason))`: the
/// device refused a sink), the alarm's sound file and, when the file could
/// not be decoded, the reason: the no-device error, the sink error, or what
/// plays (see `playback_kind`).
pub fn playback_outcome(
    sink: Option<Result<(), String>>,
    sound_path: Option<String>,
    decode_error: Option<String>,
) -> (r: Result<PlaybackKind, String>)
    ensures
        match sink {
            None => r matches Err(e) && e@ == "no audio output device available"@,
            Some(Err(reason)) => r matches Err(e) && e@ == "could not open sink: "@ + reason@,
            Some(Ok(())) => r matches Ok(k) && k@ == match sound_path {
                Some(p) => match decode_error {
                    None => PlaybackView::File(p@),
                    Some(d) => PlaybackView::FallbackBeep(d@),
                },
                None => PlaybackView::FallbackBeep("no sound assigned"@),
            },
        },
{
    match sink {
        None => Err(no_device_error()),
        Some(Err(reason)) => Err(sink_error(reason.as_str())),
        Some(Ok(())) => Ok(playback_kind(sound_path, decode_error)),
    }
}

/// The output device (if one could be opened) and one playback sink per
/// ringing alarm: an alarm never has two sinks at once.
pub struct AudioEngine<D, S> {
    device: Option<D>,
    sinks: HashMap<u64, S>,
}

impl<D, S> AudioEngine<D, S> {
    /// The ids of the alarms whose sound is looping, with their sinks.
    pub closed spec fn sink_map(self) -> Map<u64, S> {
        self.sinks@
    }

    /// Whether an output device was opened.
    pub closed spec fn has_device(self) -> bool {
        self.device is Some
    }

    /// An engine on this device (None when no device could be opened), with
    /// nothing playing.
    pub fn new(device: Option<D>) -> (e: Self)
        ensures
            e.has_device() == device is Some,
            e.sink_map() == Map::<u64, S>::empty(),
            e.sink_map().dom().finite(),
    {
        AudioEngine { device, sinks: HashMap::new() }
    }

    /// Whether an output device is available.
    pub fn is_available(&self) -> (r: bool)
        ensures
            r == self.has_device(),
    {
        self.device.is_some()
    }

    /// The output device.
    pub fn device(&self) -> (d: Option<&D>)
        ensures
            d is Some == self.has_device(),
    {
        match &self.device {
            Some(d) => Some(d),
            None => None,
        }
    }

    /// Whether at least one alarm's sound is looping.
    pub fn any_playing(&self) -> (r: bool)
        ensures
            r == (self.sink_map().dom().len() > 0),
    {
        broadcast use vstd::std_specs::hash::group_hash_axioms;
        self.sinks.len() > 0
    }

    /// Whether this alarm's sound is looping.
    pub fn is_playing(&self, alarm_id: u64) -> (r: bool)
        ensures
            r == self.sink_map().contains_key(alarm_id),
    {
        broadcast use vstd::std_specs::hash::group_hash_axioms;
        self.sinks.contains_key(&alarm_id)
    }

    /// Number of alarms whose sound is looping.
    pub fn playing_count(&self) -> (n: usize)
        ensures
            n == self.sink_map().dom().len(),
    {
        broadcast use vstd::std_specs::hash::group_hash_axioms;
        self.sinks.len()
    }

    /// Takes this alarm's sink out (to be stopped), if it has one.
    pub fn stop(&mut self, alarm_id: u64) -> (s: Option<S>)
        ensures
            final(self).sink_map() == old(self).sink_map().remove(alarm_id),
            final(self).has_device() == old(self).has_device(),
            s is Some == old(self).sink_map().contains_key(alarm_id),
            s matches Some(v) ==> v == old(self).sink_map()[alarm_id],
            final(self).sink_map().dom().finite(),
            final(self).sink_map().dom().len() == old(self).sink_map().dom().len() - if old(
                self,
            ).sink_map().contains_key(alarm_id) {
                1int
            } else {
                0int
            },
    {
        broadcast use vstd::std_specs::hash::group_hash_axioms;
        proof {
            vstd::std_specs::hash::axiom_hashmap_view_finite_dom(self.sinks);
        }
        let r = self.sinks.remove(&alarm_id);
        proof {
            assert(self.sinks@.dom() =~= old(self).sinks@.dom().remove(alarm_id));
        }
        r
    }

    /// Takes every sink out (to be stopped).
    pub fn stop_all(&mut self) -> (taken: HashMap<u64, S>)
        ensures
            final(self).sink_map() == Map::<u64, S>::empty(),
            final(self).has_device() == old(self).has_device(),
            taken@ == old(self).sink_map(),
            final(self).sink_map().dom().finite(),
            final(self).sink_map().dom().len() == 0,
    {
        let mut taken: HashMap<u64, S> = HashMap::new();
        std::mem::swap(&mut taken, &mut self.sinks);
        taken
    }

    /// Registers the sink now looping this alarm's sound; a sink the alarm
    /// still had is handed back (to be stopped).
    pub fn start(&mut self, alarm_id: u64, sink: S) -> (previous: Option<S>)
        ensures
            final(self).sink_map() == old(self).sink_map().insert(alarm_id, sink),
            final(self).has_device() == old(self).has_device(),
            previous is Some == old(self).sink_map().contains_key(alarm_id),
            final(self).sink_map().dom().finite(),
            final(self).sink_map().dom().len() == old(self).sink_map().dom().len() + if old(
                self,
            ).sink_map().contains_key(alarm_id) {
                0int
            } else {
                1int
            },
    {
        broadcast use vstd::std_specs::hash::group_hash_axioms;
        proof {
            vstd::std_specs::hash::axiom_hashmap_view_finite_dom(self.sinks);
        }
        let r = self.sinks.insert(alarm_id, sink);
        proof {
            assert(self.sinks@.dom() =~= old(self).sinks@.dom().insert(alarm_id));
        }
        r
    }
}

} // verus!
