//! The volume knob: turning it steps the volume of the target of the button
//! it follows, pressing it mutes that target.
use vstd::prelude::*;

use crate::audio::{set_volume_args, AudioService, AudioTarget};
use crate::constants::DEBOUNCE_MS;
use crate::pipewire::strings_view;
use crate::shared_state::{
    after_lock, load_selection, lock_button, unlocked_in, ButtonInfo, ButtonLockStates, SharedState,
    StreamSelection,
};

verus! {

/// The settings the deck stores for a knob.
pub struct VolumeControlSettings {
    pub link_id: Option<String>,
    pub current_volume: u32,
    pub pre_mute_volume: u32,
    pub increment: u32,
}

impl Default for VolumeControlSettings {
    fn default() -> (r: Self)
        ensures
            r.link_id is None,
            r.current_volume == 0,
            r.pre_mute_volume == 0,
            r.increment == 5,
    {
        VolumeControlSettings { link_id: None, current_volume: 0, pre_mute_volume: 0, increment: 5 }
    }
}

/// The button a knob follows: its link id, where one is set and not empty.
pub fn linked_button(settings: &VolumeControlSettings) -> (r: Option<String>)
    ensures
        match r {
            Some(l) => settings.link_id is Some && l@ == settings.link_id.unwrap()@ && l@.len() > 0,
            None => settings.link_id is None || settings.link_id.unwrap()@.len() == 0,
        },
{
    match &settings.link_id {
        Some(l) => if l.as_str().is_empty() {
            None
        } else {
            Some(l.clone())
        },
        None => None,
    }
}

/// The name the knob's property inspector lists a button under: its
/// current name, or "Unused".
pub fn inspector_button_name(button: &ButtonInfo) -> (r: String)
    ensures
        r@ == (match button.current_name {
            Some(n) => n@,
            None => "Unused"@,
        }),
{
    match &button.current_name {
        Some(n) => n.clone(),
        None => "Unused".to_owned(),
    }
}

/// The knob settings after a press: the volume read then, the rest kept.
pub fn with_volume(settings: &VolumeControlSettings, volume: u32) -> (r: VolumeControlSettings)
    ensures
        r.link_id == settings.link_id,
        r.current_volume == volume,
        r.pre_mute_volume == settings.pre_mute_volume,
        r.increment == settings.increment,
{
    VolumeControlSettings {
        link_id: settings.link_id.clone(),
        current_volume: volume,
        pre_mute_volume: settings.pre_mute_volume,
        increment: settings.increment,
    }
}

/// The step size of a knob tick: the configured increment held to `1..=20`.
pub open spec fn step_size(increment: u32) -> int {
    if increment < 1 {
        1
    } else if increment > 20 {
        20
    } else {
        increment as int
    }
}

/// The volume change for `total_ticks` ticks of a knob with the given
/// increment.
pub fn rotation_delta(total_ticks: i32, increment: u32) -> (r: i32)
    requires
        i32::MIN <= total_ticks * step_size(increment) <= i32::MAX,
    ensures
        r == total_ticks * step_size(increment),
{
    let step: i32 = if increment < 1 {
        1
    } else if increment > 20 {
        20
    } else {
        increment as i32
    };
    total_ticks * step
}

/// The volume a knob leaves its target at: held to `1..=100`.
pub open spec fn knob_volume_of(v: u32) -> u32 {
    if v < 1 {
        1
    } else if v > 100 {
        100
    } else {
        v
    }
}

pub fn knob_volume(volume: u32) -> (r: u32)
    ensures
        r == knob_volume_of(volume),
{
    if volume < 1 {
        1
    } else if volume > 100 {
        100
    } else {
        volume
    }
}

/// The volume a knob shows when it appears: the one read from `pactl`, else
/// the one in its settings, at least 1.
pub fn appear_volume(read: Option<u32>, saved: u32) -> (r: u32)
    ensures
        r == (if (match read {
            Some(v) => v,
            None => saved,
        }) < 1 {
            1
        } else {
            match read {
                Some(v) => v,
                None => saved,
            }
        }),
{
    let v = match read {
        Some(v) => v,
        None => saved,
    };
    if v < 1 {
        1
    } else {
        v
    }
}

/// Knob rotations come in bursts: ticks closer together than
/// `DEBOUNCE_MS` are summed and acted on together.
pub struct DialState {
    pub accumulated_ticks: i32,
    pub last_rotation_ms: u64,
}

/// Milliseconds from `from` to `to` on a clock that only goes forward.
pub open spec fn elapsed_ms(from: u64, to: u64) -> u64 {
    if to >= from {
        (to - from) as u64
    } else {
        0
    }
}

/// A rotation of `ticks` at `now_ms` on a dial with `accumulated` pending
/// ticks and its last rotation at `last_ms`: the pending ticks and last
/// rotation after it, and the total acted on, if any.
pub open spec fn dial_after(accumulated: i32, last_ms: u64, now_ms: u64, ticks: i16) -> (
    int,
    u64,
    Option<int>,
) {
    if elapsed_ms(last_ms, now_ms) > DEBOUNCE_MS {
        (0, now_ms, Some(accumulated + ticks))
    } else {
        (accumulated + ticks, now_ms, None)
    }
}

impl DialState {
    /// The state when the first rotation arrives at `now_ms`.
    pub fn new(now_ms: u64) -> (r: Self)
        ensures
            r.accumulated_ticks == 0,
            r.last_rotation_ms == now_ms,
    {
        DialState { accumulated_ticks: 0, last_rotation_ms: now_ms }
    }

    /// A rotation of `ticks` at `now_ms`: the total of the pending ticks
    /// and these where more than `DEBOUNCE_MS` passed since the last
    /// rotation (the total is then cleared), else none (the ticks are kept).
    pub fn rotate(&mut self, now_ms: u64, ticks: i16) -> (r: Option<i32>)
        requires
            i32::MIN <= old(self).accumulated_ticks + ticks <= i32::MAX,
        ensures
            ({
                let after = dial_after(old(self).accumulated_ticks, old(self).last_rotation_ms, now_ms, ticks);
                &&& final(self).accumulated_ticks == after.0
                &&& final(self).last_rotation_ms == after.1
                &&& match r {
                    Some(t) => after.2 == Some(t as int),
                    None => after.2 is None,
                }
            }),
    {
        let elapsed = if now_ms >= self.last_rotation_ms {
            now_ms - self.last_rotation_ms
        } else {
            0
        };
        let should_process = elapsed > DEBOUNCE_MS;
        self.last_rotation_ms = now_ms;
        let total = self.accumulated_ticks + ticks as i32;
        self.accumulated_ticks = total;
        if !should_process {
            return None;
        }
        self.accumulated_ticks = 0;
        Some(total)
    }
}

/// The button a knob follows, by its settings: the link id where one is set
/// and not empty.
pub open spec fn knob_link(settings: VolumeControlSettings) -> Option<Seq<char>> {
    match settings.link_id {
        Some(l) => if l@.len() > 0 {
            Some(l@)
        } else {
            None
        },
        None => None,
    }
}

/// The target a knob acts on when it is turned or pressed. The button it
/// follows is locked first (a knob in use ends that button's unlocked
/// cycle); then its saved selection is read. None where the knob follows
/// no button or the button has no selection.
pub fn knob_target(
    states: &mut ButtonLockStates,
    state: &SharedState,
    settings: &VolumeControlSettings,
) -> (r: Option<(String, StreamSelection)>)
    requires
        old(states).well_formed(),
        state.well_formed(),
    ensures
        final(states).well_formed(),
        match knob_link(*settings) {
            None => final(states)@ == old(states)@ && r is None,
            Some(l) => {
                &&& final(states)@ == after_lock(old(states)@, l)
                &&& !unlocked_in(final(states)@, l)
                &&& match r {
                    Some((link, s)) => link@ == l && state@.selections.dom().contains(l) && s@
                        == state@.selections[l],
                    None => !state@.selections.dom().contains(l),
                }
            },
        },
{
    let link = match linked_button(settings) {
        Some(l) => l,
        None => {
            return None;
        },
    };
    lock_button(states, link.as_str());
    match load_selection(state, link.as_str()) {
        Some(s) => Some((link, s)),
        None => None,
    }
}

/// The pending ticks and last rotation time of a dial, where a dial that
/// has not turned yet starts at `now_ms` with none pending.
pub open spec fn dial_start(dial: Option<DialState>, now_ms: u64) -> (int, u64) {
    match dial {
        Some(d) => (d.accumulated_ticks as int, d.last_rotation_ms),
        None => (0, now_ms),
    }
}

/// A knob turn of `ticks` at `now_ms` on a target muted or not as `muted`
/// says. A muted target is left alone and the dial is not touched.
/// Otherwise the dial (started at its first turn) takes the ticks, and
/// where it acts on a burst, the volume change is the burst's ticks times
/// the step size.
pub fn knob_rotation(dial: &mut Option<DialState>, muted: bool, now_ms: u64, ticks: i16, increment: u32) -> (r:
    Option<i32>)
    requires
        !muted ==> i32::MIN <= dial_start(*old(dial), now_ms).0 + ticks <= i32::MAX,
        !muted ==> i32::MIN <= (dial_start(*old(dial), now_ms).0 + ticks) * step_size(increment)
            <= i32::MAX,
    ensures
        muted ==> r is None && *final(dial) == *old(dial),
        !muted ==> ({
            let start = dial_start(*old(dial), now_ms);
            let after = dial_after(start.0 as i32, start.1, now_ms, ticks);
            &&& (*final(dial)) is Some
            &&& (*final(dial)).unwrap().accumulated_ticks == after.0
            &&& (*final(dial)).unwrap().last_rotation_ms == after.1
            &&& match r {
                Some(d) => after.2 is Some && d == after.2.unwrap() * step_size(increment),
                None => after.2 is None,
            }
        }),
{
    if muted {
        return None;
    }
    let mut d = match dial {
        Some(d) => DialState { accumulated_ticks: d.accumulated_ticks, last_rotation_ms: d.last_rotation_ms },
        None => DialState::new(now_ms),
    };
    let acted = d.rotate(now_ms, ticks);
    *dial = Some(d);
    match acted {
        Some(total) => Some(rotation_delta(total, increment)),
        None => None,
    }
}

/// The volume a knob leaves its target at after a step to `new_volume`
/// (held to `1..=100`), and the command that sets it again where holding
/// it changed it.
pub fn settle_knob_volume(target: AudioTarget, new_volume: u32) -> (r: (u32, Option<Vec<String>>))
    ensures
        r.0 == knob_volume_of(new_volume),
        r.1 is Some <==> r.0 != new_volume,
        r.1 matches Some(args) ==> strings_view(args@) == set_volume_args(target, r.0),
{
    let v = knob_volume(new_volume);
    if v != new_volume {
        (v, Some(AudioService::set_volume(target, v)))
    } else {
        (v, None)
    }
}

} // verus!

verus! {

/// A burst of rotations is acted on once, with all its ticks: a rotation
/// within `DEBOUNCE_MS` of the last one is held, and the next rotation after
/// a pause longer than that acts on the sum.
pub proof fn lemma_burst_summed(accumulated: i32, t0: u64, t1: u64, t2: u64, a: i16, b: i16)
    requires
        elapsed_ms(t0, t1) <= DEBOUNCE_MS,
        elapsed_ms(t1, t2) > DEBOUNCE_MS,
        i32::MIN <= accumulated + a <= i32::MAX,
    ensures
        dial_after(accumulated, t0, t1, a).2 is None,
        dial_after(
            dial_after(accumulated, t0, t1, a).0 as i32,
            dial_after(accumulated, t0, t1, a).1,
            t2,
            b,
        ).2 == Some(accumulated + a + b),
{
}

/// The volumes a knob leaves behind lie in `1..=100`, and its step size in
/// `1..=20`.
pub proof fn lemma_knob_bounds(volume: u32, increment: u32)
    ensures
        1 <= knob_volume_of(volume) <= 100,
        1 <= step_size(increment) <= 20,
        1 <= volume <= 100 ==> knob_volume_of(volume) == volume,
{
}

} // verus!

verus! {

/// The step of a knob tick is the configured increment where it lies in
/// `1..=20`, 1 below that and 20 above: a turn of `t` ticks changes the
/// volume by `t` times the increment held to `1..=20`.
pub proof fn lemma_step_is_increment(increment: u32, ticks: int)
    ensures
        1 <= increment <= 20 ==> step_size(increment) == increment,
        increment == 0 ==> step_size(increment) == 1,
        increment > 20 ==> step_size(increment) == 20,
        1 <= increment <= 20 ==> ticks * step_size(increment) == ticks * increment,
{
}

} // verus!
