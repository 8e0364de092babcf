//! The one place the actions reach the plugin's state through: selections,
//! registrations and lock states.
use vstd::prelude::*;

use crate::shared_state::{
    after_lock, after_press_cleared, after_press_start, after_refresh, after_unlock, linked_knobs,
    lock_state_of, opt_str_seq, unlocked_in, ButtonInfo, ButtonInfoView, ButtonLockState,
    ButtonLockStateView, ButtonLockStates, KnobInfo, KnobInfoView, SharedState, StreamSelection,
};
use crate::pipewire::opt_view;
use crate::constants::UNLOCK_MS;

verus! {

/// Access to the plugin's state.
pub struct StateRepo;

impl StateRepo {
    /// Sets the target of the button `link_id`.
    pub fn save_selection(state: &mut SharedState, link_id: &str, selection: &StreamSelection)
        requires
            old(state).well_formed(),
        ensures
            final(state).well_formed(),
            final(state)@.selections == old(state)@.selections.insert(link_id@, selection@),
            final(state)@.buttons == old(state)@.buttons,
            final(state)@.knobs == old(state)@.knobs,
    {
        crate::shared_state::save_selection(state, link_id, selection)
    }

    /// The target of the button `link_id`, if it has one.
    pub fn load_selection(state: &SharedState, link_id: &str) -> (r: Option<StreamSelection>)
        requires
            state.well_formed(),
        ensures
            match r {
                Some(s) => state@.selections.dom().contains(link_id@) && s@
                    == state@.selections[link_id@],
                None => !state@.selections.dom().contains(link_id@),
            },
    {
        crate::shared_state::load_selection(state, link_id)
    }

    /// Forgets the target of the button `link_id`.
    pub fn clear_selection(state: &mut SharedState, link_id: &str)
        requires
            old(state).well_formed(),
        ensures
            final(state).well_formed(),
            final(state)@.selections == old(state)@.selections.remove(link_id@),
            final(state)@.buttons == old(state)@.buttons,
            final(state)@.knobs == old(state)@.knobs,
    {
        crate::shared_state::clear_selection(state, link_id)
    }

    /// Records the button `link_id` as shown by the deck instance
    /// `instance_id`, under the name `current_name`.
    pub fn register_button(
        state: &mut SharedState,
        link_id: &str,
        instance_id: &str,
        current_name: Option<&str>,
    )
        requires
            old(state).well_formed(),
        ensures
            final(state).well_formed(),
            final(state)@.buttons == old(state)@.buttons.insert(
                link_id@,
                ButtonInfoView {
                    link_id: link_id@,
                    instance_id: instance_id@,
                    current_name: opt_str_seq(current_name),
                },
            ),
            final(state)@.selections == old(state)@.selections,
            final(state)@.knobs == old(state)@.knobs,
    {
        crate::shared_state::register_button(state, link_id, instance_id, current_name)
    }

    /// Renames the registered button `link_id`; returns whether there was one
    /// (and so whether the state changed).
    pub fn update_button_name(state: &mut SharedState, link_id: &str, current_name: Option<&str>) -> (r:
        bool)
        requires
            old(state).well_formed(),
        ensures
            final(state).well_formed(),
            r == old(state)@.buttons.dom().contains(link_id@),
            final(state)@.buttons == if r {
                old(state)@.buttons.insert(
                    link_id@,
                    ButtonInfoView {
                        current_name: opt_str_seq(current_name),
                        ..old(state)@.buttons[link_id@]
                    },
                )
            } else {
                old(state)@.buttons
            },
            final(state)@.selections == old(state)@.selections,
            final(state)@.knobs == old(state)@.knobs,
    {
        crate::shared_state::update_button_name(state, link_id, current_name)
    }

    /// Forgets the button `link_id`.
    pub fn unregister_button(state: &mut SharedState, link_id: &str)
        requires
            old(state).well_formed(),
        ensures
            final(state).well_formed(),
            final(state)@.buttons == old(state)@.buttons.remove(link_id@),
            final(state)@.selections == old(state)@.selections,
            final(state)@.knobs == old(state)@.knobs,
    {
        crate::shared_state::unregister_button(state, link_id)
    }

    /// Every registered button, in the map's walk order.
    pub fn get_all_buttons(state: &SharedState) -> (r: Vec<ButtonInfo>)
        requires
            state.well_formed(),
        ensures
            r@.len() == state.buttons.key_order().len(),
            forall|i: int|
                0 <= i < r@.len() ==> (#[trigger] r@[i])@ == state@.buttons[state.buttons.key_order()[i]],
    {
        crate::shared_state::get_all_buttons(state)
    }

    /// The link id of a registered button shown by the deck instance
    /// `instance_id`, if any (some such button where there are several).
    pub fn find_button_link_id(state: &SharedState, instance_id: &str) -> (r: Option<String>)
        requires
            state.well_formed(),
        ensures
            r is None <==> !exists|k: Seq<char>|
                state@.buttons.dom().contains(k) && (#[trigger] state@.buttons[k]).instance_id
                    == instance_id@,
            r matches Some(l) ==> exists|k: Seq<char>|
                state@.buttons.dom().contains(k) && (#[trigger] state@.buttons[k]).instance_id
                    == instance_id@ && state@.buttons[k].link_id == l@,
    {
        crate::shared_state::find_button_link_id(state, instance_id)
    }

    /// Forgets every button and knob, keeping the selections: the deck
    /// registers its buttons and knobs again each run.
    pub fn clear_runtime_registrations(state: &mut SharedState)
        requires
            old(state).well_formed(),
        ensures
            final(state).well_formed(),
            final(state)@.buttons == Map::<Seq<char>, ButtonInfoView>::empty(),
            final(state)@.knobs == Map::<Seq<char>, KnobInfoView>::empty(),
            final(state)@.selections == old(state)@.selections,
    {
        crate::shared_state::clear_runtime_registrations(state)
    }

    /// Records the knob `instance_id` as following the button `linked_button`.
    pub fn register_knob(state: &mut SharedState, instance_id: &str, linked_button: &str)
        requires
            old(state).well_formed(),
        ensures
            final(state).well_formed(),
            final(state)@.knobs == old(state)@.knobs.insert(
                instance_id@,
                KnobInfoView { instance_id: instance_id@, linked_button: linked_button@ },
            ),
            final(state)@.selections == old(state)@.selections,
            final(state)@.buttons == old(state)@.buttons,
    {
        crate::shared_state::register_knob(state, instance_id, linked_button)
    }

    /// Forgets the knob `instance_id`.
    pub fn unregister_knob(state: &mut SharedState, instance_id: &str)
        requires
            old(state).well_formed(),
        ensures
            final(state).well_formed(),
            final(state)@.knobs == old(state)@.knobs.remove(instance_id@),
            final(state)@.selections == old(state)@.selections,
            final(state)@.buttons == old(state)@.buttons,
    {
        crate::shared_state::unregister_knob(state, instance_id)
    }

    /// The knobs that follow the button `link_id`, in the map's walk order.
    pub fn get_knobs_for_button(state: &SharedState, link_id: &str) -> (r: Vec<String>)
        requires
            state.well_formed(),
        ensures
            r@.map_values(|s: String| s@) == linked_knobs(state.knobs.key_order(), state@.knobs, link_id@),
    {
        crate::shared_state::get_knobs_for_button(state, link_id)
    }

    /// Every registered knob, in the map's walk order.
    pub fn get_all_knobs(state: &SharedState) -> (r: Vec<KnobInfo>)
        requires
            state.well_formed(),
        ensures
            r@.len() == state.knobs.key_order().len(),
            forall|i: int|
                0 <= i < r@.len() ==> (#[trigger] r@[i])@ == state@.knobs[state.knobs.key_order()[i]],
    {
        crate::shared_state::get_all_knobs(state)
    }

    /// The lock state of the button `link_id`.
    pub fn get_button_lock_state(states: &ButtonLockStates, link_id: &str) -> (r: ButtonLockState)
        requires
            states.well_formed(),
        ensures
            r@ == lock_state_of(states@, link_id@),
    {
        crate::shared_state::get_button_lock_state(states, link_id)
    }

    /// Notes that the button `link_id` went down at `now_ms`.
    pub fn record_press_start(states: &mut ButtonLockStates, link_id: &str, now_ms: u64)
        requires
            old(states).well_formed(),
        ensures
            final(states).well_formed(),
            final(states)@ == after_press_start(old(states)@, link_id@, now_ms),
    {
        crate::shared_state::record_press_start(states, link_id, now_ms)
    }

    /// Takes the time at which the button `link_id` went down, if noted.
    pub fn clear_press_start(states: &mut ButtonLockStates, link_id: &str) -> (r: Option<u64>)
        requires
            old(states).well_formed(),
        ensures
            final(states).well_formed(),
            r == lock_state_of(old(states)@, link_id@).press_start,
            final(states)@ == after_press_cleared(old(states)@, link_id@),
    {
        crate::shared_state::clear_press_start(states, link_id)
    }

    /// Unlocks the button `link_id` for `UNLOCK_MS` from `now_ms`.
    pub fn unlock_button(states: &mut ButtonLockStates, link_id: &str, now_ms: u64)
        requires
            old(states).well_formed(),
            now_ms <= u64::MAX - UNLOCK_MS,
        ensures
            final(states).well_formed(),
            final(states)@ == after_unlock(old(states)@, link_id@, now_ms),
    {
        crate::shared_state::unlock_button(states, link_id, now_ms)
    }

    /// Locks the button `link_id`, if it has a lock state.
    pub fn lock_button(states: &mut ButtonLockStates, link_id: &str)
        requires
            old(states).well_formed(),
        ensures
            final(states).well_formed(),
            final(states)@ == after_lock(old(states)@, link_id@),
    {
        crate::shared_state::lock_button(states, link_id)
    }

    /// Gives an unlocked button `link_id` another `UNLOCK_MS` from `now_ms`.
    pub fn refresh_unlock_timer(states: &mut ButtonLockStates, link_id: &str, now_ms: u64)
        requires
            old(states).well_formed(),
            now_ms <= u64::MAX - UNLOCK_MS,
        ensures
            final(states).well_formed(),
            final(states)@ == after_refresh(old(states)@, link_id@, now_ms),
    {
        crate::shared_state::refresh_unlock_timer(states, link_id, now_ms)
    }

    /// Whether the button `link_id` is unlocked.
    pub fn is_button_unlocked(states: &ButtonLockStates, link_id: &str) -> (r: bool)
        requires
            states.well_formed(),
        ensures
            r == unlocked_in(states@, link_id@),
    {
        crate::shared_state::is_button_unlocked(states, link_id)
    }

    /// Notes the icon the button `link_id` shows, if it has a lock state.
    pub fn update_button_icon(states: &mut ButtonLockStates, link_id: &str, icon: String)
        requires
            old(states).well_formed(),
        ensures
            final(states).well_formed(),
            final(states)@ == if old(states)@.dom().contains(link_id@) {
                old(states)@.insert(
                    link_id@,
                    ButtonLockStateView { current_icon: Some(icon@), ..old(states)@[link_id@] },
                )
            } else {
                old(states)@
            },
    {
        crate::shared_state::update_button_icon(states, link_id, icon)
    }

    /// The icon noted for the button `link_id`.
    pub fn get_button_icon(states: &ButtonLockStates, link_id: &str) -> (r: Option<String>)
        requires
            states.well_formed(),
        ensures
            opt_view(r) == lock_state_of(states@, link_id@).current_icon,
    {
        crate::shared_state::get_button_icon(states, link_id)
    }
}

} // verus!
