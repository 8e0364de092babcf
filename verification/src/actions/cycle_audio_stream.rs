//! The cycling button: a short press mutes its target, a long press unlocks
//! it, and presses while unlocked step it through blank, the default output,
//! the default input and each stream.
use vstd::prelude::*;

use crate::audio::{opt_str_view, target_icon_query, target_of, AudioTarget};
use crate::constants::{LONG_PRESS_MS, MASTER_NODE_ID, MIC_NODE_ID};
use crate::pipewire::{clone_opt_string, opt_view, AudioStream, AudioStreamView};
use crate::shared_state::{
    clear_selection, find_button_link_id, load_selection, register_button, save_selection,
    update_button_name, ButtonInfoView, ButtonLockState, SharedState, SharedStateView,
    StreamSelection, StreamSelectionView,
};
use crate::text::{chars_of, concat, decimal, decimal_exec, string_of};

verus! {

/// The settings the deck stores for a cycling button.
pub struct CycleAudioStreamSettings {
    pub link_id: Option<String>,
    pub current_node_id: Option<u32>,
    pub current_name: Option<String>,
    pub current_app_name: Option<String>,
    pub is_blank: bool,
}

pub struct CycleAudioStreamSettingsView {
    pub link_id: Option<Seq<char>>,
    pub current_node_id: Option<u32>,
    pub current_name: Option<Seq<char>>,
    pub current_app_name: Option<Seq<char>>,
    pub is_blank: bool,
}

impl View for CycleAudioStreamSettings {
    type V = CycleAudioStreamSettingsView;

    open spec fn view(&self) -> CycleAudioStreamSettingsView {
        CycleAudioStreamSettingsView {
            link_id: opt_view(self.link_id),
            current_node_id: self.current_node_id,
            current_name: opt_view(self.current_name),
            current_app_name: opt_view(self.current_app_name),
            is_blank: self.is_blank,
        }
    }
}

impl Default for CycleAudioStreamSettings {
    fn default() -> (r: Self)
        ensures
            r@ == (CycleAudioStreamSettingsView {
                link_id: None,
                current_node_id: None,
                current_name: None,
                current_app_name: None,
                is_blank: false,
            }),
    {
        CycleAudioStreamSettings {
            link_id: None,
            current_node_id: None,
            current_name: None,
            current_app_name: None,
            is_blank: false,
        }
    }
}

/// The link id a button gets from its place on the deck, or from its
/// instance id where the deck gives no place.
pub open spec fn link_id_for(coordinates: Option<(u8, u8)>, instance_id: Seq<char>) -> Seq<char> {
    match coordinates {
        Some((row, column)) => "btn-"@ + decimal(row as nat) + "-"@ + decimal(column as nat),
        None => "btn-"@ + instance_id,
    }
}

/// The link id a button gets from its place (`row`, `column`) on the deck,
/// or from its instance id where the deck gives no place.
pub fn generate_link_id(coordinates: Option<(u8, u8)>, instance_id: &str) -> (r: String)
    ensures
        r@ == link_id_for(coordinates, instance_id@),
{
    let prefix = chars_of("btn-");
    match coordinates {
        Some((row, column)) => {
            let a = concat(&prefix, &decimal_exec(row as u32));
            let b = concat(&a, &chars_of("-"));
            string_of(&concat(&b, &decimal_exec(column as u32)))
        },
        None => string_of(&concat(&prefix, &chars_of(instance_id))),
    }
}

/// The link id of a button: the one in its settings, else that of a
/// registered button shown by the same instance, else one made from its
/// place on the deck.
pub fn resolve_link_id(
    state: &SharedState,
    settings: &CycleAudioStreamSettings,
    instance_id: &str,
    coordinates: Option<(u8, u8)>,
) -> (r: String)
    requires
        state.well_formed(),
    ensures
        settings@.link_id matches Some(l) ==> r@ == l,
        settings@.link_id is None ==> {
            if exists|k: Seq<char>|
                state@.buttons.dom().contains(k) && (#[trigger] state@.buttons[k]).instance_id
                    == instance_id@ {
                exists|k: Seq<char>|
                    state@.buttons.dom().contains(k) && (#[trigger] state@.buttons[k]).instance_id
                        == instance_id@ && state@.buttons[k].link_id == r@
            } else {
                r@ == link_id_for(coordinates, instance_id@)
            }
        },
{
    match &settings.link_id {
        Some(l) => l.clone(),
        None => match find_button_link_id(state, instance_id) {
            Some(l) => l,
            None => generate_link_id(coordinates, instance_id),
        },
    }
}

/// The name a node id is shown under when the settings name nothing.
pub open spec fn default_name(node_id: u32) -> Seq<char> {
    if node_id == MASTER_NODE_ID {
        "Master"@
    } else if node_id == MIC_NODE_ID {
        "Mic"@
    } else {
        "Stream "@ + decimal(node_id as nat)
    }
}

/// The selection that a button's settings describe.
pub open spec fn settings_selection(s: CycleAudioStreamSettingsView) -> Option<StreamSelectionView> {
    match s.current_node_id {
        None => None,
        Some(node_id) => Some(
            StreamSelectionView {
                node_id,
                name: match s.current_name {
                    Some(n) => n,
                    None => default_name(node_id),
                },
                app_name: s.current_app_name,
                media_name: None,
            },
        ),
    }
}

pub open spec fn opt_selection_view(o: Option<StreamSelection>) -> Option<StreamSelectionView> {
    match o {
        Some(s) => Some(s@),
        None => None,
    }
}

/// The selection that a button's settings describe, if they name a node.
pub fn selection_from_settings(settings: &CycleAudioStreamSettings) -> (r: Option<StreamSelection>)
    ensures
        opt_selection_view(r) == settings_selection(settings@),
{
    let node_id = match settings.current_node_id {
        Some(n) => n,
        None => {
            return None;
        },
    };
    let name = match &settings.current_name {
        Some(n) => n.clone(),
        None => if node_id == MASTER_NODE_ID {
            "Master".to_owned()
        } else if node_id == MIC_NODE_ID {
            "Mic".to_owned()
        } else {
            string_of(&concat(&chars_of("Stream "), &decimal_exec(node_id)))
        },
    };
    Some(
        StreamSelection {
            node_id,
            name,
            app_name: clone_opt_string(&settings.current_app_name),
            media_name: None,
        },
    )
}

/// The selection a button acts on: none for a blank button, else the saved
/// one, else the one its settings describe.
pub open spec fn effective(
    st: SharedStateView,
    link_id: Seq<char>,
    s: CycleAudioStreamSettingsView,
) -> Option<StreamSelectionView> {
    if s.is_blank {
        None
    } else if st.selections.dom().contains(link_id) {
        Some(st.selections[link_id])
    } else {
        settings_selection(s)
    }
}

pub fn effective_selection(
    state: &SharedState,
    link_id: &str,
    settings: &CycleAudioStreamSettings,
) -> (r: Option<StreamSelection>)
    requires
        state.well_formed(),
    ensures
        opt_selection_view(r) == effective(state@, link_id@, settings@),
{
    if settings.is_blank {
        return None;
    }
    match load_selection(state, link_id) {
        Some(s) => Some(s),
        None => selection_from_settings(settings),
    }
}

pub fn effective_node_id(
    state: &SharedState,
    link_id: &str,
    settings: &CycleAudioStreamSettings,
) -> (r: Option<u32>)
    requires
        state.well_formed(),
    ensures
        r == (match effective(state@, link_id@, settings@) {
            Some(s) => Some(s.node_id),
            None => None,
        }),
{
    match effective_selection(state, link_id, settings) {
        Some(s) => Some(s.node_id),
        None => None,
    }
}

/// Where a press on an unlocked button takes it.
pub enum CycleStep {
    /// The button goes blank.
    Blank,
    /// The button is set to this target.
    Select(StreamSelection),
}

pub enum CycleStepView {
    Blank,
    Select(StreamSelectionView),
}

impl View for CycleStep {
    type V = CycleStepView;

    open spec fn view(&self) -> CycleStepView {
        match self {
            CycleStep::Blank => CycleStepView::Blank,
            CycleStep::Select(s) => CycleStepView::Select(s@),
        }
    }
}

/// The selection of the default output, as the cycle sets it.
pub open spec fn master_selection() -> StreamSelectionView {
    StreamSelectionView {
        node_id: MASTER_NODE_ID,
        name: "Master"@,
        app_name: Some("Master"@),
        media_name: None,
    }
}

/// The selection of the default input, as the cycle sets it.
pub open spec fn mic_selection() -> StreamSelectionView {
    StreamSelectionView { node_id: MIC_NODE_ID, name: "Mic"@, app_name: Some("Mic"@), media_name: None }
}

pub open spec fn stream_selection(s: AudioStreamView) -> StreamSelectionView {
    StreamSelectionView {
        node_id: s.node_id,
        name: s.name,
        app_name: s.app_name,
        media_name: s.media_name,
    }
}

/// The first position of a stream with node id `id`, from position `i` on.
pub open spec fn position_of(streams: Seq<AudioStreamView>, id: u32, i: int) -> Option<int>
    decreases streams.len() - i,
{
    if i < 0 || i >= streams.len() {
        None
    } else if streams[i].node_id == id {
        Some(i)
    } else {
        position_of(streams, id, i + 1)
    }
}

/// The cycle: blank, then the default output, the default input, each
/// stream in list order, and blank again.
pub open spec fn cycle_step(current: Option<u32>, streams: Seq<AudioStreamView>) -> CycleStepView {
    match current {
        None => CycleStepView::Select(master_selection()),
        Some(id) => if id == MASTER_NODE_ID {
            CycleStepView::Select(mic_selection())
        } else if id == MIC_NODE_ID {
            if streams.len() == 0 {
                CycleStepView::Blank
            } else {
                CycleStepView::Select(stream_selection(streams[0]))
            }
        } else {
            match position_of(streams, id, 0) {
                Some(i) => if i < streams.len() - 1 {
                    CycleStepView::Select(stream_selection(streams[i + 1]))
                } else {
                    CycleStepView::Blank
                },
                None => CycleStepView::Blank,
            }
        },
    }
}

fn selection_of_stream(s: &AudioStream) -> (r: StreamSelection)
    ensures
        r@ == stream_selection(s@),
{
    StreamSelection {
        node_id: s.node_id,
        name: s.name.clone(),
        app_name: clone_opt_string(&s.app_name),
        media_name: clone_opt_string(&s.media_name),
    }
}

/// Where a press on an unlocked button acting on `current` (none when
/// blank) takes it, given the streams in list order.
pub fn next_cycle_step(current: Option<u32>, streams: &Vec<AudioStream>) -> (r: CycleStep)
    ensures
        r@ == cycle_step(current, streams@.map_values(|s: AudioStream| s@)),
{
    let ghost sv = streams@.map_values(|s: AudioStream| s@);
    match current {
        None => CycleStep::Select(
            StreamSelection {
                node_id: MASTER_NODE_ID,
                name: "Master".to_owned(),
                app_name: Some("Master".to_owned()),
                media_name: None,
            },
        ),
        Some(id) => {
            if id == MASTER_NODE_ID {
                CycleStep::Select(
                    StreamSelection {
                        node_id: MIC_NODE_ID,
                        name: "Mic".to_owned(),
                        app_name: Some("Mic".to_owned()),
                        media_name: None,
                    },
                )
            } else if id == MIC_NODE_ID {
                if streams.len() == 0 {
                    CycleStep::Blank
                } else {
                    assert(sv[0] == streams@[0]@);
                    CycleStep::Select(selection_of_stream(&streams[0]))
                }
            } else {
                let mut i: usize = 0;
                while i < streams.len()
                    invariant
                        i <= streams.len(),
                        sv == streams@.map_values(|s: AudioStream| s@),
                        current == Some(id),
                        id != MASTER_NODE_ID,
                        id != MIC_NODE_ID,
                        position_of(sv, id, 0) == position_of(sv, id, i as int),
                    decreases streams.len() - i,
                {
                    if streams[i].node_id == id {
                        assert(sv[i as int] == streams@[i as int]@);
                        if i < streams.len() - 1 {
                            assert(sv[i + 1] == streams@[i + 1]@);
                            return CycleStep::Select(selection_of_stream(&streams[i + 1]));
                        } else {
                            return CycleStep::Blank;
                        }
                    }
                    assert(sv[i as int] == streams@[i as int]@);
                    i += 1;
                }
                CycleStep::Blank
            }
        },
    }
}

/// What a key release on the cycling button does.
#[derive(PartialEq, Eq, Structural, Debug, Clone, Copy)]
pub enum KeyUpAction {
    /// Set the button to the most recent stream and unlock it.
    AssignRecentAndUnlock,
    /// Unlock the button and start flashing it.
    Unlock,
    /// Renew the unlock period and step the cycle.
    Cycle,
    /// Mute or unmute the target.
    ToggleMute,
}

/// How long the key was held, on a clock that only goes forward.
pub open spec fn held_for(press_start: u64, now_ms: u64) -> u64 {
    if now_ms >= press_start {
        (now_ms - press_start) as u64
    } else {
        0
    }
}

/// The key-release decision: a blank locked button takes the most recent
/// stream and unlocks; a long press unlocks a locked button; a press on an
/// unlocked button steps the cycle; any other press mutes or unmutes.
pub open spec fn key_up_decision(
    effectively_blank: bool,
    press_start: Option<u64>,
    now_ms: u64,
    is_unlocked: bool,
) -> KeyUpAction {
    if effectively_blank && !is_unlocked {
        KeyUpAction::AssignRecentAndUnlock
    } else if press_start is Some && held_for(press_start.unwrap(), now_ms) >= LONG_PRESS_MS
        && !is_unlocked {
        KeyUpAction::Unlock
    } else if is_unlocked {
        KeyUpAction::Cycle
    } else {
        KeyUpAction::ToggleMute
    }
}

/// What a key release does, given whether the button is blank (by its
/// settings or for want of a selection), when the press started, the time
/// now, and whether the button is unlocked.
pub fn key_up_action(
    effectively_blank: bool,
    press_start: Option<u64>,
    now_ms: u64,
    is_unlocked: bool,
) -> (r: KeyUpAction)
    ensures
        r == key_up_decision(effectively_blank, press_start, now_ms, is_unlocked),
{
    if effectively_blank && !is_unlocked {
        return KeyUpAction::AssignRecentAndUnlock;
    }
    match press_start {
        Some(start) => {
            let held = if now_ms >= start {
                now_ms - start
            } else {
                0
            };
            if held >= LONG_PRESS_MS && !is_unlocked {
                return KeyUpAction::Unlock;
            }
        },
        None => {},
    }
    if is_unlocked {
        KeyUpAction::Cycle
    } else {
        KeyUpAction::ToggleMute
    }
}

/// One beat of a flashing unlocked button.
#[derive(PartialEq, Eq, Structural, Debug, Clone, Copy)]
pub enum FlashStep {
    /// The button was locked meanwhile: show its icon again and stop.
    Restore,
    /// The unlock period is over: lock the button, show its icon, stop.
    LockAndRestore,
    /// Show the unlocked image in the given shade, then wait a beat.
    Flash { is_light: bool },
}

pub open spec fn flash_decision(lock_unlocked: bool, expires: Option<u64>, now_ms: u64, is_light: bool) -> FlashStep {
    if !lock_unlocked {
        FlashStep::Restore
    } else if expires is Some && now_ms >= expires.unwrap() {
        FlashStep::LockAndRestore
    } else {
        FlashStep::Flash { is_light: !is_light }
    }
}

/// The next beat of a flashing button in lock state `lock` at `now_ms`,
/// the last beat having been light or not as `is_light` says.
pub fn flash_step(lock: &ButtonLockState, now_ms: u64, is_light: bool) -> (r: FlashStep)
    ensures
        r == flash_decision(lock.is_unlocked, lock.unlock_expires, now_ms, is_light),
{
    if !lock.is_unlocked {
        return FlashStep::Restore;
    }
    match lock.unlock_expires {
        Some(expires) => {
            if now_ms >= expires {
                return FlashStep::LockAndRestore;
            }
        },
        None => {},
    }
    FlashStep::Flash { is_light: !is_light }
}

/// The icon a button shows when it starts flashing: blank, or the icon
/// search of the target its settings name.
pub open spec fn flash_start_icon(s: CycleAudioStreamSettingsView) -> Option<Seq<char>> {
    if s.is_blank {
        None
    } else {
        match s.current_node_id {
            Some(node_id) => Some(
                target_icon_query(
                    target_of(node_id),
                    s.current_app_name,
                    match s.current_name {
                        Some(n) => n,
                        None => Seq::<char>::empty(),
                    },
                ),
            ),
            None => None,
        }
    }
}

/// The icon search for the target a button's settings name (none for a
/// blank button): what it shows when it starts flashing or appears.
pub fn settings_icon_query(settings: &CycleAudioStreamSettings) -> (r: Option<String>)
    ensures
        opt_view(r) == flash_start_icon(settings@),
{
    if settings.is_blank {
        return None;
    }
    match settings.current_node_id {
        Some(node_id) => {
            let target = AudioTarget::from_node_id(node_id);
            let name: &str = match &settings.current_name {
                Some(n) => n.as_str(),
                None => "",
            };
            proof {
                reveal_strlit("");
            }
            let app: Option<&str> = match &settings.current_app_name {
                Some(a) => Some(a.as_str()),
                None => None,
            };
            Some(target.icon_query(app, name))
        },
        None => None,
    }
}

/// The settings of a button that was set blank by a press.
pub fn blank_settings(link_id: &str) -> (r: CycleAudioStreamSettings)
    ensures
        r@ == (CycleAudioStreamSettingsView {
            link_id: Some(link_id@),
            current_node_id: None,
            current_name: None,
            current_app_name: None,
            is_blank: true,
        }),
{
    CycleAudioStreamSettings {
        link_id: Some(link_id.to_owned()),
        current_node_id: None,
        current_name: None,
        current_app_name: None,
        is_blank: true,
    }
}

/// The settings of a button set to a target.
pub fn selected_settings(link_id: &str, selection: &StreamSelection) -> (r: CycleAudioStreamSettings)
    ensures
        r@ == (CycleAudioStreamSettingsView {
            link_id: Some(link_id@),
            current_node_id: Some(selection.node_id),
            current_name: Some(selection.name@),
            current_app_name: opt_view(selection.app_name),
            is_blank: false,
        }),
{
    CycleAudioStreamSettings {
        link_id: Some(link_id.to_owned()),
        current_node_id: Some(selection.node_id),
        current_name: Some(selection.name.clone()),
        current_app_name: clone_opt_string(&selection.app_name),
        is_blank: false,
    }
}

/// The settings of a button whose stream went away: blank, still naming
/// the stream it had.
pub fn vanished_settings(link_id: &str, selection: &StreamSelection) -> (r: CycleAudioStreamSettings)
    ensures
        r@ == (CycleAudioStreamSettingsView {
            link_id: Some(link_id@),
            current_node_id: Some(selection.node_id),
            current_name: Some(selection.name@),
            current_app_name: opt_view(selection.app_name),
            is_blank: true,
        }),
{
    CycleAudioStreamSettings {
        link_id: Some(link_id.to_owned()),
        current_node_id: Some(selection.node_id),
        current_name: Some(selection.name.clone()),
        current_app_name: clone_opt_string(&selection.app_name),
        is_blank: true,
    }
}

/// The settings with their link id filled in.
pub fn with_link_id(settings: &CycleAudioStreamSettings, link_id: &str) -> (r: CycleAudioStreamSettings)
    ensures
        r@ == (CycleAudioStreamSettingsView { link_id: Some(link_id@), ..settings@ }),
{
    CycleAudioStreamSettings {
        link_id: Some(link_id.to_owned()),
        current_node_id: settings.current_node_id,
        current_name: clone_opt_string(&settings.current_name),
        current_app_name: clone_opt_string(&settings.current_app_name),
        is_blank: settings.is_blank,
    }
}

/// A button set to `selection`: the selection saved and the button renamed.
pub fn apply_selection_state(state: &mut SharedState, link_id: &str, selection: &StreamSelection)
    requires
        old(state).well_formed(),
    ensures
        final(state).well_formed(),
        final(state)@.selections == old(state)@.selections.insert(link_id@, selection@),
        final(state)@.buttons == if old(state)@.buttons.dom().contains(link_id@) {
            old(state)@.buttons.insert(
                link_id@,
                ButtonInfoView { current_name: Some(selection.name@), ..old(state)@.buttons[link_id@] },
            )
        } else {
            old(state)@.buttons
        },
        final(state)@.knobs == old(state)@.knobs,
{
    save_selection(state, link_id, selection);
    update_button_name(state, link_id, Some(selection.name.as_str()));
}

/// A button set blank: its selection forgotten and its name cleared.
pub fn blank_button_state(state: &mut SharedState, link_id: &str)
    requires
        old(state).well_formed(),
    ensures
        final(state).well_formed(),
        final(state)@.selections == old(state)@.selections.remove(link_id@),
        final(state)@.buttons == if old(state)@.buttons.dom().contains(link_id@) {
            old(state)@.buttons.insert(
                link_id@,
                ButtonInfoView { current_name: None, ..old(state)@.buttons[link_id@] },
            )
        } else {
            old(state)@.buttons
        },
        final(state)@.knobs == old(state)@.knobs,
{
    clear_selection(state, link_id);
    update_button_name(state, link_id, None);
}

/// What a button shows when it appears on the deck.
pub enum AppearStep {
    /// The blank image.
    Blank,
    /// The icon found by this search, muted or not as its target is.
    Icon { target: AudioTarget, icon_query: String },
    /// Nothing new.
    Unchanged,
}

/// A button appearing on the deck: registered under its link id (with the
/// name its settings give, none when blank); a blank button has its
/// selection and name cleared; a button whose settings name a node keeps
/// the saved selection, or saves the one the settings describe.
pub fn appear_button(
    state: &mut SharedState,
    link_id: &str,
    instance_id: &str,
    settings: &CycleAudioStreamSettings,
) -> (r: AppearStep)
    requires
        old(state).well_formed(),
    ensures
        final(state).well_formed(),
        final(state)@.knobs == old(state)@.knobs,
        settings.is_blank ==> {
            &&& r is Blank
            &&& final(state)@.selections == old(state)@.selections.remove(link_id@)
            &&& final(state)@.buttons == old(state)@.buttons.insert(
                link_id@,
                ButtonInfoView { link_id: link_id@, instance_id: instance_id@, current_name: None },
            )
        },
        !settings.is_blank ==> final(state)@.buttons == old(state)@.buttons.insert(
            link_id@,
            ButtonInfoView {
                link_id: link_id@,
                instance_id: instance_id@,
                current_name: settings@.current_name,
            },
        ),
        !settings.is_blank && settings.current_node_id is None ==> r is Unchanged
            && final(state)@.selections == old(state)@.selections,
        !settings.is_blank && settings.current_node_id is Some ==> {
            &&& r matches AppearStep::Icon { target, icon_query } && target == target_of(
                settings.current_node_id.unwrap(),
            ) && Some(icon_query@) == flash_start_icon(settings@)
            &&& final(state)@.selections == if old(state)@.selections.dom().contains(link_id@) {
                old(state)@.selections
            } else {
                old(state)@.selections.insert(link_id@, settings_selection(settings@).unwrap())
            }
        },
{
    let current_name: Option<&str> = if settings.is_blank {
        None
    } else {
        match &settings.current_name {
            Some(n) => Some(n.as_str()),
            None => None,
        }
    };
    register_button(state, link_id, instance_id, current_name);
    if settings.is_blank {
        clear_selection(state, link_id);
        update_button_name(state, link_id, None);
        return AppearStep::Blank;
    }
    match settings.current_node_id {
        Some(node_id) => {
            if load_selection(state, link_id).is_none() {
                match selection_from_settings(settings) {
                    Some(selection) => save_selection(state, link_id, &selection),
                    None => {},
                }
            }
            let query = settings_icon_query(settings);
            match query {
                Some(q) => AppearStep::Icon { target: AudioTarget::from_node_id(node_id), icon_query: q },
                None => AppearStep::Unchanged,
            }
        },
        None => AppearStep::Unchanged,
    }
}

} // verus!

verus! {

/// The node a press on an unlocked button moves to (none for blank).
pub open spec fn cycle_next(current: Option<u32>, streams: Seq<AudioStreamView>) -> Option<u32> {
    match cycle_step(current, streams) {
        CycleStepView::Blank => None,
        CycleStepView::Select(s) => Some(s.node_id),
    }
}

/// The node reached after `k` presses from `current`.
pub open spec fn cycle_from(streams: Seq<AudioStreamView>, current: Option<u32>, k: nat) -> Option<
    u32,
>
    decreases k,
{
    if k == 0 {
        current
    } else {
        cycle_next(cycle_from(streams, current, (k - 1) as nat), streams)
    }
}

/// Streams with distinct node ids, none of them one that stands for a
/// default device.
pub open spec fn plain_streams(streams: Seq<AudioStreamView>) -> bool {
    &&& forall|i: int|
        0 <= i < streams.len() ==> (#[trigger] streams[i]).node_id != MASTER_NODE_ID
            && streams[i].node_id != MIC_NODE_ID
    &&& forall|i: int, j: int|
        0 <= i < j < streams.len() ==> (#[trigger] streams[i]).node_id != (#[trigger] streams[j]).node_id
}

proof fn lemma_position_of(streams: Seq<AudioStreamView>, i: int, j: int)
    requires
        plain_streams(streams),
        0 <= j <= i < streams.len(),
    ensures
        position_of(streams, streams[i].node_id, j) == Some(i),
    decreases i - j,
{
    if j < i {
        assert(streams[j].node_id != streams[i].node_id);
        lemma_position_of(streams, i, j + 1);
    }
}

/// The cycle order: from blank, presses on an unlocked button reach the
/// default output, then the default input, then each stream in list order,
/// and then blank again; with no streams, the press after the default input
/// reaches blank.
pub proof fn lemma_cycle_order(streams: Seq<AudioStreamView>)
    requires
        plain_streams(streams),
    ensures
        cycle_from(streams, None, 1) == Some(MASTER_NODE_ID),
        cycle_from(streams, None, 2) == Some(MIC_NODE_ID),
        forall|i: int|
            0 <= i < streams.len() ==> #[trigger] cycle_from(streams, None, (i + 3) as nat) == Some(
                streams[i].node_id,
            ),
        cycle_from(streams, None, (streams.len() + 3) as nat) is None,
{
    lemma_cycle_start(streams);
    assert forall|i: int| 0 <= i < streams.len() implies #[trigger] cycle_from(
        streams,
        None,
        (i + 3) as nat,
    ) == Some(streams[i].node_id) by {
        lemma_cycle_reaches(streams, i);
    }
    if streams.len() == 0 {
        assert(cycle_from(streams, None, 3) is None);
    } else {
        let last = streams.len() - 1;
        lemma_cycle_reaches(streams, last);
        lemma_position_of(streams, last, 0);
        assert(cycle_from(streams, None, (streams.len() + 3) as nat) == cycle_next(
            cycle_from(streams, None, (last + 3) as nat),
            streams,
        ));
    }
}

proof fn lemma_cycle_start(streams: Seq<AudioStreamView>)
    ensures
        cycle_from(streams, None, 1) == Some(MASTER_NODE_ID),
        cycle_from(streams, None, 2) == Some(MIC_NODE_ID),
{
    assert(cycle_from(streams, None, 0) == None::<u32>);
    assert(cycle_step(None, streams) == CycleStepView::Select(master_selection()));
    assert(cycle_from(streams, None, 1) == cycle_next(None, streams));
    assert(cycle_step(Some(MASTER_NODE_ID), streams) == CycleStepView::Select(mic_selection()));
    assert(cycle_from(streams, None, 2) == cycle_next(Some(MASTER_NODE_ID), streams));
}

proof fn lemma_cycle_reaches(streams: Seq<AudioStreamView>, i: int)
    requires
        plain_streams(streams),
        0 <= i < streams.len(),
    ensures
        cycle_from(streams, None, (i + 3) as nat) == Some(streams[i].node_id),
    decreases i,
{
    lemma_cycle_start(streams);
    if i == 0 {
        assert(cycle_from(streams, None, 3) == cycle_next(Some(MIC_NODE_ID), streams));
    } else {
        lemma_cycle_reaches(streams, i - 1);
        lemma_position_of(streams, i - 1, 0);
        assert(streams[i - 1].node_id != MASTER_NODE_ID && streams[i - 1].node_id != MIC_NODE_ID);
        assert(cycle_from(streams, None, (i + 3) as nat) == cycle_next(
            cycle_from(streams, None, (i + 2) as nat),
            streams,
        ));
    }
}

} // verus!

verus! {

/// What a key release does: on a locked button, a blank one takes the most
/// recent stream and unlocks, a long press (at least `LONG_PRESS_MS`) unlocks,
/// and a short press mutes or unmutes; on an unlocked button every press
/// steps the cycle.
pub proof fn lemma_key_up_behaviour(
    effectively_blank: bool,
    press_start: Option<u64>,
    now_ms: u64,
    is_unlocked: bool,
)
    ensures
        is_unlocked ==> key_up_decision(effectively_blank, press_start, now_ms, is_unlocked)
            == KeyUpAction::Cycle,
        !is_unlocked && effectively_blank ==> key_up_decision(
            effectively_blank,
            press_start,
            now_ms,
            is_unlocked,
        ) == KeyUpAction::AssignRecentAndUnlock,
        !is_unlocked && !effectively_blank && press_start is Some && held_for(press_start.unwrap(), now_ms)
            >= LONG_PRESS_MS ==> key_up_decision(effectively_blank, press_start, now_ms, is_unlocked)
            == KeyUpAction::Unlock,
        !is_unlocked && !effectively_blank && (press_start is None || held_for(
            press_start.unwrap(),
            now_ms,
        ) < LONG_PRESS_MS) ==> key_up_decision(effectively_blank, press_start, now_ms, is_unlocked)
            == KeyUpAction::ToggleMute,
{
}

/// A flashing button stops once it is locked, locks itself once its unlock
/// period is over, and otherwise alternates between its two shades.
pub proof fn lemma_flash_behaviour(unlocked: bool, expires: Option<u64>, now_ms: u64, is_light: bool)
    ensures
        !unlocked ==> flash_decision(unlocked, expires, now_ms, is_light) == FlashStep::Restore,
        unlocked && expires is Some && now_ms >= expires.unwrap() ==> flash_decision(
            unlocked,
            expires,
            now_ms,
            is_light,
        ) == FlashStep::LockAndRestore,
        flash_decision(unlocked, expires, now_ms, is_light) matches FlashStep::Flash { is_light: l }
            ==> l == !is_light,
{
}

} // verus!
