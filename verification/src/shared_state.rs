//! The state the plugin keeps: which target each button is set to, which
//! buttons and knobs are on the deck (persisted between runs by the caller),
//! and each button's lock state while the plugin runs.
use vstd::prelude::*;

use crate::constants::UNLOCK_MS;
use crate::pipewire::{clone_opt_string, opt_view};
use crate::store::{Duplicate, StrMap};

verus! {

/// The target a button is set to.
pub struct StreamSelection {
    pub node_id: u32,
    pub name: String,
    pub app_name: Option<String>,
    pub media_name: Option<String>,
}

pub struct StreamSelectionView {
    pub node_id: u32,
    pub name: Seq<char>,
    pub app_name: Option<Seq<char>>,
    pub media_name: Option<Seq<char>>,
}

impl View for StreamSelection {
    type V = StreamSelectionView;

    open spec fn view(&self) -> StreamSelectionView {
        StreamSelectionView {
            node_id: self.node_id,
            name: self.name@,
            app_name: opt_view(self.app_name),
            media_name: opt_view(self.media_name),
        }
    }
}

impl Duplicate for StreamSelection {
    fn duplicate(&self) -> (r: Self) {
        StreamSelection {
            node_id: self.node_id,
            name: self.name.clone(),
            app_name: clone_opt_string(&self.app_name),
            media_name: clone_opt_string(&self.media_name),
        }
    }
}

impl Default for StreamSelection {
    fn default() -> (r: Self)
        ensures
            r.node_id == 0,
            r.name@ == Seq::<char>::empty(),
            r.app_name is None,
            r.media_name is None,
    {
        StreamSelection { node_id: 0, name: String::new(), app_name: None, media_name: None }
    }
}

/// A button on the deck.
pub struct ButtonInfo {
    pub link_id: String,
    pub instance_id: String,
    pub current_name: Option<String>,
}

pub struct ButtonInfoView {
    pub link_id: Seq<char>,
    pub instance_id: Seq<char>,
    pub current_name: Option<Seq<char>>,
}

impl View for ButtonInfo {
    type V = ButtonInfoView;

    open spec fn view(&self) -> ButtonInfoView {
        ButtonInfoView {
            link_id: self.link_id@,
            instance_id: self.instance_id@,
            current_name: opt_view(self.current_name),
        }
    }
}

impl Duplicate for ButtonInfo {
    fn duplicate(&self) -> (r: Self) {
        ButtonInfo {
            link_id: self.link_id.clone(),
            instance_id: self.instance_id.clone(),
            current_name: clone_opt_string(&self.current_name),
        }
    }
}

/// A knob on the deck, and the button it follows.
pub struct KnobInfo {
    pub instance_id: String,
    pub linked_button: String,
}

pub struct KnobInfoView {
    pub instance_id: Seq<char>,
    pub linked_button: Seq<char>,
}

impl View for KnobInfo {
    type V = KnobInfoView;

    open spec fn view(&self) -> KnobInfoView {
        KnobInfoView { instance_id: self.instance_id@, linked_button: self.linked_button@ }
    }
}

impl Duplicate for KnobInfo {
    fn duplicate(&self) -> (r: Self) {
        KnobInfo {
            instance_id: self.instance_id.clone(),
            linked_button: self.linked_button.clone(),
        }
    }
}

/// The persisted state: selections by button link id, buttons by link id,
/// knobs by instance id.
pub struct SharedState {
    pub selections: StrMap<StreamSelection>,
    pub buttons: StrMap<ButtonInfo>,
    pub knobs: StrMap<KnobInfo>,
}

pub struct SharedStateView {
    pub selections: Map<Seq<char>, StreamSelectionView>,
    pub buttons: Map<Seq<char>, ButtonInfoView>,
    pub knobs: Map<Seq<char>, KnobInfoView>,
}

impl View for SharedState {
    type V = SharedStateView;

    open spec fn view(&self) -> SharedStateView {
        SharedStateView {
            selections: self.selections@,
            buttons: self.buttons@,
            knobs: self.knobs@,
        }
    }
}

impl SharedState {
    pub open spec fn well_formed(&self) -> bool {
        &&& self.selections.well_formed()
        &&& self.buttons.well_formed()
        &&& self.knobs.well_formed()
    }

    /// The state of a first run: nothing selected or registered.
    pub fn new() -> (r: Self)
        ensures
            r.well_formed(),
            r@.selections == Map::<Seq<char>, StreamSelectionView>::empty(),
            r@.buttons == Map::<Seq<char>, ButtonInfoView>::empty(),
            r@.knobs == Map::<Seq<char>, KnobInfoView>::empty(),
    {
        SharedState { selections: StrMap::new(), buttons: StrMap::new(), knobs: StrMap::new() }
    }
}

pub open spec fn opt_str_seq(o: Option<&str>) -> Option<Seq<char>> {
    match o {
        Some(s) => Some(s@),
        None => None,
    }
}

fn opt_str_string(o: Option<&str>) -> (r: Option<String>)
    ensures
        opt_view(r) == opt_str_seq(o),
{
    match o {
        Some(s) => Some(s.to_owned()),
        None => None,
    }
}

/// Sets the target of the button `link_id`.
pub fn save_selection(state: &mut SharedState, link_id: &str, selection: &StreamSelection)
    requires
        old(state).well_formed(),
    ensures
        final(state).well_formed(),
        final(state)@.selections == old(state)@.selections.insert(link_id@, selection@),
        final(state)@.buttons == old(state)@.buttons,
        final(state)@.knobs == old(state)@.knobs,
{
    state.selections.insert(&link_id.to_owned(), selection.duplicate());
}

/// The target of the button `link_id`, if it has one.
pub fn load_selection(state: &SharedState, link_id: &str) -> (r: Option<StreamSelection>)
    requires
        state.well_formed(),
    ensures
        match r {
            Some(s) => state@.selections.dom().contains(link_id@) && s@
                == state@.selections[link_id@],
            None => !state@.selections.dom().contains(link_id@),
        },
{
    state.selections.get(&link_id.to_owned())
}

/// Forgets the target of the button `link_id`.
pub fn clear_selection(state: &mut SharedState, link_id: &str)
    requires
        old(state).well_formed(),
    ensures
        final(state).well_formed(),
        final(state)@.selections == old(state)@.selections.remove(link_id@),
        final(state)@.buttons == old(state)@.buttons,
        final(state)@.knobs == old(state)@.knobs,
{
    state.selections.remove(&link_id.to_owned());
}

/// Records the button `link_id` as shown by the deck instance
/// `instance_id`, under the name `current_name`.
pub fn register_button(
    state: &mut SharedState,
    link_id: &str,
    instance_id: &str,
    current_name: Option<&str>,
)
    requires
        old(state).well_formed(),
    ensures
        final(state).well_formed(),
        final(state)@.buttons == old(state)@.buttons.insert(
            link_id@,
            ButtonInfoView {
                link_id: link_id@,
                instance_id: instance_id@,
                current_name: opt_str_seq(current_name),
            },
        ),
        final(state)@.selections == old(state)@.selections,
        final(state)@.knobs == old(state)@.knobs,
{
    let info = ButtonInfo {
        link_id: link_id.to_owned(),
        instance_id: instance_id.to_owned(),
        current_name: opt_str_string(current_name),
    };
    state.buttons.insert(&link_id.to_owned(), info);
}

/// Renames the registered button `link_id`; returns whether there was one
/// (and so whether the state changed).
pub fn update_button_name(state: &mut SharedState, link_id: &str, current_name: Option<&str>) -> (r:
    bool)
    requires
        old(state).well_formed(),
    ensures
        final(state).well_formed(),
        r == old(state)@.buttons.dom().contains(link_id@),
        final(state)@.buttons == if r {
            old(state)@.buttons.insert(
                link_id@,
                ButtonInfoView {
                    current_name: opt_str_seq(current_name),
                    ..old(state)@.buttons[link_id@]
                },
            )
        } else {
            old(state)@.buttons
        },
        final(state)@.selections == old(state)@.selections,
        final(state)@.knobs == old(state)@.knobs,
{
    match state.buttons.get(&link_id.to_owned()) {
        Some(button) => {
            let updated = ButtonInfo {
                link_id: button.link_id,
                instance_id: button.instance_id,
                current_name: opt_str_string(current_name),
            };
            state.buttons.insert(&link_id.to_owned(), updated);
            true
        },
        None => false,
    }
}

/// Forgets the button `link_id`.
pub fn unregister_button(state: &mut SharedState, link_id: &str)
    requires
        old(state).well_formed(),
    ensures
        final(state).well_formed(),
        final(state)@.buttons == old(state)@.buttons.remove(link_id@),
        final(state)@.selections == old(state)@.selections,
        final(state)@.knobs == old(state)@.knobs,
{
    state.buttons.remove(&link_id.to_owned());
}

/// Every registered button, in the map's walk order.
pub fn get_all_buttons(state: &SharedState) -> (r: Vec<ButtonInfo>)
    requires
        state.well_formed(),
    ensures
        r@.len() == state.buttons.key_order().len(),
        forall|i: int|
            0 <= i < r@.len() ==> (#[trigger] r@[i])@ == state@.buttons[state.buttons.key_order()[i]],
{
    state.buttons.values()
}

/// The link id of a registered button shown by the deck instance
/// `instance_id`, if any (some such button where there are several).
pub fn find_button_link_id(state: &SharedState, instance_id: &str) -> (r: Option<String>)
    requires
        state.well_formed(),
    ensures
        r is None <==> !exists|k: Seq<char>|
            state@.buttons.dom().contains(k) && (#[trigger] state@.buttons[k]).instance_id
                == instance_id@,
        r matches Some(l) ==> exists|k: Seq<char>|
            state@.buttons.dom().contains(k) && (#[trigger] state@.buttons[k]).instance_id
                == instance_id@ && state@.buttons[k].link_id == l@,
{
    let buttons = state.buttons.values();
    proof {
        state.buttons.lemma_key_order();
    }
    let ghost ks = state.buttons.key_order();
    let wanted = instance_id.to_owned();
    let mut i: usize = 0;
    while i < buttons.len()
        invariant
            i <= buttons.len(),
            state.well_formed(),
            ks == state.buttons.key_order(),
            ks.to_set() == state@.buttons.dom(),
            buttons@.len() == ks.len(),
            forall|j: int| 0 <= j < buttons@.len() ==> (#[trigger] buttons@[j])@ == state@.buttons[ks[j]],
            wanted@ == instance_id@,
            forall|j: int| 0 <= j < i ==> (#[trigger] buttons@[j]).instance_id@ != instance_id@,
        decreases buttons.len() - i,
    {
        if buttons[i].instance_id == wanted {
            let ghost k = ks[i as int];
            assert(ks.to_set().contains(k));
            assert(state@.buttons[k].instance_id == instance_id@);
            return Some(buttons[i].link_id.clone());
        }
        i += 1;
    }
    assert forall|k: Seq<char>| #[trigger]
        state@.buttons.dom().contains(k) implies state@.buttons[k].instance_id != instance_id@ by {
        assert(ks.to_set().contains(k));
        let j = choose|j: int| 0 <= j < ks.len() && ks[j] == k;
        assert(buttons@[j]@ == state@.buttons[ks[j]]);
    }
    None
}

/// Forgets every button and knob, keeping the selections: the deck
/// registers its buttons and knobs again each run.
pub fn clear_runtime_registrations(state: &mut SharedState)
    requires
        old(state).well_formed(),
    ensures
        final(state).well_formed(),
        final(state)@.buttons == Map::<Seq<char>, ButtonInfoView>::empty(),
        final(state)@.knobs == Map::<Seq<char>, KnobInfoView>::empty(),
        final(state)@.selections == old(state)@.selections,
{
    state.buttons.clear();
    state.knobs.clear();
}

/// Records the knob `instance_id` as following the button `linked_button`.
pub fn register_knob(state: &mut SharedState, instance_id: &str, linked_button: &str)
    requires
        old(state).well_formed(),
    ensures
        final(state).well_formed(),
        final(state)@.knobs == old(state)@.knobs.insert(
            instance_id@,
            KnobInfoView { instance_id: instance_id@, linked_button: linked_button@ },
        ),
        final(state)@.selections == old(state)@.selections,
        final(state)@.buttons == old(state)@.buttons,
{
    let info = KnobInfo { instance_id: instance_id.to_owned(), linked_button: linked_button.to_owned() };
    state.knobs.insert(&instance_id.to_owned(), info);
}

/// Forgets the knob `instance_id`.
pub fn unregister_knob(state: &mut SharedState, instance_id: &str)
    requires
        old(state).well_formed(),
    ensures
        final(state).well_formed(),
        final(state)@.knobs == old(state)@.knobs.remove(instance_id@),
        final(state)@.selections == old(state)@.selections,
        final(state)@.buttons == old(state)@.buttons,
{
    state.knobs.remove(&instance_id.to_owned());
}

/// The instance ids of the knobs among `ks` (in that order) that follow
/// the button `link_id`.
pub open spec fn linked_knobs(
    ks: Seq<Seq<char>>,
    knobs: Map<Seq<char>, KnobInfoView>,
    link_id: Seq<char>,
) -> Seq<Seq<char>>
    decreases ks.len(),
{
    if ks.len() == 0 {
        seq![]
    } else {
        let prev = linked_knobs(ks.drop_last(), knobs, link_id);
        if knobs[ks.last()].linked_button == link_id {
            prev.push(knobs[ks.last()].instance_id)
        } else {
            prev
        }
    }
}

/// The knobs that follow the button `link_id`, in the map's walk order.
pub fn get_knobs_for_button(state: &SharedState, link_id: &str) -> (r: Vec<String>)
    requires
        state.well_formed(),
    ensures
        r@.map_values(|s: String| s@) == linked_knobs(state.knobs.key_order(), state@.knobs, link_id@),
{
    let knobs = state.knobs.values();
    let ghost ks = state.knobs.key_order();
    let wanted = link_id.to_owned();
    let mut r: Vec<String> = Vec::new();
    let mut i: usize = 0;
    while i < knobs.len()
        invariant
            i <= knobs.len(),
            knobs@.len() == ks.len(),
            forall|j: int| 0 <= j < knobs@.len() ==> (#[trigger] knobs@[j])@ == state@.knobs[ks[j]],
            wanted@ == link_id@,
            r@.map_values(|s: String| s@) == linked_knobs(ks.take(i as int), state@.knobs, link_id@),
        decreases knobs.len() - i,
    {
        let ghost before = r@.map_values(|s: String| s@);
        assert(ks.take(i + 1).drop_last() =~= ks.take(i as int));
        assert(knobs@[i as int]@ == state@.knobs[ks[i as int]]);
        if knobs[i].linked_button == wanted {
            r.push(knobs[i].instance_id.clone());
            assert(r@.map_values(|s: String| s@) =~= before.push(knobs@[i as int].instance_id@));
        }
        i += 1;
    }
    assert(ks.take(knobs.len() as int) =~= ks);
    r
}

/// The instance ids of the buttons among `ks` (in that order) registered
/// under the link id `link_id`.
pub open spec fn linked_instances(
    ks: Seq<Seq<char>>,
    buttons: Map<Seq<char>, ButtonInfoView>,
    link_id: Seq<char>,
) -> Seq<Seq<char>>
    decreases ks.len(),
{
    if ks.len() == 0 {
        seq![]
    } else {
        let prev = linked_instances(ks.drop_last(), buttons, link_id);
        if buttons[ks.last()].link_id == link_id {
            prev.push(buttons[ks.last()].instance_id)
        } else {
            prev
        }
    }
}

/// The deck instances that show the button `link_id`, in the map's walk
/// order.
pub fn linked_button_instances(state: &SharedState, link_id: &str) -> (r: Vec<String>)
    requires
        state.well_formed(),
    ensures
        r@.map_values(|s: String| s@) == linked_instances(state.buttons.key_order(), state@.buttons, link_id@),
{
    let buttons = state.buttons.values();
    let ghost ks = state.buttons.key_order();
    let wanted = link_id.to_owned();
    let mut r: Vec<String> = Vec::new();
    let mut i: usize = 0;
    while i < buttons.len()
        invariant
            i <= buttons.len(),
            buttons@.len() == ks.len(),
            forall|j: int| 0 <= j < buttons@.len() ==> (#[trigger] buttons@[j])@ == state@.buttons[ks[j]],
            wanted@ == link_id@,
            r@.map_values(|s: String| s@) == linked_instances(ks.take(i as int), state@.buttons, link_id@),
        decreases buttons.len() - i,
    {
        let ghost before = r@.map_values(|s: String| s@);
        assert(ks.take(i + 1).drop_last() =~= ks.take(i as int));
        assert(buttons@[i as int]@ == state@.buttons[ks[i as int]]);
        if buttons[i].link_id == wanted {
            r.push(buttons[i].instance_id.clone());
            assert(r@.map_values(|s: String| s@) =~= before.push(buttons@[i as int].instance_id@));
        }
        i += 1;
    }
    assert(ks.take(buttons.len() as int) =~= ks);
    r
}

/// Every registered knob, in the map's walk order.
pub fn get_all_knobs(state: &SharedState) -> (r: Vec<KnobInfo>)
    requires
        state.well_formed(),
    ensures
        r@.len() == state.knobs.key_order().len(),
        forall|i: int|
            0 <= i < r@.len() ==> (#[trigger] r@[i])@ == state@.knobs[state.knobs.key_order()[i]],
{
    state.knobs.values()
}

} // verus!

verus! {

/// The lock state of one button: unlocked buttons cycle through targets,
/// locked ones mute. Times are milliseconds on the caller's monotonic clock.
pub struct ButtonLockState {
    pub is_unlocked: bool,
    pub press_start: Option<u64>,
    pub unlock_expires: Option<u64>,
    pub current_icon: Option<String>,
}

pub struct ButtonLockStateView {
    pub is_unlocked: bool,
    pub press_start: Option<u64>,
    pub unlock_expires: Option<u64>,
    pub current_icon: Option<Seq<char>>,
}

impl View for ButtonLockState {
    type V = ButtonLockStateView;

    open spec fn view(&self) -> ButtonLockStateView {
        ButtonLockStateView {
            is_unlocked: self.is_unlocked,
            press_start: self.press_start,
            unlock_expires: self.unlock_expires,
            current_icon: opt_view(self.current_icon),
        }
    }
}

impl Duplicate for ButtonLockState {
    fn duplicate(&self) -> (r: Self) {
        ButtonLockState {
            is_unlocked: self.is_unlocked,
            press_start: self.press_start,
            unlock_expires: self.unlock_expires,
            current_icon: clone_opt_string(&self.current_icon),
        }
    }
}

/// A button nothing is known of: locked, not pressed, with no icon.
pub open spec fn default_lock_state() -> ButtonLockStateView {
    ButtonLockStateView {
        is_unlocked: false,
        press_start: None,
        unlock_expires: None,
        current_icon: None,
    }
}

impl Default for ButtonLockState {
    fn default() -> (r: Self)
        ensures
            r@ == default_lock_state(),
    {
        ButtonLockState {
            is_unlocked: false,
            press_start: None,
            unlock_expires: None,
            current_icon: None,
        }
    }
}

/// The lock state of every button that has one, by link id.
pub struct ButtonLockStates {
    states: StrMap<ButtonLockState>,
}

impl View for ButtonLockStates {
    type V = Map<Seq<char>, ButtonLockStateView>;

    closed spec fn view(&self) -> Map<Seq<char>, ButtonLockStateView> {
        self.states@
    }
}

impl ButtonLockStates {
    pub closed spec fn well_formed(&self) -> bool {
        self.states.well_formed()
    }

    pub fn new() -> (r: Self)
        ensures
            r.well_formed(),
            r@ == Map::<Seq<char>, ButtonLockStateView>::empty(),
    {
        ButtonLockStates { states: StrMap::new() }
    }
}

/// The lock state of `link_id`, or that of a button nothing is known of.
pub open spec fn lock_state_of(m: Map<Seq<char>, ButtonLockStateView>, link_id: Seq<char>) -> ButtonLockStateView {
    if m.dom().contains(link_id) {
        m[link_id]
    } else {
        default_lock_state()
    }
}

/// The lock states after the button `link_id` went down at `now_ms`.
pub open spec fn after_press_start(
    m: Map<Seq<char>, ButtonLockStateView>,
    link_id: Seq<char>,
    now_ms: u64,
) -> Map<Seq<char>, ButtonLockStateView> {
    m.insert(link_id, ButtonLockStateView { press_start: Some(now_ms), ..lock_state_of(m, link_id) })
}

/// The lock states after the press start of `link_id` was taken.
pub open spec fn after_press_cleared(
    m: Map<Seq<char>, ButtonLockStateView>,
    link_id: Seq<char>,
) -> Map<Seq<char>, ButtonLockStateView> {
    if m.dom().contains(link_id) {
        m.insert(link_id, ButtonLockStateView { press_start: None, ..m[link_id] })
    } else {
        m
    }
}

/// The lock states after `link_id` was unlocked at `now_ms`.
pub open spec fn after_unlock(
    m: Map<Seq<char>, ButtonLockStateView>,
    link_id: Seq<char>,
    now_ms: u64,
) -> Map<Seq<char>, ButtonLockStateView> {
    m.insert(
        link_id,
        ButtonLockStateView {
            is_unlocked: true,
            unlock_expires: Some((now_ms + UNLOCK_MS) as u64),
            ..lock_state_of(m, link_id)
        },
    )
}

/// The lock states after `link_id` was locked.
pub open spec fn after_lock(
    m: Map<Seq<char>, ButtonLockStateView>,
    link_id: Seq<char>,
) -> Map<Seq<char>, ButtonLockStateView> {
    if m.dom().contains(link_id) {
        m.insert(link_id, ButtonLockStateView { is_unlocked: false, unlock_expires: None, ..m[link_id] })
    } else {
        m
    }
}

/// The lock states after the unlock period of `link_id` was renewed at
/// `now_ms`.
pub open spec fn after_refresh(
    m: Map<Seq<char>, ButtonLockStateView>,
    link_id: Seq<char>,
    now_ms: u64,
) -> Map<Seq<char>, ButtonLockStateView> {
    if m.dom().contains(link_id) && m[link_id].is_unlocked {
        m.insert(
            link_id,
            ButtonLockStateView { unlock_expires: Some((now_ms + UNLOCK_MS) as u64), ..m[link_id] },
        )
    } else {
        m
    }
}

/// The lock states after the icon `icon` was noted for `link_id`.
pub open spec fn after_icon(
    m: Map<Seq<char>, ButtonLockStateView>,
    link_id: Seq<char>,
    icon: Seq<char>,
) -> Map<Seq<char>, ButtonLockStateView> {
    if m.dom().contains(link_id) {
        m.insert(link_id, ButtonLockStateView { current_icon: Some(icon), ..m[link_id] })
    } else {
        m
    }
}

/// Whether `link_id` is unlocked in `m`.
pub open spec fn unlocked_in(m: Map<Seq<char>, ButtonLockStateView>, link_id: Seq<char>) -> bool {
    m.dom().contains(link_id) && m[link_id].is_unlocked
}

/// The lock state of the button `link_id`.
pub fn get_button_lock_state(states: &ButtonLockStates, link_id: &str) -> (r: ButtonLockState)
    requires
        states.well_formed(),
    ensures
        r@ == lock_state_of(states@, link_id@),
{
    match states.states.get(&link_id.to_owned()) {
        Some(s) => s,
        None => ButtonLockState::default(),
    }
}

/// Notes that the button `link_id` went down at `now_ms`.
pub fn record_press_start(states: &mut ButtonLockStates, link_id: &str, now_ms: u64)
    requires
        old(states).well_formed(),
    ensures
        final(states).well_formed(),
        final(states)@ == after_press_start(old(states)@, link_id@, now_ms),
{
    let mut entry = get_button_lock_state(states, link_id);
    entry.press_start = Some(now_ms);
    states.states.insert(&link_id.to_owned(), entry);
}

/// Takes the time at which the button `link_id` went down, if noted.
pub fn clear_press_start(states: &mut ButtonLockStates, link_id: &str) -> (r: Option<u64>)
    requires
        old(states).well_formed(),
    ensures
        final(states).well_formed(),
        r == lock_state_of(old(states)@, link_id@).press_start,
        final(states)@ == after_press_cleared(old(states)@, link_id@),
{
    match states.states.get(&link_id.to_owned()) {
        Some(mut entry) => {
            let start = entry.press_start;
            entry.press_start = None;
            states.states.insert(&link_id.to_owned(), entry);
            start
        },
        None => None,
    }
}

/// Unlocks the button `link_id` for `UNLOCK_MS` from `now_ms`.
pub fn unlock_button(states: &mut ButtonLockStates, link_id: &str, now_ms: u64)
    requires
        old(states).well_formed(),
        now_ms <= u64::MAX - UNLOCK_MS,
    ensures
        final(states).well_formed(),
        final(states)@ == after_unlock(old(states)@, link_id@, now_ms),
{
    let mut entry = get_button_lock_state(states, link_id);
    entry.is_unlocked = true;
    entry.unlock_expires = Some(now_ms + UNLOCK_MS);
    states.states.insert(&link_id.to_owned(), entry);
}

/// Locks the button `link_id`, if it has a lock state.
pub fn lock_button(states: &mut ButtonLockStates, link_id: &str)
    requires
        old(states).well_formed(),
    ensures
        final(states).well_formed(),
        final(states)@ == after_lock(old(states)@, link_id@),
{
    match states.states.get(&link_id.to_owned()) {
        Some(mut entry) => {
            entry.is_unlocked = false;
            entry.unlock_expires = None;
            states.states.insert(&link_id.to_owned(), entry);
        },
        None => {},
    }
}

/// Gives an unlocked button `link_id` another `UNLOCK_MS` from `now_ms`.
pub fn refresh_unlock_timer(states: &mut ButtonLockStates, link_id: &str, now_ms: u64)
    requires
        old(states).well_formed(),
        now_ms <= u64::MAX - UNLOCK_MS,
    ensures
        final(states).well_formed(),
        final(states)@ == after_refresh(old(states)@, link_id@, now_ms),
{
    match states.states.get(&link_id.to_owned()) {
        Some(mut entry) => {
            if entry.is_unlocked {
                entry.unlock_expires = Some(now_ms + UNLOCK_MS);
                states.states.insert(&link_id.to_owned(), entry);
            }
        },
        None => {},
    }
}

/// Whether the button `link_id` is unlocked.
pub fn is_button_unlocked(states: &ButtonLockStates, link_id: &str) -> (r: bool)
    requires
        states.well_formed(),
    ensures
        r == unlocked_in(states@, link_id@),
{
    match states.states.get(&link_id.to_owned()) {
        Some(s) => s.is_unlocked,
        None => false,
    }
}

/// Notes the icon the button `link_id` shows, if it has a lock state.
pub fn update_button_icon(states: &mut ButtonLockStates, link_id: &str, icon: String)
    requires
        old(states).well_formed(),
    ensures
        final(states).well_formed(),
        final(states)@ == after_icon(old(states)@, link_id@, icon@),
{
    match states.states.get(&link_id.to_owned()) {
        Some(mut entry) => {
            entry.current_icon = Some(icon);
            states.states.insert(&link_id.to_owned(), entry);
        },
        None => {},
    }
}

/// The icon noted for the button `link_id`.
pub fn get_button_icon(states: &ButtonLockStates, link_id: &str) -> (r: Option<String>)
    requires
        states.well_formed(),
    ensures
        opt_view(r) == lock_state_of(states@, link_id@).current_icon,
{
    match states.states.get(&link_id.to_owned()) {
        Some(s) => s.current_icon,
        None => None,
    }
}

} // verus!

verus! {

/// The lock cycle of a button: once unlocked it is unlocked until the
/// unlock period it was given; locking it makes it locked with no period;
/// renewing the period of a locked button changes nothing; and the press
/// start taken after a press is the time the press started.
pub proof fn lemma_lock_cycle(m: Map<Seq<char>, ButtonLockStateView>, link_id: Seq<char>, now_ms: u64, later_ms: u64)
    requires
        now_ms <= u64::MAX - UNLOCK_MS,
        later_ms <= u64::MAX - UNLOCK_MS,
    ensures
        unlocked_in(after_unlock(m, link_id, now_ms), link_id),
        after_unlock(m, link_id, now_ms)[link_id].unlock_expires == Some((now_ms + UNLOCK_MS) as u64),
        !unlocked_in(after_lock(after_unlock(m, link_id, now_ms), link_id), link_id),
        after_lock(after_unlock(m, link_id, now_ms), link_id)[link_id].unlock_expires is None,
        !unlocked_in(m, link_id) ==> after_refresh(m, link_id, later_ms) == m,
        after_refresh(after_unlock(m, link_id, now_ms), link_id, later_ms)[link_id].unlock_expires
            == Some((later_ms + UNLOCK_MS) as u64),
        lock_state_of(after_press_start(m, link_id, now_ms), link_id).press_start == Some(now_ms),
        lock_state_of(after_press_cleared(after_press_start(m, link_id, now_ms), link_id), link_id).press_start is None,
{
}

/// A selection saved for a button is the one loaded for it afterwards, the
/// other buttons' selections stay as they were, and a cleared selection is
/// gone.
pub proof fn lemma_selection_roundtrip(
    m: Map<Seq<char>, StreamSelectionView>,
    link_id: Seq<char>,
    other: Seq<char>,
    selection: StreamSelectionView,
)
    ensures
        m.insert(link_id, selection).dom().contains(link_id),
        m.insert(link_id, selection)[link_id] == selection,
        other != link_id ==> m.insert(link_id, selection).dom().contains(other) == m.dom().contains(other),
        other != link_id && m.dom().contains(other) ==> m.insert(link_id, selection)[other] == m[other],
        !m.insert(link_id, selection).remove(link_id).dom().contains(link_id),
{
}

/// A registered button is found again by the instance that shows it.
pub proof fn lemma_registered_button_found(
    buttons: Map<Seq<char>, ButtonInfoView>,
    link_id: Seq<char>,
    instance_id: Seq<char>,
    current_name: Option<Seq<char>>,
)
    ensures
        ({
            let after = buttons.insert(
                link_id,
                ButtonInfoView { link_id, instance_id, current_name },
            );
            exists|k: Seq<char>|
                after.dom().contains(k) && (#[trigger] after[k]).instance_id == instance_id
        }),
{
    let after = buttons.insert(link_id, ButtonInfoView { link_id, instance_id, current_name });
    assert(after.dom().contains(link_id) && after[link_id].instance_id == instance_id);
}

} // verus!

verus! {

/// One call on the lock states, as the functions of this module make it.
pub enum LockOp {
    PressStart(Seq<char>, u64),
    PressCleared(Seq<char>),
    Unlock(Seq<char>, u64),
    Lock(Seq<char>),
    Refresh(Seq<char>, u64),
    Icon(Seq<char>, Seq<char>),
}

/// The lock states after one call: `record_press_start`,
/// `clear_press_start`, `unlock_button`, `lock_button`,
/// `refresh_unlock_timer` or `update_button_icon`.
pub open spec fn lock_step(m: Map<Seq<char>, ButtonLockStateView>, op: LockOp) -> Map<
    Seq<char>,
    ButtonLockStateView,
> {
    match op {
        LockOp::PressStart(l, t) => after_press_start(m, l, t),
        LockOp::PressCleared(l) => after_press_cleared(m, l),
        LockOp::Unlock(l, t) => after_unlock(m, l, t),
        LockOp::Lock(l) => after_lock(m, l),
        LockOp::Refresh(l, t) => after_refresh(m, l, t),
        LockOp::Icon(l, icon) => after_icon(m, l, icon),
    }
}

/// The lock states after the calls `ops`, in order, from `m`.
pub open spec fn lock_states_after(m: Map<Seq<char>, ButtonLockStateView>, ops: Seq<LockOp>) -> Map<
    Seq<char>,
    ButtonLockStateView,
>
    decreases ops.len(),
{
    if ops.len() == 0 {
        m
    } else {
        lock_step(lock_states_after(m, ops.drop_last()), ops.last())
    }
}

/// Every button with a lock state is unlocked exactly when it has an
/// unlock expiry.
pub open spec fn expiry_matches_unlock(m: Map<Seq<char>, ButtonLockStateView>) -> bool {
    forall|l: Seq<char>|
        #[trigger] m.dom().contains(l) ==> (m[l].is_unlocked <==> m[l].unlock_expires is Some)
}

/// Whether a call can change the unlock period of `l`.
pub open spec fn sets_period_of(op: LockOp, l: Seq<char>) -> bool {
    match op {
        LockOp::Unlock(k, _) => k == l,
        LockOp::Lock(k) => k == l,
        LockOp::Refresh(k, _) => k == l,
        _ => false,
    }
}

proof fn lemma_lock_step_keeps(m: Map<Seq<char>, ButtonLockStateView>, op: LockOp)
    requires
        expiry_matches_unlock(m),
    ensures
        expiry_matches_unlock(lock_step(m, op)),
{
    let r = lock_step(m, op);
    assert forall|l: Seq<char>| #[trigger] r.dom().contains(l) implies (r[l].is_unlocked
        <==> r[l].unlock_expires is Some) by {
        if m.dom().contains(l) {
            assert(m[l].is_unlocked <==> m[l].unlock_expires is Some);
        }
    }
}

proof fn lemma_lock_states_keep(m: Map<Seq<char>, ButtonLockStateView>, ops: Seq<LockOp>)
    requires
        expiry_matches_unlock(m),
    ensures
        expiry_matches_unlock(lock_states_after(m, ops)),
    decreases ops.len(),
{
    if ops.len() > 0 {
        lemma_lock_states_keep(m, ops.drop_last());
        lemma_lock_step_keeps(lock_states_after(m, ops.drop_last()), ops.last());
    }
}

/// Over any calls on the lock states from none, every button is unlocked
/// exactly when it has an unlock expiry, and the state read for it says it
/// is unlocked exactly when `is_button_unlocked` does.
pub proof fn lemma_unlocked_iff_expiry(ops: Seq<LockOp>, l: Seq<char>)
    ensures
        ({
            let m = lock_states_after(Map::empty(), ops);
            &&& lock_state_of(m, l).is_unlocked <==> lock_state_of(m, l).unlock_expires is Some
            &&& lock_state_of(m, l).is_unlocked == unlocked_in(m, l)
        }),
{
    let m = lock_states_after(Map::empty(), ops);
    assert(expiry_matches_unlock(Map::<Seq<char>, ButtonLockStateView>::empty()));
    lemma_lock_states_keep(Map::empty(), ops);
    if m.dom().contains(l) {
        assert(m[l].is_unlocked <==> m[l].unlock_expires is Some);
    }
}

/// After `unlock_button(l)` at `t`, as long as no later call locks `l`,
/// unlocks it again or renews its period, `l` is unlocked until `t` plus
/// `UNLOCK_MS`.
pub proof fn lemma_unlock_expiry(ops: Seq<LockOp>, i: int, l: Seq<char>, t: u64)
    requires
        0 <= i < ops.len(),
        ops[i] == LockOp::Unlock(l, t),
        t <= u64::MAX - UNLOCK_MS,
        forall|j: int| i < j < ops.len() ==> !sets_period_of(#[trigger] ops[j], l),
    ensures
        ({
            let m = lock_states_after(Map::empty(), ops);
            &&& unlocked_in(m, l)
            &&& lock_state_of(m, l).unlock_expires == Some((t + UNLOCK_MS) as u64)
        }),
    decreases ops.len(),
{
    if ops.len() - 1 == i {
        assert(ops.last() == LockOp::Unlock(l, t));
    } else {
        let p = ops.drop_last();
        assert forall|j: int| i < j < p.len() implies !sets_period_of(#[trigger] p[j], l) by {
            assert(p[j] == ops[j]);
        }
        lemma_unlock_expiry(p, i, l, t);
        assert(!sets_period_of(ops[ops.len() - 1], l));
    }
}

/// One call on the registered knobs, as the functions of this module make
/// it.
pub enum KnobOp {
    Register(Seq<char>, Seq<char>),
    Unregister(Seq<char>),
    Clear,
}

/// The knobs after one call: `register_knob`, `unregister_knob` or
/// `clear_runtime_registrations`.
pub open spec fn knob_step(k: Map<Seq<char>, KnobInfoView>, op: KnobOp) -> Map<Seq<char>, KnobInfoView> {
    match op {
        KnobOp::Register(id, b) => k.insert(id, KnobInfoView { instance_id: id, linked_button: b }),
        KnobOp::Unregister(id) => k.remove(id),
        KnobOp::Clear => Map::empty(),
    }
}

pub open spec fn knobs_after(k: Map<Seq<char>, KnobInfoView>, ops: Seq<KnobOp>) -> Map<
    Seq<char>,
    KnobInfoView,
>
    decreases ops.len(),
{
    if ops.len() == 0 {
        k
    } else {
        knob_step(knobs_after(k, ops.drop_last()), ops.last())
    }
}

/// Each knob is registered under its own instance id.
pub open spec fn knobs_keyed_by_instance(k: Map<Seq<char>, KnobInfoView>) -> bool {
    forall|id: Seq<char>| #[trigger] k.dom().contains(id) ==> k[id].instance_id == id
}

/// Whether a call can change the registration of the knob `id`.
pub open spec fn touches_knob(op: KnobOp, id: Seq<char>) -> bool {
    match op {
        KnobOp::Register(k, _) => k == id,
        KnobOp::Unregister(k) => k == id,
        KnobOp::Clear => true,
    }
}

proof fn lemma_knobs_keyed(k: Map<Seq<char>, KnobInfoView>, ops: Seq<KnobOp>)
    requires
        knobs_keyed_by_instance(k),
    ensures
        knobs_keyed_by_instance(knobs_after(k, ops)),
    decreases ops.len(),
{
    if ops.len() > 0 {
        lemma_knobs_keyed(k, ops.drop_last());
        let p = knobs_after(k, ops.drop_last());
        let r = knob_step(p, ops.last());
        assert forall|id: Seq<char>| #[trigger] r.dom().contains(id) implies r[id].instance_id
            == id by {
            if p.dom().contains(id) {
                assert(p[id].instance_id == id);
            }
        }
    }
}

proof fn lemma_knob_kept(k: Map<Seq<char>, KnobInfoView>, ops: Seq<KnobOp>, i: int, id: Seq<char>, b: Seq<char>)
    requires
        0 <= i < ops.len(),
        ops[i] == KnobOp::Register(id, b),
        forall|j: int| i < j < ops.len() ==> !touches_knob(#[trigger] ops[j], id),
    ensures
        knobs_after(k, ops).dom().contains(id),
        knobs_after(k, ops)[id] == (KnobInfoView { instance_id: id, linked_button: b }),
    decreases ops.len(),
{
    if ops.len() - 1 != i {
        let p = ops.drop_last();
        assert forall|j: int| i < j < p.len() implies !touches_knob(#[trigger] p[j], id) by {
            assert(p[j] == ops[j]);
        }
        lemma_knob_kept(k, p, i, id, b);
        assert(!touches_knob(ops[ops.len() - 1], id));
    } else {
        assert(ops.last() == KnobOp::Register(id, b));
    }
}

/// What `linked_knobs` lists: instance ids of knobs among `ks` that follow
/// `b`, each once where `ks` lists each once.
proof fn lemma_linked_knobs(ks: Seq<Seq<char>>, k: Map<Seq<char>, KnobInfoView>, b: Seq<char>)
    requires
        knobs_keyed_by_instance(k),
        forall|j: int| 0 <= j < ks.len() ==> k.dom().contains(#[trigger] ks[j]),
        ks.no_duplicates(),
    ensures
        forall|x: Seq<char>|
            #[trigger] linked_knobs(ks, k, b).contains(x) <==> ks.contains(x) && k[x].linked_button
                == b,
        linked_knobs(ks, k, b).no_duplicates(),
    decreases ks.len(),
{
    if ks.len() > 0 {
        let p = ks.drop_last();
        assert forall|a: int, c: int| 0 <= a < p.len() && 0 <= c < p.len() && a != c implies p[a]
            != p[c] by {
            assert(ks[a] == p[a] && ks[c] == p[c]);
        }
        assert forall|j: int| 0 <= j < p.len() implies k.dom().contains(#[trigger] p[j]) by {
            assert(ks[j] == p[j]);
        }
        lemma_linked_knobs(p, k, b);
        let prev = linked_knobs(p, k, b);
        let last = ks.last();
        assert(k.dom().contains(last));
        assert(k[last].instance_id == last);
        assert(!p.contains(last)) by {
            if p.contains(last) {
                let a = choose|a: int| 0 <= a < p.len() && p[a] == last;
                assert(ks[a] == ks[ks.len() - 1]);
            }
        }
        assert forall|x: Seq<char>| ks.contains(x) <==> p.contains(x) || x == last by {
            if ks.contains(x) {
                let a = choose|a: int| 0 <= a < ks.len() && ks[a] == x;
                if a < ks.len() - 1 {
                    assert(p[a] == x);
                }
            }
            if p.contains(x) {
                let a = choose|a: int| 0 <= a < p.len() && p[a] == x;
                assert(ks[a] == x);
            }
            if x == last {
                assert(ks[ks.len() - 1] == x);
            }
        }
        if k[last].linked_button == b {
            let r = prev.push(last);
            assert(linked_knobs(ks, k, b) == r);
            assert forall|x: Seq<char>| #[trigger] r.contains(x) <==> prev.contains(x) || x == last by {
                if r.contains(x) {
                    let a = choose|a: int| 0 <= a < r.len() && r[a] == x;
                    if a < prev.len() {
                        assert(prev[a] == x);
                    }
                }
                if prev.contains(x) {
                    let a = choose|a: int| 0 <= a < prev.len() && prev[a] == x;
                    assert(r[a] == x);
                }
                if x == last {
                    assert(r[prev.len() as int] == x);
                }
            }
            assert forall|a: int, c: int| 0 <= a < r.len() && 0 <= c < r.len() && a != c implies r[a]
                != r[c] by {
                if a < prev.len() && c < prev.len() {
                    assert(prev[a] != prev[c]);
                } else if a < prev.len() {
                    assert(prev.contains(r[a]));
                } else if c < prev.len() {
                    assert(prev.contains(r[c]));
                }
            }
        }
    }
}

/// A knob registered under the button `b`, and not unregistered,
/// registered again or cleared since, is listed exactly once among the
/// knobs of `b`, and among the knobs of no other button, whatever else was
/// registered or unregistered meanwhile. (`state` holds the knobs after the
/// calls `ops` from none.)
pub proof fn lemma_knob_listed_once(
    state: SharedState,
    ops: Seq<KnobOp>,
    i: int,
    id: Seq<char>,
    b: Seq<char>,
    other: Seq<char>,
)
    requires
        state.well_formed(),
        state@.knobs == knobs_after(Map::empty(), ops),
        0 <= i < ops.len(),
        ops[i] == KnobOp::Register(id, b),
        forall|j: int| i < j < ops.len() ==> !touches_knob(#[trigger] ops[j], id),
    ensures
        linked_knobs(state.knobs.key_order(), state@.knobs, b).contains(id),
        linked_knobs(state.knobs.key_order(), state@.knobs, b).no_duplicates(),
        other != b ==> !linked_knobs(state.knobs.key_order(), state@.knobs, other).contains(id),
{
    let k = state@.knobs;
    let ks = state.knobs.key_order();
    assert(knobs_keyed_by_instance(Map::<Seq<char>, KnobInfoView>::empty()));
    lemma_knobs_keyed(Map::empty(), ops);
    lemma_knob_kept(Map::empty(), ops, i, id, b);
    state.knobs.lemma_key_order();
    assert forall|j: int| 0 <= j < ks.len() implies k.dom().contains(#[trigger] ks[j]) by {
        assert(ks.to_set().contains(ks[j]));
    }
    assert(ks.contains(id)) by {
        assert(ks.to_set().contains(id));
    }
    lemma_linked_knobs(ks, k, b);
    lemma_linked_knobs(ks, k, other);
}

} // verus!
