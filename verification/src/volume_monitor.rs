//! The monitor that looks at the streams every `POLL_INTERVAL_MS`: it
//! blanks buttons whose stream went away, gives a new stream to a blank
//! button, and refreshes knobs whose target changed.
use vstd::prelude::*;

use crate::audio::{target_of, AudioTarget};
use crate::constants::COOLDOWN_SECS;
use crate::pipewire::{AudioStream, AudioStreamView};
use crate::shared_state::{
    load_selection, ButtonInfo, ButtonInfoView, SharedState, SharedStateView, StreamSelection,
    StreamSelectionView,
};
use crate::store::{Duplicate, KeyMap, StrMap};
use crate::text::{chars_of, seq_lt, seq_lt_exec, seq_eq};

verus! {

/// What a knob last showed for a node: volume, mute state and title.
pub struct CachedDisplay {
    pub volume: u32,
    pub muted: bool,
    pub title: String,
}

impl View for CachedDisplay {
    type V = (u32, bool, Seq<char>);

    open spec fn view(&self) -> (u32, bool, Seq<char>) {
        (self.volume, self.muted, self.title@)
    }
}

impl Duplicate for CachedDisplay {
    fn duplicate(&self) -> (r: Self) {
        CachedDisplay { volume: self.volume, muted: self.muted, title: self.title.clone() }
    }
}

/// What knobs last showed, by node id.
pub type VolumeCache = KeyMap<u32, CachedDisplay>;

/// When each knob was last touched, in milliseconds, by instance id.
pub type CooldownMap = StrMap<u64>;

/// Notes a volume set from a knob, keeping the mute state last shown (not
/// muted where none was).
pub fn update_cached_volume(cache: &mut VolumeCache, node_id: u32, volume: u32, title: &str)
    requires
        old(cache).well_formed(),
    ensures
        final(cache).well_formed(),
        final(cache)@ == old(cache)@.insert(
            node_id,
            (
                volume,
                old(cache)@.dom().contains(node_id) && old(cache)@[node_id].1,
                title@,
            ),
        ),
{
    let muted = match cache.get(&node_id) {
        Some(c) => c.muted,
        None => false,
    };
    cache.insert(&node_id, CachedDisplay { volume, muted, title: title.to_owned() });
}

/// Notes what a knob now shows for `node_id`.
pub fn update_cached_display_state(
    cache: &mut VolumeCache,
    node_id: u32,
    volume: u32,
    muted: bool,
    title: &str,
)
    requires
        old(cache).well_formed(),
    ensures
        final(cache).well_formed(),
        final(cache)@ == old(cache)@.insert(node_id, (volume, muted, title@)),
{
    cache.insert(&node_id, CachedDisplay { volume, muted, title: title.to_owned() });
}

/// Whether a knob would show something new for `node_id`.
pub fn display_changed(cache: &VolumeCache, node_id: u32, volume: u32, muted: bool, title: &str) -> (r:
    bool)
    requires
        cache.well_formed(),
    ensures
        r == !(cache@.dom().contains(node_id) && cache@[node_id] == (volume, muted, title@)),
{
    match cache.get(&node_id) {
        Some(c) => {
            let same_title = seq_eq(&chars_of(c.title.as_str()), &chars_of(title));
            !(c.volume == volume && c.muted == muted && same_title)
        },
        None => true,
    }
}

/// Notes that the knob `instance_id` was touched at `now_ms`.
pub fn touch_knob(cooldown: &mut CooldownMap, instance_id: &str, now_ms: u64)
    requires
        old(cooldown).well_formed(),
    ensures
        final(cooldown).well_formed(),
        final(cooldown)@ == old(cooldown)@.insert(instance_id@, now_ms),
{
    cooldown.insert(&instance_id.to_owned(), now_ms);
}

/// Whether the knob `instance_id` was touched less than `COOLDOWN_SECS`
/// before `now_ms` (a touch noted later than `now_ms` counts as just now).
pub fn in_cooldown(cooldown: &CooldownMap, instance_id: &str, now_ms: u64) -> (r: bool)
    requires
        cooldown.well_formed(),
    ensures
        r == (cooldown@.dom().contains(instance_id@) && (now_ms < cooldown@[instance_id@] || now_ms
            - cooldown@[instance_id@] < COOLDOWN_SECS * 1000)),
{
    match cooldown.get(&instance_id.to_owned()) {
        Some(last) => now_ms < last || now_ms - last < COOLDOWN_SECS * 1000,
        None => false,
    }
}

/// The node ids of `streams`.
pub fn active_stream_ids(streams: &Vec<AudioStream>) -> (r: Vec<u32>)
    ensures
        r@.len() == streams@.len(),
        forall|i: int| 0 <= i < r@.len() ==> #[trigger] r@[i] == streams@[i].node_id,
{
    let mut r: Vec<u32> = Vec::new();
    let mut i: usize = 0;
    while i < streams.len()
        invariant
            i <= streams.len(),
            r@.len() == i,
            forall|j: int| 0 <= j < i ==> #[trigger] r@[j] == streams@[j].node_id,
        decreases streams.len() - i,
    {
        r.push(streams[i].node_id);
        i += 1;
    }
    r
}

fn contains_id(ids: &Vec<u32>, id: u32) -> (r: bool)
    ensures
        r == ids@.contains(id),
{
    let mut i: usize = 0;
    while i < ids.len()
        invariant
            i <= ids.len(),
            forall|j: int| 0 <= j < i ==> ids@[j] != id,
        decreases ids.len() - i,
    {
        if ids[i] == id {
            return true;
        }
        i += 1;
    }
    false
}

/// Among the streams not in `known`, the one with the greatest node id
/// (the last such one where several share it).
pub open spec fn is_newest_unknown(streams: Seq<AudioStream>, known: Seq<u32>, k: int) -> bool {
    &&& 0 <= k < streams.len()
    &&& !known.contains(streams[k].node_id)
    &&& forall|j: int|
        0 <= j < streams.len() && !known.contains(#[trigger] streams[j].node_id) ==> streams[j].node_id
            <= streams[k].node_id
    &&& forall|j: int|
        k < j < streams.len() && !known.contains(#[trigger] streams[j].node_id) ==> streams[j].node_id
            < streams[k].node_id
}

/// The stream that appeared since the last look, where the monitor has
/// looked before: of those whose node ids were not known, the one with the
/// greatest node id.
pub fn newly_detected_stream(streams: &Vec<AudioStream>, known: &Vec<u32>, initialized: bool) -> (r:
    Option<AudioStream>)
    ensures
        r is None <==> !initialized || forall|j: int|
            0 <= j < streams@.len() ==> known@.contains(#[trigger] streams@[j].node_id),
        r matches Some(s) ==> exists|k: int|
            is_newest_unknown(streams@, known@, k) && s@ == (#[trigger] streams@[k])@,
{
    if !initialized {
        return None;
    }
    let mut best: Option<usize> = None;
    let mut i: usize = 0;
    while i < streams.len()
        invariant
            i <= streams.len(),
            match best {
                None => forall|j: int| 0 <= j < i ==> known@.contains(#[trigger] streams@[j].node_id),
                Some(b) => b < i && !known@.contains(streams@[b as int].node_id) && (forall|j: int|
                    0 <= j < i && !known@.contains(#[trigger] streams@[j].node_id)
                        ==> streams@[j].node_id <= streams@[b as int].node_id) && (forall|j: int|
                    b < j < i && !known@.contains(#[trigger] streams@[j].node_id)
                        ==> streams@[j].node_id < streams@[b as int].node_id),
            },
        decreases streams.len() - i,
    {
        if !contains_id(known, streams[i].node_id) {
            match best {
                None => {
                    best = Some(i);
                },
                Some(b) => {
                    if streams[i].node_id >= streams[b].node_id {
                        best = Some(i);
                    }
                },
            }
        }
        i += 1;
    }
    match best {
        None => None,
        Some(b) => {
            assert(is_newest_unknown(streams@, known@, b as int));
            Some(streams[b].duplicate())
        },
    }
}

/// The buttons among `buttons` (in order) whose selection is a stream
/// that is no longer active, each link id once, with that selection.
pub open spec fn vanished_upto(
    buttons: Seq<ButtonInfo>,
    selections: Map<Seq<char>, StreamSelectionView>,
    active: Seq<u32>,
    n: int,
) -> Seq<(Seq<char>, StreamSelectionView)>
    decreases n,
{
    if n <= 0 {
        seq![]
    } else {
        let prev = vanished_upto(buttons, selections, active, n - 1);
        let link = buttons[n - 1].link_id@;
        if selections.dom().contains(link) && target_of(selections[link].node_id) is Stream
            && !active.contains(selections[link].node_id) && !prev.map_values(
            |p: (Seq<char>, StreamSelectionView)| p.0,
        ).contains(link) {
            prev.push((link, selections[link]))
        } else {
            prev
        }
    }
}

pub open spec fn vanished_view(v: Seq<(String, StreamSelection)>) -> Seq<(Seq<char>, StreamSelectionView)> {
    v.map_values(|p: (String, StreamSelection)| (p.0@, p.1@))
}

/// The buttons to blank: those whose selected stream is no longer active,
/// each once, with the selection they had.
pub fn vanished_buttons(buttons: &Vec<ButtonInfo>, state: &SharedState, active: &Vec<u32>) -> (r: Vec<
    (String, StreamSelection),
>)
    requires
        state.well_formed(),
    ensures
        vanished_view(r@) == vanished_upto(buttons@, state@.selections, active@, buttons@.len() as int),
{
    let mut r: Vec<(String, StreamSelection)> = Vec::new();
    let mut i: usize = 0;
    while i < buttons.len()
        invariant
            i <= buttons.len(),
            state.well_formed(),
            vanished_view(r@) == vanished_upto(buttons@, state@.selections, active@, i as int),
        decreases buttons.len() - i,
    {
        let link = buttons[i].link_id.as_str();
        let ghost prev = vanished_view(r@);
        let ghost links = prev.map_values(|p: (Seq<char>, StreamSelectionView)| p.0);
        match load_selection(state, link) {
            Some(selection) => {
                let is_stream = match AudioTarget::from_node_id(selection.node_id) {
                    AudioTarget::Stream(_) => true,
                    _ => false,
                };
                if is_stream && !contains_id(active, selection.node_id) {
                    let lc = chars_of(link);
                    let mut seen = false;
                    let mut k: usize = 0;
                    while k < r.len()
                        invariant
                            k <= r.len(),
                            prev == vanished_view(r@),
                            links == prev.map_values(|p: (Seq<char>, StreamSelectionView)| p.0),
                            lc@ == buttons@[i as int].link_id@,
                            seen == exists|j: int| 0 <= j < k && #[trigger] links[j] == lc@,
                        decreases r.len() - k,
                    {
                        assert(links[k as int] == r@[k as int].0@);
                        if seq_eq(&chars_of(r[k].0.as_str()), &lc) {
                            seen = true;
                        }
                        k += 1;
                    }
                    if !seen {
                        r.push((link.to_owned(), selection));
                        assert(vanished_view(r@) =~= prev.push((lc@, state@.selections[lc@])));
                    }
                }
            },
            None => {},
        }
        i += 1;
    }
    r
}

/// The button a new stream goes to: of the buttons without a selection,
/// the one with the least link id (the first such one in the list where
/// several share it).
pub open spec fn is_first_blank(
    buttons: Seq<ButtonInfo>,
    selections: Map<Seq<char>, StreamSelectionView>,
    k: int,
) -> bool {
    &&& 0 <= k < buttons.len()
    &&& !selections.dom().contains(buttons[k].link_id@)
    &&& forall|j: int|
        0 <= j < buttons.len() && !selections.dom().contains(#[trigger] buttons[j].link_id@) ==> !seq_lt(
            buttons[j].link_id@,
            buttons[k].link_id@,
        )
    &&& forall|j: int|
        0 <= j < k && !selections.dom().contains(#[trigger] buttons[j].link_id@) ==> buttons[j].link_id@
            != buttons[k].link_id@
}

pub fn first_blank_button(buttons: &Vec<ButtonInfo>, state: &SharedState) -> (r: Option<ButtonInfo>)
    requires
        state.well_formed(),
    ensures
        r is None <==> forall|j: int|
            0 <= j < buttons@.len() ==> state@.selections.dom().contains(
                #[trigger] buttons@[j].link_id@,
            ),
        r matches Some(b) ==> exists|k: int|
            is_first_blank(buttons@, state@.selections, k) && b@ == (#[trigger] buttons@[k])@,
{
    let mut best: Option<usize> = None;
    let mut i: usize = 0;
    while i < buttons.len()
        invariant
            i <= buttons.len(),
            state.well_formed(),
            match best {
                None => forall|j: int|
                    0 <= j < i ==> state@.selections.dom().contains(#[trigger] buttons@[j].link_id@),
                Some(b) => b < i && !state@.selections.dom().contains(buttons@[b as int].link_id@)
                    && (forall|j: int|
                    0 <= j < i && !state@.selections.dom().contains(#[trigger] buttons@[j].link_id@)
                        ==> !seq_lt(buttons@[j].link_id@, buttons@[b as int].link_id@)) && (forall|
                    j: int,
                |
                    0 <= j < b && !state@.selections.dom().contains(#[trigger] buttons@[j].link_id@)
                        ==> buttons@[j].link_id@ != buttons@[b as int].link_id@),
            },
        decreases buttons.len() - i,
    {
        let link = buttons[i].link_id.as_str();
        assert(link@ == buttons@[i as int].link_id@);
        let unselected = load_selection(state, link).is_none();
        if unselected {
            match best {
                None => {
                    proof {
                        crate::audio::lemma_seq_lt_irreflexive(buttons@[i as int].link_id@);
                    }
                    best = Some(i);
                },
                Some(b) => {
                    let li = chars_of(buttons[i].link_id.as_str());
                    let lb = chars_of(buttons[b].link_id.as_str());
                    if seq_lt_exec(&li, &lb) {
                        proof {
                            assert forall|j: int|
                                0 <= j < i + 1 && !state@.selections.dom().contains(
                                    #[trigger] buttons@[j].link_id@,
                                ) implies !seq_lt(buttons@[j].link_id@, buttons@[i as int].link_id@) by {
                                if j < i {
                                    crate::audio::lemma_seq_lt_total(buttons@[j].link_id@, buttons@[b as int].link_id@);
                                    if seq_lt(buttons@[j].link_id@, buttons@[i as int].link_id@) {
                                        crate::audio::lemma_seq_lt_transitive(buttons@[j].link_id@, buttons@[i as int].link_id@, buttons@[b as int].link_id@);
                                    }
                                } else {
                                    crate::audio::lemma_seq_lt_irreflexive(buttons@[j].link_id@);
                                }
                            }
                            assert forall|j: int|
                                0 <= j < i && !state@.selections.dom().contains(
                                    #[trigger] buttons@[j].link_id@,
                                ) implies buttons@[j].link_id@ != buttons@[i as int].link_id@ by {
                                if buttons@[j].link_id@ == buttons@[i as int].link_id@ {
                                    assert(!seq_lt(buttons@[j].link_id@, buttons@[b as int].link_id@));
                                }
                            }
                        }
                        best = Some(i);
                    } else {
                        proof {
                            crate::audio::lemma_seq_lt_irreflexive(buttons@[b as int].link_id@);
                        }
                    }
                },
            }
        }
        i += 1;
    }
    match best {
        None => None,
        Some(b) => {
            assert(is_first_blank(buttons@, state@.selections, b as int));
            Some(buttons[b].duplicate())
        },
    }
}

/// Forgets what knobs showed for `node_id`.
pub fn forget_cached(cache: &mut VolumeCache, node_id: u32)
    requires
        old(cache).well_formed(),
    ensures
        final(cache).well_formed(),
        final(cache)@ == old(cache)@.remove(node_id),
{
    cache.remove(&node_id);
}

/// What the monitor remembers between looks: the node ids it saw last
/// time, and whether it has looked before.
pub struct StreamDiscovery {
    pub known: Vec<u32>,
    pub initialized: bool,
}

impl StreamDiscovery {
    /// The monitor before its first look.
    pub fn new() -> (r: Self)
        ensures
            r.known@ == Seq::<u32>::empty(),
            !r.initialized,
    {
        StreamDiscovery { known: Vec::new(), initialized: false }
    }
}

/// What one look at the streams decided.
pub struct PollOutcome {
    /// The buttons blanked, each with the selection it had.
    pub vanished: Vec<(String, StreamSelection)>,
    /// The blank button a newly appeared stream goes to, and that stream.
    pub assignment: Option<(ButtonInfo, AudioStream)>,
}

/// The node ids of the streams, in order.
pub open spec fn stream_ids(streams: Seq<AudioStream>) -> Seq<u32> {
    streams.map_values(|s: AudioStream| s.node_id)
}

/// The state after blanking the buttons of `v` in order: each selection
/// forgotten and each registered button's name cleared.
pub open spec fn blank_links(st: SharedStateView, v: Seq<(Seq<char>, StreamSelectionView)>) -> SharedStateView
    decreases v.len(),
{
    if v.len() == 0 {
        st
    } else {
        let p = blank_links(st, v.drop_last());
        let l = v.last().0;
        SharedStateView {
            selections: p.selections.remove(l),
            buttons: if p.buttons.dom().contains(l) {
                p.buttons.insert(l, ButtonInfoView { current_name: None, ..p.buttons[l] })
            } else {
                p.buttons
            },
            knobs: p.knobs,
        }
    }
}

/// The knob display cache with the nodes of the blanked buttons forgotten.
pub open spec fn forget_nodes(
    c: Map<u32, (u32, bool, Seq<char>)>,
    v: Seq<(Seq<char>, StreamSelectionView)>,
) -> Map<u32, (u32, bool, Seq<char>)>
    decreases v.len(),
{
    if v.len() == 0 {
        c
    } else {
        forget_nodes(c, v.drop_last()).remove(v.last().1.node_id)
    }
}

/// One look at the streams `streams` (in list order) by the monitor, with
/// the registered `buttons`: the buttons whose stream went away are blanked
/// (selection and name cleared, cached display forgotten); the streams seen
/// are remembered; and where a stream appeared since the last look, it goes
/// to the first blank button by link id, looked for after the blanking.
pub fn poll_streams(
    state: &mut SharedState,
    cache: &mut VolumeCache,
    discovery: &mut StreamDiscovery,
    buttons: &Vec<ButtonInfo>,
    streams: &Vec<AudioStream>,
) -> (r: PollOutcome)
    requires
        old(state).well_formed(),
        old(cache).well_formed(),
    ensures
        final(state).well_formed(),
        final(cache).well_formed(),
        vanished_view(r.vanished@) == vanished_upto(
            buttons@,
            old(state)@.selections,
            stream_ids(streams@),
            buttons@.len() as int,
        ),
        final(state)@ == blank_links(old(state)@, vanished_view(r.vanished@)),
        final(cache)@ == forget_nodes(old(cache)@, vanished_view(r.vanished@)),
        final(discovery).known@ == stream_ids(streams@),
        final(discovery).initialized,
        match r.assignment {
            None => !old(discovery).initialized || (forall|j: int|
                0 <= j < streams@.len() ==> old(discovery).known@.contains(
                    #[trigger] streams@[j].node_id,
                )) || (forall|j: int|
                0 <= j < buttons@.len() ==> final(state)@.selections.dom().contains(
                    #[trigger] buttons@[j].link_id@,
                )),
            Some((b, s)) => (exists|k: int|
                is_newest_unknown(streams@, old(discovery).known@, k) && s@ == (
                #[trigger] streams@[k])@) && (exists|k: int|
                is_first_blank(buttons@, final(state)@.selections, k) && b@ == (
                #[trigger] buttons@[k])@),
        },
{
    let newly = newly_detected_stream(streams, &discovery.known, discovery.initialized);
    let ids = active_stream_ids(streams);
    assert(ids@ =~= stream_ids(streams@));
    discovery.known = active_stream_ids(streams);
    discovery.initialized = true;
    let vanished = vanished_buttons(buttons, state, &ids);
    let ghost st0 = state@;
    let ghost c0 = cache@;
    let mut i: usize = 0;
    while i < vanished.len()
        invariant
            i <= vanished.len(),
            state.well_formed(),
            cache.well_formed(),
            state@ == blank_links(st0, vanished_view(vanished@).take(i as int)),
            cache@ == forget_nodes(c0, vanished_view(vanished@).take(i as int)),
        decreases vanished.len() - i,
    {
        let ghost v = vanished_view(vanished@);
        assert(v.take(i + 1).drop_last() =~= v.take(i as int));
        assert(v.take(i + 1).last() == v[i as int]);
        crate::actions::cycle_audio_stream::blank_button_state(state, vanished[i].0.as_str());
        forget_cached(cache, vanished[i].1.node_id);
        i += 1;
    }
    assert(vanished_view(vanished@).take(vanished.len() as int) =~= vanished_view(vanished@));
    let assignment = match newly {
        None => None,
        Some(s) => match first_blank_button(buttons, state) {
            Some(b) => Some((b, s)),
            None => None,
        },
    };
    PollOutcome { vanished, assignment }
}

/// What the monitor does for a knob on a look.
pub enum KnobPoll {
    /// The button it follows has no selection: show the blank knob.
    Blank,
    /// The button it follows was blanked on this look (and has been given
    /// a new stream since): leave the knob until the next look.
    JustBlanked,
    /// It was touched lately: leave it alone.
    CoolingDown,
    /// Read the volume and mute state of this selection's target.
    Refresh(StreamSelection),
}

/// Whether `link` is among the buttons blanked on this look.
pub open spec fn was_blanked(vanished: Seq<(Seq<char>, StreamSelectionView)>, link: Seq<char>) -> bool {
    exists|i: int| 0 <= i < vanished.len() && (#[trigger] vanished[i]).0 == link
}

fn blanked_contains(vanished: &Vec<(String, StreamSelection)>, link: &str) -> (r: bool)
    ensures
        r == was_blanked(vanished_view(vanished@), link@),
{
    let lc = chars_of(link);
    let ghost v = vanished_view(vanished@);
    let mut i: usize = 0;
    while i < vanished.len()
        invariant
            i <= vanished.len(),
            v == vanished_view(vanished@),
            lc@ == link@,
            forall|j: int| 0 <= j < i ==> (#[trigger] v[j]).0 != link@,
        decreases vanished.len() - i,
    {
        assert(v[i as int].0 == vanished@[i as int].0@);
        if seq_eq(&chars_of(vanished[i].0.as_str()), &lc) {
            assert(was_blanked(v, link@));
            return true;
        }
        i += 1;
    }
    false
}

/// The monitor's step for the knob `instance_id` following `linked_button`
/// at `now_ms`, after the look at the streams that blanked the buttons of
/// `vanished`.
pub fn knob_poll(
    state: &SharedState,
    cooldown: &CooldownMap,
    vanished: &Vec<(String, StreamSelection)>,
    instance_id: &str,
    linked_button: &str,
    now_ms: u64,
) -> (r: KnobPoll)
    requires
        state.well_formed(),
        cooldown.well_formed(),
    ensures
        !state@.selections.dom().contains(linked_button@) <==> r is Blank,
        r is JustBlanked <==> state@.selections.dom().contains(linked_button@) && was_blanked(
            vanished_view(vanished@),
            linked_button@,
        ),
        r is CoolingDown <==> state@.selections.dom().contains(linked_button@) && !was_blanked(
            vanished_view(vanished@),
            linked_button@,
        ) && (cooldown@.dom().contains(instance_id@) && (now_ms < cooldown@[instance_id@] || now_ms
            - cooldown@[instance_id@] < COOLDOWN_SECS * 1000)),
        r matches KnobPoll::Refresh(s) ==> s@ == state@.selections[linked_button@],
{
    match load_selection(state, linked_button) {
        None => KnobPoll::Blank,
        Some(s) => if blanked_contains(vanished, linked_button) {
            KnobPoll::JustBlanked
        } else if in_cooldown(cooldown, instance_id, now_ms) {
            KnobPoll::CoolingDown
        } else {
            KnobPoll::Refresh(s)
        },
    }
}

/// Notes what a knob reads now for `node_id`; returns whether that is new
/// (only then is the cache changed and the knob redrawn).
pub fn note_knob_display(cache: &mut VolumeCache, node_id: u32, volume: u32, muted: bool, title: &str) -> (r:
    bool)
    requires
        old(cache).well_formed(),
    ensures
        final(cache).well_formed(),
        r == !(old(cache)@.dom().contains(node_id) && old(cache)@[node_id] == (volume, muted, title@)),
        final(cache)@ == if r {
            old(cache)@.insert(node_id, (volume, muted, title@))
        } else {
            old(cache)@
        },
{
    if display_changed(cache, node_id, volume, muted, title) {
        update_cached_display_state(cache, node_id, volume, muted, title);
        true
    } else {
        false
    }
}

} // verus!

verus! {

/// The buttons the monitor blanks are those whose selected stream is no
/// longer active: each one selects a stream (never a default device) that
/// is not among the active ones, and no button is blanked twice.
pub proof fn lemma_vanished_buttons(
    buttons: Seq<ButtonInfo>,
    selections: Map<Seq<char>, StreamSelectionView>,
    active: Seq<u32>,
    n: int,
)
    requires
        0 <= n <= buttons.len(),
    ensures
        ({
            let v = vanished_upto(buttons, selections, active, n);
            &&& forall|i: int|
                0 <= i < v.len() ==> selections.dom().contains((#[trigger] v[i]).0) && selections[v[i].0]
                    == v[i].1 && target_of(v[i].1.node_id) is Stream && !active.contains(v[i].1.node_id)
            &&& forall|i: int, j: int| 0 <= i < j < v.len() ==> (#[trigger] v[i]).0 != (#[trigger] v[j]).0
        }),
    decreases n,
{
    if n > 0 {
        lemma_vanished_buttons(buttons, selections, active, n - 1);
        let prev = vanished_upto(buttons, selections, active, n - 1);
        let links = prev.map_values(|p: (Seq<char>, StreamSelectionView)| p.0);
        let link = buttons[n - 1].link_id@;
        if !links.contains(link) {
            assert forall|i: int| 0 <= i < prev.len() implies prev[i].0 != link by {
                assert(links[i] == prev[i].0);
            }
        }
    }
}

} // verus!

verus! {

proof fn lemma_vanished_grows(
    buttons: Seq<ButtonInfo>,
    selections: Map<Seq<char>, StreamSelectionView>,
    active: Seq<u32>,
    m: int,
    n: int,
)
    requires
        0 <= m <= n,
    ensures
        vanished_upto(buttons, selections, active, m).len() <= vanished_upto(buttons, selections, active, n).len(),
        forall|i: int|
            0 <= i < vanished_upto(buttons, selections, active, m).len() ==> #[trigger] vanished_upto(
                buttons,
                selections,
                active,
                n,
            )[i] == vanished_upto(buttons, selections, active, m)[i],
    decreases n - m,
{
    if m < n {
        lemma_vanished_grows(buttons, selections, active, m, n - 1);
    }
}

/// Every button whose saved selection is a stream (not a default device)
/// that is no longer among the active ones is blanked: its link id is in
/// the list of blanked buttons, with the selection it had.
pub proof fn lemma_vanished_complete(
    buttons: Seq<ButtonInfo>,
    selections: Map<Seq<char>, StreamSelectionView>,
    active: Seq<u32>,
    j: int,
)
    requires
        0 <= j < buttons.len(),
        selections.dom().contains(buttons[j].link_id@),
        target_of(selections[buttons[j].link_id@].node_id) is Stream,
        !active.contains(selections[buttons[j].link_id@].node_id),
    ensures
        exists|i: int|
            0 <= i < vanished_upto(buttons, selections, active, buttons.len() as int).len() && (
            #[trigger] vanished_upto(buttons, selections, active, buttons.len() as int)[i]) == (
            buttons[j].link_id@,
            selections[buttons[j].link_id@],
        ),
{
    let link = buttons[j].link_id@;
    let prev = vanished_upto(buttons, selections, active, j);
    let here = vanished_upto(buttons, selections, active, j + 1);
    let links = prev.map_values(|p: (Seq<char>, StreamSelectionView)| p.0);
    lemma_vanished_buttons(buttons, selections, active, j);
    let ghost k: int = if links.contains(link) {
        let a = choose|a: int| 0 <= a < links.len() && links[a] == link;
        assert(prev[a].0 == link);
        assert(here[a] == prev[a]);
        a
    } else {
        assert(here[prev.len() as int] == (link, selections[link]));
        prev.len() as int
    };
    assert(here[k] == (link, selections[link]));
    lemma_vanished_grows(buttons, selections, active, j + 1, buttons.len() as int);
    assert(vanished_upto(buttons, selections, active, buttons.len() as int)[k] == here[k]);
}

} // verus!
