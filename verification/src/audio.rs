//! What a button controls (the default output, the default input, or one
//! stream), how it is named on the deck, and the `pactl` exchanges behind
//! each volume and mute operation.
use vstd::prelude::*;

use crate::constants::{KNOB_TITLE_ALTERNATE_SECS, MASTER_NODE_ID, MIC_NODE_ID};
use crate::pipewire::{
    adjust_in_range, adjusted_volume, mute_arg, percent_or_default, sort_streams, stream_mute,
    stream_volume, streams_view, strings_view, volume_arg, yes_marker, AudioStream,
    PipeWireManager,
};
use crate::text::{
    ascii_lower, ascii_lower_exec, chars_view, strings_of, ascii_lower_seq, ascii_lower_vec, chars_of, contains, contains_exec,
    decimal, eq_ignore_ascii_case, find_from, find_from_exec, is_ascii_alnum, next_char, occurs_at,
    seq_lt, seq_lt_exec, slice_of,
    eq_ignore_ascii_case_exec, seq_eq, string_of, trim, trim_vec,
};

verus! {

/// What a button or knob acts on.
#[derive(Debug, Clone, Copy, PartialEq, Eq, Structural, Hash)]
pub enum AudioTarget {
    Master,
    Mic,
    Stream(u32),
}

pub open spec fn opt_str_view(o: Option<&str>) -> Option<Seq<char>> {
    match o {
        Some(s) => Some(s@),
        None => None,
    }
}

/// The target a node id stands for.
pub open spec fn target_of(node_id: u32) -> AudioTarget {
    if node_id == MASTER_NODE_ID {
        AudioTarget::Master
    } else if node_id == MIC_NODE_ID {
        AudioTarget::Mic
    } else {
        AudioTarget::Stream(node_id)
    }
}

/// The name shown for a target; a stream goes by `fallback`.
pub open spec fn target_name(t: AudioTarget, fallback: Seq<char>) -> Seq<char> {
    match t {
        AudioTarget::Master => "Master"@,
        AudioTarget::Mic => "Mic"@,
        AudioTarget::Stream(_) => fallback,
    }
}

/// The icon search for a target: fixed icons for the devices, the
/// application name (else `fallback`) for a stream.
pub open spec fn target_icon_query(
    t: AudioTarget,
    app_name: Option<Seq<char>>,
    fallback: Seq<char>,
) -> Seq<char> {
    match t {
        AudioTarget::Master => "mdi:volume-high"@,
        AudioTarget::Mic => "mdi:microphone"@,
        AudioTarget::Stream(_) => match app_name {
            Some(a) => a,
            None => fallback,
        },
    }
}

/// A media name that says nothing about what is playing.
pub open spec fn is_generic_media(v: Seq<char>) -> bool {
    let l = ascii_lower_seq(trim(v));
    ||| l == "playback"@
    ||| l == "audio stream"@
    ||| l == "audio playback"@
    ||| l == "output"@
    ||| l == "stream"@
}

/// Whether `v` is worth showing beside the name `primary`.
pub open spec fn worth_showing(v: Seq<char>, primary: Seq<char>) -> bool {
    !eq_ignore_ascii_case(v, trim(primary)) && !is_generic_media(v)
}

/// The stream's own media name as a second name, where it is worth showing.
pub open spec fn media_alternate(primary: Seq<char>, media_name: Option<Seq<char>>) -> Option<
    Seq<char>,
> {
    match media_name {
        Some(m) => if trim(m).len() > 0 && worth_showing(trim(m), primary) {
            Some(trim(m))
        } else {
            None
        },
        None => None,
    }
}

/// Whether a target would fall back on the media player's title.
pub open spec fn wants_title(
    t: AudioTarget,
    name: Seq<char>,
    app_name: Option<Seq<char>>,
    media_name: Option<Seq<char>>,
) -> bool {
    let primary = target_name(
        t,
        match app_name {
            Some(a) => a,
            None => name,
        },
    );
    t is Stream && media_alternate(primary, media_name) is None && app_name is Some
}

/// The second name a knob shows for a target: for a stream, its media name
/// or else the title its media player reports, where worth showing.
pub open spec fn alternate_name(
    t: AudioTarget,
    primary: Seq<char>,
    app_name: Option<Seq<char>>,
    media_name: Option<Seq<char>>,
    player_title: Option<Seq<char>>,
) -> Option<Seq<char>> {
    match t {
        AudioTarget::Stream(_) => {
            let first = media_alternate(primary, media_name);
            let candidate = if first is Some {
                first
            } else if app_name is Some {
                player_title
            } else {
                None
            };
            match candidate {
                Some(v) => if worth_showing(v, primary) {
                    Some(v)
                } else {
                    None
                },
                None => None,
            }
        },
        _ => None,
    }
}

impl AudioTarget {
    pub fn from_node_id(node_id: u32) -> (r: Self)
        ensures
            r == target_of(node_id),
    {
        if node_id == MASTER_NODE_ID {
            AudioTarget::Master
        } else if node_id == MIC_NODE_ID {
            AudioTarget::Mic
        } else {
            AudioTarget::Stream(node_id)
        }
    }

    pub fn display_name(self, fallback: &str) -> (r: String)
        ensures
            r@ == target_name(self, fallback@),
    {
        match self {
            AudioTarget::Master => "Master".to_owned(),
            AudioTarget::Mic => "Mic".to_owned(),
            AudioTarget::Stream(_) => fallback.to_owned(),
        }
    }

    pub fn icon_query(self, app_name: Option<&str>, fallback_name: &str) -> (r: String)
        ensures
            r@ == target_icon_query(self, opt_str_view(app_name), fallback_name@),
    {
        match self {
            AudioTarget::Master => "mdi:volume-high".to_owned(),
            AudioTarget::Mic => "mdi:microphone".to_owned(),
            AudioTarget::Stream(_) => match app_name {
                Some(a) => a.to_owned(),
                None => fallback_name.to_owned(),
            },
        }
    }

    /// Whether [`AudioTarget::display_info`] would read the title reported by
    /// the application's media player: only then does the caller need to ask
    /// the player for it.
    pub fn wants_player_title(
        self,
        name: &str,
        app_name: Option<&str>,
        media_name: Option<&str>,
    ) -> (r: bool)
        ensures
            r == wants_title(self, name@, opt_str_view(app_name), opt_str_view(media_name)),
    {
        let primary = self.display_name(
            match app_name {
                Some(a) => a,
                None => name,
            },
        );
        let primary_chars = chars_of(primary.as_str());
        match self {
            AudioTarget::Stream(_) => media_alternate_exec(&primary_chars, media_name).is_none()
                && app_name.is_some(),
            _ => false,
        }
    }

    /// The names and icon search a target is shown with. `player_title` is
    /// the title the application's media player reports, read only where the
    /// stream's media name gives no second name.
    pub fn display_info(
        self,
        name: &str,
        app_name: Option<&str>,
        media_name: Option<&str>,
        player_title: Option<&str>,
    ) -> (r: AudioTargetDisplay)
        ensures
            r@.name == target_name(
                self,
                match opt_str_view(app_name) {
                    Some(a) => a,
                    None => name@,
                },
            ),
            r@.icon_query == target_icon_query(self, opt_str_view(app_name), name@),
            r@.alternate_name == alternate_name(
                self,
                r@.name,
                opt_str_view(app_name),
                opt_str_view(media_name),
                opt_str_view(player_title),
            ),
    {
        let primary = self.display_name(
            match app_name {
                Some(a) => a,
                None => name,
            },
        );
        let primary_chars = chars_of(primary.as_str());
        let alternate: Option<Vec<char>> = match self {
            AudioTarget::Stream(_) => {
                let first = media_alternate_exec(&primary_chars, media_name);
                let candidate = if first.is_some() {
                    first
                } else if app_name.is_some() {
                    match player_title {
                        Some(t) => Some(chars_of(t)),
                        None => None,
                    }
                } else {
                    None
                };
                match candidate {
                    Some(v) => if worth_showing_exec(&v, &primary_chars) {
                        Some(v)
                    } else {
                        None
                    },
                    None => None,
                }
            },
            _ => None,
        };
        AudioTargetDisplay {
            name: primary,
            icon_query: self.icon_query(app_name, name),
            alternate_name: match alternate {
                Some(v) => Some(string_of(&v)),
                None => None,
            },
        }
    }
}

/// `is_generic_media` on characters.
pub fn is_generic_media_exec(v: &Vec<char>) -> (r: bool)
    ensures
        r == is_generic_media(v@),
{
    let l = ascii_lower_vec(&trim_vec(v));
    seq_eq(&l, &chars_of("playback")) || seq_eq(&l, &chars_of("audio stream")) || seq_eq(
        &l,
        &chars_of("audio playback"),
    ) || seq_eq(&l, &chars_of("output")) || seq_eq(&l, &chars_of("stream"))
}

/// Whether a media name says nothing about what is playing: after trimming,
/// and ignoring ASCII case, it is one of a few words streams are commonly
/// given by default.
pub fn is_generic_media_name(value: &str) -> (r: bool)
    ensures
        r == is_generic_media(value@),
{
    is_generic_media_exec(&chars_of(value))
}

fn worth_showing_exec(v: &Vec<char>, primary: &Vec<char>) -> (r: bool)
    ensures
        r == worth_showing(v@, primary@),
{
    !eq_ignore_ascii_case_exec(v, &trim_vec(primary)) && !is_generic_media_exec(v)
}

fn media_alternate_exec(primary: &Vec<char>, media_name: Option<&str>) -> (r: Option<Vec<char>>)
    ensures
        match r {
            Some(v) => media_alternate(primary@, opt_str_view(media_name)) == Some(v@),
            None => media_alternate(primary@, opt_str_view(media_name)) is None,
        },
{
    match media_name {
        Some(m) => {
            let t = trim_vec(&chars_of(m));
            if t.len() > 0 && worth_showing_exec(&t, primary) {
                Some(t)
            } else {
                None
            }
        },
        None => None,
    }
}

/// How a target appears on a knob and a button.
pub struct AudioTargetDisplay {
    pub name: String,
    pub icon_query: String,
    alternate_name: Option<String>,
}

pub struct AudioTargetDisplayView {
    pub name: Seq<char>,
    pub icon_query: Seq<char>,
    pub alternate_name: Option<Seq<char>>,
}

impl View for AudioTargetDisplay {
    type V = AudioTargetDisplayView;

    closed spec fn view(&self) -> AudioTargetDisplayView {
        AudioTargetDisplayView {
            name: self.name@,
            icon_query: self.icon_query@,
            alternate_name: match self.alternate_name {
                Some(a) => Some(a@),
                None => None,
            },
        }
    }
}

/// The title a knob shows `secs` seconds into the Unix epoch: the second
/// name during every odd period of `KNOB_TITLE_ALTERNATE_SECS` seconds where
/// there is one, the name otherwise.
pub open spec fn knob_title_at_secs(d: AudioTargetDisplayView, secs: u64) -> Seq<char> {
    match d.alternate_name {
        Some(a) => if (secs / KNOB_TITLE_ALTERNATE_SECS) % 2 == 1 {
            a
        } else {
            d.name
        },
        None => d.name,
    }
}

/// `SystemTime::elapsed` of `UNIX_EPOCH`: the time since the Unix epoch on
/// the system clock, or none for a clock set before the epoch. No contract:
/// the value is the time, which nothing here can state.
#[verifier::external_body]
fn time_since_epoch() -> Option<std::time::Duration> {
    std::time::UNIX_EPOCH.elapsed().ok()
}

/// `Duration::as_secs`: the whole seconds of a duration. A `Duration` is
/// opaque here, so nothing is stated of the result.
#[verifier::external_body]
fn whole_seconds(d: &std::time::Duration) -> u64 {
    d.as_secs()
}

impl AudioTargetDisplay {
    /// The knob title at the given second of the Unix epoch.
    pub fn knob_title_at(&self, secs: u64) -> (r: String)
        ensures
            r@ == knob_title_at_secs(self@, secs),
    {
        match &self.alternate_name {
            Some(alternate) => {
                if (secs / KNOB_TITLE_ALTERNATE_SECS) % 2 == 1 {
                    return alternate.clone();
                }
            },
            None => {},
        }
        self.name.clone()
    }

    /// The knob title now: the name, or the second name in alternate periods.
    pub fn knob_title(&self) -> (r: String)
        ensures
            r@ == self@.name || (self@.alternate_name is Some && r@
                == self@.alternate_name.unwrap()),
            self@.alternate_name is None ==> r@ == self@.name,
    {
        let secs = match time_since_epoch() {
            Some(d) => whole_seconds(&d),
            None => 0,
        };
        self.knob_title_at(secs)
    }
}

// ---------------------------------------------------------------------------
// Volume and mute of a target through `pactl`
// ---------------------------------------------------------------------------

/// The `pactl` arguments that read a target's volume.
pub open spec fn volume_query_args(t: AudioTarget) -> Seq<Seq<char>> {
    match t {
        AudioTarget::Master => seq!["get-sink-volume"@, "@DEFAULT_SINK@"@],
        AudioTarget::Mic => seq!["get-source-volume"@, "@DEFAULT_SOURCE@"@],
        AudioTarget::Stream(_) => seq!["list"@, "sink-inputs"@],
    }
}

/// The `pactl` arguments that read a target's mute state.
pub open spec fn mute_query_args(t: AudioTarget) -> Seq<Seq<char>> {
    match t {
        AudioTarget::Master => seq!["get-sink-mute"@, "@DEFAULT_SINK@"@],
        AudioTarget::Mic => seq!["get-source-mute"@, "@DEFAULT_SOURCE@"@],
        AudioTarget::Stream(_) => seq!["list"@, "sink-inputs"@],
    }
}

/// A target's volume, read from the answer to its volume query.
pub open spec fn volume_from(t: AudioTarget, out: Seq<char>) -> u32 {
    match t {
        AudioTarget::Stream(n) => stream_volume(out, n),
        _ => percent_or_default(out),
    }
}

/// A target's mute state, read from the answer to its mute query.
pub open spec fn mute_from(t: AudioTarget, out: Seq<char>) -> bool {
    match t {
        AudioTarget::Stream(n) => stream_mute(out, n),
        _ => contains(out, yes_marker()),
    }
}

/// The `pactl` arguments that set a target's volume.
pub open spec fn set_volume_args(t: AudioTarget, v: u32) -> Seq<Seq<char>> {
    match t {
        AudioTarget::Master => seq!["set-sink-volume"@, "@DEFAULT_SINK@"@, volume_arg(v)],
        AudioTarget::Mic => seq!["set-source-volume"@, "@DEFAULT_SOURCE@"@, volume_arg(v)],
        AudioTarget::Stream(n) => seq!["set-sink-input-volume"@, decimal(n as nat), volume_arg(v)],
    }
}

/// The `pactl` arguments that set a target's mute state.
pub open spec fn set_mute_args(t: AudioTarget, m: bool) -> Seq<Seq<char>> {
    match t {
        AudioTarget::Master => seq!["set-sink-mute"@, "@DEFAULT_SINK@"@, mute_arg(m)],
        AudioTarget::Mic => seq!["set-source-mute"@, "@DEFAULT_SOURCE@"@, mute_arg(m)],
        AudioTarget::Stream(n) => seq!["set-sink-input-mute"@, decimal(n as nat), mute_arg(m)],
    }
}

/// The stream whose node id is greatest, the last such one where several
/// share it.
pub open spec fn is_most_recent(s: Seq<AudioStream>, k: int) -> bool {
    &&& 0 <= k < s.len()
    &&& forall|j: int| 0 <= j < s.len() ==> #[trigger] s[j].node_id <= s[k].node_id
    &&& forall|j: int| k < j < s.len() ==> #[trigger] s[j].node_id < s[k].node_id
}

/// Volume and mute operations on a target, as `pactl` exchanges.
pub struct AudioService;

impl AudioService {
    /// The active streams in display order, given the details of each
    /// stream `pactl` lists.
    pub fn list_streams(listed: &Vec<AudioStream>) -> (r: Vec<AudioStream>)
        ensures
            streams_view(r@) == sort_streams(streams_view(listed@)),
    {
        let manager = PipeWireManager;
        manager.get_active_streams(listed)
    }

    /// The stream with the greatest node id, the last such one in the list.
    pub fn most_recent_stream(streams: &Vec<AudioStream>) -> (r: Option<AudioStream>)
        ensures
            r is None <==> streams@.len() == 0,
            r matches Some(s) ==> exists|k: int|
                is_most_recent(streams@, k) && s@ == #[trigger] streams@[k]@,
    {
        if streams.len() == 0 {
            return None;
        }
        let mut best: usize = 0;
        let mut i: usize = 1;
        while i < streams.len()
            invariant
                1 <= i <= streams.len(),
                best < i,
                forall|j: int| 0 <= j < i ==> #[trigger] streams@[j].node_id
                    <= streams@[best as int].node_id,
                forall|j: int| best < j < i ==> #[trigger] streams@[j].node_id
                    < streams@[best as int].node_id,
            decreases streams.len() - i,
        {
            if streams[i].node_id >= streams[best].node_id {
                best = i;
            }
            i += 1;
        }
        let s = streams[best].duplicate();
        assert(is_most_recent(streams@, best as int));
        Some(s)
    }

    /// The `pactl` arguments that read the volume of `target`.
    pub fn volume_query(target: AudioTarget) -> (r: Vec<String>)
        ensures
            strings_view(r@) == volume_query_args(target),
    {
        let r = match target {
            AudioTarget::Master => vec!["get-sink-volume".to_owned(), "@DEFAULT_SINK@".to_owned()],
            AudioTarget::Mic => vec![
                "get-source-volume".to_owned(),
                "@DEFAULT_SOURCE@".to_owned(),
            ],
            AudioTarget::Stream(_) => vec!["list".to_owned(), "sink-inputs".to_owned()],
        };
        assert(strings_view(r@) =~= volume_query_args(target));
        r
    }

    /// The `pactl` arguments that read the mute state of `target`.
    pub fn mute_query(target: AudioTarget) -> (r: Vec<String>)
        ensures
            strings_view(r@) == mute_query_args(target),
    {
        let r = match target {
            AudioTarget::Master => vec!["get-sink-mute".to_owned(), "@DEFAULT_SINK@".to_owned()],
            AudioTarget::Mic => vec!["get-source-mute".to_owned(), "@DEFAULT_SOURCE@".to_owned()],
            AudioTarget::Stream(_) => vec!["list".to_owned(), "sink-inputs".to_owned()],
        };
        assert(strings_view(r@) =~= mute_query_args(target));
        r
    }

    /// The volume of `target`, from the output of its volume query.
    pub fn get_volume(target: AudioTarget, output: &str) -> (r: u32)
        ensures
            r == volume_from(target, output@),
    {
        match target {
            AudioTarget::Master => PipeWireManager::get_master_volume(output),
            AudioTarget::Mic => PipeWireManager::get_mic_volume(output),
            AudioTarget::Stream(node_id) => PipeWireManager::get_stream_volume(output, node_id),
        }
    }

    /// The `pactl` arguments that set the volume of `target` (held to 150%).
    pub fn set_volume(target: AudioTarget, volume: u32) -> (r: Vec<String>)
        ensures
            strings_view(r@) == set_volume_args(target, volume),
    {
        match target {
            AudioTarget::Master => PipeWireManager::set_master_volume(volume),
            AudioTarget::Mic => PipeWireManager::set_mic_volume(volume),
            AudioTarget::Stream(node_id) => PipeWireManager::set_stream_volume(node_id, volume),
        }
    }

    /// A volume step on `target` whose volume is `current`: the new volume,
    /// `current + delta_percent` held to `0..=150`, and the command that
    /// sets it.
    pub fn adjust_volume(target: AudioTarget, current: u32, delta_percent: i32) -> (r: (
        u32,
        Vec<String>,
    ))
        requires
            adjust_in_range(current, delta_percent),
        ensures
            r.0 == adjusted_volume(current, delta_percent),
            strings_view(r.1@) == set_volume_args(target, r.0),
    {
        match target {
            AudioTarget::Master => PipeWireManager::adjust_master_volume(current, delta_percent),
            AudioTarget::Mic => PipeWireManager::adjust_mic_volume(current, delta_percent),
            AudioTarget::Stream(node_id) => PipeWireManager::adjust_stream_volume(
                node_id,
                current,
                delta_percent,
            ),
        }
    }

    /// The mute state of `target`, from the output of its mute query.
    pub fn get_mute(target: AudioTarget, output: &str) -> (r: bool)
        ensures
            r == mute_from(target, output@),
    {
        match target {
            AudioTarget::Master => PipeWireManager::get_master_mute(output),
            AudioTarget::Mic => PipeWireManager::get_mic_mute(output),
            AudioTarget::Stream(node_id) => PipeWireManager::get_stream_mute(output, node_id),
        }
    }

    /// Flipping the mute state of `target`, muted or not as `current` says:
    /// the new state and the command that sets it.
    pub fn toggle_mute(target: AudioTarget, current: bool) -> (r: (bool, Vec<String>))
        ensures
            r.0 == !current,
            strings_view(r.1@) == set_mute_args(target, !current),
    {
        match target {
            AudioTarget::Master => PipeWireManager::toggle_master_mute(current),
            AudioTarget::Mic => PipeWireManager::toggle_mic_mute(current),
            AudioTarget::Stream(node_id) => PipeWireManager::toggle_stream_mute(node_id, current),
        }
    }
}

} // verus!

verus! {

// ---------------------------------------------------------------------------
// Media players on the session bus (MPRIS)
// ---------------------------------------------------------------------------

/// The ASCII letters and digits of `s`, lower-cased.
pub open spec fn normalize_seq(s: Seq<char>) -> Seq<char>
    decreases s.len(),
{
    if s.len() == 0 {
        seq![]
    } else {
        let p = normalize_seq(s.drop_last());
        if is_ascii_alnum(s.last()) {
            p.push(ascii_lower(s.last()))
        } else {
            p
        }
    }
}

fn normalize_vec(s: &Vec<char>) -> (r: Vec<char>)
    ensures
        r@ == normalize_seq(s@),
{
    let mut r: Vec<char> = Vec::new();
    let mut i: usize = 0;
    while i < s.len()
        invariant
            i <= s.len(),
            r@ == normalize_seq(s@.take(i as int)),
        decreases s.len() - i,
    {
        let c = s[i];
        proof {
            assert(s@.take(i + 1).drop_last() =~= s@.take(i as int));
        }
        if ('0' <= c && c <= '9') || ('a' <= c && c <= 'z') || ('A' <= c && c <= 'Z') {
            r.push(ascii_lower_exec(c));
        }
        i += 1;
    }
    assert(s@.take(s.len() as int) =~= s@);
    r
}

/// A player or application name reduced to lower-case ASCII letters and
/// digits, the form names are compared in.
pub fn normalize_player_name(value: &str) -> (r: String)
    ensures
        r@ == normalize_seq(value@),
{
    string_of(&normalize_vec(&chars_of(value)))
}

/// Strictly increasing, hence free of repeats.
pub open spec fn strictly_sorted(s: Seq<Seq<char>>) -> bool {
    forall|i: int, j: int| 0 <= i < j < s.len() ==> seq_lt(#[trigger] s[i], #[trigger] s[j])
}

pub proof fn lemma_seq_lt_irreflexive(a: Seq<char>)
    ensures
        !seq_lt(a, a),
    decreases a.len(),
{
    if a.len() > 0 {
        lemma_seq_lt_irreflexive(a.drop_first());
    }
}

pub proof fn lemma_seq_lt_transitive(a: Seq<char>, b: Seq<char>, c: Seq<char>)
    requires
        seq_lt(a, b),
        seq_lt(b, c),
    ensures
        seq_lt(a, c),
    decreases a.len(),
{
    if a.len() > 0 && b.len() > 0 && c.len() > 0 && a[0] == b[0] && b[0] == c[0] {
        lemma_seq_lt_transitive(a.drop_first(), b.drop_first(), c.drop_first());
    }
}

pub proof fn lemma_seq_lt_total(a: Seq<char>, b: Seq<char>)
    ensures
        seq_lt(a, b) || a == b || seq_lt(b, a),
    decreases a.len(),
{
    if a.len() == 0 && b.len() == 0 {
        assert(a =~= b);
    } else if a.len() > 0 && b.len() > 0 && a[0] == b[0] {
        lemma_seq_lt_total(a.drop_first(), b.drop_first());
        if a.drop_first() == b.drop_first() {
            assert(a =~= seq![a[0]] + a.drop_first());
            assert(b =~= seq![b[0]] + b.drop_first());
        }
    }
}

/// The aliases a media player of an application whose normalized name is
/// `n` may go by: `n` itself and, for well-known browsers and players, their
/// usual player names.
pub open spec fn is_player_alias(n: Seq<char>, x: Seq<char>) -> bool {
    ||| x == n
    ||| contains(n, "chrome"@) && (x == "chrome"@ || x == "googlechrome"@ || x == "chromium"@)
    ||| contains(n, "chromium"@) && (x == "chromium"@ || x == "chrome"@)
    ||| contains(n, "brave"@) && (x == "brave"@ || x == "bravebrowser"@)
    ||| contains(n, "edge"@) && (x == "edge"@ || x == "microsoftedge"@)
    ||| contains(n, "firefox"@) && x == "firefox"@
    ||| contains(n, "vlc"@) && (x == "vlc"@ || x == "vlcmediaplayer"@)
}

fn insert_sorted_unique(r: &mut Vec<Vec<char>>, c: Vec<char>)
    requires
        strictly_sorted(chars_view(old(r)@)),
    ensures
        strictly_sorted(chars_view(final(r)@)),
        forall|x: Seq<char>|
            #[trigger] chars_view(final(r)@).contains(x) <==> (chars_view(old(r)@).contains(x)
                || x == c@),
{
    let ghost before = chars_view(r@);
    let mut j: usize = 0;
    while j < r.len() && seq_lt_exec(&r[j], &c)
        invariant
            j <= r.len(),
            before == chars_view(r@),
            forall|k: int| 0 <= k < j ==> seq_lt(#[trigger] before[k], c@),
        decreases r.len() - j,
    {
        j += 1;
    }
    if j < r.len() && seq_eq(&r[j], &c) {
        assert(before[j as int] == c@);
        return;
    }
    proof {
        if j < r.len() {
            lemma_seq_lt_total(before[j as int], c@);
        }
    }
    r.insert(j, c);
    let ghost after = chars_view(r@);
    assert(after =~= before.take(j as int) + seq![c@] + before.skip(j as int));
    assert forall|a: int, b: int| 0 <= a < b < after.len() implies seq_lt(
        #[trigger] after[a],
        #[trigger] after[b],
    ) by {
        if b < j {
            assert(after[a] == before[a] && after[b] == before[b]);
        } else if b == j {
            assert(after[a] == before[a]);
        } else if a == j {
            assert(after[b] == before[b - 1]);
            if b - 1 > j {
                lemma_seq_lt_transitive(c@, before[j as int], before[b - 1]);
            }
        } else if a < j {
            assert(after[a] == before[a] && after[b] == before[b - 1]);
        } else {
            assert(after[a] == before[a - 1] && after[b] == before[b - 1]);
        }
    }
    assert forall|x: Seq<char>| after.contains(x) <==> (before.contains(x) || x == c@) by {
        if after.contains(x) {
            let k = choose|k: int| 0 <= k < after.len() && #[trigger] after[k] == x;
            if k < j {
                assert(before[k] == x);
            } else if k > j {
                assert(before[k - 1] == x);
            }
        }
        if before.contains(x) {
            let k = choose|k: int| 0 <= k < before.len() && #[trigger] before[k] == x;
            if k < j {
                assert(after[k] == x);
            } else {
                assert(after[k + 1] == x);
            }
        }
        if x == c@ {
            assert(after[j as int] == x);
        }
    }
}

fn add_alias(r: &mut Vec<Vec<char>>, word: &str)
    requires
        strictly_sorted(chars_view(old(r)@)),
    ensures
        strictly_sorted(chars_view(final(r)@)),
        forall|x: Seq<char>|
            #[trigger] chars_view(final(r)@).contains(x) <==> (chars_view(old(r)@).contains(x)
                || x == word@),
{
    insert_sorted_unique(r, chars_of(word));
}

/// Adds the aliases `words` where the normalized name `n` contains `key`.
fn add_alias_group(r: &mut Vec<Vec<char>>, n: &Vec<char>, key: &str, words: &Vec<&str>)
    requires
        strictly_sorted(chars_view(old(r)@)),
    ensures
        strictly_sorted(chars_view(final(r)@)),
        forall|x: Seq<char>|
            #[trigger] chars_view(final(r)@).contains(x) <==> (chars_view(old(r)@).contains(x)
                || (contains(n@, key@) && exists|k: int| 0 <= k < words@.len() && x == (
            #[trigger] words@[k])@)),
{
    let ghost start = chars_view(r@);
    if contains_exec(n, &chars_of(key)) {
        let mut i: usize = 0;
        while i < words.len()
            invariant
                i <= words.len(),
                strictly_sorted(chars_view(r@)),
                forall|x: Seq<char>|
                    #[trigger] chars_view(r@).contains(x) <==> (start.contains(x) || exists|k: int|
                        0 <= k < i && x == (#[trigger] words@[k])@),
            decreases words.len() - i,
        {
            add_alias(r, words[i]);
            i += 1;
        }
    }
}

/// The names a media player of the application `app_name` may go by, in
/// increasing order and without repeats.
pub fn player_name_aliases(app_name: &str) -> (r: Vec<String>)
    ensures
        strictly_sorted(strings_view(r@)),
        forall|x: Seq<char>|
            #[trigger] strings_view(r@).contains(x) <==> is_player_alias(
                normalize_seq(app_name@),
                x,
            ),
{
    let n = normalize_vec(&chars_of(app_name));
    let mut sorted: Vec<Vec<char>> = Vec::new();
    assert(chars_view(sorted@) =~= seq![]);
    let first = slice_of(&n, 0, n.len());
    assert(first@ =~= n@);
    insert_sorted_unique(&mut sorted, first);
    let g1: Vec<&str> = vec!["chrome", "googlechrome", "chromium"];
    let g2: Vec<&str> = vec!["chromium", "chrome"];
    let g3: Vec<&str> = vec!["brave", "bravebrowser"];
    let g4: Vec<&str> = vec!["edge", "microsoftedge"];
    let g5: Vec<&str> = vec!["firefox"];
    let g6: Vec<&str> = vec!["vlc", "vlcmediaplayer"];
    let ghost s1 = chars_view(sorted@);
    add_alias_group(&mut sorted, &n, "chrome", &g1);
    let ghost s2 = chars_view(sorted@);
    add_alias_group(&mut sorted, &n, "chromium", &g2);
    let ghost s3 = chars_view(sorted@);
    add_alias_group(&mut sorted, &n, "brave", &g3);
    let ghost s4 = chars_view(sorted@);
    add_alias_group(&mut sorted, &n, "edge", &g4);
    let ghost s5 = chars_view(sorted@);
    add_alias_group(&mut sorted, &n, "firefox", &g5);
    let ghost s6 = chars_view(sorted@);
    add_alias_group(&mut sorted, &n, "vlc", &g6);
    let r = strings_of(&sorted);
    assert(strings_view(r@) == chars_view(sorted@));
    assert forall|x: Seq<char>| #[trigger] strings_view(r@).contains(x) <==> is_player_alias(
        n@,
        x,
    ) by {
        assert(s1.contains(x) <==> x == n@);
        assert(g1@[0] == "chrome" && g1@[1] == "googlechrome" && g1@[2] == "chromium");
        assert(g2@[0] == "chromium" && g2@[1] == "chrome");
        assert(g3@[0] == "brave" && g3@[1] == "bravebrowser");
        assert(g4@[0] == "edge" && g4@[1] == "microsoftedge");
        assert(g5@[0] == "firefox");
        assert(g6@[0] == "vlc" && g6@[1] == "vlcmediaplayer");
        assert(s2.contains(x) <==> s1.contains(x) || (contains(n@, "chrome"@) && exists|k: int|
            0 <= k < g1@.len() && x == (#[trigger] g1@[k])@));
    }
    r
}

/// Whether the player `player_name` belongs to an application that goes by
/// one of `aliases`: its normalized name contains one of them.
pub open spec fn matches_aliases(player_name: Seq<char>, aliases: Seq<Seq<char>>) -> bool {
    exists|i: int| 0 <= i < aliases.len() && contains(normalize_seq(player_name), #[trigger] aliases[i])
}

pub fn player_matches_app(player_name: &str, aliases: &Vec<String>) -> (r: bool)
    ensures
        r == matches_aliases(player_name@, strings_view(aliases@)),
{
    let n = normalize_vec(&chars_of(player_name));
    let mut i: usize = 0;
    while i < aliases.len()
        invariant
            i <= aliases.len(),
            n@ == normalize_seq(player_name@),
            forall|k: int| 0 <= k < i ==> !contains(normalize_seq(player_name@), #[trigger] strings_view(aliases@)[k]),
        decreases aliases.len() - i,
    {
        let a = chars_of(aliases[i].as_str());
        assert(a@ == strings_view(aliases@)[i as int]);
        if contains_exec(&n, &a) {
            return true;
        }
        i += 1;
    }
    false
}

} // verus!

verus! {

pub open spec fn mpris_marker() -> Seq<char> {
    "org.mpris.MediaPlayer2."@
}

/// The characters that end a bus name in `gdbus` output.
pub open spec fn ends_bus_name(c: char) -> bool {
    c == '\'' || c == '"' || c == ',' || c == ']' || c == ')' || c == ' ' || c == '\n' || c
        == '\r'
}

/// The first position at or after `i` that ends a bus name, or `s.len()`.
pub open spec fn bus_name_end(s: Seq<char>, i: int) -> int
    decreases s.len() - i,
{
    if i < 0 || i >= s.len() {
        s.len() as int
    } else if ends_bus_name(s[i]) {
        i
    } else {
        bus_name_end(s, i + 1)
    }
}

pub proof fn lemma_bus_name_end_bounds(s: Seq<char>, i: int)
    requires
        0 <= i <= s.len(),
    ensures
        i <= bus_name_end(s, i) <= s.len(),
    decreases s.len() - i,
{
    if i < s.len() && !ends_bus_name(s[i]) {
        lemma_bus_name_end_bounds(s, i + 1);
    }
}

pub proof fn lemma_find_from_bounds(s: Seq<char>, p: Seq<char>, from: int)
    ensures
        find_from(s, p, from) matches Some(k) ==> from <= k && k + p.len() <= s.len() && occurs_at(
            s,
            p,
            k,
        ),
    decreases s.len() - from,
{
    if from >= 0 && from + p.len() <= s.len() && !occurs_at(s, p, from) && from < s.len() {
        lemma_find_from_bounds(s, p, from + 1);
    }
}

/// Every occurrence of the pattern `p` from position `from` on, each
/// extended to the end of the bus name it starts.
pub open spec fn bus_names_from(s: Seq<char>, p: Seq<char>, from: int) -> Seq<Seq<char>>
    decreases s.len() - from,
{
    if p.len() == 0 || from < 0 {
        seq![]
    } else {
        match find_from(s, p, from) {
            None => seq![],
            Some(start) => {
                proof {
                    lemma_find_from_bounds(s, p, from);
                }
                seq![s.subrange(start, bus_name_end(s, start))] + bus_names_from(
                    s,
                    p,
                    start + p.len(),
                )
            },
        }
    }
}

/// `rest` appended to `acc`, each item only where it is not there yet.
pub open spec fn dedup_onto(acc: Seq<Seq<char>>, rest: Seq<Seq<char>>) -> Seq<Seq<char>>
    decreases rest.len(),
{
    if rest.len() == 0 {
        acc
    } else {
        dedup_onto(
            if acc.contains(rest[0]) {
                acc
            } else {
                acc.push(rest[0])
            },
            rest.drop_first(),
        )
    }
}

/// The MPRIS bus names in `gdbus ... ListNames` output, each once, in order
/// of first appearance.
pub open spec fn mpris_bus_names(s: Seq<char>) -> Seq<Seq<char>> {
    dedup_onto(seq![], bus_names_from(s, mpris_marker(), 0))
}

fn chars_contains(list: &Vec<Vec<char>>, x: &Vec<char>) -> (r: bool)
    ensures
        r == chars_view(list@).contains(x@),
{
    let mut i: usize = 0;
    while i < list.len()
        invariant
            i <= list.len(),
            forall|k: int| 0 <= k < i ==> #[trigger] chars_view(list@)[k] != x@,
        decreases list.len() - i,
    {
        if seq_eq(&list[i], x) {
            assert(chars_view(list@)[i as int] == x@);
            return true;
        }
        i += 1;
    }
    false
}

/// The media-player bus names listed in the output of the session bus's
/// `ListNames` call.
pub fn parse_mpris_bus_names(output: &str) -> (r: Vec<String>)
    ensures
        strings_view(r@) == mpris_bus_names(output@),
{
    let s = chars_of(output);
    let marker = chars_of("org.mpris.MediaPlayer2.");
    proof {
        reveal_strlit("org.mpris.MediaPlayer2.");
    }
    let mut names: Vec<Vec<char>> = Vec::new();
    let mut search_from: usize = 0;
    assert(chars_view(names@) =~= seq![]);
    loop
        invariant
            search_from <= s.len(),
            s@ == output@,
            marker@ == mpris_marker(),
            marker.len() > 0,
            dedup_onto(chars_view(names@), bus_names_from(s@, marker@, search_from as int))
                == mpris_bus_names(output@),
        decreases s.len() - search_from,
    {
        proof {
            lemma_find_from_bounds(s@, marker@, search_from as int);
        }
        match find_from_exec(&s, &marker, search_from) {
            None => {
                let r = strings_of(&names);
                assert(bus_names_from(s@, marker@, search_from as int) =~= seq![]);
                return r;
            },
            Some(start) => {
                let mut end = start;
                while end < s.len() && !(s[end] == '\'' || s[end] == '"' || s[end] == ','
                    || s[end] == ']' || s[end] == ')' || s[end] == ' ' || s[end] == '\n' || s[end]
                    == '\r')
                    invariant
                        start <= end <= s.len(),
                        bus_name_end(s@, start as int) == bus_name_end(s@, end as int),
                    decreases s.len() - end,
                {
                    end += 1;
                }
                let name = slice_of(&s, start, end);
                let ghost before = chars_view(names@);
                let ghost rest = bus_names_from(s@, marker@, start + marker@.len());
                assert(bus_names_from(s@, marker@, search_from as int) == seq![name@] + rest);
                assert((seq![name@] + rest).drop_first() =~= rest);
                if !chars_contains(&names, &name) {
                    names.push(name);
                    assert(chars_view(names@) =~= before.push(name@));
                }
                search_from = start + marker.len();
            },
        }
    }
}

/// How one quoting style fares when looking for a variant's string value.
pub enum VariantScan {
    /// A non-empty value was found.
    Found(Seq<char>),
    /// No value in this style; the next style is tried.
    Missing,
    /// An opening quote without its closing one: the search gives up.
    Stop,
}

/// Looking for the value after `marker` (a `<` and a quote) up to the next
/// `quote`, trimmed.
pub open spec fn scan_variant(s: Seq<char>, marker: Seq<char>, quote: char) -> VariantScan {
    match find_from(s, marker, 0) {
        None => VariantScan::Missing,
        Some(start) => {
            let vs = start + marker.len();
            let e = next_char(s, quote, vs);
            if e >= s.len() {
                VariantScan::Stop
            } else if trim(s.subrange(vs, e)).len() > 0 {
                VariantScan::Found(trim(s.subrange(vs, e)))
            } else {
                VariantScan::Missing
            }
        },
    }
}

/// The string value of a `gdbus` variant such as `(<'Playing'>,)`: the
/// single-quoted value if there is one, else the double-quoted one.
pub open spec fn variant_string(s: Seq<char>) -> Option<Seq<char>> {
    match scan_variant(s, "<'"@, '\'') {
        VariantScan::Found(v) => Some(v),
        VariantScan::Stop => None,
        VariantScan::Missing => match scan_variant(s, "<\""@, '"') {
            VariantScan::Found(v) => Some(v),
            _ => None,
        },
    }
}

fn scan_variant_exec(s: &Vec<char>, marker: &str, quote: char) -> (r: (u8, Vec<char>))
    requires
        marker@.len() == 2,
    ensures
        r.0 == 0 ==> scan_variant(s@, marker@, quote) == VariantScan::Found(r.1@),
        r.0 == 1 ==> scan_variant(s@, marker@, quote) == VariantScan::Missing,
        r.0 == 2 ==> scan_variant(s@, marker@, quote) == VariantScan::Stop,
        r.0 <= 2,
{
    let m = chars_of(marker);
    proof {
        lemma_find_from_bounds(s@, m@, 0);
    }
    match find_from_exec(s, &m, 0) {
        None => (1, Vec::new()),
        Some(start) => {
            assert(m@.len() == 2);
            let n = s.len();
            assert(start + 2 <= n);
            let vs = start + 2;
            let mut e = vs;
            while e < s.len() && s[e] != quote
                invariant
                    vs <= e <= s.len(),
                    next_char(s@, quote, vs as int) == next_char(s@, quote, e as int),
                decreases s.len() - e,
            {
                e += 1;
            }
            if e >= s.len() {
                return (2, Vec::new());
            }
            let v = trim_vec(&slice_of(s, vs, e));
            if v.len() > 0 {
                (0, v)
            } else {
                (1, Vec::new())
            }
        },
    }
}

fn variant_string_exec(s: &Vec<char>) -> (r: Option<Vec<char>>)
    ensures
        match r {
            Some(v) => variant_string(s@) == Some(v@),
            None => variant_string(s@) is None,
        },
{
    proof {
        reveal_strlit("<'");
        reveal_strlit("<\"");
    }
    let (k, v) = scan_variant_exec(s, "<'", '\'');
    if k == 0 {
        return Some(v);
    } else if k == 2 {
        return None;
    }
    let (k2, v2) = scan_variant_exec(s, "<\"", '"');
    if k2 == 0 {
        Some(v2)
    } else {
        None
    }
}

/// The string value of a `gdbus` variant in `output`.
pub fn extract_variant_string(output: &str) -> (r: Option<String>)
    ensures
        opt_string_view(r) == variant_string(output@),
{
    match variant_string_exec(&chars_of(output)) {
        Some(v) => Some(string_of(&v)),
        None => None,
    }
}

pub open spec fn opt_string_view(o: Option<String>) -> Option<Seq<char>> {
    match o {
        Some(s) => Some(s@),
        None => None,
    }
}

/// The track title in a player's `Metadata` property: the variant string
/// from its `xesam:title` entry on.
pub open spec fn metadata_title(s: Seq<char>) -> Option<Seq<char>> {
    match find_from(s, "xesam:title"@, 0) {
        None => None,
        Some(p) => variant_string(s.skip(p)),
    }
}

/// The track title in the output of a player's `Metadata` property query.
pub fn title_from_metadata(output: &str) -> (r: Option<String>)
    ensures
        opt_string_view(r) == metadata_title(output@),
{
    let s = chars_of(output);
    match find_from_exec(&s, &chars_of("xesam:title"), 0) {
        None => None,
        Some(p) => {
            proof {
                lemma_find_from_bounds(s@, "xesam:title"@, 0);
            }
            let rest = slice_of(&s, p, s.len());
            assert(rest@ =~= s@.skip(p as int));
            match variant_string_exec(&rest) {
                Some(v) => Some(string_of(&v)),
                None => None,
            }
        },
    }
}

/// A media player of the application, with the title it plays and its
/// playback status where it reported them.
pub struct PlayerTitle {
    pub title: String,
    pub status: Option<String>,
}

/// 0 for a playing player, 1 for a paused one, 2 for any other.
pub open spec fn status_rank(status: Option<Seq<char>>) -> int {
    if status == Some("Playing"@) {
        0
    } else if status == Some("Paused"@) {
        1
    } else {
        2
    }
}

pub open spec fn player_rank(p: PlayerTitle) -> int {
    status_rank(opt_string_view(p.status))
}

/// The first player from position `i` on with the given rank.
pub open spec fn first_with_rank(ps: Seq<PlayerTitle>, rank: int, i: int) -> Option<Seq<char>>
    decreases ps.len() - i,
{
    if i < 0 || i >= ps.len() {
        None
    } else if player_rank(ps[i]) == rank {
        Some(ps[i].title@)
    } else {
        first_with_rank(ps, rank, i + 1)
    }
}

/// The title to show for an application: the first playing player's, else
/// the first paused player's, else the first other player's.
pub open spec fn preferred_title(ps: Seq<PlayerTitle>) -> Option<Seq<char>> {
    if first_with_rank(ps, 0, 0) is Some {
        first_with_rank(ps, 0, 0)
    } else if first_with_rank(ps, 1, 0) is Some {
        first_with_rank(ps, 1, 0)
    } else {
        first_with_rank(ps, 2, 0)
    }
}

fn rank_exec(p: &PlayerTitle) -> (r: u8)
    ensures
        r as int == player_rank(*p),
{
    match &p.status {
        Some(s) => {
            let c = chars_of(s.as_str());
            if seq_eq(&c, &chars_of("Playing")) {
                0
            } else if seq_eq(&c, &chars_of("Paused")) {
                1
            } else {
                2
            }
        },
        None => 2,
    }
}

fn first_with_rank_exec(ps: &Vec<PlayerTitle>, rank: u8) -> (r: Option<String>)
    ensures
        opt_string_view(r) == first_with_rank(ps@, rank as int, 0),
{
    let mut i: usize = 0;
    while i < ps.len()
        invariant
            i <= ps.len(),
            first_with_rank(ps@, rank as int, 0) == first_with_rank(ps@, rank as int, i as int),
        decreases ps.len() - i,
    {
        if rank_exec(&ps[i]) == rank {
            return Some(ps[i].title.clone());
        }
        i += 1;
    }
    None
}

/// The title shown for an application, chosen among its players (in the
/// order the bus lists them) by playback status: playing, then paused, then
/// any other.
pub fn pick_player_title(players: &Vec<PlayerTitle>) -> (r: Option<String>)
    ensures
        opt_string_view(r) == preferred_title(players@),
{
    let playing = first_with_rank_exec(players, 0);
    if playing.is_some() {
        return playing;
    }
    let paused = first_with_rank_exec(players, 1);
    if paused.is_some() {
        return paused;
    }
    first_with_rank_exec(players, 2)
}

} // verus!

verus! {

/// The default devices are shown under fixed names and icons and never
/// with a second name; a stream is shown under its application's name,
/// else its own.
pub proof fn lemma_device_display(
    name: Seq<char>,
    app_name: Option<Seq<char>>,
    media_name: Option<Seq<char>>,
    player_title: Option<Seq<char>>,
    node_id: u32,
)
    ensures
        alternate_name(AudioTarget::Master, "Master"@, app_name, media_name, player_title) is None,
        alternate_name(AudioTarget::Mic, "Mic"@, app_name, media_name, player_title) is None,
        target_icon_query(AudioTarget::Master, app_name, name) == "mdi:volume-high"@,
        target_icon_query(AudioTarget::Mic, app_name, name) == "mdi:microphone"@,
        target_name(AudioTarget::Stream(node_id), name) == name,
        target_of(MASTER_NODE_ID) == AudioTarget::Master,
        target_of(MIC_NODE_ID) == AudioTarget::Mic,
        node_id != MASTER_NODE_ID && node_id != MIC_NODE_ID ==> target_of(node_id)
            == AudioTarget::Stream(node_id),
{
}

} // verus!
