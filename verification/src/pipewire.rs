//! PulseAudio/PipeWire through `pactl`: the commands the plugin issues and
//! the parsers for what `pactl` prints. Running the commands is left to the
//! caller; everything that decides or reads is here.
use vstd::prelude::*;

use crate::text::{
    chars_of, concat, contains, seq_eq, seq_lt, seq_lt_exec, contains_char, contains_exec, decimal, decimal_exec, trim_end_char,
    trim_end_char_vec, lines, parse_u32, parse_u32_exec, slice_of, split_lines,
    split_words, starts_with, string_of, strip_prefix_all, strip_prefix_all_exec, trim, trim_char,
    trim_char_vec, trim_vec, words,
};

verus! {

/// A playback stream (a PulseAudio sink input).
pub struct AudioStream {
    pub node_id: u32,
    pub pid: Option<u32>,
    pub name: String,
    pub app_name: Option<String>,
    pub media_name: Option<String>,
}

/// The mathematical content of an [`AudioStream`].
pub struct AudioStreamView {
    pub node_id: u32,
    pub pid: Option<u32>,
    pub name: Seq<char>,
    pub app_name: Option<Seq<char>>,
    pub media_name: Option<Seq<char>>,
}

pub open spec fn opt_view(o: Option<String>) -> Option<Seq<char>> {
    match o {
        Some(s) => Some(s@),
        None => None,
    }
}

pub open spec fn strings_view(v: Seq<String>) -> Seq<Seq<char>> {
    v.map_values(|s: String| s@)
}

impl View for AudioStream {
    type V = AudioStreamView;

    open spec fn view(&self) -> AudioStreamView {
        AudioStreamView {
            node_id: self.node_id,
            pid: self.pid,
            name: self.name@,
            app_name: opt_view(self.app_name),
            media_name: opt_view(self.media_name),
        }
    }
}

pub fn clone_opt_string(o: &Option<String>) -> (r: Option<String>)
    ensures
        opt_view(r) == opt_view(*o),
{
    match o {
        Some(s) => Some(s.clone()),
        None => None,
    }
}

pub fn opt_string_of(o: &Option<Vec<char>>) -> (r: Option<String>)
    ensures
        opt_view(r) == (match o {
            Some(v) => Some(v@),
            None => None::<Seq<char>>,
        }),
{
    match o {
        Some(v) => Some(string_of(v)),
        None => None,
    }
}

impl AudioStream {
    pub fn duplicate(&self) -> (r: AudioStream)
        ensures
            r@ == self@,
    {
        AudioStream {
            node_id: self.node_id,
            pid: self.pid,
            name: self.name.clone(),
            app_name: clone_opt_string(&self.app_name),
            media_name: clone_opt_string(&self.media_name),
        }
    }
}

/// `String::from` for a literal, with its characters known.
pub fn owned(s: &str) -> (r: String)
    ensures
        r@ == s@,
{
    s.to_owned()
}

// ---------------------------------------------------------------------------
// Parsing `pactl list sink-inputs short`
// ---------------------------------------------------------------------------

/// The sink-input ids of the first `n` lines of `pactl list sink-inputs
/// short`: the lines whose first whitespace-separated field is a `u32`.
pub open spec fn short_ids_upto(ls: Seq<Seq<char>>, n: int) -> Seq<u32>
    decreases n,
{
    if n <= 0 {
        seq![]
    } else {
        let prev = short_ids_upto(ls, n - 1);
        let ws = words(ls[n - 1]);
        if ws.len() > 0 && parse_u32(ws[0]) is Some {
            prev.push(parse_u32(ws[0]).unwrap())
        } else {
            prev
        }
    }
}

pub open spec fn short_ids(out: Seq<char>) -> Seq<u32> {
    short_ids_upto(lines(out), lines(out).len() as int)
}

/// The ids listed by `pactl list sink-inputs short`, in the order printed.
pub fn parse_sink_input_ids(out: &str) -> (r: Vec<u32>)
    ensures
        r@ == short_ids(out@),
{
    let chars = chars_of(out);
    let ls = split_lines(&chars);
    let ghost lv = ls@.map_values(|l: Vec<char>| l@);
    let mut r: Vec<u32> = Vec::new();
    let mut i: usize = 0;
    while i < ls.len()
        invariant
            i <= ls.len(),
            lv == lines(out@),
            lv == ls@.map_values(|l: Vec<char>| l@),
            r@ == short_ids_upto(lv, i as int),
        decreases ls.len() - i,
    {
        let ws = split_words(&ls[i]);
        proof {
            assert(lv[i as int] == ls@[i as int]@);
        }
        if ws.len() > 0 {
            assert(ws@.map_values(|l: Vec<char>| l@)[0] == ws@[0]@);
            match parse_u32_exec(&ws[0]) {
                Some(id) => {
                    r.push(id);
                },
                None => {},
            }
        }
        i += 1;
    }
    r
}

// ---------------------------------------------------------------------------
// Parsing `pactl list sink-inputs`
// ---------------------------------------------------------------------------

pub open spec fn sink_input_marker() -> Seq<char> {
    "Sink Input #"@
}

pub open spec fn app_name_marker() -> Seq<char> {
    "application.name = "@
}

pub open spec fn pid_marker() -> Seq<char> {
    "application.process.id = "@
}

pub open spec fn media_title_marker() -> Seq<char> {
    "media.title = "@
}

pub open spec fn media_name_marker() -> Seq<char> {
    "media.name = "@
}

/// The value of a `key = "value"` property line: the text after the key,
/// without surrounding quotes and whitespace.
pub open spec fn property_value(line: Seq<char>, key: Seq<char>) -> Seq<char> {
    trim(trim_char(strip_prefix_all(line, key), '"'))
}

/// The sink input a section header line starts, if the line is one.
pub open spec fn section_id(line: Seq<char>) -> Option<u32> {
    parse_u32(strip_prefix_all(line, sink_input_marker()))
}

/// What one property line of the wanted sink input contributes.
pub open spec fn apply_property(v: AudioStreamView, line: Seq<char>) -> AudioStreamView {
    let v1 = if app_name_marker().is_prefix_of(line) {
        let val = property_value(line, app_name_marker());
        AudioStreamView { app_name: Some(val), name: val, ..v }
    } else {
        v
    };
    let v2 = if pid_marker().is_prefix_of(line) {
        AudioStreamView { pid: parse_u32(property_value(line, pid_marker())), ..v1 }
    } else {
        v1
    };
    let v3 = if media_title_marker().is_prefix_of(line) && property_value(
        line,
        media_title_marker(),
    ).len() > 0 {
        let val = property_value(line, media_title_marker());
        AudioStreamView {
            media_name: Some(val),
            name: if v2.app_name is None {
                val
            } else {
                v2.name
            },
            ..v2
        }
    } else {
        v2
    };
    if media_name_marker().is_prefix_of(line) && property_value(line, media_name_marker()).len()
        > 0 {
        let val = property_value(line, media_name_marker());
        AudioStreamView {
            media_name: if v3.media_name is None {
                Some(val)
            } else {
                v3.media_name
            },
            name: if v3.app_name is None {
                val
            } else {
                v3.name
            },
            ..v3
        }
    } else {
        v3
    }
}

/// One line of `pactl list sink-inputs` read while looking for `node_id`:
/// the sink input whose section is being read, and what is known so far.
pub open spec fn detail_step(
    st: (Option<u32>, AudioStreamView),
    raw: Seq<char>,
    node_id: u32,
) -> (Option<u32>, AudioStreamView) {
    let line = trim(raw);
    if sink_input_marker().is_prefix_of(line) {
        (section_id(line), st.1)
    } else if st.0 != Some(node_id) {
        st
    } else {
        (st.0, apply_property(st.1, line))
    }
}

/// What is known of `node_id` before any line is read.
pub open spec fn detail_start(node_id: u32) -> AudioStreamView {
    AudioStreamView {
        node_id,
        pid: None,
        name: "Stream "@ + decimal(node_id as nat),
        app_name: None,
        media_name: None,
    }
}

pub open spec fn details_upto(ls: Seq<Seq<char>>, n: int, node_id: u32) -> (
    Option<u32>,
    AudioStreamView,
)
    decreases n,
{
    if n <= 0 {
        (None, detail_start(node_id))
    } else {
        detail_step(details_upto(ls, n - 1, node_id), ls[n - 1], node_id)
    }
}

/// The stream `node_id` as `pactl list sink-inputs` describes it.
pub open spec fn sink_input_details(out: Seq<char>, node_id: u32) -> AudioStreamView {
    details_upto(lines(out), lines(out).len() as int, node_id).1
}

/// The exec counterpart of [`property_value`].
fn property_value_exec(line: &Vec<char>, key: &Vec<char>) -> (r: Vec<char>)
    requires
        key.len() > 0,
    ensures
        r@ == property_value(line@, key@),
{
    let rest = strip_prefix_all_exec(line, key);
    let unquoted = trim_char_vec(&rest, '"');
    trim_vec(&unquoted)
}

/// The stream `node_id` as described in the output of `pactl list
/// sink-inputs`: its application name, process id and media title, with the
/// name `"Stream <id>"` where the output names nothing better.
pub fn parse_sink_input_details(out: &str, node_id: u32) -> (r: AudioStream)
    ensures
        r@ == sink_input_details(out@, node_id),
{
    let chars = chars_of(out);
    let ls = split_lines(&chars);
    let ghost lv = ls@.map_values(|l: Vec<char>| l@);
    let sink_marker = chars_of("Sink Input #");
    let app_marker = chars_of("application.name = ");
    let pid_key = chars_of("application.process.id = ");
    let title_marker = chars_of("media.title = ");
    let mname_marker = chars_of("media.name = ");
    proof {
        reveal_strlit("Sink Input #");
        reveal_strlit("application.name = ");
        reveal_strlit("application.process.id = ");
        reveal_strlit("media.title = ");
        reveal_strlit("media.name = ");
    }
    let prefix = chars_of("Stream ");
    let digits = decimal_exec(node_id);
    let mut name = concat(&prefix, &digits);
    let mut app_name: Option<Vec<char>> = None;
    let mut media_name: Option<Vec<char>> = None;
    let mut pid: Option<u32> = None;
    let mut current: Option<u32> = None;
    let mut i: usize = 0;
    while i < ls.len()
        invariant
            i <= ls.len(),
            lv == lines(out@),
            lv == ls@.map_values(|l: Vec<char>| l@),
            sink_marker@ == sink_input_marker(),
            app_marker@ == app_name_marker(),
            pid_key@ == pid_marker(),
            title_marker@ == media_title_marker(),
            mname_marker@ == media_name_marker(),
            sink_marker.len() > 0,
            app_marker.len() > 0,
            pid_key.len() > 0,
            title_marker.len() > 0,
            mname_marker.len() > 0,
            details_upto(lv, i as int, node_id) == (
                current,
                AudioStreamView {
                    node_id,
                    pid,
                    name: name@,
                    app_name: match app_name {
                        Some(v) => Some(v@),
                        None => None::<Seq<char>>,
                    },
                    media_name: match media_name {
                        Some(v) => Some(v@),
                        None => None::<Seq<char>>,
                    },
                },
            ),
        decreases ls.len() - i,
    {
        proof {
            assert(lv[i as int] == ls@[i as int]@);
        }
        let line = trim_vec(&ls[i]);
        if starts_with(&line, &sink_marker) {
            let rest = strip_prefix_all_exec(&line, &sink_marker);
            current = parse_u32_exec(&rest);
        } else if current == Some(node_id) {
            if starts_with(&line, &app_marker) {
                let val = property_value_exec(&line, &app_marker);
                name = slice_of(&val, 0, val.len());
                app_name = Some(val);
                assert(name@ =~= property_value(line@, app_name_marker()));
            }
            if starts_with(&line, &pid_key) {
                let val = property_value_exec(&line, &pid_key);
                pid = parse_u32_exec(&val);
            }
            if starts_with(&line, &title_marker) {
                let val = property_value_exec(&line, &title_marker);
                if val.len() > 0 {
                    if app_name.is_none() {
                        name = slice_of(&val, 0, val.len());
                        assert(name@ =~= val@);
                    }
                    media_name = Some(val);
                }
            }
            if starts_with(&line, &mname_marker) {
                let val = property_value_exec(&line, &mname_marker);
                if val.len() > 0 {
                    if app_name.is_none() {
                        name = slice_of(&val, 0, val.len());
                        assert(name@ =~= val@);
                    }
                    if media_name.is_none() {
                        media_name = Some(val);
                    }
                }
            }
        }
        i += 1;
    }
    AudioStream {
        node_id,
        pid,
        name: string_of(&name),
        app_name: opt_string_of(&app_name),
        media_name: opt_string_of(&media_name),
    }
}

} // verus!

verus! {

// ---------------------------------------------------------------------------
// Volumes and mute states
// ---------------------------------------------------------------------------

/// The percentage a field such as `"65%"` writes, if it writes one.
pub open spec fn percent_value(w: Seq<char>) -> Option<u32> {
    if contains(w, seq!['%']) {
        parse_u32(trim_end_char(w, '%'))
    } else {
        None
    }
}

/// The first field from position `i` on that writes a percentage.
pub open spec fn first_percent_from(ws: Seq<Seq<char>>, i: int) -> Option<u32>
    decreases ws.len() - i,
{
    if i < 0 || i >= ws.len() {
        None
    } else if percent_value(ws[i]) is Some {
        percent_value(ws[i])
    } else {
        first_percent_from(ws, i + 1)
    }
}

/// The first percentage among the whitespace-separated fields of `s`, or
/// 100 where there is none.
pub open spec fn percent_or_default(s: Seq<char>) -> u32 {
    match first_percent_from(words(s), 0) {
        Some(v) => v,
        None => 100,
    }
}

pub open spec fn volume_marker() -> Seq<char> {
    "Volume:"@
}

pub open spec fn mute_marker() -> Seq<char> {
    "Mute:"@
}

pub open spec fn yes_marker() -> Seq<char> {
    "yes"@
}

/// The volume of `node_id` read from the lines of `pactl list sink-inputs`
/// from line `i` on, `current` being the section that line `i` is in.
pub open spec fn stream_volume_from(
    ls: Seq<Seq<char>>,
    i: int,
    current: Option<u32>,
    node_id: u32,
) -> u32
    decreases ls.len() - i,
{
    if i < 0 || i >= ls.len() {
        100
    } else {
        let line = trim(ls[i]);
        if sink_input_marker().is_prefix_of(line) {
            stream_volume_from(ls, i + 1, section_id(line), node_id)
        } else if current == Some(node_id) && volume_marker().is_prefix_of(line) {
            percent_or_default(line)
        } else {
            stream_volume_from(ls, i + 1, current, node_id)
        }
    }
}

/// The volume of `node_id`: the first percentage on the `Volume:` line of its
/// section of `pactl list sink-inputs`, or 100.
pub open spec fn stream_volume(out: Seq<char>, node_id: u32) -> u32 {
    stream_volume_from(lines(out), 0, None, node_id)
}

/// The mute state of `node_id` read from the lines of `pactl list
/// sink-inputs` from line `i` on.
pub open spec fn stream_mute_from(
    ls: Seq<Seq<char>>,
    i: int,
    current: Option<u32>,
    node_id: u32,
) -> bool
    decreases ls.len() - i,
{
    if i < 0 || i >= ls.len() {
        false
    } else {
        let line = trim(ls[i]);
        if sink_input_marker().is_prefix_of(line) {
            stream_mute_from(ls, i + 1, section_id(line), node_id)
        } else if current == Some(node_id) && contains(line, mute_marker()) {
            contains(line, yes_marker())
        } else {
            stream_mute_from(ls, i + 1, current, node_id)
        }
    }
}

/// Whether the first `Mute:` line of the section of `node_id` says `yes`.
pub open spec fn stream_mute(out: Seq<char>, node_id: u32) -> bool {
    stream_mute_from(lines(out), 0, None, node_id)
}

/// A volume as `pactl` is told it: at most 150%.
pub open spec fn clamp_volume(v: u32) -> u32 {
    if v > 150 {
        150
    } else {
        v
    }
}

/// The volume argument of a `pactl set-*-volume` command.
pub open spec fn volume_arg(v: u32) -> Seq<char> {
    decimal(clamp_volume(v) as nat) + "%"@
}

/// The mute argument of a `pactl set-*-mute` command.
pub open spec fn mute_arg(mute: bool) -> Seq<char> {
    if mute {
        "1"@
    } else {
        "0"@
    }
}

/// `current + delta` held to `0..=150`, `current` read as an `i32`.
pub open spec fn adjusted_volume(current: u32, delta: i32) -> u32 {
    let t = (current as i32) + delta;
    if t < 0 {
        0
    } else if t > 150 {
        150
    } else {
        t as u32
    }
}

/// Whether `current + delta` can be formed in an `i32`.
pub open spec fn adjust_in_range(current: u32, delta: i32) -> bool {
    i32::MIN <= (current as i32) + delta <= i32::MAX
}

fn percent_value_exec(w: &Vec<char>) -> (r: Option<u32>)
    ensures
        r == percent_value(w@),
{
    if contains_char(w, '%') {
        let digits = trim_end_char_vec(w, '%');
        parse_u32_exec(&digits)
    } else {
        None
    }
}

/// The first percentage among the whitespace-separated fields of `s`, or 100.
fn percent_or_default_exec(s: &Vec<char>) -> (r: u32)
    ensures
        r == percent_or_default(s@),
{
    let ws = split_words(s);
    let ghost wv = ws@.map_values(|l: Vec<char>| l@);
    let mut i: usize = 0;
    while i < ws.len()
        invariant
            i <= ws.len(),
            wv == words(s@),
            wv == ws@.map_values(|l: Vec<char>| l@),
            first_percent_from(wv, 0) == first_percent_from(wv, i as int),
        decreases ws.len() - i,
    {
        assert(wv[i as int] == ws@[i as int]@);
        match percent_value_exec(&ws[i]) {
            Some(v) => {
                return v;
            },
            None => {},
        }
        i += 1;
    }
    100
}

fn lines_of(out: &str) -> (r: Vec<Vec<char>>)
    ensures
        r@.map_values(|l: Vec<char>| l@) == lines(out@),
{
    let chars = chars_of(out);
    split_lines(&chars)
}

fn args3(a: &str, b: String, c: String) -> (r: Vec<String>)
    ensures
        strings_view(r@) == seq![a@, b@, c@],
{
    let r = vec![owned(a), b, c];
    assert(strings_view(r@) =~= seq![a@, b@, c@]);
    r
}

fn volume_arg_exec(volume: u32) -> (r: String)
    ensures
        r@ == volume_arg(volume),
{
    let v = if volume > 150 {
        150
    } else {
        volume
    };
    let digits = decimal_exec(v);
    let pct = chars_of("%");
    string_of(&concat(&digits, &pct))
}

fn mute_arg_exec(mute: bool) -> (r: String)
    ensures
        r@ == mute_arg(mute),
{
    if mute {
        owned("1")
    } else {
        owned("0")
    }
}

fn adjusted_volume_exec(current: u32, delta: i32) -> (r: u32)
    requires
        adjust_in_range(current, delta),
    ensures
        r == adjusted_volume(current, delta),
        r <= 150,
{
    let t = current as i32 + delta;
    if t < 0 {
        0
    } else if t > 150 {
        150
    } else {
        t as u32
    }
}

/// The `pactl` client: what it runs, and what it reads from the answers.
pub struct PipeWireManager;

#[verifier::external_type_specification]
#[verifier::external_body]
pub struct ExAnyhowError(anyhow::Error);

impl Default for PipeWireManager {
    fn default() -> (r: Self)
        ensures
            r == PipeWireManager,
    {
        PipeWireManager
    }
}

impl PipeWireManager {
    /// Always succeeds: `pactl` is only reached when a command runs.
    pub fn new() -> (r: Result<Self, anyhow::Error>)
        ensures
            r is Ok,
    {
        Ok(PipeWireManager)
    }

    /// The sink-input ids in the output of `pactl list sink-inputs short`.
    pub fn sink_input_ids(&self, short_output: &str) -> (r: Vec<u32>)
        ensures
            r@ == short_ids(short_output@),
    {
        parse_sink_input_ids(short_output)
    }

    /// The stream `node_id` as the output of `pactl list sink-inputs`
    /// describes it.
    pub fn get_sink_input_details(&self, output: &str, node_id: u32) -> (r: AudioStream)
        ensures
            r@ == sink_input_details(output@, node_id),
    {
        parse_sink_input_details(output, node_id)
    }

    /// The volume of stream `node_id`, from the output of `pactl list
    /// sink-inputs`.
    pub fn get_stream_volume(output: &str, node_id: u32) -> (r: u32)
        ensures
            r == stream_volume(output@, node_id),
    {
        let ls = lines_of(output);
        let ghost lv = ls@.map_values(|l: Vec<char>| l@);
        let marker = chars_of("Sink Input #");
        let vmarker = chars_of("Volume:");
        proof {
            reveal_strlit("Sink Input #");
        }
        let mut current: Option<u32> = None;
        let mut i: usize = 0;
        while i < ls.len()
            invariant
                i <= ls.len(),
                lv == lines(output@),
                lv == ls@.map_values(|l: Vec<char>| l@),
                marker@ == sink_input_marker(),
                vmarker@ == volume_marker(),
                marker.len() > 0,
                stream_volume(output@, node_id) == stream_volume_from(lv, i as int, current, node_id),
            decreases ls.len() - i,
        {
            assert(lv[i as int] == ls@[i as int]@);
            let line = trim_vec(&ls[i]);
            if starts_with(&line, &marker) {
                let rest = strip_prefix_all_exec(&line, &marker);
                current = parse_u32_exec(&rest);
            } else if current == Some(node_id) && starts_with(&line, &vmarker) {
                return percent_or_default_exec(&line);
            }
            i += 1;
        }
        100
    }

    /// The volume of the default sink, from `pactl get-sink-volume`.
    pub fn get_master_volume(output: &str) -> (r: u32)
        ensures
            r == percent_or_default(output@),
    {
        percent_or_default_exec(&chars_of(output))
    }

    /// The volume of the default source, from `pactl get-source-volume`.
    pub fn get_mic_volume(output: &str) -> (r: u32)
        ensures
            r == percent_or_default(output@),
    {
        percent_or_default_exec(&chars_of(output))
    }

    /// The mute state of stream `node_id`, from the output of `pactl list
    /// sink-inputs`.
    pub fn get_stream_mute(output: &str, node_id: u32) -> (r: bool)
        ensures
            r == stream_mute(output@, node_id),
    {
        let ls = lines_of(output);
        let ghost lv = ls@.map_values(|l: Vec<char>| l@);
        let marker = chars_of("Sink Input #");
        let mmarker = chars_of("Mute:");
        let yes = chars_of("yes");
        proof {
            reveal_strlit("Sink Input #");
        }
        let mut current: Option<u32> = None;
        let mut i: usize = 0;
        while i < ls.len()
            invariant
                i <= ls.len(),
                lv == lines(output@),
                lv == ls@.map_values(|l: Vec<char>| l@),
                marker@ == sink_input_marker(),
                mmarker@ == mute_marker(),
                yes@ == yes_marker(),
                marker.len() > 0,
                stream_mute(output@, node_id) == stream_mute_from(lv, i as int, current, node_id),
            decreases ls.len() - i,
        {
            assert(lv[i as int] == ls@[i as int]@);
            let line = trim_vec(&ls[i]);
            if starts_with(&line, &marker) {
                let rest = strip_prefix_all_exec(&line, &marker);
                current = parse_u32_exec(&rest);
            } else if current == Some(node_id) && contains_exec(&line, &mmarker) {
                return contains_exec(&line, &yes);
            }
            i += 1;
        }
        false
    }

    /// The mute state of the default sink, from `pactl get-sink-mute`.
    pub fn get_master_mute(output: &str) -> (r: bool)
        ensures
            r == contains(output@, yes_marker()),
    {
        let yes = chars_of("yes");
        contains_exec(&chars_of(output), &yes)
    }

    /// The mute state of the default source, from `pactl get-source-mute`.
    pub fn get_mic_mute(output: &str) -> (r: bool)
        ensures
            r == contains(output@, yes_marker()),
    {
        let yes = chars_of("yes");
        contains_exec(&chars_of(output), &yes)
    }

    /// The `pactl` arguments that set the volume of stream `node_id`.
    pub fn set_stream_volume(node_id: u32, volume: u32) -> (r: Vec<String>)
        ensures
            strings_view(r@) == seq![
                "set-sink-input-volume"@,
                decimal(node_id as nat),
                volume_arg(volume),
            ],
    {
        args3(
            "set-sink-input-volume",
            string_of(&decimal_exec(node_id)),
            volume_arg_exec(volume),
        )
    }

    /// The `pactl` arguments that set the volume of the default sink.
    pub fn set_master_volume(volume: u32) -> (r: Vec<String>)
        ensures
            strings_view(r@) == seq!["set-sink-volume"@, "@DEFAULT_SINK@"@, volume_arg(volume)],
    {
        args3("set-sink-volume", owned("@DEFAULT_SINK@"), volume_arg_exec(volume))
    }

    /// The `pactl` arguments that set the volume of the default source.
    pub fn set_mic_volume(volume: u32) -> (r: Vec<String>)
        ensures
            strings_view(r@) == seq![
                "set-source-volume"@,
                "@DEFAULT_SOURCE@"@,
                volume_arg(volume),
            ],
    {
        args3("set-source-volume", owned("@DEFAULT_SOURCE@"), volume_arg_exec(volume))
    }

    /// The `pactl` arguments that mute or unmute stream `node_id`.
    pub fn set_stream_mute(node_id: u32, mute: bool) -> (r: Vec<String>)
        ensures
            strings_view(r@) == seq![
                "set-sink-input-mute"@,
                decimal(node_id as nat),
                mute_arg(mute),
            ],
    {
        args3("set-sink-input-mute", string_of(&decimal_exec(node_id)), mute_arg_exec(mute))
    }

    /// The `pactl` arguments that mute or unmute the default sink.
    pub fn set_master_mute(mute: bool) -> (r: Vec<String>)
        ensures
            strings_view(r@) == seq!["set-sink-mute"@, "@DEFAULT_SINK@"@, mute_arg(mute)],
    {
        args3("set-sink-mute", owned("@DEFAULT_SINK@"), mute_arg_exec(mute))
    }

    /// The `pactl` arguments that mute or unmute the default source.
    pub fn set_mic_mute(mute: bool) -> (r: Vec<String>)
        ensures
            strings_view(r@) == seq!["set-source-mute"@, "@DEFAULT_SOURCE@"@, mute_arg(mute)],
    {
        args3("set-source-mute", owned("@DEFAULT_SOURCE@"), mute_arg_exec(mute))
    }

    /// A volume step on stream `node_id` whose volume is `current`: the new
    /// volume, `current + delta_percent` held to `0..=150`, and the command
    /// that sets it.
    pub fn adjust_stream_volume(node_id: u32, current: u32, delta_percent: i32) -> (r: (
        u32,
        Vec<String>,
    ))
        requires
            adjust_in_range(current, delta_percent),
        ensures
            r.0 == adjusted_volume(current, delta_percent),
            strings_view(r.1@) == seq![
                "set-sink-input-volume"@,
                decimal(node_id as nat),
                volume_arg(r.0),
            ],
    {
        let v = adjusted_volume_exec(current, delta_percent);
        (v, Self::set_stream_volume(node_id, v))
    }

    /// A volume step on the default sink whose volume is `current`.
    pub fn adjust_master_volume(current: u32, delta_percent: i32) -> (r: (u32, Vec<String>))
        requires
            adjust_in_range(current, delta_percent),
        ensures
            r.0 == adjusted_volume(current, delta_percent),
            strings_view(r.1@) == seq!["set-sink-volume"@, "@DEFAULT_SINK@"@, volume_arg(r.0)],
    {
        let v = adjusted_volume_exec(current, delta_percent);
        (v, Self::set_master_volume(v))
    }

    /// A volume step on the default source whose volume is `current`.
    pub fn adjust_mic_volume(current: u32, delta_percent: i32) -> (r: (u32, Vec<String>))
        requires
            adjust_in_range(current, delta_percent),
        ensures
            r.0 == adjusted_volume(current, delta_percent),
            strings_view(r.1@) == seq![
                "set-source-volume"@,
                "@DEFAULT_SOURCE@"@,
                volume_arg(r.0),
            ],
    {
        let v = adjusted_volume_exec(current, delta_percent);
        (v, Self::set_mic_volume(v))
    }

    /// Flipping the mute state of stream `node_id`, muted or not as
    /// `current` says: the new state and the command that sets it.
    pub fn toggle_stream_mute(node_id: u32, current: bool) -> (r: (bool, Vec<String>))
        ensures
            r.0 == !current,
            strings_view(r.1@) == seq![
                "set-sink-input-mute"@,
                decimal(node_id as nat),
                mute_arg(!current),
            ],
    {
        (!current, Self::set_stream_mute(node_id, !current))
    }

    /// Flipping the mute state of the default sink.
    pub fn toggle_master_mute(current: bool) -> (r: (bool, Vec<String>))
        ensures
            r.0 == !current,
            strings_view(r.1@) == seq!["set-sink-mute"@, "@DEFAULT_SINK@"@, mute_arg(!current)],
    {
        (!current, Self::set_master_mute(!current))
    }

    /// Flipping the mute state of the default source.
    pub fn toggle_mic_mute(current: bool) -> (r: (bool, Vec<String>))
        ensures
            r.0 == !current,
            strings_view(r.1@) == seq![
                "set-source-mute"@,
                "@DEFAULT_SOURCE@"@,
                mute_arg(!current),
            ],
    {
        (!current, Self::set_mic_mute(!current))
    }
}

} // verus!

verus! {

// ---------------------------------------------------------------------------
// Ordering of the stream list
// ---------------------------------------------------------------------------

/// `Option<u32>` ordering: `None` first, then by value.
pub open spec fn pid_lt(a: Option<u32>, b: Option<u32>) -> bool {
    match (a, b) {
        (None, Some(_)) => true,
        (Some(x), Some(y)) => x < y,
        _ => false,
    }
}

/// The order of the stream list: by name, then by process id.
pub open spec fn stream_lt(a: AudioStreamView, b: AudioStreamView) -> bool {
    seq_lt(a.name, b.name) || (a.name == b.name && pid_lt(a.pid, b.pid))
}

/// `x` placed into the ordered `s` after every stream that does not come
/// after it.
pub open spec fn insert_stream(s: Seq<AudioStreamView>, x: AudioStreamView) -> Seq<
    AudioStreamView,
>
    decreases s.len(),
{
    if s.len() == 0 {
        seq![x]
    } else if stream_lt(x, s[0]) {
        seq![x] + s
    } else {
        seq![s[0]] + insert_stream(s.drop_first(), x)
    }
}

/// The streams in stable order by name and process id: what
/// `slice::sort_by` gives with that comparison.
pub open spec fn sort_streams(s: Seq<AudioStreamView>) -> Seq<AudioStreamView>
    decreases s.len(),
{
    if s.len() == 0 {
        seq![]
    } else {
        insert_stream(sort_streams(s.drop_last()), s.last())
    }
}

pub open spec fn streams_view(v: Seq<AudioStream>) -> Seq<AudioStreamView> {
    v.map_values(|s: AudioStream| s@)
}

/// Inserting before the first element that comes after `x`.
proof fn lemma_insert_stream_at(s: Seq<AudioStreamView>, x: AudioStreamView, j: int)
    requires
        0 <= j <= s.len(),
        forall|k: int| 0 <= k < j ==> !stream_lt(x, #[trigger] s[k]),
        j < s.len() ==> stream_lt(x, s[j]),
    ensures
        insert_stream(s, x) == s.take(j) + seq![x] + s.skip(j),
    decreases j,
{
    if s.len() == 0 {
        assert(s.take(j) + seq![x] + s.skip(j) =~= seq![x]);
    } else if j == 0 {
        assert(s.take(0) + seq![x] + s.skip(0) =~= seq![x] + s);
    } else {
        let t = s.drop_first();
        assert forall|k: int| 0 <= k < j - 1 implies !stream_lt(x, #[trigger] t[k]) by {
            assert(t[k] == s[k + 1]);
        }
        lemma_insert_stream_at(t, x, j - 1);
        assert(seq![s[0]] + (t.take(j - 1) + seq![x] + t.skip(j - 1)) =~= s.take(j) + seq![x]
            + s.skip(j));
    }
}

fn pid_lt_exec(a: Option<u32>, b: Option<u32>) -> (r: bool)
    ensures
        r == pid_lt(a, b),
{
    match (a, b) {
        (None, Some(_)) => true,
        (Some(x), Some(y)) => x < y,
        _ => false,
    }
}

fn stream_lt_exec(a: &AudioStream, b: &AudioStream) -> (r: bool)
    ensures
        r == stream_lt(a@, b@),
{
    let an = chars_of(a.name.as_str());
    let bn = chars_of(b.name.as_str());
    if seq_lt_exec(&an, &bn) {
        true
    } else {
        seq_eq(&an, &bn) && pid_lt_exec(a.pid, b.pid)
    }
}

/// The streams in the order the stream list shows them: stably sorted by
/// name, then by process id.
pub fn sort_stream_list(streams: &Vec<AudioStream>) -> (r: Vec<AudioStream>)
    ensures
        streams_view(r@) == sort_streams(streams_view(streams@)),
{
    let mut r: Vec<AudioStream> = Vec::new();
    let mut i: usize = 0;
    while i < streams.len()
        invariant
            i <= streams.len(),
            streams_view(r@) == sort_streams(streams_view(streams@).take(i as int)),
        decreases streams.len() - i,
    {
        let x = streams[i].duplicate();
        let mut j: usize = 0;
        while j < r.len() && !stream_lt_exec(&x, &r[j])
            invariant
                j <= r.len(),
                forall|k: int| 0 <= k < j ==> !stream_lt(x@, #[trigger] streams_view(r@)[k]),
            decreases r.len() - j,
        {
            j += 1;
        }
        let ghost before = streams_view(r@);
        proof {
            lemma_insert_stream_at(before, x@, j as int);
            let p = streams_view(streams@).take(i + 1);
            assert(p.drop_last() =~= streams_view(streams@).take(i as int));
            assert(p.last() == x@);
        }
        r.insert(j, x);
        assert(streams_view(r@) =~= before.take(j as int) + seq![x@] + before.skip(j as int));
        i += 1;
    }
    assert(streams_view(streams@).take(streams.len() as int) =~= streams_view(streams@));
    r
}

impl PipeWireManager {
    /// The active streams, given each listed stream's details: the list in
    /// display order.
    pub fn get_active_streams(&self, listed: &Vec<AudioStream>) -> (r: Vec<AudioStream>)
        ensures
            streams_view(r@) == sort_streams(streams_view(listed@)),
    {
        sort_stream_list(listed)
    }
}

} // verus!

verus! {

/// No stream of `s` comes before an earlier one.
pub open spec fn streams_ordered(s: Seq<AudioStreamView>) -> bool {
    forall|i: int, j: int| 0 <= i < j < s.len() ==> !stream_lt(#[trigger] s[j], #[trigger] s[i])
}

proof fn lemma_stream_lt_irreflexive(a: AudioStreamView)
    ensures
        !stream_lt(a, a),
{
    crate::audio::lemma_seq_lt_irreflexive(a.name);
}

proof fn lemma_stream_lt_transitive(a: AudioStreamView, b: AudioStreamView, c: AudioStreamView)
    requires
        stream_lt(a, b),
        stream_lt(b, c),
    ensures
        stream_lt(a, c),
{
    if seq_lt(a.name, b.name) && seq_lt(b.name, c.name) {
        crate::audio::lemma_seq_lt_transitive(a.name, b.name, c.name);
    }
}

proof fn lemma_insert_stream_multiset(s: Seq<AudioStreamView>, x: AudioStreamView)
    ensures
        insert_stream(s, x).to_multiset() == s.to_multiset().insert(x),
    decreases s.len(),
{
    broadcast use vstd::seq_lib::group_to_multiset_ensures;

    if s.len() == 0 {
        assert(insert_stream(s, x) =~= s.insert(0, x));
    } else if stream_lt(x, s[0]) {
        assert(insert_stream(s, x) =~= s.insert(0, x));
    } else {
        let rest = s.drop_first();
        lemma_insert_stream_multiset(rest, x);
        let t = insert_stream(rest, x);
        assert(insert_stream(s, x) =~= t.insert(0, s[0]));
        assert(s =~= rest.insert(0, s[0]));
        assert(t.insert(0, s[0]).to_multiset() == t.to_multiset().insert(s[0]));
        assert(rest.insert(0, s[0]).to_multiset() == rest.to_multiset().insert(s[0]));
        assert(rest.to_multiset().insert(x).insert(s[0]) =~= rest.to_multiset().insert(s[0]).insert(
            x,
        ));
    }
}

proof fn lemma_insert_stream_ordered(s: Seq<AudioStreamView>, x: AudioStreamView)
    requires
        streams_ordered(s),
    ensures
        streams_ordered(insert_stream(s, x)),
    decreases s.len(),
{
    broadcast use vstd::seq_lib::group_to_multiset_ensures;

    if s.len() == 0 {
    } else if stream_lt(x, s[0]) {
        let r = insert_stream(s, x);
        assert(r =~= seq![x] + s);
        assert forall|i: int, j: int| 0 <= i < j < r.len() implies !stream_lt(
            #[trigger] r[j],
            #[trigger] r[i],
        ) by {
            if i == 0 {
                if stream_lt(r[j], x) {
                    lemma_stream_lt_transitive(r[j], x, s[0]);
                    if j - 1 == 0 {
                        lemma_stream_lt_irreflexive(s[0]);
                    } else {
                        assert(!stream_lt(s[j - 1], s[0]));
                    }
                }
            } else {
                assert(r[i] == s[i - 1] && r[j] == s[j - 1]);
            }
        }
    } else {
        let rest = s.drop_first();
        assert(streams_ordered(rest)) by {
            assert forall|i: int, j: int| 0 <= i < j < rest.len() implies !stream_lt(
                #[trigger] rest[j],
                #[trigger] rest[i],
            ) by {
                assert(rest[i] == s[i + 1] && rest[j] == s[j + 1]);
            }
        }
        lemma_insert_stream_ordered(rest, x);
        lemma_insert_stream_multiset(rest, x);
        let t = insert_stream(rest, x);
        let r = insert_stream(s, x);
        assert(r =~= seq![s[0]] + t);
        assert forall|i: int, j: int| 0 <= i < j < r.len() implies !stream_lt(
            #[trigger] r[j],
            #[trigger] r[i],
        ) by {
            if i == 0 {
                let e = t[j - 1];
                assert(t.to_multiset().count(e) > 0);
                assert(rest.to_multiset().insert(x).count(e) > 0);
                if e != x {
                    assert(rest.to_multiset().count(e) > 0);
                    assert(rest.contains(e));
                    let k = choose|k: int| 0 <= k < rest.len() && rest[k] == e;
                    assert(s[k + 1] == e);
                }
            } else {
                assert(r[i] == t[i - 1] && r[j] == t[j - 1]);
            }
        }
    }
}

/// The stream list is in order and holds exactly the listed streams: no
/// stream comes before an earlier one by name and process id, and each
/// listed stream appears as often as it was listed.
pub proof fn lemma_sort_streams(s: Seq<AudioStreamView>)
    ensures
        streams_ordered(sort_streams(s)),
        sort_streams(s).to_multiset() == s.to_multiset(),
    decreases s.len(),
{
    broadcast use vstd::seq_lib::group_to_multiset_ensures;

    if s.len() == 0 {
        assert(sort_streams(s) =~= s);
    } else {
        lemma_sort_streams(s.drop_last());
        lemma_insert_stream_ordered(sort_streams(s.drop_last()), s.last());
        lemma_insert_stream_multiset(sort_streams(s.drop_last()), s.last());
        assert(s =~= s.drop_last().push(s.last()));
    }
}

} // verus!

verus! {

/// Volumes sent to `pactl` never exceed 150%, a volume step lands in
/// `0..=150`, and volumes already in range are sent as they are.
pub proof fn lemma_volume_bounds(current: u32, delta: i32, volume: u32)
    ensures
        clamp_volume(volume) <= 150,
        volume <= 150 ==> clamp_volume(volume) == volume,
        adjusted_volume(current, delta) <= 150,
{
}

/// Muting twice restores the mute state: a toggle sends the opposite of the
/// state it read.
pub proof fn lemma_toggle_twice(current: bool)
    ensures
        !(!current) == current,
        mute_arg(!current) != mute_arg(current),
{
    reveal_strlit("1");
    reveal_strlit("0");
    assert("1"@[0] != "0"@[0]);
}

} // verus!

verus! {

proof fn lemma_first_percent_at(ws: Seq<Seq<char>>, i: int, k: int)
    requires
        0 <= i <= k < ws.len(),
        percent_value(ws[k]) is Some,
        forall|j: int| 0 <= j < k ==> percent_value(#[trigger] ws[j]) is None,
    ensures
        first_percent_from(ws, i) == percent_value(ws[k]),
    decreases k - i,
{
    if i < k {
        lemma_first_percent_at(ws, i + 1, k);
    }
}

proof fn lemma_no_percent(ws: Seq<Seq<char>>, i: int)
    requires
        0 <= i <= ws.len(),
        forall|j: int| 0 <= j < ws.len() ==> percent_value(#[trigger] ws[j]) is None,
    ensures
        first_percent_from(ws, i) is None,
    decreases ws.len() - i,
{
    if i < ws.len() {
        lemma_no_percent(ws, i + 1);
    }
}

/// The volume read from `pactl` output is the first whitespace-separated
/// field that writes a percentage, whatever percentages follow it (the
/// left channel of a stereo device), and 100 where no field does.
pub proof fn lemma_volume_is_first_percent(s: Seq<char>, k: int, v: u32)
    ensures
        0 <= k < words(s).len() && percent_value(words(s)[k]) == Some(v) && (forall|j: int|
            0 <= j < k ==> percent_value(#[trigger] words(s)[j]) is None) ==> percent_or_default(s)
            == v,
        (forall|j: int| 0 <= j < words(s).len() ==> percent_value(#[trigger] words(s)[j]) is None)
            ==> percent_or_default(s) == 100,
{
    let ws = words(s);
    if 0 <= k < ws.len() && percent_value(ws[k]) == Some(v) && (forall|j: int|
        0 <= j < k ==> percent_value(#[trigger] ws[j]) is None) {
        lemma_first_percent_at(ws, 0, k);
    }
    if forall|j: int| 0 <= j < ws.len() ==> percent_value(#[trigger] ws[j]) is None {
        lemma_no_percent(ws, 0);
    }
}

proof fn lemma_details_prefix(ls: Seq<Seq<char>>, raw: Seq<char>, n: int, node_id: u32)
    requires
        0 <= n <= ls.len(),
    ensures
        details_upto(ls.push(raw), n, node_id) == details_upto(ls, n, node_id),
    decreases n,
{
    if n > 0 {
        lemma_details_prefix(ls, raw, n - 1, node_id);
        assert(ls.push(raw)[n - 1] == ls[n - 1]);
    }
}

/// Two markers that differ at position `i` cannot both begin a line.
proof fn lemma_not_both_prefixes(a: Seq<char>, b: Seq<char>, line: Seq<char>, i: int)
    requires
        0 <= i < a.len(),
        i < b.len(),
        a[i] != b[i],
        a.is_prefix_of(line),
    ensures
        !b.is_prefix_of(line),
{
    assert(line[i] == a[i]);
    if b.is_prefix_of(line) {
        assert(line[i] == b[i]);
    }
}

/// Reading `pactl list sink-inputs` for a stream: once its section has
/// given it a media name, a later `media.name` line in the section does
/// not replace it, while a later non-empty `media.title` line does; so the
/// media name is that of the last non-empty title line where there is one.
pub proof fn lemma_media_title_wins(ls: Seq<Seq<char>>, raw: Seq<char>, node_id: u32)
    requires
        details_upto(ls, ls.len() as int, node_id).0 == Some(node_id),
    ensures
        ({
            let before = details_upto(ls, ls.len() as int, node_id).1;
            let after = details_upto(ls.push(raw), ls.len() + 1int, node_id);
            let line = trim(raw);
            &&& media_name_marker().is_prefix_of(line) && before.media_name is Some ==> after.1.media_name
                == before.media_name && after.0 == Some(node_id)
            &&& media_title_marker().is_prefix_of(line) && property_value(line, media_title_marker()).len()
                > 0 ==> after.1.media_name == Some(property_value(line, media_title_marker()))
                && after.0 == Some(node_id)
        }),
{
    lemma_details_prefix(ls, raw, ls.len() as int, node_id);
    let line = trim(raw);
    reveal_strlit("Sink Input #");
    reveal_strlit("application.name = ");
    reveal_strlit("application.process.id = ");
    reveal_strlit("media.title = ");
    reveal_strlit("media.name = ");
    if media_name_marker().is_prefix_of(line) {
        lemma_not_both_prefixes(media_name_marker(), sink_input_marker(), line, 0);
        lemma_not_both_prefixes(media_name_marker(), app_name_marker(), line, 0);
        lemma_not_both_prefixes(media_name_marker(), pid_marker(), line, 0);
        lemma_not_both_prefixes(media_name_marker(), media_title_marker(), line, 6);
    }
    if media_title_marker().is_prefix_of(line) {
        lemma_not_both_prefixes(media_title_marker(), sink_input_marker(), line, 0);
        lemma_not_both_prefixes(media_title_marker(), app_name_marker(), line, 0);
        lemma_not_both_prefixes(media_title_marker(), pid_marker(), line, 0);
        lemma_not_both_prefixes(media_title_marker(), media_name_marker(), line, 6);
    }
}

} // verus!
