use magic_audio_control::actions::volume_control::{
    appear_volume, inspector_button_name, knob_rotation, knob_target, knob_volume, linked_button,
    rotation_delta, settle_knob_volume, with_volume, DialState, VolumeControlSettings,
};
use magic_audio_control::audio::AudioTarget;
use magic_audio_control::shared_state::{is_button_unlocked, unlock_button, ButtonLockStates};
use magic_audio_control::constants::MASTER_NODE_ID;
use magic_audio_control::pipewire::AudioStream;
use magic_audio_control::shared_state::{save_selection, ButtonInfo, SharedState, StreamSelection};
use magic_audio_control::store::KeyMap;
use magic_audio_control::volume_monitor::{
    active_stream_ids, display_changed, first_blank_button, forget_cached, in_cooldown,
    knob_poll, newly_detected_stream, note_knob_display, poll_streams, touch_knob,
    update_cached_display_state, update_cached_volume, vanished_buttons, CooldownMap, KnobPoll,
    StreamDiscovery, VolumeCache,
};
use magic_audio_control::shared_state::{load_selection, register_button};

fn stream(node_id: u32, name: &str) -> AudioStream {
    AudioStream { node_id, pid: None, name: name.to_string(), app_name: None, media_name: None }
}

fn button(link_id: &str, instance_id: &str) -> ButtonInfo {
    ButtonInfo { link_id: link_id.to_string(), instance_id: instance_id.to_string(), current_name: None }
}

fn select(state: &mut SharedState, link_id: &str, node_id: u32) {
    save_selection(
        state,
        link_id,
        &StreamSelection { node_id, name: format!("n{node_id}"), app_name: None, media_name: None },
    );
}

#[test]
fn default_knob_settings() {
    let s = VolumeControlSettings::default();
    assert_eq!(s.increment, 5);
    assert_eq!(s.current_volume, 0);
    assert_eq!(s.pre_mute_volume, 0);
    assert!(s.link_id.is_none());
}

#[test]
fn knob_link_must_not_be_empty() {
    let mut s = VolumeControlSettings::default();
    assert!(linked_button(&s).is_none());
    s.link_id = Some(String::new());
    assert!(linked_button(&s).is_none());
    s.link_id = Some("btn-1-1".to_string());
    assert_eq!(linked_button(&s).as_deref(), Some("btn-1-1"));
}

#[test]
fn inspector_names_unused_buttons() {
    let mut b = button("btn-0-0", "i");
    assert_eq!(inspector_button_name(&b), "Unused");
    b.current_name = Some("Firefox".to_string());
    assert_eq!(inspector_button_name(&b), "Firefox");
}

#[test]
fn press_keeps_settings_but_volume() {
    let s = VolumeControlSettings { link_id: Some("l".to_string()), current_volume: 3, pre_mute_volume: 9, increment: 7 };
    let t = with_volume(&s, 44);
    assert_eq!(t.current_volume, 44);
    assert_eq!(t.pre_mute_volume, 9);
    assert_eq!(t.increment, 7);
    assert_eq!(t.link_id.as_deref(), Some("l"));
}

#[test]
fn rotation_steps_are_held_to_range() {
    assert_eq!(rotation_delta(3, 5), 15);
    assert_eq!(rotation_delta(-2, 0), -2);
    assert_eq!(rotation_delta(2, 50), 40);
    assert_eq!(rotation_delta(0, 7), 0);
}

#[test]
fn knob_volumes_are_held_to_range() {
    assert_eq!(knob_volume(0), 1);
    assert_eq!(knob_volume(55), 55);
    assert_eq!(knob_volume(150), 100);
    assert_eq!(appear_volume(Some(0), 40), 1);
    assert_eq!(appear_volume(None, 40), 40);
    assert_eq!(appear_volume(Some(120), 40), 120);
    assert_eq!(appear_volume(None, 0), 1);
}

#[test]
fn dial_bursts_are_summed() {
    let mut d = DialState::new(1000);
    assert_eq!(d.rotate(1010, 1), None);
    assert_eq!(d.rotate(1040, 2), None);
    assert_eq!(d.accumulated_ticks, 3);
    assert_eq!(d.rotate(1200, -1), Some(2));
    assert_eq!(d.accumulated_ticks, 0);
    assert_eq!(d.last_rotation_ms, 1200);
    assert_eq!(d.rotate(1251, 4), Some(4));
    assert_eq!(d.rotate(1301, 1), None);
}

#[test]
fn cache_notes_volume_and_mute() {
    let mut cache: VolumeCache = KeyMap::new();
    assert!(display_changed(&cache, 7, 50, false, "A"));
    update_cached_volume(&mut cache, 7, 50, "A");
    assert!(!display_changed(&cache, 7, 50, false, "A"));
    assert!(display_changed(&cache, 7, 51, false, "A"));
    assert!(display_changed(&cache, 7, 50, false, "B"));
    update_cached_display_state(&mut cache, 7, 50, true, "A");
    assert!(!display_changed(&cache, 7, 50, true, "A"));
    update_cached_volume(&mut cache, 7, 60, "A");
    assert!(!display_changed(&cache, 7, 60, true, "A"));
    forget_cached(&mut cache, 7);
    assert!(display_changed(&cache, 7, 60, true, "A"));
}

#[test]
fn knobs_cool_down_after_a_touch() {
    let mut cooldown: CooldownMap = KeyMap::new();
    assert!(!in_cooldown(&cooldown, "k", 10_000));
    touch_knob(&mut cooldown, "k", 10_000);
    assert!(in_cooldown(&cooldown, "k", 10_000));
    assert!(in_cooldown(&cooldown, "k", 12_999));
    assert!(!in_cooldown(&cooldown, "k", 13_000));
    assert!(in_cooldown(&cooldown, "k", 5));
    assert!(!in_cooldown(&cooldown, "other", 10_000));
}

#[test]
fn stream_ids_listed() {
    assert_eq!(active_stream_ids(&vec![stream(3, "a"), stream(9, "b")]), vec![3, 9]);
}

#[test]
fn new_stream_detected_after_first_look() {
    let streams = vec![stream(3, "a"), stream(9, "b"), stream(5, "c")];
    assert!(newly_detected_stream(&streams, &vec![], false).is_none());
    assert!(newly_detected_stream(&streams, &vec![3, 5, 9], true).is_none());
    assert_eq!(newly_detected_stream(&streams, &vec![9], true).unwrap().node_id, 5);
    assert_eq!(newly_detected_stream(&streams, &vec![], true).unwrap().node_id, 9);
}

#[test]
fn vanished_stream_buttons_are_blanked_once() {
    let mut state = SharedState::new();
    select(&mut state, "btn-0-0", 10);
    select(&mut state, "btn-0-1", 11);
    select(&mut state, "btn-0-2", MASTER_NODE_ID);
    let buttons = vec![
        button("btn-0-0", "a"),
        button("btn-0-1", "b"),
        button("btn-0-0", "c"),
        button("btn-0-2", "d"),
        button("btn-0-3", "e"),
    ];
    let v = vanished_buttons(&buttons, &state, &vec![11]);
    assert_eq!(v.len(), 1);
    assert_eq!(v[0].0, "btn-0-0");
    assert_eq!(v[0].1.node_id, 10);
    assert!(vanished_buttons(&buttons, &state, &vec![10, 11]).is_empty());
}

#[test]
fn first_blank_button_by_link_id() {
    let mut state = SharedState::new();
    select(&mut state, "btn-0-0", 10);
    let buttons = vec![button("btn-2-0", "x"), button("btn-0-0", "a"), button("btn-1-5", "y")];
    assert_eq!(first_blank_button(&buttons, &state).unwrap().instance_id, "y");
    select(&mut state, "btn-1-5", 12);
    select(&mut state, "btn-2-0", 13);
    assert!(first_blank_button(&buttons, &state).is_none());
}

#[test]
fn poll_blanks_vanished_and_assigns_new_stream() {
    let mut state = SharedState::new();
    let mut cache: VolumeCache = KeyMap::new();
    let mut discovery = StreamDiscovery::new();
    register_button(&mut state, "btn-0-0", "a", Some("n10"));
    register_button(&mut state, "btn-0-1", "b", Some("n11"));
    select(&mut state, "btn-0-0", 10);
    select(&mut state, "btn-0-1", 11);
    update_cached_display_state(&mut cache, 10, 40, false, "t");
    let buttons = vec![button("btn-0-0", "a"), button("btn-0-1", "b")];

    // First look: nothing is new yet, both streams are there.
    let out = poll_streams(&mut state, &mut cache, &mut discovery, &buttons, &vec![stream(10, "x"), stream(11, "y")]);
    assert!(out.vanished.is_empty());
    assert!(out.assignment.is_none());
    assert!(discovery.initialized);
    assert_eq!(discovery.known, vec![10, 11]);

    // Stream 10 went away and stream 12 appeared: the button of 10 is blanked
    // and then gets stream 12.
    let out = poll_streams(&mut state, &mut cache, &mut discovery, &buttons, &vec![stream(11, "y"), stream(12, "z")]);
    assert_eq!(out.vanished.len(), 1);
    assert_eq!(out.vanished[0].0, "btn-0-0");
    assert_eq!(out.vanished[0].1.node_id, 10);
    assert!(load_selection(&state, "btn-0-0").is_none());
    assert!(display_changed(&cache, 10, 40, false, "t"));
    let (b, s) = out.assignment.unwrap();
    assert_eq!(b.link_id, "btn-0-0");
    assert_eq!(s.node_id, 12);
    assert_eq!(discovery.known, vec![11, 12]);
}

#[test]
fn knob_poll_steps() {
    let mut state = SharedState::new();
    let mut cooldown: CooldownMap = KeyMap::new();
    assert!(matches!(knob_poll(&state, &cooldown, &vec![], "k", "btn-0-0", 100), KnobPoll::Blank));
    select(&mut state, "btn-0-0", 10);
    match knob_poll(&state, &cooldown, &vec![], "k", "btn-0-0", 100) {
        KnobPoll::Refresh(s) => assert_eq!(s.node_id, 10),
        _ => panic!("expected a refresh"),
    }
    touch_knob(&mut cooldown, "k", 100);
    assert!(matches!(knob_poll(&state, &cooldown, &vec![], "k", "btn-0-0", 2000), KnobPoll::CoolingDown));
    assert!(matches!(knob_poll(&state, &cooldown, &vec![], "k", "btn-0-0", 3100), KnobPoll::Refresh(_)));
    let blanked = vec![(
        "btn-0-0".to_string(),
        StreamSelection { node_id: 9, name: "old".to_string(), app_name: None, media_name: None },
    )];
    assert!(matches!(knob_poll(&state, &cooldown, &blanked, "k", "btn-0-0", 3100), KnobPoll::JustBlanked));
    assert!(matches!(knob_poll(&state, &cooldown, &blanked, "k", "btn-0-1", 3100), KnobPoll::Blank));
}

#[test]
fn knob_display_noted_when_new() {
    let mut cache: VolumeCache = KeyMap::new();
    assert!(note_knob_display(&mut cache, 3, 50, false, "A"));
    assert!(!note_knob_display(&mut cache, 3, 50, false, "A"));
    assert!(note_knob_display(&mut cache, 3, 50, true, "A"));
    assert!(!display_changed(&cache, 3, 50, true, "A"));
}

#[test]
fn knob_use_locks_its_button() {
    let mut state = SharedState::new();
    let mut locks = ButtonLockStates::new();
    unlock_button(&mut locks, "btn-0-0", 10);
    let mut settings = VolumeControlSettings::default();
    assert!(knob_target(&mut locks, &state, &settings).is_none());
    assert!(is_button_unlocked(&locks, "btn-0-0"));
    settings.link_id = Some("btn-0-0".to_string());
    assert!(knob_target(&mut locks, &state, &settings).is_none());
    assert!(!is_button_unlocked(&locks, "btn-0-0"));
    select(&mut state, "btn-0-0", 10);
    let (link, selection) = knob_target(&mut locks, &state, &settings).unwrap();
    assert_eq!(link, "btn-0-0");
    assert_eq!(selection.node_id, 10);
}

#[test]
fn muted_knob_turn_leaves_dial() {
    let mut dial: Option<DialState> = None;
    assert_eq!(knob_rotation(&mut dial, true, 100, 3, 5), None);
    assert!(dial.is_none());
    assert_eq!(knob_rotation(&mut dial, false, 100, 3, 5), None);
    assert_eq!(dial.as_ref().unwrap().accumulated_ticks, 3);
    assert_eq!(knob_rotation(&mut dial, true, 500, 1, 5), None);
    assert_eq!(dial.as_ref().unwrap().accumulated_ticks, 3);
    assert_eq!(knob_rotation(&mut dial, false, 500, 1, 5), Some(20));
    assert_eq!(knob_rotation(&mut dial, false, 600, -2, 30), Some(-40));
}

#[test]
fn knob_volume_set_again_only_when_held() {
    assert_eq!(settle_knob_volume(AudioTarget::Master, 50), (50, None));
    let (v, args) = settle_knob_volume(AudioTarget::Stream(7), 120);
    assert_eq!(v, 100);
    assert_eq!(args.unwrap(), vec!["set-sink-input-volume", "7", "100%"]);
    let (v, args) = settle_knob_volume(AudioTarget::Mic, 0);
    assert_eq!(v, 1);
    assert_eq!(args.unwrap(), vec!["set-source-volume", "@DEFAULT_SOURCE@", "1%"]);
}
