use magic_audio_control::shared_state::{
    ButtonLockState, ButtonLockStates, KnobInfo, SharedState, StreamSelection,
};
use magic_audio_control::shared_state::{linked_button_instances, register_button};
use magic_audio_control::state::StateRepo;
use magic_audio_control::store::{KeyMap, StrMap};

fn selection(node_id: u32, name: &str) -> StreamSelection {
    StreamSelection { node_id, name: name.to_string(), app_name: Some("App".to_string()), media_name: None }
}

#[test]
fn saved_selection_is_loaded_back() {
    let mut state = SharedState::new();
    assert!(StateRepo::load_selection(&state, "btn-1-1").is_none());
    StateRepo::save_selection(&mut state, "btn-1-1", &selection(42, "Firefox"));
    StateRepo::save_selection(&mut state, "btn-2-2", &selection(7, "VLC"));
    let s = StateRepo::load_selection(&state, "btn-1-1").unwrap();
    assert_eq!(s.node_id, 42);
    assert_eq!(s.name, "Firefox");
    assert_eq!(s.app_name.as_deref(), Some("App"));
    StateRepo::save_selection(&mut state, "btn-1-1", &selection(43, "Chrome"));
    assert_eq!(StateRepo::load_selection(&state, "btn-1-1").unwrap().node_id, 43);
    StateRepo::clear_selection(&mut state, "btn-1-1");
    assert!(StateRepo::load_selection(&state, "btn-1-1").is_none());
    assert_eq!(StateRepo::load_selection(&state, "btn-2-2").unwrap().node_id, 7);
}

#[test]
fn default_selection_is_empty() {
    let s = StreamSelection::default();
    assert_eq!(s.node_id, 0);
    assert_eq!(s.name, "");
    assert!(s.app_name.is_none() && s.media_name.is_none());
}

#[test]
fn buttons_are_registered_renamed_and_found() {
    let mut state = SharedState::new();
    StateRepo::register_button(&mut state, "btn-0-1", "inst-a", Some("Firefox"));
    StateRepo::register_button(&mut state, "btn-0-2", "inst-b", None);
    assert_eq!(StateRepo::find_button_link_id(&state, "inst-b").as_deref(), Some("btn-0-2"));
    assert!(StateRepo::find_button_link_id(&state, "inst-z").is_none());
    assert!(StateRepo::update_button_name(&mut state, "btn-0-2", Some("VLC")));
    assert!(!StateRepo::update_button_name(&mut state, "btn-9-9", Some("X")));
    let mut buttons = StateRepo::get_all_buttons(&state);
    buttons.sort_by(|a, b| a.link_id.cmp(&b.link_id));
    assert_eq!(buttons.len(), 2);
    assert_eq!(buttons[1].instance_id, "inst-b");
    assert_eq!(buttons[1].current_name.as_deref(), Some("VLC"));
    assert_eq!(buttons[0].current_name.as_deref(), Some("Firefox"));
    StateRepo::unregister_button(&mut state, "btn-0-1");
    assert!(StateRepo::find_button_link_id(&state, "inst-a").is_none());
    assert_eq!(StateRepo::get_all_buttons(&state).len(), 1);
}

#[test]
fn knobs_follow_their_buttons() {
    let mut state = SharedState::new();
    StateRepo::register_knob(&mut state, "k1", "btn-0-1");
    StateRepo::register_knob(&mut state, "k2", "btn-0-2");
    StateRepo::register_knob(&mut state, "k3", "btn-0-1");
    let mut linked = StateRepo::get_knobs_for_button(&state, "btn-0-1");
    linked.sort();
    assert_eq!(linked, vec!["k1", "k3"]);
    assert!(StateRepo::get_knobs_for_button(&state, "btn-5-5").is_empty());
    StateRepo::unregister_knob(&mut state, "k1");
    assert_eq!(StateRepo::get_knobs_for_button(&state, "btn-0-1"), vec!["k3"]);
    let mut all: Vec<KnobInfo> = StateRepo::get_all_knobs(&state);
    all.sort_by(|a, b| a.instance_id.cmp(&b.instance_id));
    assert_eq!(all.len(), 2);
    assert_eq!(all[0].linked_button, "btn-0-2");
}

#[test]
fn runtime_registrations_are_cleared_but_selections_kept() {
    let mut state = SharedState::new();
    StateRepo::save_selection(&mut state, "btn-0-1", &selection(42, "Firefox"));
    StateRepo::register_button(&mut state, "btn-0-1", "inst-a", None);
    StateRepo::register_knob(&mut state, "k1", "btn-0-1");
    StateRepo::clear_runtime_registrations(&mut state);
    assert!(StateRepo::get_all_buttons(&state).is_empty());
    assert!(StateRepo::get_all_knobs(&state).is_empty());
    assert!(StateRepo::load_selection(&state, "btn-0-1").is_some());
}

#[test]
fn unknown_button_is_locked() {
    let states = ButtonLockStates::new();
    let s: ButtonLockState = StateRepo::get_button_lock_state(&states, "btn");
    assert!(!s.is_unlocked);
    assert!(s.press_start.is_none() && s.unlock_expires.is_none() && s.current_icon.is_none());
    assert!(!StateRepo::is_button_unlocked(&states, "btn"));
    assert!(StateRepo::get_button_icon(&states, "btn").is_none());
}

#[test]
fn press_start_is_taken_once() {
    let mut states = ButtonLockStates::new();
    assert_eq!(StateRepo::clear_press_start(&mut states, "btn"), None);
    StateRepo::record_press_start(&mut states, "btn", 1234);
    assert_eq!(StateRepo::get_button_lock_state(&states, "btn").press_start, Some(1234));
    assert_eq!(StateRepo::clear_press_start(&mut states, "btn"), Some(1234));
    assert_eq!(StateRepo::clear_press_start(&mut states, "btn"), None);
}

#[test]
fn unlock_lock_and_refresh() {
    let mut states = ButtonLockStates::new();
    StateRepo::refresh_unlock_timer(&mut states, "btn", 10);
    assert!(!StateRepo::is_button_unlocked(&states, "btn"));
    StateRepo::unlock_button(&mut states, "btn", 1000);
    assert!(StateRepo::is_button_unlocked(&states, "btn"));
    assert_eq!(StateRepo::get_button_lock_state(&states, "btn").unlock_expires, Some(6000));
    StateRepo::refresh_unlock_timer(&mut states, "btn", 3000);
    assert_eq!(StateRepo::get_button_lock_state(&states, "btn").unlock_expires, Some(8000));
    StateRepo::lock_button(&mut states, "btn");
    assert!(!StateRepo::is_button_unlocked(&states, "btn"));
    assert_eq!(StateRepo::get_button_lock_state(&states, "btn").unlock_expires, None);
    StateRepo::refresh_unlock_timer(&mut states, "btn", 4000);
    assert_eq!(StateRepo::get_button_lock_state(&states, "btn").unlock_expires, None);
}

#[test]
fn icon_is_noted_only_for_known_buttons() {
    let mut states = ButtonLockStates::new();
    StateRepo::update_button_icon(&mut states, "btn", "data:a".to_string());
    assert!(StateRepo::get_button_icon(&states, "btn").is_none());
    StateRepo::record_press_start(&mut states, "btn", 5);
    StateRepo::update_button_icon(&mut states, "btn", "data:b".to_string());
    assert_eq!(StateRepo::get_button_icon(&states, "btn").as_deref(), Some("data:b"));
    StateRepo::lock_button(&mut states, "other");
    assert!(!StateRepo::is_button_unlocked(&states, "other"));
}

#[test]
fn key_map_insert_get_remove() {
    let mut m: StrMap<u64> = KeyMap::new();
    m.insert(&"a".to_string(), 1);
    m.insert(&"b".to_string(), 2);
    m.insert(&"a".to_string(), 3);
    assert_eq!(m.get(&"a".to_string()), Some(3));
    assert!(m.contains_key(&"b".to_string()));
    m.remove(&"b".to_string());
    assert!(!m.contains_key(&"b".to_string()));
    assert_eq!(m.values(), vec![3]);
    let pairs = m.to_pairs();
    assert_eq!(pairs, vec![("a".to_string(), 3)]);
    let back: StrMap<u64> = KeyMap::from_pairs(vec![("x".to_string(), 1), ("x".to_string(), 2)]);
    assert_eq!(back.get(&"x".to_string()), Some(2));
    m.clear();
    assert!(m.values().is_empty());
}

#[test]
fn instances_of_a_button() {
    let mut state = SharedState::new();
    register_button(&mut state, "btn-0-1", "inst-a", None);
    register_button(&mut state, "btn-0-2", "inst-b", None);
    assert_eq!(linked_button_instances(&state, "btn-0-1"), vec!["inst-a"]);
    assert!(linked_button_instances(&state, "btn-9-9").is_empty());
}

#[test]
fn map_entries_read_back_to_the_same_map() {
    let mut m: StrMap<u64> = KeyMap::new();
    m.insert(&"b".to_string(), 2);
    m.insert(&"a".to_string(), 1);
    m.insert(&"c".to_string(), 3);
    let back: StrMap<u64> = KeyMap::from_pairs(m.to_pairs());
    for k in ["a", "b", "c", "d"] {
        assert_eq!(back.get(&k.to_string()), m.get(&k.to_string()));
    }
    assert_eq!(back.values().len(), 3);
}
