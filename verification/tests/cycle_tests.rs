use magic_audio_control::actions::cycle_audio_stream::{
    appear_button, apply_selection_state, blank_button_state, blank_settings, effective_node_id,
    effective_selection, flash_step, key_up_action, next_cycle_step, resolve_link_id,
    selected_settings, selection_from_settings, settings_icon_query, vanished_settings,
    with_link_id, AppearStep, CycleAudioStreamSettings, CycleStep, FlashStep, KeyUpAction,
};
use magic_audio_control::audio::AudioTarget;
use magic_audio_control::constants::{MASTER_NODE_ID, MIC_NODE_ID};
use magic_audio_control::pipewire::AudioStream;
use magic_audio_control::shared_state::{
    load_selection, register_button, ButtonLockState, SharedState, StreamSelection,
};
use magic_audio_control::state::StateRepo;

fn stream(node_id: u32, name: &str) -> AudioStream {
    AudioStream {
        node_id,
        pid: None,
        name: name.to_string(),
        app_name: Some(name.to_string()),
        media_name: Some("media".to_string()),
    }
}

fn settings_for(node_id: Option<u32>, name: Option<&str>, blank: bool) -> CycleAudioStreamSettings {
    CycleAudioStreamSettings {
        link_id: None,
        current_node_id: node_id,
        current_name: name.map(|s| s.to_string()),
        current_app_name: None,
        is_blank: blank,
    }
}

fn selected(step: CycleStep) -> Option<(u32, String)> {
    match step {
        CycleStep::Blank => None,
        CycleStep::Select(s) => Some((s.node_id, s.name)),
    }
}

#[test]
fn cycle_goes_blank_master_mic_streams_blank() {
    let streams = vec![stream(10, "A"), stream(20, "B")];
    assert_eq!(selected(next_cycle_step(None, &streams)), Some((MASTER_NODE_ID, "Master".to_string())));
    assert_eq!(selected(next_cycle_step(Some(MASTER_NODE_ID), &streams)), Some((MIC_NODE_ID, "Mic".to_string())));
    assert_eq!(selected(next_cycle_step(Some(MIC_NODE_ID), &streams)), Some((10, "A".to_string())));
    assert_eq!(selected(next_cycle_step(Some(10), &streams)), Some((20, "B".to_string())));
    assert_eq!(selected(next_cycle_step(Some(20), &streams)), None);
    assert_eq!(selected(next_cycle_step(Some(99), &streams)), None);
    assert_eq!(selected(next_cycle_step(Some(MIC_NODE_ID), &vec![])), None);
}

#[test]
fn cycle_selection_keeps_stream_names() {
    match next_cycle_step(Some(MIC_NODE_ID), &vec![stream(10, "A")]) {
        CycleStep::Select(s) => {
            assert_eq!(s.app_name.as_deref(), Some("A"));
            assert_eq!(s.media_name.as_deref(), Some("media"));
        }
        CycleStep::Blank => panic!("expected a selection"),
    }
    match next_cycle_step(None, &vec![]) {
        CycleStep::Select(s) => assert_eq!(s.app_name.as_deref(), Some("Master")),
        CycleStep::Blank => panic!("expected a selection"),
    }
}

#[test]
fn key_up_decisions() {
    assert_eq!(key_up_action(true, None, 0, false), KeyUpAction::AssignRecentAndUnlock);
    assert_eq!(key_up_action(true, Some(0), 5000, true), KeyUpAction::Cycle);
    assert_eq!(key_up_action(false, Some(1000), 2000, false), KeyUpAction::Unlock);
    assert_eq!(key_up_action(false, Some(1000), 1999, false), KeyUpAction::ToggleMute);
    assert_eq!(key_up_action(false, Some(1000), 5000, true), KeyUpAction::Cycle);
    assert_eq!(key_up_action(false, None, 5000, false), KeyUpAction::ToggleMute);
    assert_eq!(key_up_action(false, Some(5000), 10, false), KeyUpAction::ToggleMute);
}

#[test]
fn flash_steps() {
    let mut lock = ButtonLockState::default();
    assert_eq!(flash_step(&lock, 100, false), FlashStep::Restore);
    lock.is_unlocked = true;
    lock.unlock_expires = Some(1000);
    assert_eq!(flash_step(&lock, 999, false), FlashStep::Flash { is_light: true });
    assert_eq!(flash_step(&lock, 999, true), FlashStep::Flash { is_light: false });
    assert_eq!(flash_step(&lock, 1000, true), FlashStep::LockAndRestore);
    lock.unlock_expires = None;
    assert_eq!(flash_step(&lock, 1_000_000, true), FlashStep::Flash { is_light: false });
}

#[test]
fn settings_describe_a_selection() {
    assert!(selection_from_settings(&settings_for(None, Some("x"), false)).is_none());
    let s = selection_from_settings(&settings_for(Some(MASTER_NODE_ID), None, false)).unwrap();
    assert_eq!(s.name, "Master");
    let s = selection_from_settings(&settings_for(Some(MIC_NODE_ID), None, false)).unwrap();
    assert_eq!(s.name, "Mic");
    let s = selection_from_settings(&settings_for(Some(31), None, false)).unwrap();
    assert_eq!(s.name, "Stream 31");
    let s = selection_from_settings(&settings_for(Some(31), Some("VLC"), false)).unwrap();
    assert_eq!(s.name, "VLC");
    assert!(s.media_name.is_none());
}

#[test]
fn effective_selection_prefers_saved_one() {
    let mut state = SharedState::new();
    let settings = settings_for(Some(31), Some("VLC"), false);
    assert_eq!(effective_node_id(&state, "btn-0-0", &settings), Some(31));
    StateRepo::save_selection(
        &mut state,
        "btn-0-0",
        &StreamSelection { node_id: 5, name: "Other".to_string(), app_name: None, media_name: None },
    );
    assert_eq!(effective_selection(&state, "btn-0-0", &settings).unwrap().name, "Other");
    let blank = settings_for(Some(31), Some("VLC"), true);
    assert_eq!(effective_node_id(&state, "btn-0-0", &blank), None);
}

#[test]
fn link_id_is_resolved() {
    let mut state = SharedState::new();
    let mut settings = CycleAudioStreamSettings::default();
    assert_eq!(resolve_link_id(&state, &settings, "inst", Some((1, 2))), "btn-1-2");
    assert_eq!(resolve_link_id(&state, &settings, "inst", None), "btn-inst");
    register_button(&mut state, "btn-7-7", "inst", None);
    assert_eq!(resolve_link_id(&state, &settings, "inst", Some((1, 2))), "btn-7-7");
    settings.link_id = Some("mine".to_string());
    assert_eq!(resolve_link_id(&state, &settings, "inst", Some((1, 2))), "mine");
}

#[test]
fn icon_query_from_settings() {
    assert_eq!(settings_icon_query(&settings_for(Some(1), Some("x"), true)), None);
    assert_eq!(settings_icon_query(&settings_for(None, Some("x"), false)), None);
    assert_eq!(settings_icon_query(&settings_for(Some(MASTER_NODE_ID), None, false)).as_deref(), Some("mdi:volume-high"));
    let mut s = settings_for(Some(12), Some("Firefox"), false);
    assert_eq!(settings_icon_query(&s).as_deref(), Some("Firefox"));
    s.current_app_name = Some("firefox-bin".to_string());
    assert_eq!(settings_icon_query(&s).as_deref(), Some("firefox-bin"));
}

#[test]
fn settings_builders() {
    let b = blank_settings("btn-1-1");
    assert!(b.is_blank && b.current_node_id.is_none());
    assert_eq!(b.link_id.as_deref(), Some("btn-1-1"));
    let sel = StreamSelection { node_id: 4, name: "A".to_string(), app_name: Some("App".to_string()), media_name: None };
    let s = selected_settings("btn-1-1", &sel);
    assert!(!s.is_blank);
    assert_eq!(s.current_node_id, Some(4));
    assert_eq!(s.current_name.as_deref(), Some("A"));
    assert_eq!(s.current_app_name.as_deref(), Some("App"));
    let v = vanished_settings("btn-1-1", &sel);
    assert!(v.is_blank);
    assert_eq!(v.current_node_id, Some(4));
    let w = with_link_id(&settings_for(Some(3), None, false), "btn-9-9");
    assert_eq!(w.link_id.as_deref(), Some("btn-9-9"));
    assert_eq!(w.current_node_id, Some(3));
}

#[test]
fn selection_applied_and_blanked() {
    let mut state = SharedState::new();
    register_button(&mut state, "btn-0-1", "inst", None);
    let sel = StreamSelection { node_id: 4, name: "A".to_string(), app_name: None, media_name: None };
    apply_selection_state(&mut state, "btn-0-1", &sel);
    assert_eq!(load_selection(&state, "btn-0-1").unwrap().node_id, 4);
    assert_eq!(StateRepo::get_all_buttons(&state)[0].current_name.as_deref(), Some("A"));
    blank_button_state(&mut state, "btn-0-1");
    assert!(load_selection(&state, "btn-0-1").is_none());
    assert!(StateRepo::get_all_buttons(&state)[0].current_name.is_none());
}

#[test]
fn appearing_buttons() {
    let mut state = SharedState::new();
    let step = appear_button(&mut state, "btn-0-1", "i1", &settings_for(Some(3), Some("x"), true));
    assert!(matches!(step, AppearStep::Blank));
    assert!(StateRepo::get_all_buttons(&state)[0].current_name.is_none());

    let step = appear_button(&mut state, "btn-0-2", "i2", &settings_for(None, Some("y"), false));
    assert!(matches!(step, AppearStep::Unchanged));
    assert!(load_selection(&state, "btn-0-2").is_none());

    let step = appear_button(&mut state, "btn-0-3", "i3", &settings_for(Some(MIC_NODE_ID), None, false));
    match step {
        AppearStep::Icon { target, icon_query } => {
            assert!(target == AudioTarget::Mic);
            assert_eq!(icon_query, "mdi:microphone");
        }
        _ => panic!("expected an icon"),
    }
    assert_eq!(load_selection(&state, "btn-0-3").unwrap().name, "Mic");
    assert_eq!(StateRepo::find_button_link_id(&state, "i3").as_deref(), Some("btn-0-3"));
}
