use magic_audio_control::audio::{AudioService, AudioTarget};
use magic_audio_control::pipewire::{sort_stream_list, AudioStream, PipeWireManager};

const LISTING: &str = "Sink Input #42\n\tDriver: PipeWire\n\tMute: no\n\tVolume: front-left: 42598 /  65% / -11.23 dB,   front-right: 42598 /  65% / -11.23 dB\n\tProperties:\n\t\tmedia.name = \"Playback\"\n\t\tapplication.name = \"Firefox\"\n\t\tapplication.process.id = \"1234\"\n\t\tmedia.title = \"Some Video\"\nSink Input #43\n\tMute: yes\n\tVolume: mono: 65536 / 100% / 0.00 dB\n\tProperties:\n\t\tmedia.name = \"Stream audio\"\n";

fn stream(node_id: u32, pid: Option<u32>, name: &str) -> AudioStream {
    AudioStream { node_id, pid, name: name.to_string(), app_name: None, media_name: None }
}

#[test]
fn sink_input_details_parsed() {
    let mgr = PipeWireManager::new().unwrap();
    let s = mgr.get_sink_input_details(LISTING, 42);
    assert_eq!(s.node_id, 42);
    assert_eq!(s.pid, Some(1234));
    assert_eq!(s.name, "Firefox");
    assert_eq!(s.app_name.as_deref(), Some("Firefox"));
    assert_eq!(s.media_name.as_deref(), Some("Some Video"));
}

#[test]
fn sink_input_without_application_named_by_media() {
    let mgr = PipeWireManager::new().unwrap();
    let s = mgr.get_sink_input_details(LISTING, 43);
    assert_eq!(s.name, "Stream audio");
    assert_eq!(s.app_name, None);
    assert_eq!(s.media_name.as_deref(), Some("Stream audio"));
    assert_eq!(s.pid, None);
}

#[test]
fn unknown_sink_input_gets_default_name() {
    let mgr = PipeWireManager::new().unwrap();
    let s = mgr.get_sink_input_details(LISTING, 7);
    assert_eq!(s.name, "Stream 7");
    assert_eq!(s.app_name, None);
    assert_eq!(s.media_name, None);
}

#[test]
fn short_listing_ids() {
    let mgr = PipeWireManager::new().unwrap();
    let ids = mgr.sink_input_ids("42\t55\t12\tPipeWire\tfloat32le 2ch 48000Hz\n  \nabc 1\n+7 x\n99999999999 y\n43 z\n");
    assert_eq!(ids, vec![42, 7, 43]);
}

#[test]
fn stream_volume_and_mute_parsed() {
    assert_eq!(PipeWireManager::get_stream_volume(LISTING, 42), 65);
    assert_eq!(PipeWireManager::get_stream_volume(LISTING, 43), 100);
    assert_eq!(PipeWireManager::get_stream_volume(LISTING, 99), 100);
    assert!(!PipeWireManager::get_stream_mute(LISTING, 42));
    assert!(PipeWireManager::get_stream_mute(LISTING, 43));
    assert!(!PipeWireManager::get_stream_mute(LISTING, 99));
}

#[test]
fn default_device_volume_and_mute_parsed() {
    let out = "Volume: front-left: 32768 /  50% / -18.06 dB,   front-right: 32768 /  50% / -18.06 dB\n        balance 0.00\n";
    assert_eq!(PipeWireManager::get_master_volume(out), 50);
    assert_eq!(PipeWireManager::get_mic_volume("no percent here"), 100);
    assert!(PipeWireManager::get_master_mute("Mute: yes\n"));
    assert!(!PipeWireManager::get_mic_mute("Mute: no\n"));
}

#[test]
fn volume_commands_clamped() {
    assert_eq!(PipeWireManager::set_stream_volume(42, 200), vec!["set-sink-input-volume", "42", "150%"]);
    assert_eq!(PipeWireManager::set_master_volume(30), vec!["set-sink-volume", "@DEFAULT_SINK@", "30%"]);
    assert_eq!(PipeWireManager::set_mic_volume(0), vec!["set-source-volume", "@DEFAULT_SOURCE@", "0%"]);
    assert_eq!(PipeWireManager::set_stream_mute(5, true), vec!["set-sink-input-mute", "5", "1"]);
    assert_eq!(PipeWireManager::set_master_mute(false), vec!["set-sink-mute", "@DEFAULT_SINK@", "0"]);
    assert_eq!(PipeWireManager::set_mic_mute(true), vec!["set-source-mute", "@DEFAULT_SOURCE@", "1"]);
}

#[test]
fn adjust_clamps_to_range() {
    assert_eq!(PipeWireManager::adjust_stream_volume(3, 140, 25).0, 150);
    assert_eq!(PipeWireManager::adjust_master_volume(10, -25).0, 0);
    let (v, args) = PipeWireManager::adjust_mic_volume(40, 5);
    assert_eq!(v, 45);
    assert_eq!(args, vec!["set-source-volume", "@DEFAULT_SOURCE@", "45%"]);
}

#[test]
fn toggles_flip_state() {
    let (m, args) = PipeWireManager::toggle_stream_mute(9, false);
    assert!(m);
    assert_eq!(args, vec!["set-sink-input-mute", "9", "1"]);
    let (m2, _) = PipeWireManager::toggle_master_mute(m);
    assert!(!m2);
    assert!(PipeWireManager::toggle_mic_mute(false).0);
}

#[test]
fn streams_sorted_by_name_then_pid_stably() {
    let list = vec![
        stream(1, Some(5), "b"),
        stream(2, None, "a"),
        stream(3, Some(2), "b"),
        stream(4, Some(2), "b"),
        stream(5, Some(1), "a"),
    ];
    let sorted = sort_stream_list(&list);
    let ids: Vec<u32> = sorted.iter().map(|s| s.node_id).collect();
    assert_eq!(ids, vec![2, 5, 3, 4, 1]);
    let listed = AudioService::list_streams(&list);
    assert_eq!(listed.iter().map(|s| s.node_id).collect::<Vec<_>>(), ids);
}

#[test]
fn service_dispatches_by_target() {
    assert_eq!(AudioService::volume_query(AudioTarget::Master), vec!["get-sink-volume", "@DEFAULT_SINK@"]);
    assert_eq!(AudioService::mute_query(AudioTarget::Mic), vec!["get-source-mute", "@DEFAULT_SOURCE@"]);
    assert_eq!(AudioService::volume_query(AudioTarget::Stream(4)), vec!["list", "sink-inputs"]);
    assert_eq!(AudioService::get_volume(AudioTarget::Stream(42), LISTING), 65);
    assert!(AudioService::get_mute(AudioTarget::Stream(43), LISTING));
    assert_eq!(AudioService::set_volume(AudioTarget::Mic, 151), vec!["set-source-volume", "@DEFAULT_SOURCE@", "150%"]);
    let (v, args) = AudioService::adjust_volume(AudioTarget::Stream(8), 100, 10);
    assert_eq!(v, 110);
    assert_eq!(args, vec!["set-sink-input-volume", "8", "110%"]);
    let (m, args) = AudioService::toggle_mute(AudioTarget::Master, true);
    assert!(!m);
    assert_eq!(args, vec!["set-sink-mute", "@DEFAULT_SINK@", "0"]);
}

#[test]
fn most_recent_is_greatest_node_id() {
    assert!(AudioService::most_recent_stream(&vec![]).is_none());
    let list = vec![stream(10, None, "a"), stream(30, None, "b"), stream(20, None, "c")];
    assert_eq!(AudioService::most_recent_stream(&list).unwrap().node_id, 30);
    let tie = vec![stream(30, None, "first"), stream(30, None, "last")];
    assert_eq!(AudioService::most_recent_stream(&tie).unwrap().name, "last");
}
