use magic_audio_control::audio::{
    extract_variant_string, is_generic_media_name, normalize_player_name, parse_mpris_bus_names,
    pick_player_title, player_matches_app, player_name_aliases, title_from_metadata, AudioService,
    AudioTarget, PlayerTitle,
};
use magic_audio_control::constants::{MASTER_NODE_ID, MIC_NODE_ID};
use magic_audio_control::pipewire::AudioStream;

fn stream(node_id: u32, name: &str) -> AudioStream {
    AudioStream { node_id, pid: None, name: name.to_string(), app_name: None, media_name: None }
}

fn player(title: &str, status: Option<&str>) -> PlayerTitle {
    PlayerTitle { title: title.to_string(), status: status.map(|s| s.to_string()) }
}

#[test]
fn node_ids_map_to_targets() {
    assert!(AudioTarget::from_node_id(MASTER_NODE_ID) == AudioTarget::Master);
    assert!(AudioTarget::from_node_id(MIC_NODE_ID) == AudioTarget::Mic);
    assert!(AudioTarget::from_node_id(42) == AudioTarget::Stream(42));
}

#[test]
fn device_names_and_icons_are_fixed() {
    assert_eq!(AudioTarget::Master.display_name("x"), "Master");
    assert_eq!(AudioTarget::Mic.display_name("x"), "Mic");
    assert_eq!(AudioTarget::Stream(3).display_name("Firefox"), "Firefox");
    assert_eq!(AudioTarget::Master.icon_query(Some("a"), "b"), "mdi:volume-high");
    assert_eq!(AudioTarget::Mic.icon_query(None, "b"), "mdi:microphone");
    assert_eq!(AudioTarget::Stream(3).icon_query(Some("firefox"), "b"), "firefox");
    assert_eq!(AudioTarget::Stream(3).icon_query(None, "Stream 3"), "Stream 3");
}

#[test]
fn stream_shows_media_name_as_second_title() {
    let target = AudioTarget::Stream(5);
    let d = target.display_info("Stream 5", Some("Firefox"), Some("  A Video  "), None);
    assert_eq!(d.name, "Firefox");
    assert_eq!(d.icon_query, "Firefox");
    assert_eq!(d.knob_title_at(0), "Firefox");
    assert_eq!(d.knob_title_at(1), "Firefox");
    assert_eq!(d.knob_title_at(2), "A Video");
    assert_eq!(d.knob_title_at(3), "A Video");
    assert_eq!(d.knob_title_at(4), "Firefox");
    assert!(!target.wants_player_title("Stream 5", Some("Firefox"), Some("A Video")));
}

#[test]
fn generic_media_name_falls_back_to_player_title() {
    let target = AudioTarget::Stream(5);
    assert!(target.wants_player_title("Stream 5", Some("Chrome"), Some("Playback")));
    let d = target.display_info("Stream 5", Some("Chrome"), Some("Playback"), Some("Song"));
    assert_eq!(d.name, "Chrome");
    assert_eq!(d.knob_title_at(2), "Song");
    let d = target.display_info("Stream 5", Some("Chrome"), Some("Playback"), None);
    assert_eq!(d.knob_title_at(2), "Chrome");
}

#[test]
fn second_title_equal_to_name_is_dropped() {
    let target = AudioTarget::Stream(5);
    let d = target.display_info("Stream 5", Some("Spotify"), Some("spotify"), None);
    assert_eq!(d.knob_title_at(2), "Spotify");
    let d = target.display_info("Stream 5", Some("Spotify"), None, Some("SPOTIFY"));
    assert_eq!(d.knob_title_at(2), "Spotify");
    let d = target.display_info("Stream 5", Some("Spotify"), None, Some("audio stream"));
    assert_eq!(d.knob_title_at(2), "Spotify");
}

#[test]
fn stream_without_app_uses_its_name_and_no_player() {
    let target = AudioTarget::Stream(9);
    assert!(!target.wants_player_title("Stream 9", None, None));
    let d = target.display_info("Stream 9", None, None, Some("ignored"));
    assert_eq!(d.name, "Stream 9");
    assert_eq!(d.icon_query, "Stream 9");
    assert_eq!(d.knob_title_at(2), "Stream 9");
}

#[test]
fn devices_have_no_second_title() {
    let d = AudioTarget::Master.display_info("x", Some("App"), Some("Video"), Some("Song"));
    assert_eq!(d.name, "Master");
    assert_eq!(d.knob_title_at(2), "Master");
    assert!(!AudioTarget::Mic.wants_player_title("x", Some("App"), None));
}

#[test]
fn knob_title_is_one_of_the_names() {
    let d = AudioTarget::Stream(5).display_info("s", Some("App"), Some("Video"), None);
    let t = d.knob_title();
    assert!(t == "App" || t == "Video");
}

#[test]
fn generic_media_names() {
    for n in ["Playback", " audio stream ", "AUDIO PLAYBACK", "output", "Stream"] {
        assert!(is_generic_media_name(n), "{n}");
    }
    for n in ["", "My Stream", "streams", "Song"] {
        assert!(!is_generic_media_name(n), "{n}");
    }
}

#[test]
fn most_recent_stream_has_greatest_node_id() {
    assert!(AudioService::most_recent_stream(&vec![]).is_none());
    let s = vec![stream(4, "a"), stream(9, "b"), stream(2, "c"), stream(9, "d")];
    let r = AudioService::most_recent_stream(&s).unwrap();
    assert_eq!(r.node_id, 9);
    assert_eq!(r.name, "d");
}

#[test]
fn list_streams_sorts_by_name_then_pid() {
    let mut a = stream(8, "b");
    a.pid = Some(20);
    let mut b = stream(3, "b");
    b.pid = Some(10);
    let c = stream(1, "b");
    let d = stream(5, "a");
    let r = AudioService::list_streams(&vec![a, b, c, d]);
    let ids: Vec<u32> = r.iter().map(|s| s.node_id).collect();
    assert_eq!(ids, vec![5, 1, 3, 8]);
}

#[test]
fn volume_and_mute_queries() {
    assert_eq!(AudioService::volume_query(AudioTarget::Master), vec!["get-sink-volume", "@DEFAULT_SINK@"]);
    assert_eq!(AudioService::volume_query(AudioTarget::Mic), vec!["get-source-volume", "@DEFAULT_SOURCE@"]);
    assert_eq!(AudioService::volume_query(AudioTarget::Stream(4)), vec!["list", "sink-inputs"]);
    assert_eq!(AudioService::mute_query(AudioTarget::Master), vec!["get-sink-mute", "@DEFAULT_SINK@"]);
    assert_eq!(AudioService::mute_query(AudioTarget::Mic), vec!["get-source-mute", "@DEFAULT_SOURCE@"]);
    assert_eq!(AudioService::mute_query(AudioTarget::Stream(4)), vec!["list", "sink-inputs"]);
}

#[test]
fn set_volume_commands() {
    assert_eq!(AudioService::set_volume(AudioTarget::Master, 40), vec!["set-sink-volume", "@DEFAULT_SINK@", "40%"]);
    assert_eq!(AudioService::set_volume(AudioTarget::Mic, 200), vec!["set-source-volume", "@DEFAULT_SOURCE@", "150%"]);
    assert_eq!(AudioService::set_volume(AudioTarget::Stream(12), 0), vec!["set-sink-input-volume", "12", "0%"]);
}

#[test]
fn adjust_volume_is_held_to_range() {
    let (v, args) = AudioService::adjust_volume(AudioTarget::Master, 50, 5);
    assert_eq!(v, 55);
    assert_eq!(args, vec!["set-sink-volume", "@DEFAULT_SINK@", "55%"]);
    let (v, _) = AudioService::adjust_volume(AudioTarget::Mic, 148, 10);
    assert_eq!(v, 150);
    let (v, args) = AudioService::adjust_volume(AudioTarget::Stream(7), 3, -10);
    assert_eq!(v, 0);
    assert_eq!(args, vec!["set-sink-input-volume", "7", "0%"]);
}

#[test]
fn toggle_mute_commands() {
    let (m, args) = AudioService::toggle_mute(AudioTarget::Master, false);
    assert!(m);
    assert_eq!(args, vec!["set-sink-mute", "@DEFAULT_SINK@", "1"]);
    let (m, args) = AudioService::toggle_mute(AudioTarget::Stream(3), true);
    assert!(!m);
    assert_eq!(args, vec!["set-sink-input-mute", "3", "0"]);
    let (m, args) = AudioService::toggle_mute(AudioTarget::Mic, true);
    assert!(!m);
    assert_eq!(args, vec!["set-source-mute", "@DEFAULT_SOURCE@", "0"]);
}

#[test]
fn get_volume_and_mute_from_output() {
    assert_eq!(AudioService::get_volume(AudioTarget::Master, "Volume: front-left: 1 /  30% / x"), 30);
    assert!(AudioService::get_mute(AudioTarget::Mic, "Mute: yes\n"));
    assert!(!AudioService::get_mute(AudioTarget::Master, "Mute: no\n"));
}

#[test]
fn player_names_are_normalized() {
    assert_eq!(normalize_player_name("Google-Chrome 2!"), "googlechrome2");
    assert_eq!(normalize_player_name(""), "");
}

#[test]
fn aliases_are_sorted_and_deduplicated() {
    assert_eq!(player_name_aliases("Google Chrome"), vec!["chrome", "chromium", "googlechrome"]);
    assert_eq!(player_name_aliases("Chromium"), vec!["chrome", "chromium"]);
    assert_eq!(player_name_aliases("Firefox"), vec!["firefox"]);
    assert_eq!(player_name_aliases("VLC"), vec!["vlc", "vlcmediaplayer"]);
    assert_eq!(player_name_aliases("Brave"), vec!["brave", "bravebrowser"]);
    assert_eq!(player_name_aliases("MS Edge"), vec!["edge", "microsoftedge", "msedge"]);
    assert_eq!(player_name_aliases("mpv"), vec!["mpv"]);
}

#[test]
fn players_match_by_alias() {
    let aliases = player_name_aliases("Google Chrome");
    assert!(player_matches_app("org.mpris.MediaPlayer2.chromium.instance123", &aliases));
    assert!(!player_matches_app("org.mpris.MediaPlayer2.firefox", &aliases));
}

#[test]
fn bus_names_are_listed_once() {
    let out = "(['org.freedesktop.DBus', 'org.mpris.MediaPlayer2.firefox.instance_1_2', ':1.5', 'org.mpris.MediaPlayer2.vlc', 'org.mpris.MediaPlayer2.vlc'],)\n";
    assert_eq!(
        parse_mpris_bus_names(out),
        vec!["org.mpris.MediaPlayer2.firefox.instance_1_2", "org.mpris.MediaPlayer2.vlc"]
    );
    assert!(parse_mpris_bus_names("(['org.freedesktop.DBus'],)").is_empty());
}

#[test]
fn variant_strings_are_read() {
    assert_eq!(extract_variant_string("(<'Playing'>,)"), Some("Playing".to_string()));
    assert_eq!(extract_variant_string("(<\"Paused\">,)"), Some("Paused".to_string()));
    assert_eq!(extract_variant_string("(<'  '>,)"), None);
    assert_eq!(extract_variant_string("nothing"), None);
}

#[test]
fn metadata_title_is_read_after_its_key() {
    let out = "({'mpris:trackid': <'/a/b'>, 'xesam:title': <'Great Song'>, 'xesam:artist': <['X']>},)";
    assert_eq!(title_from_metadata(out), Some("Great Song".to_string()));
    assert_eq!(title_from_metadata("({'mpris:trackid': <'/a'>},)"), None);
}

#[test]
fn playing_player_title_is_preferred() {
    let ps = vec![player("a", None), player("b", Some("Paused")), player("c", Some("Playing"))];
    assert_eq!(pick_player_title(&ps), Some("c".to_string()));
    let ps = vec![player("a", Some("Stopped")), player("b", Some("Paused"))];
    assert_eq!(pick_player_title(&ps), Some("b".to_string()));
    let ps = vec![player("a", Some("Stopped")), player("x", None)];
    assert_eq!(pick_player_title(&ps), Some("a".to_string()));
    assert_eq!(pick_player_title(&vec![]), None);
}

#[test]
fn toggling_mute_twice_restores_it() {
    for current in [false, true] {
        let (once, first) = AudioService::toggle_mute(AudioTarget::Stream(4), current);
        let (twice, second) = AudioService::toggle_mute(AudioTarget::Stream(4), once);
        assert_eq!(twice, current);
        assert_ne!(first, second);
    }
}
