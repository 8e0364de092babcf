use magic_audio_control::actions::cycle_audio_stream::generate_link_id;
use magic_audio_control::display::format_knob_label;

#[test]
fn short_label_is_kept() {
    assert_eq!(format_knob_label("Firefox"), "Firefox");
    assert_eq!(format_knob_label("123456789"), "123456789");
    assert_eq!(format_knob_label(""), "");
}

#[test]
fn long_label_splits_at_first_space() {
    assert_eq!(format_knob_label("Google Chrome"), "Google\nChrome");
    assert_eq!(format_knob_label("Spotify Premium Music"), "Spotify\nPremium M");
}

#[test]
fn long_label_without_space_splits_after_nine() {
    assert_eq!(format_knob_label("abcdefghijklmnopqrstuvwxyz"), "abcdefghi\njklmnopqr");
    assert_eq!(format_knob_label("abcdefghij"), "abcdefghi\nj");
}

#[test]
fn label_space_too_late_is_not_used() {
    // The only space is at position 10, past the nine-character limit.
    assert_eq!(format_knob_label("abcdefghij klm"), "abcdefghi\nj klm");
}

#[test]
fn label_leading_space_is_not_a_break() {
    assert_eq!(format_knob_label(" abcdefghijk"), " abcdefgh\nijk");
}

#[test]
fn label_lines_are_short() {
    for name in ["a very long application name", "x", "Master", "Microphone input device"] {
        let label = format_knob_label(name);
        let lines: Vec<&str> = label.split('\n').collect();
        assert!(lines.len() <= 2);
        for line in lines {
            assert!(line.chars().count() <= 9);
        }
    }
}

#[test]
fn link_id_from_coordinates() {
    assert_eq!(generate_link_id(Some((2, 3)), "abc"), "btn-2-3");
    assert_eq!(generate_link_id(Some((0, 255)), "abc"), "btn-0-255");
    assert_eq!(generate_link_id(None, "inst-7"), "btn-inst-7");
}
