# magic_audio_control

An OpenDeck plugin that puts PipeWire audio on a Stream Deck: a button that
cycles through the default output, the default input and each playing
stream (short press mutes, long press unlocks the cycle), a knob that sets
the volume of the button's target, and a monitor that blanks buttons whose
stream went away and gives new streams to blank buttons.

The logic is a Verus library, proved against its contracts:

- `src/pipewire.rs` reads `pactl` output and builds `pactl` commands;
  `src/audio.rs` names targets, shows them, and reads what media players
  report on the session bus.
- `src/shared_state.rs`, `src/state.rs` and `src/store.rs` hold the
  persisted selections, buttons and knobs, and each button's lock state.
- `src/actions/` holds the decisions of the cycling button and of the knob;
  `src/volume_monitor.rs` those of the monitor.
- `src/icons.rs`, `src/display.rs` and `src/iconify.rs` compute the images
  and the icon searches.

`app/` is the program around it: the `pactl` and `gdbus` processes, the
state file, the Iconify requests, the floating-point icon styling, and the
OpenDeck event handlers that carry out what the library decides.
