//! The decisions of the two deck actions: the cycling button and the
//! volume knob.
pub mod cycle_audio_stream;
pub mod volume_control;
