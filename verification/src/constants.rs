//! Fixed numbers of the plugin: the node ids that stand for the default
//! devices, and its timings in milliseconds or seconds.
use vstd::prelude::*;

verus! {

/// The node id that stands for the default output device.
pub const MASTER_NODE_ID: u32 = 0xFFFF_FFFF;

/// The node id that stands for the default input device.
pub const MIC_NODE_ID: u32 = 0xFFFF_FFFE;

/// How long a key must be held to unlock a button, in milliseconds.
pub const LONG_PRESS_MS: u64 = 1000;

/// How often an unlocked button flashes, in milliseconds.
pub const OSCILLATE_INTERVAL_MS: u64 = 250;

/// How often the monitor looks at the streams, in milliseconds.
pub const POLL_INTERVAL_MS: u64 = 2000;

/// How long the monitor leaves a knob alone after it was touched, in seconds.
pub const COOLDOWN_SECS: u64 = 3;

/// Knob rotations closer together than this many milliseconds are summed.
pub const DEBOUNCE_MS: u64 = 50;

/// A knob title alternates between two names every this many seconds.
pub const KNOB_TITLE_ALTERNATE_SECS: u64 = 2;

/// How long a button stays unlocked without a press, in milliseconds.
pub const UNLOCK_MS: u64 = 5000;

} // verus!
