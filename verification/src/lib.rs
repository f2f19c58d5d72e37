//! A hotkey daemon's decision core: the pressed-key tracker, the chord-aware
//! binding resolver, the command registry with its textual form, and the
//! step function of the worker that ties them together.

pub mod child;
pub mod config;
pub mod errors;
pub mod evdev;
pub mod ipc;
pub mod keyset;
pub mod keysym_lookup;
pub mod notation;
pub mod roundtrip;
pub mod settings;
pub mod text;
pub mod worker;

use vstd::prelude::*;

verus! {

/// The name of the directory that holds the daemon's files.
pub const LEFTHK_DIR_NAME: &'static str = "lefthk";

} // verus!
