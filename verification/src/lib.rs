//! Signalling logic of a patch bay that distributes audio and control
//! signals between peers: rooms, dispatchers, OSC control messages and the
//! base64 transport of session descriptions.
use vstd::prelude::*;

pub mod codec;
pub mod models;
pub mod room;
pub mod random;
pub mod dispatch;
pub mod osc;
pub mod events;
pub mod registry;
pub mod views;
pub mod api;
pub mod client;

verus! {
} // verus!
