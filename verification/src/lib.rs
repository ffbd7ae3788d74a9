//! Core of a two-peer LAN input-sharing daemon: discovery beacons, the
//! line-delimited JSON session protocol, and the control state machine that
//! decides which peer owns the mouse and keyboard at any instant.

use vstd::prelude::*;

pub mod codec;
pub mod control;
pub mod discovery;
pub mod messages;
pub mod parse;
pub mod screens;
pub mod session;
pub mod state;
pub mod text;

verus! {

/// Which edge of the local screen layout leads to the remote peer.
#[derive(Clone, Copy, PartialEq, Eq, Structural, Debug)]
pub enum Edge {
    Left,
    Right,
    Top,
    Bottom,
}

} // verus!
