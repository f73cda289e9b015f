//! The protocol spoken with clients that connect over the network.

pub use crate::protocol::camera::ClientMessage;

use vstd::prelude::*;

verus! {

/// A frame as it travels to a network client. The format is not named:
/// what is re-exported is sent as it comes.
#[derive(Clone, Debug)]
pub struct Frame {
    pub width: u32,
    pub height: u32,
    pub data: Vec<u8>,
}

/// The part of the answer to a `Status` command that the state of the
/// connection decides.
#[derive(Clone, Copy, Debug, PartialEq, Eq, Structural)]
pub struct Status {
    pub enabled: bool,
    pub healthy: bool,
}

} // verus!
