//! Datagrams of captured processes: they pass the same filters as those of explicit clients.

use vstd::prelude::*;

verus! {

/// Which way a datagram of a captured process goes.
#[derive(Clone, Copy, Debug, PartialEq, Eq, Structural)]
pub enum UdpDatagramDirection {
    Up,
    Down,
}

/// Which way the filters see traffic go.
#[derive(Clone, Copy, Debug, PartialEq, Eq, Structural)]
pub enum StreamDirection {
    ClientToServer,
    ServerToClient,
}

/// Which way the filters see a datagram go.
pub fn streamDirection(direction: UdpDatagramDirection) -> (result: StreamDirection)
    ensures
        result == match direction {
            UdpDatagramDirection::Up => StreamDirection::ClientToServer,
            UdpDatagramDirection::Down => StreamDirection::ServerToClient,
        },
{
    match direction {
        UdpDatagramDirection::Up => StreamDirection::ClientToServer,
        UdpDatagramDirection::Down => StreamDirection::ServerToClient,
    }
}

/// A place where a filter changed a datagram.
#[derive(Debug)]
pub struct WireByteModification {
    pub offsetBytes: usize,
    pub originalBytes: Vec<u8>,
    pub modifiedBytes: Vec<u8>,
}

/// What the filters say of a datagram, with the places that they changed.
#[derive(Debug)]
pub enum DataPlaneActionResult {
    Forward { bytes: Vec<u8>, modifications: Vec<WireByteModification> },
    Drop,
    /// Keep the datagram back, which a datagram cannot be.
    Hold,
    Close,
}

/// What happens to a datagram.
#[derive(Debug)]
pub enum UdpDatagramDecision {
    Forward { payload: Vec<u8>, modifications: Vec<WireByteModification> },
    Drop,
    Close,
}

/// Decides what happens to a datagram: what is to be kept back is dropped.
pub fn process(action: DataPlaneActionResult) -> (result: UdpDatagramDecision)
    ensures
        match action {
            DataPlaneActionResult::Forward { bytes, modifications } => result == (
            UdpDatagramDecision::Forward { payload: bytes, modifications }),
            DataPlaneActionResult::Drop | DataPlaneActionResult::Hold => result
                == UdpDatagramDecision::Drop,
            DataPlaneActionResult::Close => result == UdpDatagramDecision::Close,
        },
{
    match action {
        DataPlaneActionResult::Forward { bytes, modifications } => UdpDatagramDecision::Forward {
            payload: bytes,
            modifications,
        },
        DataPlaneActionResult::Drop => UdpDatagramDecision::Drop,
        DataPlaneActionResult::Hold => UdpDatagramDecision::Drop,
        DataPlaneActionResult::Close => UdpDatagramDecision::Close,
    }
}

} // verus!
