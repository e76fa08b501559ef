//! The lifecycle state of the proxy service.

use vstd::prelude::*;

verus! {

/// The stable service states of the control protocol.
#[derive(Clone, Copy, Debug, PartialEq, Eq, Structural)]
pub enum ServiceState {
    Stopped,
    Starting,
    Running,
    Stopping,
    Faulted,
}

} // verus!
