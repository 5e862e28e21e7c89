use vstd::prelude::*;

verus! {

/// Lifecycle of a voice connection, shared by the gateway, the sender and
/// the receiver.
#[derive(Debug, Clone, Copy, PartialEq, Eq, Structural)]
pub enum ConnectionState {
    Disconnected,
    Connected,
    Playing,
    Recording,
    Paused,
    Finished,
    RecordFinished,
}

impl ConnectionState {
    /// The value a fresh state cell starts with.
    pub fn initial() -> (r: ConnectionState)
        ensures
            r == ConnectionState::Disconnected,
    {
        ConnectionState::Disconnected
    }

    /// Non-blocking comparison with a target state.
    pub fn is(&self, target: ConnectionState) -> (r: bool)
        ensures
            r == (*self == target),
    {
        *self == target
    }
}

} // verus!
