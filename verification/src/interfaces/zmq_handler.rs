//! Configuration of the ZMQ message socket towards the UE.
use vstd::prelude::*;

verus! {

/// ZMQ socket types.
#[derive(Debug, Clone, Copy, PartialEq, Eq, Structural)]
pub enum SocketType {
    /// Request-Reply pattern (gNB as server)
    Rep,
    /// Publish-Subscribe pattern (gNB as publisher)
    Pub,
    /// Push-Pull pattern (gNB as pusher)
    Push,
}

/// ZMQ handler configuration.
#[derive(Debug, Clone)]
pub struct ZmqConfig {
    /// Socket type
    pub socket_type: SocketType,
    /// Bind address for incoming connections
    pub bind_address: String,
    /// High water mark for outgoing messages
    pub hwm: i32,
}

} // verus!
