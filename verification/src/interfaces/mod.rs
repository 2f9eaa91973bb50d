//! Interfaces towards the UE side: message types, socket configuration,
//! and the sample exchange state of the ZMQ RF link.
use vstd::prelude::*;

pub mod flexran_sys;
pub mod message_types;
pub mod zmq_handler;
pub mod zmq_rf;

verus! {

/// `zmq::Error`, carried in interface errors.
#[verifier::external_type_specification]
#[verifier::external_body]
pub struct ExZmqError(zmq::Error);

/// `serde_json::Error`, carried in interface errors.
#[verifier::external_type_specification]
#[verifier::external_body]
pub struct ExSerdeJsonError(serde_json::Error);

/// Interface errors.
#[derive(Debug)]
pub enum InterfaceError {
    /// ZMQ error
    ZmqError(zmq::Error),
    /// Serialization error
    SerializationError(serde_json::Error),
    /// Invalid message format
    InvalidMessage,
    /// Connection failed
    ConnectionFailed(String),
    /// Interface not initialized
    NotInitialized,
    /// Invalid configuration
    InvalidConfig(String),
    /// Initialization failed
    InitializationFailed(String),
    /// Buffer full
    BufferFull,
}

} // verus!
