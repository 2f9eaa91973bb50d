//! Protocol stack layers.
use vstd::prelude::*;

pub mod mac;
pub mod ngap;
pub mod pdcp;
pub mod phy;
pub mod rlc;
pub mod rrc;

verus! {

/// Errors shared by the protocol layers.
#[derive(Debug, Clone, PartialEq, Eq)]
pub enum LayerError {
    /// Invalid protocol data unit
    InvalidPdu,
    /// Layer not initialized
    NotInitialized,
    /// Resource unavailable
    ResourceUnavailable,
    /// Configuration error
    ConfigurationError(String),
    /// Processing error
    ProcessingError(String),
    /// Invalid configuration
    InvalidConfiguration(String),
    /// Initialization failed
    InitializationFailed(String),
    /// CRC check failed
    CrcFailed,
    /// Invalid state
    InvalidState(String),
}

} // verus!
