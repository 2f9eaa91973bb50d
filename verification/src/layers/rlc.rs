//! Radio link control: mode configuration and the initialized gate; data
//! passes through unchanged in every mode.
use vstd::prelude::*;
use crate::layers::LayerError;

verus! {

/// RLC operating modes.
#[derive(Debug, Clone, Copy, PartialEq, Eq, Structural)]
pub enum RlcMode {
    /// Transparent Mode
    Tm,
    /// Unacknowledged Mode
    Um,
    /// Acknowledged Mode
    Am,
}

/// RLC layer configuration.
#[derive(Debug, Clone, Copy)]
pub struct RlcConfig {
    /// Operating mode
    pub mode: RlcMode,
    /// SN field length in bits
    pub sn_field_length: u8,
    /// Poll PDU trigger threshold
    pub poll_pdu: u32,
}

/// RLC PDU header.
#[derive(Debug, Clone, Copy)]
pub struct RlcPduHeader {
    /// Data/Control flag
    pub dc: bool,
    /// Sequence number
    pub sn: u32,
    /// Segmentation info
    pub si: u8,
    /// Polling bit
    pub p: bool,
}

/// RLC layer.
pub struct RlcLayer {
    config: RlcConfig,
    initialized: bool,
}

impl RlcLayer {
    /// The layer has been initialized and not shut down since.
    pub closed spec fn is_initialized(&self) -> bool {
        self.initialized
    }

    /// Operating mode.
    pub closed spec fn spec_mode(&self) -> RlcMode {
        self.config.mode
    }

    /// A layer with the given configuration, not yet initialized.
    pub fn new(config: RlcConfig) -> (l: Self)
        ensures
            !l.is_initialized(),
            l.spec_mode() == config.mode,
    {
        RlcLayer { config, initialized: false }
    }

    /// Initializes the layer; always succeeds.
    pub fn initialize(&mut self) -> (r: Result<(), LayerError>)
        ensures
            r is Ok,
            final(self).is_initialized(),
            final(self).spec_mode() == old(self).spec_mode(),
    {
        self.initialized = true;
        Ok(())
    }

    /// Passes uplink data through; `NotInitialized` before initialization.
    pub fn process_uplink(&self, data: bytes::Bytes) -> (r: Result<bytes::Bytes, LayerError>)
        ensures
            self.is_initialized() ==> r == Ok::<bytes::Bytes, LayerError>(data),
            !self.is_initialized() ==> r == Err::<bytes::Bytes, LayerError>(LayerError::NotInitialized),
    {
        if !self.initialized {
            return Err(LayerError::NotInitialized);
        }
        match self.config.mode {
            RlcMode::Tm => Ok(data),
            RlcMode::Um => Ok(data),
            RlcMode::Am => Ok(data),
        }
    }

    /// Passes downlink data through; `NotInitialized` before initialization.
    pub fn process_downlink(&self, data: bytes::Bytes) -> (r: Result<bytes::Bytes, LayerError>)
        ensures
            self.is_initialized() ==> r == Ok::<bytes::Bytes, LayerError>(data),
            !self.is_initialized() ==> r == Err::<bytes::Bytes, LayerError>(LayerError::NotInitialized),
    {
        if !self.initialized {
            return Err(LayerError::NotInitialized);
        }
        match self.config.mode {
            RlcMode::Tm => Ok(data),
            RlcMode::Um => Ok(data),
            RlcMode::Am => Ok(data),
        }
    }

    /// Shuts the layer down.
    pub fn shutdown(&mut self) -> (r: Result<(), LayerError>)
        ensures
            r is Ok,
            !final(self).is_initialized(),
            final(self).spec_mode() == old(self).spec_mode(),
    {
        self.initialized = false;
        Ok(())
    }
}

} // verus!
