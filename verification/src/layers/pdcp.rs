//! Packet data convergence protocol: configuration check and sequence
//! number counting; data passes through unchanged.
use vstd::prelude::*;
use crate::layers::LayerError;

verus! {

/// PDCP layer configuration.
#[derive(Debug, Clone, Copy)]
pub struct PdcpConfig {
    /// SN size in bits (12 or 18)
    pub sn_size: u8,
    /// Discard timer in ms
    pub discard_timer: u32,
    /// Reordering timer in ms
    pub t_reordering: u32,
    /// Enable integrity protection
    pub integrity_protection: bool,
    /// Enable ciphering
    pub ciphering: bool,
}

/// PDCP PDU types.
#[derive(Debug, Clone, Copy, PartialEq, Eq, Structural)]
pub enum PdcpPduType {
    /// Data PDU
    Data,
    /// Control PDU - PDCP status report
    StatusReport,
}

/// PDCP header.
#[derive(Debug, Clone, Copy)]
pub struct PdcpHeader {
    /// PDU type
    pub pdu_type: PdcpPduType,
    /// Sequence number
    pub sn: u32,
}

/// PDCP layer: the configuration, the initialized flag and the next
/// transmit and receive sequence numbers.
pub struct PdcpLayer {
    config: PdcpConfig,
    initialized: bool,
    tx_next: u32,
    rx_next: u32,
}

impl PdcpLayer {
    /// The layer has been initialized and not shut down since.
    pub closed spec fn is_initialized(&self) -> bool {
        self.initialized
    }

    /// SN size of the configuration.
    pub closed spec fn spec_sn_size(&self) -> u8 {
        self.config.sn_size
    }

    /// Next transmit sequence number.
    pub closed spec fn spec_tx_next(&self) -> u32 {
        self.tx_next
    }

    /// Next expected receive sequence number.
    pub closed spec fn spec_rx_next(&self) -> u32 {
        self.rx_next
    }

    /// A layer with the given configuration, not yet initialized, both
    /// sequence numbers at 0.
    pub fn new(config: PdcpConfig) -> (l: Self)
        ensures
            !l.is_initialized(),
            l.spec_sn_size() == config.sn_size,
            l.spec_tx_next() == 0,
            l.spec_rx_next() == 0,
    {
        PdcpLayer { config, initialized: false, tx_next: 0, rx_next: 0 }
    }

    /// Initializes the layer; a `ConfigurationError` unless the SN size is
    /// 12 or 18 bits, in which case the layer stays as it was.
    pub fn initialize(&mut self) -> (r: Result<(), LayerError>)
        ensures
            r is Ok <==> (old(self).spec_sn_size() == 12 || old(self).spec_sn_size() == 18),
            r is Err ==> r->Err_0 is ConfigurationError && r->Err_0->ConfigurationError_0@
                == "Invalid SN size: must be 12 or 18 bits"@,
            r is Err ==> final(self).is_initialized() == old(self).is_initialized(),
            r is Ok ==> final(self).is_initialized(),
            final(self).spec_sn_size() == old(self).spec_sn_size(),
            final(self).spec_tx_next() == old(self).spec_tx_next(),
            final(self).spec_rx_next() == old(self).spec_rx_next(),
    {
        if self.config.sn_size != 12 && self.config.sn_size != 18 {
            return Err(LayerError::ConfigurationError("Invalid SN size: must be 12 or 18 bits".to_owned()));
        }
        self.initialized = true;
        Ok(())
    }

    /// Receives uplink data: counts the receive sequence number (modulo
    /// 2^32) and passes the data through; `NotInitialized` before
    /// initialization, with nothing counted.
    pub fn process_uplink(&mut self, data: bytes::Bytes) -> (r: Result<bytes::Bytes, LayerError>)
        ensures
            old(self).is_initialized() ==> r == Ok::<bytes::Bytes, LayerError>(data) && final(self).spec_rx_next()
                == (old(self).spec_rx_next() + 1) % 0x1_0000_0000,
            !old(self).is_initialized() ==> r == Err::<bytes::Bytes, LayerError>(LayerError::NotInitialized)
                && final(self).spec_rx_next() == old(self).spec_rx_next(),
            final(self).is_initialized() == old(self).is_initialized(),
            final(self).spec_sn_size() == old(self).spec_sn_size(),
            final(self).spec_tx_next() == old(self).spec_tx_next(),
    {
        if !self.initialized {
            return Err(LayerError::NotInitialized);
        }
        self.rx_next = self.rx_next.wrapping_add(1);
        Ok(data)
    }

    /// Sends downlink data: counts the transmit sequence number (modulo
    /// 2^32) and passes the data through; `NotInitialized` before
    /// initialization, with nothing counted.
    pub fn process_downlink(&mut self, data: bytes::Bytes) -> (r: Result<bytes::Bytes, LayerError>)
        ensures
            old(self).is_initialized() ==> r == Ok::<bytes::Bytes, LayerError>(data) && final(self).spec_tx_next()
                == (old(self).spec_tx_next() + 1) % 0x1_0000_0000,
            !old(self).is_initialized() ==> r == Err::<bytes::Bytes, LayerError>(LayerError::NotInitialized)
                && final(self).spec_tx_next() == old(self).spec_tx_next(),
            final(self).is_initialized() == old(self).is_initialized(),
            final(self).spec_sn_size() == old(self).spec_sn_size(),
            final(self).spec_rx_next() == old(self).spec_rx_next(),
    {
        if !self.initialized {
            return Err(LayerError::NotInitialized);
        }
        self.tx_next = self.tx_next.wrapping_add(1);
        Ok(data)
    }

    /// Shuts the layer down.
    pub fn shutdown(&mut self) -> (r: Result<(), LayerError>)
        ensures
            r is Ok,
            !final(self).is_initialized(),
            final(self).spec_sn_size() == old(self).spec_sn_size(),
            final(self).spec_tx_next() == old(self).spec_tx_next(),
            final(self).spec_rx_next() == old(self).spec_rx_next(),
    {
        self.initialized = false;
        Ok(())
    }
}

} // verus!
