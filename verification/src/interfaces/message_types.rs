//! Messages exchanged between the gNB and the UE.
use vstd::prelude::*;

verus! {

/// Message types exchanged between gNB and UE.
#[derive(Debug, Clone, Copy, PartialEq, Eq, Structural)]
pub enum MessageType {
    /// RRC connection request
    RrcConnectionRequest,
    /// RRC connection setup
    RrcConnectionSetup,
    /// RRC connection setup complete
    RrcConnectionSetupComplete,
    /// NAS transport
    NasTransport,
    /// System information
    SystemInformation,
    /// Measurement report
    MeasurementReport,
    /// Handover command
    HandoverCommand,
    /// Data transmission
    DataTransmission,
    /// Keep alive
    KeepAlive,
}

/// Message from UE to gNB.
#[derive(Debug, Clone)]
pub struct UeMessage {
    /// Message type
    pub msg_type: MessageType,
    /// UE identifier
    pub ue_id: u32,
    /// Cell ID
    pub cell_id: u16,
    /// Message payload
    pub payload: Vec<u8>,
    /// Timestamp (milliseconds since epoch)
    pub timestamp: u64,
}

/// Message from gNB to UE.
#[derive(Debug, Clone)]
pub struct GnbMessage {
    /// Message type
    pub msg_type: MessageType,
    /// Cell ID
    pub cell_id: u16,
    /// Message payload
    pub payload: Vec<u8>,
    /// Timestamp (milliseconds since epoch)
    pub timestamp: u64,
}

/// RRC connection request payload.
#[derive(Debug, Clone)]
pub struct RrcConnectionRequestPayload {
    /// UE identity (IMSI or TMSI)
    pub ue_identity: Vec<u8>,
    /// Establishment cause
    pub establishment_cause: u8,
}

/// RRC connection setup payload.
#[derive(Debug, Clone)]
pub struct RrcConnectionSetupPayload {
    /// Radio resource configuration
    pub radio_resource_config: Vec<u8>,
    /// SRB configuration
    pub srb_config: Vec<u8>,
}

/// NAS transport payload.
#[derive(Debug, Clone)]
pub struct NasTransportPayload {
    /// NAS message
    pub nas_message: Vec<u8>,
    /// Security header type
    pub security_header_type: u8,
}

/// System information payload.
#[derive(Debug, Clone)]
pub struct SystemInformationPayload {
    /// SIB type
    pub sib_type: u8,
    /// SIB content
    pub sib_content: Vec<u8>,
}

impl UeMessage {
    /// A UE message stamped with the given time (milliseconds since the
    /// epoch, read by the caller).
    pub fn new(msg_type: MessageType, ue_id: u32, cell_id: u16, payload: Vec<u8>, timestamp: u64) -> (m: Self)
        ensures
            m.msg_type == msg_type,
            m.ue_id == ue_id,
            m.cell_id == cell_id,
            m.payload@ == payload@,
            m.timestamp == timestamp,
    {
        UeMessage { msg_type, ue_id, cell_id, payload, timestamp }
    }
}

impl GnbMessage {
    /// A gNB message stamped with the given time (milliseconds since the
    /// epoch, read by the caller).
    pub fn new(msg_type: MessageType, cell_id: u16, payload: Vec<u8>, timestamp: u64) -> (m: Self)
        ensures
            m.msg_type == msg_type,
            m.cell_id == cell_id,
            m.payload@ == payload@,
            m.timestamp == timestamp,
    {
        GnbMessage { msg_type, cell_id, payload, timestamp }
    }
}

} // verus!
