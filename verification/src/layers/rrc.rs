//! Radio resource control: message type detection, RRC Setup Request
//! parsing, UE contexts keyed by C-RNTI, and the RRC Setup message. Sending
//! the RRC Setup to the MAC is the caller's.
use vstd::prelude::*;
use std::collections::HashMap;
use crate::common::types::{CellId, Rnti};
use crate::common::utils::{bytes_contents, bytes_from_vec};
use crate::layers::LayerError;

verus! {

broadcast use vstd::std_specs::hash::group_hash_axioms;

/// RRC states of a UE.
#[derive(Debug, Clone, Copy, PartialEq, Eq, Structural)]
pub enum RrcState {
    /// RRC Idle state
    Idle,
    /// RRC Inactive state
    Inactive,
    /// RRC Connected state
    Connected,
}

/// RRC message types.
#[derive(Debug, Clone, Copy, PartialEq, Eq, Structural)]
pub enum RrcMessageType {
    /// MIB (Master Information Block)
    Mib,
    /// SIB1 (System Information Block 1)
    Sib1,
    /// RRC Setup Request
    RrcSetupRequest,
    /// RRC Setup
    RrcSetup,
    /// RRC Setup Complete
    RrcSetupComplete,
    /// RRC Reconfiguration
    RrcReconfiguration,
    /// RRC Reconfiguration Complete
    RrcReconfigurationComplete,
    /// Security Mode Command
    SecurityModeCommand,
    /// Security Mode Complete
    SecurityModeComplete,
    /// UE Capability Enquiry
    UeCapabilityEnquiry,
    /// UE Capability Information
    UeCapabilityInformation,
}

/// Random access response grant.
#[derive(Debug, Clone, Copy)]
pub struct RarGrant {
    /// Timing advance
    pub timing_advance: u16,
    /// Uplink grant
    pub ul_grant: u32,
    /// Temporary C-RNTI
    pub tc_rnti: Rnti,
}

/// RRC establishment cause.
#[derive(Debug, Clone, Copy, PartialEq, Eq, Structural)]
pub enum EstablishmentCause {
    /// Emergency call
    Emergency,
    /// High priority access
    HighPriorityAccess,
    /// Mobile terminated access
    MtAccess,
    /// Mobile originated signalling
    MoSignalling,
    /// Mobile originated data
    MoData,
    /// Mobile originated voice call
    MoVoiceCall,
    /// Mobile originated video call
    MoVideoCall,
    /// Mobile originated SMS
    MoSms,
    /// MPS priority service
    MpsService,
    /// MCS priority service
    McsService,
}

/// RRC Setup Request message.
#[derive(Debug, Clone)]
pub struct RrcSetupRequest {
    /// UE identity (S-TMSI or random value)
    pub ue_identity: Vec<u8>,
    /// Establishment cause
    pub establishment_cause: EstablishmentCause,
}

/// Radio bearer configuration.
#[derive(Debug, Clone)]
pub struct RadioBearerConfig {
    /// SRB1 configuration
    pub srb1_config: Vec<u8>,
    /// Security algorithm configuration
    pub security_algorithm_config: Option<Vec<u8>>,
}

/// RRC Setup message.
#[derive(Debug, Clone)]
pub struct RrcSetup {
    /// Radio bearer configuration
    pub radio_bearer_config: RadioBearerConfig,
    /// Master cell group configuration
    pub master_cell_group: Vec<u8>,
}

/// Context of a UE.
#[derive(Debug)]
pub struct UeContext {
    /// UE identifier
    pub ue_id: u32,
    /// C-RNTI
    pub c_rnti: Rnti,
    /// Current RRC state
    pub state: RrcState,
    /// Security capabilities
    pub security_capabilities: Vec<u8>,
    /// UE identity from RRC Setup Request
    pub ue_identity: Vec<u8>,
    /// Establishment cause
    pub establishment_cause: Option<EstablishmentCause>,
}

/// RRC layer configuration.
#[derive(Debug, Clone, Copy)]
pub struct RrcConfig {
    /// System Information Block periodicity in ms
    pub sib_periodicity: u32,
    /// Maximum number of UE contexts
    pub max_ue_contexts: u16,
    /// Cell ID
    pub cell_id: CellId,
    /// PLMN ID (encoded)
    pub plmn_id: [u8; 3],
    /// Tracking Area Code
    pub tac: u32,
}

/// The message type carried in the low six bits of the first byte.
pub open spec fn rrc_message_type_spec(data: Seq<u8>) -> Option<RrcMessageType> {
    if data.len() == 0 {
        None
    } else {
        let t = data[0] & 0x3Fu8;
        if t == 0x00 {
            Some(RrcMessageType::RrcSetupRequest)
        } else if t == 0x01 {
            Some(RrcMessageType::RrcSetup)
        } else if t == 0x02 {
            Some(RrcMessageType::RrcSetupComplete)
        } else if t == 0x10 {
            Some(RrcMessageType::SecurityModeCommand)
        } else if t == 0x11 {
            Some(RrcMessageType::SecurityModeComplete)
        } else if t == 0x20 {
            Some(RrcMessageType::RrcReconfiguration)
        } else if t == 0x21 {
            Some(RrcMessageType::RrcReconfigurationComplete)
        } else {
            None
        }
    }
}

/// The establishment cause of a cause byte; unknown values read as MO
/// data.
pub open spec fn cause_of(b: u8) -> EstablishmentCause {
    if b == 0 {
        EstablishmentCause::Emergency
    } else if b == 1 {
        EstablishmentCause::HighPriorityAccess
    } else if b == 2 {
        EstablishmentCause::MtAccess
    } else if b == 3 {
        EstablishmentCause::MoSignalling
    } else if b == 5 {
        EstablishmentCause::MoVoiceCall
    } else if b == 6 {
        EstablishmentCause::MoVideoCall
    } else if b == 7 {
        EstablishmentCause::MoSms
    } else {
        EstablishmentCause::MoData
    }
}

/// An RRC Setup Request: type byte, identity length L, L identity bytes,
/// cause byte. `None` when shorter than three bytes or than the identity
/// length announces.
pub open spec fn setup_request_spec(data: Seq<u8>) -> Option<(Seq<u8>, EstablishmentCause)> {
    if data.len() < 3 {
        None
    } else {
        let id_len = data[1] as int;
        if data.len() < 2 + id_len + 1 {
            None
        } else {
            Some((data.subrange(2, 2 + id_len), cause_of(data[2 + id_len])))
        }
    }
}

/// The RRC Setup message: type and transaction, SRB1 (id 1, AM, SN
/// length 5), the cell group with the cell identity (big-endian) and the
/// default physical configuration.
pub open spec fn rrc_setup_bytes(cell_id: u16) -> Seq<u8> {
    seq![
        0x00u8,
        0x00u8,
        0x01u8,
        0x00u8,
        0x05u8,
        0x10u8,
        (cell_id >> 8u16) as u8,
        (cell_id & 0xFFu16) as u8,
        0x20u8,
        0x00u8,
    ]
}

/// The C-RNTI that uplink messages are attributed to.
pub open spec fn uplink_rnti() -> u16 {
    0x4601
}

/// RRC layer state: configuration, initialized flag, UE contexts by
/// C-RNTI and the next UE identifier.
pub struct RrcLayer {
    config: RrcConfig,
    initialized: bool,
    ue_contexts: HashMap<u16, UeContext>,
    next_ue_id: u32,
}

impl RrcLayer {
    /// The layer has been initialized and not shut down since.
    pub closed spec fn is_initialized(&self) -> bool {
        self.initialized
    }

    /// The UE contexts by C-RNTI.
    pub closed spec fn contexts(&self) -> Map<u16, UeContext> {
        self.ue_contexts@
    }

    /// The identifier the next UE gets.
    pub closed spec fn spec_next_ue_id(&self) -> u32 {
        self.next_ue_id
    }

    /// Cell identity of the configuration.
    pub closed spec fn spec_cell_id(&self) -> u16 {
        self.config.cell_id.0
    }

    /// The contexts after an RRC Setup Request from `rnti`: a connected
    /// context with the next UE identifier and the request's identity and
    /// cause.
    pub open spec fn after_setup_request(
        &self,
        new_contexts: Map<u16, UeContext>,
        rnti: u16,
        identity: Seq<u8>,
        cause: EstablishmentCause,
    ) -> bool {
        &&& new_contexts.dom() == self.contexts().dom().insert(rnti)
        &&& forall|k: u16| k != rnti && #[trigger] self.contexts().contains_key(k) ==> new_contexts[k] == self.contexts()[k]
        &&& new_contexts[rnti].ue_id == self.spec_next_ue_id()
        &&& new_contexts[rnti].c_rnti.0 == rnti
        &&& new_contexts[rnti].state == RrcState::Connected
        &&& new_contexts[rnti].security_capabilities@ == Seq::<u8>::empty()
        &&& new_contexts[rnti].ue_identity@ == identity
        &&& new_contexts[rnti].establishment_cause == Some(cause)
    }

    /// The contexts after an RRC Setup Complete from `rnti`, whose context
    /// exists: that context is connected, all else unchanged.
    pub open spec fn after_setup_complete(&self, new_contexts: Map<u16, UeContext>, rnti: u16) -> bool {
        &&& new_contexts.dom() == self.contexts().dom()
        &&& forall|k: u16| k != rnti && #[trigger] self.contexts().contains_key(k) ==> new_contexts[k] == self.contexts()[k]
        &&& new_contexts[rnti].ue_id == self.contexts()[rnti].ue_id
        &&& new_contexts[rnti].c_rnti == self.contexts()[rnti].c_rnti
        &&& new_contexts[rnti].state == RrcState::Connected
        &&& new_contexts[rnti].security_capabilities@ == self.contexts()[rnti].security_capabilities@
        &&& new_contexts[rnti].ue_identity@ == self.contexts()[rnti].ue_identity@
        &&& new_contexts[rnti].establishment_cause == self.contexts()[rnti].establishment_cause
    }

    /// A layer with no UE contexts, not initialized; UE identifiers start
    /// at 1000.
    pub fn new(config: RrcConfig) -> (l: Self)
        ensures
            !l.is_initialized(),
            l.contexts() == Map::<u16, UeContext>::empty(),
            l.spec_next_ue_id() == 1000,
            l.spec_cell_id() == config.cell_id.0,
    {
        RrcLayer { config, initialized: false, ue_contexts: HashMap::new(), next_ue_id: 1000 }
    }

    /// Initializes the layer; always succeeds.
    pub fn initialize(&mut self) -> (r: Result<(), LayerError>)
        ensures
            r is Ok,
            final(self).is_initialized(),
            final(self).contexts() == old(self).contexts(),
            final(self).spec_next_ue_id() == old(self).spec_next_ue_id(),
            final(self).spec_cell_id() == old(self).spec_cell_id(),
    {
        self.initialized = true;
        Ok(())
    }

    /// Handles an RRC Setup Request from a UE: creates its connected
    /// context under the next UE identifier and returns the RRC Setup to
    /// send it.
    pub fn handle_rrc_setup_request(&mut self, rnti: Rnti, request: RrcSetupRequest) -> (r: Result<
        bytes::Bytes,
        LayerError,
    >)
        requires
            old(self).spec_next_ue_id() < u32::MAX,
        ensures
            r is Ok,
            bytes_contents(r->Ok_0) == rrc_setup_bytes(old(self).spec_cell_id()),
            old(self).after_setup_request(
                final(self).contexts(),
                rnti.0,
                request.ue_identity@,
                request.establishment_cause,
            ),
            final(self).spec_next_ue_id() == old(self).spec_next_ue_id() + 1,
            final(self).is_initialized() == old(self).is_initialized(),
            final(self).spec_cell_id() == old(self).spec_cell_id(),
    {
        let ue_id = self.next_ue_id;
        self.next_ue_id = self.next_ue_id + 1;
        let ue_context = UeContext {
            ue_id,
            c_rnti: rnti,
            state: RrcState::Connected,
            security_capabilities: Vec::new(),
            ue_identity: request.ue_identity,
            establishment_cause: Some(request.establishment_cause),
        };
        self.ue_contexts.insert(rnti.0, ue_context);
        self.generate_rrc_setup(rnti)
    }

    /// The RRC Setup message for a UE of this cell.
    pub fn generate_rrc_setup(&self, rnti: Rnti) -> (r: Result<bytes::Bytes, LayerError>)
        ensures
            r is Ok,
            bytes_contents(r->Ok_0) == rrc_setup_bytes(self.spec_cell_id()),
    {
        let cell = self.config.cell_id.0;
        let mut buf: Vec<u8> = Vec::new();
        buf.push(0x00);
        buf.push(0x00);
        buf.push(0x01);
        buf.push(0x00);
        buf.push(0x05);
        buf.push(0x10);
        buf.push((cell >> 8u16) as u8);
        buf.push((cell & 0xFF) as u8);
        buf.push(0x20);
        buf.push(0x00);
        assert(buf@ =~= rrc_setup_bytes(cell));
        Ok(bytes_from_vec(buf))
    }

    /// Handles an RRC Setup Complete: the UE's context becomes connected;
    /// an `InvalidState` error when the C-RNTI has no context.
    pub fn handle_rrc_setup_complete(&mut self, rnti: Rnti, data: bytes::Bytes) -> (r: Result<(), LayerError>)
        ensures
            r is Ok <==> old(self).contexts().contains_key(rnti.0),
            r is Ok ==> old(self).after_setup_complete(final(self).contexts(), rnti.0),
            r is Err ==> r->Err_0 is InvalidState && r->Err_0->InvalidState_0@ == "No UE context"@,
            r is Err ==> final(self).contexts() == old(self).contexts(),
            final(self).spec_next_ue_id() == old(self).spec_next_ue_id(),
            final(self).is_initialized() == old(self).is_initialized(),
            final(self).spec_cell_id() == old(self).spec_cell_id(),
    {
        match self.ue_contexts.remove(&rnti.0) {
            Some(ctx) => {
                let UeContext {
                    ue_id,
                    c_rnti,
                    state: _,
                    security_capabilities,
                    ue_identity,
                    establishment_cause,
                } = ctx;
                let updated = UeContext {
                    ue_id,
                    c_rnti,
                    state: RrcState::Connected,
                    security_capabilities,
                    ue_identity,
                    establishment_cause,
                };
                self.ue_contexts.insert(rnti.0, updated);
                Ok(())
            },
            None => Err(LayerError::InvalidState("No UE context".to_owned())),
        }
    }

    /// The message type of an RRC PDU, from the low six bits of its first
    /// byte; `None` for an empty PDU or an unknown type.
    pub fn parse_message_type(&self, data: &[u8]) -> (r: Option<RrcMessageType>)
        ensures
            r == rrc_message_type_spec(data@),
    {
        if data.len() == 0 {
            return None;
        }
        let t = data[0] & 0x3F;
        if t == 0x00 {
            Some(RrcMessageType::RrcSetupRequest)
        } else if t == 0x01 {
            Some(RrcMessageType::RrcSetup)
        } else if t == 0x02 {
            Some(RrcMessageType::RrcSetupComplete)
        } else if t == 0x10 {
            Some(RrcMessageType::SecurityModeCommand)
        } else if t == 0x11 {
            Some(RrcMessageType::SecurityModeComplete)
        } else if t == 0x20 {
            Some(RrcMessageType::RrcReconfiguration)
        } else if t == 0x21 {
            Some(RrcMessageType::RrcReconfigurationComplete)
        } else {
            None
        }
    }

    /// Parses an RRC Setup Request; `InvalidPdu` when it is too short.
    pub fn parse_rrc_setup_request(&self, data: &[u8]) -> (r: Result<RrcSetupRequest, LayerError>)
        ensures
            r is Ok <==> setup_request_spec(data@) is Some,
            r is Err ==> r->Err_0 is InvalidPdu,
            r is Ok ==> ({
                let (identity, cause) = setup_request_spec(data@)->0;
                r->Ok_0.ue_identity@ == identity && r->Ok_0.establishment_cause == cause
            }),
    {
        if data.len() < 3 {
            return Err(LayerError::InvalidPdu);
        }
        let idx: usize = 1;
        let id_len = data[idx] as usize;
        let idx = idx + 1;
        if data.len() < idx + id_len + 1 {
            return Err(LayerError::InvalidPdu);
        }
        let mut ue_identity: Vec<u8> = Vec::new();
        let mut k: usize = 0;
        while k < id_len
            invariant
                idx == 2,
                idx + id_len + 1 <= data.len(),
                k <= id_len,
                ue_identity@ == data@.subrange(2, 2 + k),
            decreases id_len - k,
        {
            ue_identity.push(data[idx + k]);
            k = k + 1;
            assert(ue_identity@ =~= data@.subrange(2, 2 + k));
        }
        let cause_byte = data[idx + id_len];
        let establishment_cause = if cause_byte == 0 {
            EstablishmentCause::Emergency
        } else if cause_byte == 1 {
            EstablishmentCause::HighPriorityAccess
        } else if cause_byte == 2 {
            EstablishmentCause::MtAccess
        } else if cause_byte == 3 {
            EstablishmentCause::MoSignalling
        } else if cause_byte == 5 {
            EstablishmentCause::MoVoiceCall
        } else if cause_byte == 6 {
            EstablishmentCause::MoVideoCall
        } else if cause_byte == 7 {
            EstablishmentCause::MoSms
        } else {
            EstablishmentCause::MoData
        };
        Ok(RrcSetupRequest { ue_identity, establishment_cause })
    }

    /// Processes an uplink RRC PDU (attributed to C-RNTI 0x4601): an RRC
    /// Setup Request that parses creates the UE context and yields the RRC
    /// Setup to send; an RRC Setup Complete connects the UE's context when
    /// it exists; anything else changes nothing. `NotInitialized` before
    /// initialization. The PDU itself goes on to the upper layers
    /// unchanged.
    pub fn process_uplink(&mut self, data: &[u8]) -> (r: Result<Option<bytes::Bytes>, LayerError>)
        requires
            old(self).is_initialized() && rrc_message_type_spec(data@) == Some(RrcMessageType::RrcSetupRequest)
                && setup_request_spec(data@) is Some ==> old(self).spec_next_ue_id() < u32::MAX,
        ensures
            final(self).is_initialized() == old(self).is_initialized(),
            final(self).spec_cell_id() == old(self).spec_cell_id(),
            !old(self).is_initialized() ==> r == Err::<Option<bytes::Bytes>, LayerError>(LayerError::NotInitialized)
                && final(self).contexts() == old(self).contexts() && final(self).spec_next_ue_id()
                == old(self).spec_next_ue_id(),
            old(self).is_initialized() ==> r is Ok,
            old(self).is_initialized() ==> ({
                let t = rrc_message_type_spec(data@);
                let req = setup_request_spec(data@);
                let (identity, cause) = req->0;
                if t == Some(RrcMessageType::RrcSetupRequest) && req is Some {
                    &&& r->Ok_0 is Some
                    &&& bytes_contents(r->Ok_0->0) == rrc_setup_bytes(old(self).spec_cell_id())
                    &&& old(self).after_setup_request(final(self).contexts(), uplink_rnti(), identity, cause)
                    &&& final(self).spec_next_ue_id() == old(self).spec_next_ue_id() + 1
                } else if t == Some(RrcMessageType::RrcSetupComplete) && old(self).contexts().contains_key(
                    uplink_rnti(),
                ) {
                    &&& r->Ok_0 is None
                    &&& old(self).after_setup_complete(final(self).contexts(), uplink_rnti())
                    &&& final(self).spec_next_ue_id() == old(self).spec_next_ue_id()
                } else {
                    &&& r->Ok_0 is None
                    &&& final(self).contexts() == old(self).contexts()
                    &&& final(self).spec_next_ue_id() == old(self).spec_next_ue_id()
                }
            }),
    {
        if !self.initialized {
            return Err(LayerError::NotInitialized);
        }
        let rnti = Rnti(0x4601);
        match self.parse_message_type(data) {
            Some(RrcMessageType::RrcSetupRequest) => match self.parse_rrc_setup_request(data) {
                Ok(request) => match self.handle_rrc_setup_request(rnti, request) {
                    Ok(setup) => Ok(Some(setup)),
                    Err(_) => Ok(None),
                },
                Err(_) => Ok(None),
            },
            Some(RrcMessageType::RrcSetupComplete) => {
                let _ = self.handle_rrc_setup_complete(rnti, bytes_from_vec(Vec::new()));
                Ok(None)
            },
            _ => Ok(None),
        }
    }

    /// Passes downlink data through; `NotInitialized` before
    /// initialization.
    pub fn process_downlink(&self, data: bytes::Bytes) -> (r: Result<bytes::Bytes, LayerError>)
        ensures
            self.is_initialized() ==> r == Ok::<bytes::Bytes, LayerError>(data),
            !self.is_initialized() ==> r == Err::<bytes::Bytes, LayerError>(LayerError::NotInitialized),
    {
        if !self.initialized {
            return Err(LayerError::NotInitialized);
        }
        Ok(data)
    }

    /// Shuts the layer down, releasing every UE context.
    pub fn shutdown(&mut self) -> (r: Result<(), LayerError>)
        ensures
            r is Ok,
            !final(self).is_initialized(),
            final(self).contexts() == Map::<u16, UeContext>::empty(),
            final(self).spec_next_ue_id() == old(self).spec_next_ue_id(),
            final(self).spec_cell_id() == old(self).spec_cell_id(),
    {
        self.ue_contexts.clear();
        self.initialized = false;
        Ok(())
    }

    /// Number of UE contexts.
    pub fn num_ue_contexts(&self) -> (n: usize)
        ensures
            n == self.contexts().len(),
    {
        self.ue_contexts.len()
    }

    /// The RRC state of the UE with a C-RNTI, if it has a context.
    pub fn ue_state(&self, rnti: u16) -> (r: Option<RrcState>)
        ensures
            r is Some <==> self.contexts().contains_key(rnti),
            r is Some ==> r->0 == self.contexts()[rnti].state,
    {
        match self.ue_contexts.get(&rnti) {
            Some(ctx) => Some(ctx.state),
            None => None,
        }
    }
}

} // verus!
