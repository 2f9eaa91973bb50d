//! NG application protocol: the NG Setup Request encoding, the reading of
//! the AMF's answer, and the connection state gates. The transport to the
//! AMF is the caller's.
use vstd::prelude::*;
use crate::layers::LayerError;

verus! {

/// NGAP procedure codes.
#[derive(Debug, Clone, Copy, PartialEq, Eq, Structural)]
pub enum NgapProcedureCode {
    /// NG Setup (21)
    NgSetup,
    /// Initial UE Message (15)
    InitialUeMessage,
    /// Downlink NAS Transport (4)
    DownlinkNasTransport,
    /// Uplink NAS Transport (46)
    UplinkNasTransport,
    /// UE Context Release Request (41)
    UeContextReleaseRequest,
    /// UE Context Release Command (42)
    UeContextReleaseCommand,
}

/// Numeric value of a procedure code.
pub open spec fn procedure_code_value(c: NgapProcedureCode) -> u8 {
    match c {
        NgapProcedureCode::NgSetup => 21,
        NgapProcedureCode::InitialUeMessage => 15,
        NgapProcedureCode::DownlinkNasTransport => 4,
        NgapProcedureCode::UplinkNasTransport => 46,
        NgapProcedureCode::UeContextReleaseRequest => 41,
        NgapProcedureCode::UeContextReleaseCommand => 42,
    }
}

impl NgapProcedureCode {
    /// Numeric value of the procedure code.
    pub fn code(&self) -> (c: u8)
        ensures
            c == procedure_code_value(*self),
    {
        match self {
            NgapProcedureCode::NgSetup => 21,
            NgapProcedureCode::InitialUeMessage => 15,
            NgapProcedureCode::DownlinkNasTransport => 4,
            NgapProcedureCode::UplinkNasTransport => 46,
            NgapProcedureCode::UeContextReleaseRequest => 41,
            NgapProcedureCode::UeContextReleaseCommand => 42,
        }
    }
}

/// An NGAP message.
#[derive(Debug)]
pub struct NgapMessage {
    /// Procedure code
    pub procedure_code: NgapProcedureCode,
    /// Criticality
    pub criticality: u8,
    /// Message payload
    pub payload: bytes::Bytes,
}

/// NGAP layer configuration.
#[derive(Debug, Clone)]
pub struct NgapConfig {
    /// AMF address (host:port)
    pub amf_address: String,
    /// Local address for SCTP binding (host:port)
    pub local_address: String,
    /// gNB ID
    pub gnb_id: u32,
    /// PLMN ID (MCC + MNC)
    pub plmn_id: [u8; 3],
}

/// The RAN node name sent in NG Setup.
pub open spec fn node_name() -> Seq<u8> {
    seq![0x41u8, 0x6Cu8, 0x62u8, 0x6Fu8, 0x72u8, 0x2Du8, 0x67u8, 0x4Eu8, 0x6Fu8, 0x64u8, 0x65u8, 0x42u8]
}

/// The information elements of NG Setup Request: the global RAN node ID
/// (PLMN and 24-bit gNB ID), the RAN node name, the supported TA list
/// (TAC 7, the PLMN, no slices) and the default paging DRX.
pub open spec fn ng_setup_ies(gnb_id: u32, plmn: Seq<u8>) -> Seq<u8> {
    seq![0x00u8, 0x1Bu8, 0x00u8, 0x00u8, 0x00u8, 0x03u8] + plmn + seq![
        0x00u8,
        0x18u8,
        (gnb_id >> 16u32) as u8,
        (gnb_id >> 8u32) as u8,
        gnb_id as u8,
        0x00u8,
        0x52u8,
        0x40u8,
        12u8,
    ] + node_name() + seq![0x00u8, 0x66u8, 0x00u8, 0x01u8, 0x00u8, 0x00u8, 0x07u8, 0x01u8] + plmn + seq![
        0x00u8,
        0x00u8,
        0x15u8,
        0x40u8,
        0x01u8,
        0x01u8,
    ]
}

/// NG Setup Request: initiating message, procedure 21, criticality reject,
/// the IE length, then the IEs.
pub open spec fn ng_setup_request_bytes(gnb_id: u32, plmn: Seq<u8>) -> Seq<u8> {
    seq![0x00u8, 21u8, 0x00u8, ng_setup_ies(gnb_id, plmn).len() as u8] + ng_setup_ies(gnb_id, plmn)
}

/// The AMF's answer to NG Setup in a received NGAP PDU: `Some(true)` for a
/// successful outcome, `Some(false)` for an unsuccessful one, `None` for
/// anything else (longer than 3 bytes with procedure 21 and type 0x20 or
/// 0x40).
pub open spec fn ng_setup_answer(payload: Seq<u8>) -> Option<bool> {
    if payload.len() > 3 && payload[1] == 21 {
        if payload[0] == 0x20 {
            Some(true)
        } else if payload[0] == 0x40 {
            Some(false)
        } else {
            None
        }
    } else {
        None
    }
}

/// NGAP layer state.
pub struct NgapLayer {
    config: NgapConfig,
    initialized: bool,
    ng_connected: bool,
}

impl NgapLayer {
    /// The layer is initialized.
    pub closed spec fn is_initialized(&self) -> bool {
        self.initialized
    }

    /// The NG connection to the AMF is up.
    pub closed spec fn is_connected(&self) -> bool {
        self.ng_connected
    }

    /// gNB identity of the configuration.
    pub closed spec fn spec_gnb_id(&self) -> u32 {
        self.config.gnb_id
    }

    /// PLMN of the configuration.
    pub closed spec fn spec_plmn(&self) -> [u8; 3] {
        self.config.plmn_id
    }

    /// AMF address of the configuration.
    pub closed spec fn spec_amf_address(&self) -> Seq<char> {
        self.config.amf_address@
    }

    /// A layer with the given configuration, neither initialized nor
    /// connected.
    pub fn new(config: NgapConfig) -> (l: Self)
        ensures
            !l.is_initialized(),
            !l.is_connected(),
            l.spec_gnb_id() == config.gnb_id,
            l.spec_plmn() == config.plmn_id,
            l.spec_amf_address() == config.amf_address@,
    {
        NgapLayer { config, initialized: false, ng_connected: false }
    }

    /// The AMF address to connect to.
    pub fn amf_address(&self) -> (a: &String)
        ensures
            a@ == self.spec_amf_address(),
    {
        &self.config.amf_address
    }

    /// Completes initialization with the outcome of connecting to the AMF:
    /// on success the layer is initialized and connected; on failure it is
    /// not initialized and the error is returned.
    pub fn complete_initialization(&mut self, connection: Result<(), LayerError>) -> (r: Result<(), LayerError>)
        ensures
            r == connection,
            connection is Ok ==> final(self).is_initialized() && final(self).is_connected(),
            connection is Err ==> !final(self).is_initialized() && final(self).is_connected()
                == old(self).is_connected(),
            final(self).spec_gnb_id() == old(self).spec_gnb_id(),
            final(self).spec_plmn() == old(self).spec_plmn(),
            final(self).spec_amf_address() == old(self).spec_amf_address(),
    {
        self.initialized = true;
        if connection.is_ok() {
            self.ng_connected = true;
        } else {
            self.initialized = false;
        }
        connection
    }

    /// Encodes the NG Setup Request of this gNB.
    pub fn build_ng_setup_request(&self) -> (r: Result<Vec<u8>, LayerError>)
        ensures
            r is Ok,
            r->Ok_0@ == ng_setup_request_bytes(self.spec_gnb_id(), self.spec_plmn()@),
            r->Ok_0@.len() == 51,
    {
        let plmn = self.config.plmn_id;
        let gnb_id = self.config.gnb_id;
        let mut ies: Vec<u8> = Vec::new();
        ies.push(0x00);
        ies.push(0x1B);
        ies.push(0x00);
        ies.push(0x00);
        ies.push(0x00);
        ies.push(0x03);
        ies.push(plmn[0]);
        ies.push(plmn[1]);
        ies.push(plmn[2]);
        ies.push(0x00);
        ies.push(0x18);
        ies.push((gnb_id >> 16u32) as u8);
        ies.push((gnb_id >> 8u32) as u8);
        ies.push(gnb_id as u8);
        ies.push(0x00);
        ies.push(0x52);
        ies.push(0x40);
        ies.push(12);
        ies.push(0x41);
        ies.push(0x6C);
        ies.push(0x62);
        ies.push(0x6F);
        ies.push(0x72);
        ies.push(0x2D);
        ies.push(0x67);
        ies.push(0x4E);
        ies.push(0x6F);
        ies.push(0x64);
        ies.push(0x65);
        ies.push(0x42);
        ies.push(0x00);
        ies.push(0x66);
        ies.push(0x00);
        ies.push(0x01);
        ies.push(0x00);
        ies.push(0x00);
        ies.push(0x07);
        ies.push(0x01);
        ies.push(plmn[0]);
        ies.push(plmn[1]);
        ies.push(plmn[2]);
        ies.push(0x00);
        ies.push(0x00);
        ies.push(0x15);
        ies.push(0x40);
        ies.push(0x01);
        ies.push(0x01);
        assert(ies@ =~= ng_setup_ies(gnb_id, plmn@));
        let ie_len = ies.len();
        let mut buffer: Vec<u8> = Vec::new();
        buffer.push(0x00);
        buffer.push(21);
        buffer.push(0x00);
        buffer.push(ie_len as u8);
        let mut k: usize = 0;
        while k < ies.len()
            invariant
                k <= ies@.len(),
                ies@.len() == 47,
                buffer@ == seq![0x00u8, 21u8, 0x00u8, 47u8] + ies@.take(k as int),
            decreases ies@.len() - k,
        {
            buffer.push(ies[k]);
            k = k + 1;
            assert(buffer@ =~= seq![0x00u8, 21u8, 0x00u8, 47u8] + ies@.take(k as int));
        }
        assert(ies@.take(47) =~= ies@);
        assert(buffer@ =~= ng_setup_request_bytes(gnb_id, plmn@));
        Ok(buffer)
    }

    /// Reads a PDU received while waiting for the NG Setup answer: `None`
    /// to keep waiting, `Some(Ok)` for NG Setup Response, `Some(Err)` with
    /// a `ProcessingError` for NG Setup Failure.
    pub fn check_ng_setup_response(&self, payload: &[u8]) -> (r: Option<Result<(), LayerError>>)
        ensures
            r is None <==> ng_setup_answer(payload@) is None,
            ng_setup_answer(payload@) == Some(true) ==> r == Some(Ok::<(), LayerError>(())),
            ng_setup_answer(payload@) == Some(false) ==> r is Some && r->0 is Err && r->0->Err_0 is ProcessingError
                && r->0->Err_0->ProcessingError_0@ == "NG Setup rejected by AMF"@,
    {
        if payload.len() > 3 && payload[1] == 21 {
            if payload[0] == 0x20 {
                return Some(Ok(()));
            } else if payload[0] == 0x40 {
                return Some(Err(LayerError::ProcessingError("NG Setup rejected by AMF".to_owned())));
            }
        }
        None
    }

    /// Uplink data to the AMF: `NotInitialized` before initialization, a
    /// `ProcessingError` without an NG connection, else passed through.
    pub fn process_uplink(&self, data: bytes::Bytes) -> (r: Result<bytes::Bytes, LayerError>)
        ensures
            !self.is_initialized() ==> r == Err::<bytes::Bytes, LayerError>(LayerError::NotInitialized),
            self.is_initialized() && !self.is_connected() ==> r is Err && r->Err_0 is ProcessingError
                && r->Err_0->ProcessingError_0@ == "NG connection not established"@,
            self.is_initialized() && self.is_connected() ==> r == Ok::<bytes::Bytes, LayerError>(data),
    {
        if !self.initialized {
            return Err(LayerError::NotInitialized);
        }
        if !self.ng_connected {
            return Err(LayerError::ProcessingError("NG connection not established".to_owned()));
        }
        Ok(data)
    }

    /// Downlink data from the AMF: `NotInitialized` before initialization,
    /// else passed through.
    pub fn process_downlink(&self, data: bytes::Bytes) -> (r: Result<bytes::Bytes, LayerError>)
        ensures
            self.is_initialized() ==> r == Ok::<bytes::Bytes, LayerError>(data),
            !self.is_initialized() ==> r == Err::<bytes::Bytes, LayerError>(LayerError::NotInitialized),
    {
        if !self.initialized {
            return Err(LayerError::NotInitialized);
        }
        Ok(data)
    }

    /// Shuts the layer down: the connection is dropped and the layer is no
    /// longer initialized.
    pub fn shutdown(&mut self) -> (r: Result<(), LayerError>)
        ensures
            r is Ok,
            !final(self).is_initialized(),
            !final(self).is_connected(),
            final(self).spec_gnb_id() == old(self).spec_gnb_id(),
            final(self).spec_plmn() == old(self).spec_plmn(),
            final(self).spec_amf_address() == old(self).spec_amf_address(),
    {
        if self.ng_connected {
            self.ng_connected = false;
        }
        self.initialized = false;
        Ok(())
    }
}

} // verus!
