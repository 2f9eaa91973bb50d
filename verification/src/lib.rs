//! Verified core of a 5G NR base station: shared types and utilities,
//! the PHY bit-level processing chains (CRC, Gold sequences, Polar and LDPC
//! coding, PBCH/PDCCH/PDSCH bit pipelines), frame timing and resource
//! mapping rules, the MAC scheduler and the RRC/NGAP message codecs.
pub mod common;
pub mod gnb;
pub mod interfaces;
pub mod layers;
