//! gNB configuration: the structure of the configuration file and the
//! reading of its PLMN strings.
pub mod config;
pub mod setup;
