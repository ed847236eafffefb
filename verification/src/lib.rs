//! Persistent configuration store and network connectivity orchestrator
//! for a small network-connected sensor appliance.
//!
//! The crate is organised bottom-up:
//! - [`errors`]: the error taxonomy (storage, driver, validation);
//! - [`codec`]: the binary record format for persisted configuration;
//! - [`storage`]: the durable-store capability and the binary store;
//! - [`manager`]: the generic persistent state manager with subscribers;
//! - [`credentials`]: the network credential set, one persisted domain;
//! - [`device_state`]: the device settings domain and its service;
//! - [`radio`]: the radio driver capability and the deterministic radio;
//! - [`wifi`]: the connectivity orchestrator;
//! - [`sms`]: building the outbound notification request;
//! - [`responses`]: the management surface's response payloads.

pub mod codec;
pub mod credentials;
pub mod device_state;
pub mod errors;
pub mod manager;
pub mod radio;
pub mod responses;
pub mod sms;
pub mod storage;
pub mod wifi;
