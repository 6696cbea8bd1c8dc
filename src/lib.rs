//! Client library for driving the components of an experiment controller:
//! typed envelopes, requests, reply decoding, and the verified request/reply
//! protocol of each command.

pub mod cli_param;
pub mod cli_state;
pub mod envelope;
pub mod error;
pub mod payload;
pub mod protocol;
pub mod wire;
