//! Verified core of the pCloud relay: the request-path rules, header
//! filtering, body chunking, the pending-response table and the device
//! registry that the relay server drives.

pub mod codec;
pub mod config;
pub mod device;
pub mod http_rules;
pub mod protocol;
pub mod proxy;
pub mod state;
pub mod table;
pub mod text;
