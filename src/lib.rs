//! Layer and attribute object model of a layered protocol dissector:
//! interned tokens, zero-copy byte views, shared handles, bit-addressed
//! attributes with lazy expansion, decoded layers and the decoder pipeline.

pub mod attr;
pub mod cast;
pub mod decoder;
pub mod error;
pub mod eth;
pub mod fixed;
pub mod ipv4;
pub mod layer;
pub mod naming;
pub mod pcap;
pub mod slice;
pub mod token;
