//! Balabol: the verified core of a serverless peer-to-peer voice and chat
//! application (STUN framing, SFU election and routing, gossip tables,
//! session state machines, invite links, identities and encryption).

pub mod addr;
pub mod stun;
pub mod table;
pub mod text;
pub mod sfu;
pub mod session;
pub mod time;
pub mod gossip;
pub mod crypto;
pub mod invite;
pub mod signaling;
pub mod storage;
pub mod crdt;
pub mod engine;
pub mod rendezvous;
pub mod logger;
pub mod capture;
pub mod audio;
pub mod adapters;
