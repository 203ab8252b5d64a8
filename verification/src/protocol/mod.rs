//! The message catalog: the headers of the frame layer and the messages of
//! each schema family.

pub mod client;
pub mod gossip;
pub mod log;
pub mod management;
pub mod message;
pub mod raft;
pub mod transport;
