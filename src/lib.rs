//! Server-side core of a TURN relay: a STUN attribute codec, the attributes
//! that allocation handling reads, and the registry of relay allocations.

pub mod codec;
pub mod evenport;
pub mod lifetime;
pub mod five_tuple;
pub mod manager;
pub mod text;
pub mod nonces;
pub mod request;
