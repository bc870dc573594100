//! A state-management runtime: an authoritative store driven by typed actions,
//! a handshake state machine for the channel that carries them, and a mirror of
//! the store on the coordinating side with change notification.
pub mod reducer;
pub mod store;
pub mod transport;
pub mod adapter;
pub mod prime;
pub mod examples;
