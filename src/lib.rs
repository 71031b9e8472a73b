//! Publication of origin signing keys to a remote registry: key file name
//! parsing, a bounded fixed-interval retry schedule, and the two-phase
//! (public, then secret) upload session as a state machine whose outside work
//! (the transport call, the wait between attempts) is done by the caller.
pub mod key_id;
pub mod schedule;
pub mod transport;
pub mod session;
pub mod laws;
