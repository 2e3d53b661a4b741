//! Client-side world synchronisation: the wire codec for requests and
//! responses, the local world store, the connection lifecycle, and the
//! per-tick dispatch of transport events.
pub mod lifecycle;
pub mod protocol;
pub mod sync;
pub mod world;
