//! Network scanning core: decoding of captured link-layer frames, the
//! classification of replies into host and port observations, the
//! deduplicating result aggregator, the capture-loop stop decision and the
//! traceroute hop collector.
pub mod net;
pub mod codec;
pub mod setting;
pub mod result;
pub mod data;
pub mod classify;
pub mod capture;
pub mod traceroute;
pub mod laws;
pub mod memalloc;
