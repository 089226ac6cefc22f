//! Verified core of a real-time audio plugin host: stream-format negotiation,
//! planar block buffers, the sample ring between the two audio callbacks, the
//! engine's control-plane state machine and the plugin search-path registry.

pub mod buffer;
pub mod engine;
pub mod error;
pub mod format;
pub mod plugin_host;
pub mod registry;
pub mod ring;
pub mod uid;
