//! Verified core of a WebRTC relay: the statistics book-keeping, the
//! GStreamer pipeline description, the pipeline-message and client-session
//! decisions, and the small text utilities they rely on.

pub mod text;
pub mod stats;
pub mod types;
pub mod pipeline;
pub mod session;
