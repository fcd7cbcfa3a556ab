//! The relay's settings and the JSON messages it exchanges with a browser.

use vstd::prelude::*;

verus! {

/// The relay's settings, as plain values.
///
/// `stream_host` is the textual IP address the input stream is received on,
/// `stream_port` its port; `signal_server` is the address the
/// HTTP/WebSocket server listens on.
#[derive(Clone, Debug)]
pub struct Args {
    pub verbose: u8,
    pub stream_host: String,
    pub stream_port: u16,
    pub signal_server: String,
    pub udp: bool,
    pub cpu_used: i32,
    pub video_bitrate: u32,
    pub audio_bitrate: u32,
}

/// A message of the signalling protocol between the relay and a browser.
#[derive(Clone, Debug)]
pub enum JsonMsg {
    /// A session description (the relay's offer, or the browser's answer).
    Sdp(String),
    /// An ICE candidate for the media line with the given index.
    Ice { sdp_m_line_index: u32, candidate: String },
    /// The packet counts that the browser reports for its receiving side.
    Stats { total_packets_received: usize, total_packets_lost: usize },
}

} // verus!
