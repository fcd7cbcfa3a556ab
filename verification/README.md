# webrtc_relay

A relay that receives an MPEG-TS stream (H.264 + AAC) over TCP or UDP,
transcodes it with GStreamer to VP9 and Opus, and serves it to browsers over
WebRTC, with a WebSocket for signalling.

- `src/` is the verified library (Verus):
  - `text.rs`: decimal rendering, space-joined concatenation, prefix test;
  - `stats.rs`: stream state, per-client records keyed by socket address,
    totals and the per-second sample, status line;
  - `pipeline.rs`: launch descriptions of the pipeline and of a client's
    peer bin, plugin check, STUN address choice, meaning of bus messages,
    outbound byte counts from webrtcbin statistics;
  - `session.rs`: the conversation with one client as a state machine from
    events to actions;
  - `types.rs`: settings and signalling messages.
- `app/` is the program around it: command line, GStreamer, the
  HTTP/WebSocket server, the rate meters and the status output.
- `tests/` exercises the library.
