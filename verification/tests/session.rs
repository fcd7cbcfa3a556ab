use webrtc_relay::pipeline::PipelineMessage;
use webrtc_relay::session::{ClientAction, ClientEvent, ClientSession, SessionPhase};
use webrtc_relay::stats::{PeerConnectionState, State};
use webrtc_relay::types::JsonMsg;

fn describe(actions: &[ClientAction]) -> Vec<String> {
    actions
        .iter()
        .map(|a| match a {
            ClientAction::Send(JsonMsg::Sdp(s)) => format!("send sdp {}", s),
            ClientAction::Send(JsonMsg::Ice { sdp_m_line_index, candidate }) => {
                format!("send ice {} {}", sdp_m_line_index, candidate)
            }
            ClientAction::Send(JsonMsg::Stats { .. }) => "send stats".to_string(),
            ClientAction::SetRemoteDescription(s) => format!("answer {}", s),
            ClientAction::AddIceCandidate { sdp_m_line_index, candidate } => {
                format!("add ice {} {}", sdp_m_line_index, candidate)
            }
            ClientAction::RecordBytesSent(n) => format!("bytes {}", n),
            ClientAction::RecordConnectionState(s) => format!("state {:?}", s),
            ClientAction::RecordRemoteStats { total_packets_received, total_packets_lost } => {
                format!("remote {} {}", total_packets_received, total_packets_lost)
            }
            ClientAction::SetStreamState(s) => format!("stream {:?}", s),
            ClientAction::RemovePeer => "remove".to_string(),
            ClientAction::Fail(e) => format!("fail {}", e),
        })
        .collect()
}

#[test]
fn offer_then_conversation() {
    let mut s = ClientSession::new();
    assert!(s.awaiting_offer());
    // Before the offer only the websocket matters; messages are not read.
    assert!(describe(&s.step(ClientEvent::SocketOther)).is_empty());
    assert!(describe(&s.step(ClientEvent::BytesSent(5))).is_empty());
    assert!(s.awaiting_offer());
    assert_eq!(describe(&s.step(ClientEvent::OfferReady("v=0".to_string()))), vec!["send sdp v=0"]);
    assert_eq!(s.current_phase(), SessionPhase::Connected);
    assert_eq!(
        describe(&s.step(ClientEvent::IceCandidate { sdp_m_line_index: 1, candidate: "c1".to_string() })),
        vec!["send ice 1 c1"]
    );
    assert_eq!(describe(&s.step(ClientEvent::BytesSent(4096))), vec!["bytes 4096"]);
    assert_eq!(
        describe(&s.step(ClientEvent::ConnectionState(PeerConnectionState::Connected))),
        vec!["state Connected"]
    );
    assert_eq!(
        describe(&s.step(ClientEvent::SocketMessage(JsonMsg::Sdp("answer-sdp".to_string())))),
        vec!["answer answer-sdp"]
    );
    assert_eq!(
        describe(&s.step(ClientEvent::SocketMessage(JsonMsg::Ice {
            sdp_m_line_index: 0,
            candidate: "remote".to_string()
        }))),
        vec!["add ice 0 remote"]
    );
    assert_eq!(
        describe(&s.step(ClientEvent::SocketMessage(JsonMsg::Stats {
            total_packets_received: 10,
            total_packets_lost: 1
        }))),
        vec!["remote 10 1"]
    );
    assert_eq!(describe(&s.step(ClientEvent::OfferReady("v=1".to_string()))), vec!["send sdp v=1"]);
    assert!(describe(&s.step(ClientEvent::SocketOther)).is_empty());
    assert_eq!(
        describe(&s.step(ClientEvent::Bus(PipelineMessage::StateChanged {
            from_pipeline: true,
            now_playing: true
        }))),
        vec!["stream Streaming"]
    );
    assert!(!s.is_closed());
    assert_eq!(describe(&s.step(ClientEvent::SocketClosed)), vec!["remove"]);
    assert!(s.is_closed());
    // A closed session asks for nothing more.
    assert!(describe(&s.step(ClientEvent::OfferReady("v=2".to_string()))).is_empty());
    assert!(describe(&s.step(ClientEvent::SocketClosed)).is_empty());
}

#[test]
fn close_before_offer() {
    let mut s = ClientSession::new();
    assert_eq!(describe(&s.step(ClientEvent::SocketClosed)), vec!["remove"]);
    assert!(s.is_closed());
}

#[test]
fn end_of_stream_removes_the_peer() {
    let mut s = ClientSession::new();
    s.step(ClientEvent::OfferReady("o".to_string()));
    assert_eq!(
        describe(&s.step(ClientEvent::Bus(PipelineMessage::Eos))),
        vec!["stream StreamEnded", "remove"]
    );
    assert!(s.is_closed());
}

#[test]
fn bus_error_fails_the_session() {
    let mut s = ClientSession::new();
    s.step(ClientEvent::OfferReady("o".to_string()));
    let actions = s.step(ClientEvent::Bus(PipelineMessage::Error {
        source: Some("webrtcbin0".to_string()),
        error: "bad".to_string(),
        debug: None,
    }));
    assert_eq!(describe(&actions), vec!["fail Error from element webrtcbin0: bad (None)"]);
    assert!(s.is_closed());
    let _ = State::Idle;
}

#[test]
fn bytes_sent_is_converted_exactly() {
    let mut s = ClientSession::new();
    s.step(ClientEvent::OfferReady("o".to_string()));
    assert_eq!(describe(&s.step(ClientEvent::BytesSent(1u64 << 32))), vec!["bytes 4294967296"]);
}
