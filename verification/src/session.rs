//! The conversation with one browser client, as a state machine from
//! events (what the websocket, webrtcbin and its bus deliver) to actions
//! (what the relay must send, set or record). The caller performs the
//! actions and feeds the next event.
//!
//! While the session awaits the relay's first offer, only the offer and the
//! websocket are listened to; every other source is left unread until the
//! offer has gone out.

use vstd::prelude::*;
use crate::pipeline::{PipelineMessage, message_outcome, handle_pipeline_message};
use crate::stats::{PeerConnectionState, State};
use crate::types::JsonMsg;

verus! {

/// A signalling message as abstract values.
pub enum MsgView {
    Sdp(Seq<char>),
    Ice { sdp_m_line_index: u32, candidate: Seq<char> },
    Stats { total_packets_received: usize, total_packets_lost: usize },
}

impl View for JsonMsg {
    type V = MsgView;

    open spec fn view(&self) -> MsgView {
        match self {
            JsonMsg::Sdp(s) => MsgView::Sdp(s@),
            JsonMsg::Ice { sdp_m_line_index, candidate } => MsgView::Ice {
                sdp_m_line_index: *sdp_m_line_index,
                candidate: candidate@,
            },
            JsonMsg::Stats { total_packets_received, total_packets_lost } => MsgView::Stats {
                total_packets_received: *total_packets_received,
                total_packets_lost: *total_packets_lost,
            },
        }
    }
}

/// Where the conversation with a client stands.
#[derive(Clone, Copy, Debug, PartialEq, Eq, Structural)]
pub enum SessionPhase {
    /// The relay's first offer has not been produced yet.
    AwaitingOffer,
    /// The offer went out; candidates, answers and statistics flow.
    Connected,
    /// The conversation is over.
    Closed,
}

/// Something that happened for a client.
pub enum ClientEvent {
    /// webrtcbin produced a local offer (its SDP text).
    OfferReady(String),
    /// webrtcbin found a local ICE candidate.
    IceCandidate { sdp_m_line_index: u32, candidate: String },
    /// webrtcbin's statistics report this many bytes sent in total.
    BytesSent(u64),
    /// webrtcbin's peer connection changed state.
    ConnectionState(PeerConnectionState),
    /// Another message arrived on webrtcbin's bus.
    Bus(PipelineMessage),
    /// The websocket was closed.
    SocketClosed,
    /// A signalling message arrived on the websocket.
    SocketMessage(JsonMsg),
    /// A websocket message that carries no text arrived.
    SocketOther,
}

/// Something the relay must do for a client.
pub enum ClientAction {
    /// Send a signalling message over the websocket.
    Send(JsonMsg),
    /// Apply the client's answer as webrtcbin's remote description.
    SetRemoteDescription(String),
    /// Hand a remote ICE candidate to webrtcbin.
    AddIceCandidate { sdp_m_line_index: u32, candidate: String },
    /// Record the total bytes sent to the client.
    RecordBytesSent(usize),
    /// Record the client's connection state.
    RecordConnectionState(PeerConnectionState),
    /// Record the packet counts the client reported.
    RecordRemoteStats { total_packets_received: usize, total_packets_lost: usize },
    /// Record the stream state.
    SetStreamState(State),
    /// Detach the client's peer bin from the pipeline and end the session.
    RemovePeer,
    /// End the session with this error.
    Fail(String),
}

/// An action as abstract values.
pub enum ActionView {
    Send(MsgView),
    SetRemoteDescription(Seq<char>),
    AddIceCandidate { sdp_m_line_index: u32, candidate: Seq<char> },
    RecordBytesSent(usize),
    RecordConnectionState(PeerConnectionState),
    RecordRemoteStats { total_packets_received: usize, total_packets_lost: usize },
    SetStreamState(State),
    RemovePeer,
    Fail(Seq<char>),
}

impl View for ClientAction {
    type V = ActionView;

    open spec fn view(&self) -> ActionView {
        match self {
            ClientAction::Send(m) => ActionView::Send(m@),
            ClientAction::SetRemoteDescription(s) => ActionView::SetRemoteDescription(s@),
            ClientAction::AddIceCandidate { sdp_m_line_index, candidate } =>
                ActionView::AddIceCandidate {
                sdp_m_line_index: *sdp_m_line_index,
                candidate: candidate@,
            },
            ClientAction::RecordBytesSent(n) => ActionView::RecordBytesSent(*n),
            ClientAction::RecordConnectionState(s) => ActionView::RecordConnectionState(*s),
            ClientAction::RecordRemoteStats { total_packets_received, total_packets_lost } =>
                ActionView::RecordRemoteStats {
                total_packets_received: *total_packets_received,
                total_packets_lost: *total_packets_lost,
            },
            ClientAction::SetStreamState(s) => ActionView::SetStreamState(*s),
            ClientAction::RemovePeer => ActionView::RemovePeer,
            ClientAction::Fail(e) => ActionView::Fail(e@),
        }
    }
}

/// The actions as abstract values.
pub open spec fn actions_view(actions: Seq<ClientAction>) -> Seq<ActionView> {
    actions.map_values(|a: ClientAction| a@)
}

/// What a bus message asks of a connected session: record the new stream
/// state if there is one; clean up and stop at the end of the stream; stop
/// with the error's report on an error.
pub open spec fn bus_step(msg: PipelineMessage) -> (SessionPhase, Seq<ActionView>) {
    match message_outcome(msg) {
        Ok(h) => {
            let record = match h.new_state {
                Some(s) => seq![ActionView::SetStreamState(s)],
                None => Seq::empty(),
            };
            if h.finished {
                (SessionPhase::Closed, record.push(ActionView::RemovePeer))
            } else {
                (SessionPhase::Connected, record)
            }
        },
        Err(report) => (SessionPhase::Closed, seq![ActionView::Fail(report)]),
    }
}

/// The next phase and the actions for an event.
pub open spec fn session_step(phase: SessionPhase, event: ClientEvent) -> (
    SessionPhase,
    Seq<ActionView>,
) {
    match phase {
        SessionPhase::AwaitingOffer => match event {
            ClientEvent::OfferReady(sdp) => (
                SessionPhase::Connected,
                seq![ActionView::Send(MsgView::Sdp(sdp@))],
            ),
            ClientEvent::SocketClosed => (SessionPhase::Closed, seq![ActionView::RemovePeer]),
            _ => (SessionPhase::AwaitingOffer, Seq::empty()),
        },
        SessionPhase::Connected => match event {
            ClientEvent::OfferReady(sdp) => (
                SessionPhase::Connected,
                seq![ActionView::Send(MsgView::Sdp(sdp@))],
            ),
            ClientEvent::IceCandidate { sdp_m_line_index, candidate } => (
                SessionPhase::Connected,
                seq![ActionView::Send(MsgView::Ice { sdp_m_line_index, candidate: candidate@ })],
            ),
            ClientEvent::BytesSent(n) => (
                SessionPhase::Connected,
                seq![ActionView::RecordBytesSent(n as usize)],
            ),
            ClientEvent::ConnectionState(s) => (
                SessionPhase::Connected,
                seq![ActionView::RecordConnectionState(s)],
            ),
            ClientEvent::Bus(msg) => bus_step(msg),
            ClientEvent::SocketClosed => (SessionPhase::Closed, seq![ActionView::RemovePeer]),
            ClientEvent::SocketMessage(m) => match m {
                JsonMsg::Sdp(answer) => (
                    SessionPhase::Connected,
                    seq![ActionView::SetRemoteDescription(answer@)],
                ),
                JsonMsg::Ice { sdp_m_line_index, candidate } => (
                    SessionPhase::Connected,
                    seq![ActionView::AddIceCandidate { sdp_m_line_index, candidate: candidate@ }],
                ),
                JsonMsg::Stats { total_packets_received, total_packets_lost } => (
                    SessionPhase::Connected,
                    seq![ActionView::RecordRemoteStats { total_packets_received, total_packets_lost }],
                ),
            },
            ClientEvent::SocketOther => (SessionPhase::Connected, Seq::empty()),
        },
        SessionPhase::Closed => (SessionPhase::Closed, Seq::empty()),
    }
}

/// A closed session stays closed and asks for nothing more, whatever
/// happens.
pub proof fn law_closed_is_final(event: ClientEvent)
    ensures
        session_step(SessionPhase::Closed, event) == (SessionPhase::Closed, Seq::<ActionView>::empty()),
{
}

/// Removing the peer, or failing, always ends the session, and every other
/// action leaves it open.
pub proof fn law_removal_ends_session(phase: SessionPhase, event: ClientEvent)
    ensures
        ({
            let (next, actions) = session_step(phase, event);
            (actions.contains(ActionView::RemovePeer) || exists|i: int|
                0 <= i < actions.len() && #[trigger] actions[i] is Fail) ==> next
                == SessionPhase::Closed
        }),
        ({
            let (next, actions) = session_step(phase, event);
            next == SessionPhase::Closed && phase != SessionPhase::Closed ==> (actions.contains(
                ActionView::RemovePeer,
            ) || exists|i: int| 0 <= i < actions.len() && #[trigger] actions[i] is Fail)
        }),
{
    let (next, actions) = session_step(phase, event);
    if phase != SessionPhase::Closed && next == SessionPhase::Closed {
        match event {
            ClientEvent::Bus(msg) => {
                match message_outcome(msg) {
                    Ok(h) => {
                        assert(actions.last() == ActionView::RemovePeer);
                        assert(actions.contains(ActionView::RemovePeer));
                    },
                    Err(r) => {
                        assert(actions[0] is Fail);
                    },
                }
            },
            _ => {
                assert(actions[0] == ActionView::RemovePeer);
            },
        }
    }
}

/// Once the first offer is out, the session never awaits an offer again.
pub proof fn law_offer_is_awaited_once(phase: SessionPhase, event: ClientEvent)
    requires
        phase != SessionPhase::AwaitingOffer,
    ensures
        session_step(phase, event).0 != SessionPhase::AwaitingOffer,
{
}

/// While the first offer is awaited, only the offer opens the session, and
/// it is sent to the client as it is; only the websocket closing ends the
/// session; everything else asks for nothing.
pub proof fn law_awaiting_offer(event: ClientEvent)
    ensures
        ({
            let (next, actions) = session_step(SessionPhase::AwaitingOffer, event);
            match event {
                ClientEvent::OfferReady(sdp) => next == SessionPhase::Connected && actions == seq![
                    ActionView::Send(MsgView::Sdp(sdp@)),
                ],
                ClientEvent::SocketClosed => next == SessionPhase::Closed && actions == seq![
                    ActionView::RemovePeer,
                ],
                _ => next == SessionPhase::AwaitingOffer && actions.len() == 0,
            }
        }),
{
}

/// Once connected, each signalling message from the client is handed on
/// with its own contents: an answer becomes the remote description, an ICE
/// candidate is added for its own media line, reported packet counts are
/// recorded as given; and the session stays connected.
pub proof fn law_client_messages_pass_through(
    sdp_m_line_index: u32,
    candidate: String,
    answer: String,
    total_packets_received: usize,
    total_packets_lost: usize,
)
    ensures
        session_step(
            SessionPhase::Connected,
            ClientEvent::SocketMessage(JsonMsg::Ice { sdp_m_line_index, candidate }),
        ) == (
            SessionPhase::Connected,
            seq![ActionView::AddIceCandidate { sdp_m_line_index, candidate: candidate@ }],
        ),
        session_step(SessionPhase::Connected, ClientEvent::SocketMessage(JsonMsg::Sdp(answer)))
            == (SessionPhase::Connected, seq![ActionView::SetRemoteDescription(answer@)]),
        session_step(
            SessionPhase::Connected,
            ClientEvent::SocketMessage(JsonMsg::Stats { total_packets_received, total_packets_lost }),
        ) == (
            SessionPhase::Connected,
            seq![ActionView::RecordRemoteStats { total_packets_received, total_packets_lost }],
        ),
{
}

/// Once connected, what webrtcbin produces is forwarded as it is: a local
/// ICE candidate is sent to the client for its own media line, a new offer
/// is sent as its SDP text, the byte count and the connection state are
/// recorded unchanged.
pub proof fn law_local_events_pass_through(
    sdp_m_line_index: u32,
    candidate: String,
    offer: String,
    bytes: u64,
    state: PeerConnectionState,
)
    ensures
        session_step(
            SessionPhase::Connected,
            ClientEvent::IceCandidate { sdp_m_line_index, candidate },
        ) == (
            SessionPhase::Connected,
            seq![ActionView::Send(MsgView::Ice { sdp_m_line_index, candidate: candidate@ })],
        ),
        session_step(SessionPhase::Connected, ClientEvent::OfferReady(offer)) == (
            SessionPhase::Connected,
            seq![ActionView::Send(MsgView::Sdp(offer@))],
        ),
        bytes <= usize::MAX ==> session_step(SessionPhase::Connected, ClientEvent::BytesSent(bytes))
            == (SessionPhase::Connected, seq![ActionView::RecordBytesSent(bytes as usize)]),
        session_step(SessionPhase::Connected, ClientEvent::BytesSent(bytes)).1.len() == 1,
        session_step(SessionPhase::Connected, ClientEvent::ConnectionState(state)) == (
            SessionPhase::Connected,
            seq![ActionView::RecordConnectionState(state)],
        ),
{
}

/// Once connected, the pipeline reaching `Playing` is recorded as
/// streaming; the end of the stream is recorded and removes the peer; an
/// element error ends the session with its report and nothing else.
pub proof fn law_bus_in_session(source: Option<String>, error: String, debug: Option<String>)
    ensures
        session_step(
            SessionPhase::Connected,
            ClientEvent::Bus(PipelineMessage::StateChanged { from_pipeline: true, now_playing: true }),
        ) == (SessionPhase::Connected, seq![ActionView::SetStreamState(State::Streaming)]),
        session_step(SessionPhase::Connected, ClientEvent::Bus(PipelineMessage::Eos)) == (
            SessionPhase::Closed,
            seq![ActionView::SetStreamState(State::StreamEnded), ActionView::RemovePeer],
        ),
        ({
            let (next, actions) = session_step(
                SessionPhase::Connected,
                ClientEvent::Bus(PipelineMessage::Error { source, error, debug }),
            );
            &&& next == SessionPhase::Closed
            &&& actions.len() == 1
            &&& actions[0] is Fail
            &&& message_outcome(PipelineMessage::Error { source, error, debug }) == Err::<
                crate::pipeline::Handled,
                Seq<char>,
            >(actions[0]->Fail_0)
        }),
{
    assert(seq![ActionView::SetStreamState(State::StreamEnded)].push(ActionView::RemovePeer)
        =~= seq![ActionView::SetStreamState(State::StreamEnded), ActionView::RemovePeer]);
}

/// The conversation with one client.
pub struct ClientSession {
    phase: SessionPhase,
}

impl ClientSession {
    /// A session that awaits the relay's first offer.
    pub fn new() -> (s: ClientSession)
        ensures
            s.phase() == SessionPhase::AwaitingOffer,
    {
        ClientSession { phase: SessionPhase::AwaitingOffer }
    }

    /// The phase of the session.
    pub closed spec fn phase(&self) -> SessionPhase {
        self.phase
    }

    /// The phase of the session.
    pub fn current_phase(&self) -> (p: SessionPhase)
        ensures
            p == self.phase(),
    {
        self.phase
    }

    /// Whether the session still awaits the relay's first offer (then only
    /// the offer and the websocket are to be listened to).
    pub fn awaiting_offer(&self) -> (b: bool)
        ensures
            b == (self.phase() == SessionPhase::AwaitingOffer),
    {
        match self.phase {
            SessionPhase::AwaitingOffer => true,
            _ => false,
        }
    }

    /// Whether the session is over.
    pub fn is_closed(&self) -> (b: bool)
        ensures
            b == (self.phase() == SessionPhase::Closed),
    {
        match self.phase {
            SessionPhase::Closed => true,
            _ => false,
        }
    }

    /// Takes one event and returns the actions it calls for, in order.
    pub fn step(&mut self, event: ClientEvent) -> (actions: Vec<ClientAction>)
        ensures
            final(self).phase() == session_step(old(self).phase(), event).0,
            actions_view(actions@) == session_step(old(self).phase(), event).1,
    {
        let ghost e = event;
        let mut actions: Vec<ClientAction> = Vec::new();
        match self.phase {
            SessionPhase::AwaitingOffer => match event {
                ClientEvent::OfferReady(sdp) => {
                    actions.push(ClientAction::Send(JsonMsg::Sdp(sdp)));
                    self.phase = SessionPhase::Connected;
                },
                ClientEvent::SocketClosed => {
                    actions.push(ClientAction::RemovePeer);
                    self.phase = SessionPhase::Closed;
                },
                _ => {},
            },
            SessionPhase::Connected => match event {
                ClientEvent::OfferReady(sdp) => {
                    actions.push(ClientAction::Send(JsonMsg::Sdp(sdp)));
                },
                ClientEvent::IceCandidate { sdp_m_line_index, candidate } => {
                    actions.push(ClientAction::Send(JsonMsg::Ice { sdp_m_line_index, candidate }));
                },
                ClientEvent::BytesSent(n) => {
                    actions.push(ClientAction::RecordBytesSent(n as usize));
                },
                ClientEvent::ConnectionState(s) => {
                    actions.push(ClientAction::RecordConnectionState(s));
                },
                ClientEvent::Bus(msg) => {
                    match handle_pipeline_message(&msg) {
                        Ok(h) => {
                            if let Some(s) = h.new_state {
                                actions.push(ClientAction::SetStreamState(s));
                            }
                            if h.finished {
                                actions.push(ClientAction::RemovePeer);
                                self.phase = SessionPhase::Closed;
                            }
                        },
                        Err(report) => {
                            actions.push(ClientAction::Fail(report));
                            self.phase = SessionPhase::Closed;
                        },
                    }
                },
                ClientEvent::SocketClosed => {
                    actions.push(ClientAction::RemovePeer);
                    self.phase = SessionPhase::Closed;
                },
                ClientEvent::SocketMessage(m) => match m {
                    JsonMsg::Sdp(answer) => {
                        actions.push(ClientAction::SetRemoteDescription(answer));
                    },
                    JsonMsg::Ice { sdp_m_line_index, candidate } => {
                        actions.push(ClientAction::AddIceCandidate { sdp_m_line_index, candidate });
                    },
                    JsonMsg::Stats { total_packets_received, total_packets_lost } => {
                        actions.push(
                            ClientAction::RecordRemoteStats {
                                total_packets_received,
                                total_packets_lost,
                            },
                        );
                    },
                },
                ClientEvent::SocketOther => {},
            },
            SessionPhase::Closed => {},
        }
        proof {
            assert(actions_view(actions@) =~= session_step(old(self).phase(), e).1);
        }
        actions
    }
}

} // verus!
