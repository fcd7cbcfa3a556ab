use webrtc_relay::stats::{
    status_frame, ClientAddr, ClientStats, PeerConnectionState, State, Stats, TickSample,
};

fn v4(a: u8, b: u8, c: u8, d: u8, port: u16) -> ClientAddr {
    ClientAddr {
        v6: false,
        ip: u32::from_be_bytes([a, b, c, d]) as u128,
        port,
        flowinfo: 0,
        scope_id: 0,
    }
}

#[test]
fn new_stats_are_idle_and_empty() {
    let s = Stats::new();
    assert_eq!(s.state(), State::Idle);
    assert_eq!(s.client_count(), 0);
    let c = ClientStats::new();
    assert_eq!(c.state, PeerConnectionState::New);
    assert_eq!(c.total_bytes_sent, 0);
}

#[test]
fn connect_update_disconnect() {
    let mut s = Stats::new();
    let a = v4(10, 0, 0, 1, 5000);
    let b = v4(10, 0, 0, 2, 5000);
    s.on_client_connected(a);
    s.on_client_connected(b);
    assert_eq!(s.client_count(), 2);
    s.update_client_stats(a, 1000);
    s.update_remote_stats(a, 50, 5);
    s.on_client_state(a, PeerConnectionState::Connected);
    let ca = s.client(&a).unwrap();
    assert_eq!(ca.total_bytes_sent, 1000);
    assert_eq!(ca.total_packets_received, 50);
    assert_eq!(ca.total_packets_lost, 5);
    assert_eq!(ca.state, PeerConnectionState::Connected);
    let cb = s.client(&b).unwrap();
    assert_eq!(cb.total_bytes_sent, 0);
    s.on_client_disconnected(a);
    assert_eq!(s.client_count(), 1);
    assert!(s.client(&a).is_none());
    assert!(s.client(&b).is_some());
}

#[test]
fn reconnect_resets_the_record() {
    let mut s = Stats::new();
    let a = v4(127, 0, 0, 1, 1);
    s.on_client_connected(a);
    s.update_client_stats(a, 77);
    s.on_client_connected(a);
    assert_eq!(s.client_count(), 1);
    assert_eq!(s.client(&a).unwrap().total_bytes_sent, 0);
}

#[test]
fn updates_for_unknown_clients_change_nothing() {
    let mut s = Stats::new();
    let a = v4(1, 2, 3, 4, 5);
    s.update_client_stats(a, 10);
    s.update_remote_stats(a, 1, 1);
    s.on_client_state(a, PeerConnectionState::Failed);
    s.on_client_disconnected(a);
    assert_eq!(s.client_count(), 0);
    assert_eq!(
        s.sample(),
        Some(TickSample { bytes_sent: 0, packets_received: 0, packets_lost: 0 })
    );
}

#[test]
fn same_address_different_port_are_different_clients() {
    let mut s = Stats::new();
    s.on_client_connected(v4(1, 1, 1, 1, 1));
    s.on_client_connected(v4(1, 1, 1, 1, 2));
    assert_eq!(s.client_count(), 2);
}

#[test]
fn sample_reports_differences() {
    let mut s = Stats::new();
    let a = v4(10, 0, 0, 1, 1);
    let b = v4(10, 0, 0, 2, 2);
    s.on_client_connected(a);
    s.on_client_connected(b);
    s.update_client_stats(a, 3000);
    s.update_client_stats(b, 2000);
    s.update_remote_stats(a, 100, 10);
    s.update_remote_stats(b, 50, 2);
    assert_eq!(
        s.sample(),
        Some(TickSample { bytes_sent: 5000, packets_received: 150, packets_lost: 12 })
    );
    // Nothing new: no bytes, no packets received; the lost difference is
    // taken against the packets-received figure of the previous sample.
    assert_eq!(
        s.sample(),
        Some(TickSample { bytes_sent: 0, packets_received: 0, packets_lost: 0 })
    );
    s.update_client_stats(a, 4000);
    s.update_remote_stats(b, 80, 200);
    assert_eq!(
        s.sample(),
        Some(TickSample { bytes_sent: 1000, packets_received: 30, packets_lost: 60 })
    );
}

#[test]
fn sample_saturates_when_a_client_leaves() {
    let mut s = Stats::new();
    let a = v4(10, 0, 0, 1, 1);
    s.on_client_connected(a);
    s.update_client_stats(a, 3000);
    assert_eq!(s.sample().unwrap().bytes_sent, 3000);
    s.on_client_disconnected(a);
    assert_eq!(s.sample().unwrap().bytes_sent, 0);
}

#[test]
fn sample_refuses_totals_that_overflow() {
    let mut s = Stats::new();
    let a = v4(10, 0, 0, 1, 1);
    let b = v4(10, 0, 0, 2, 2);
    s.on_client_connected(a);
    s.on_client_connected(b);
    s.update_client_stats(a, usize::MAX);
    s.update_client_stats(b, 1);
    assert_eq!(s.sample(), None);
    s.update_client_stats(b, 0);
    assert_eq!(s.sample().unwrap().bytes_sent, usize::MAX);
}

#[test]
fn status_line_text() {
    let mut s = Stats::new();
    assert_eq!(s.status_line(0, 0), "Idle - 0 clients - sending 0 KiB/s - 0% loss");
    s.set_state(State::Streaming);
    s.on_client_connected(v4(1, 1, 1, 1, 1));
    s.on_client_connected(v4(1, 1, 1, 1, 2));
    assert_eq!(
        s.status_line(150 * 1024 + 1023, 3),
        "Streaming - 2 clients - sending 150 KiB/s - 3% loss"
    );
    s.set_state(State::WaitingForStream);
    assert_eq!(s.status_line(1023, 100), "WaitingForStream - 2 clients - sending 0 KiB/s - 100% loss");
    s.set_state(State::StreamEnded);
    assert_eq!(State::StreamEnded.name(), "StreamEnded");
    assert_eq!(s.status_line(2048, 0), "StreamEnded - 2 clients - sending 2 KiB/s - 0% loss");
}

#[test]
fn status_frame_text() {
    assert_eq!(status_frame("hi"), "\x1B[?25l\r\x1B[2Khi\x1B[?25h");
}

#[test]
fn connecting_a_new_client_adds_nothing_to_the_totals() {
    let mut s = Stats::new();
    let a = v4(10, 0, 0, 1, 1);
    s.on_client_connected(a);
    s.update_client_stats(a, 500);
    s.update_remote_stats(a, 40, 4);
    assert_eq!(
        s.sample(),
        Some(TickSample { bytes_sent: 500, packets_received: 40, packets_lost: 4 })
    );
    s.on_client_connected(v4(10, 0, 0, 9, 9));
    assert_eq!(
        s.sample(),
        Some(TickSample { bytes_sent: 0, packets_received: 0, packets_lost: 0 })
    );
}

#[test]
fn connect_then_disconnect_restores_the_clients() {
    let mut s = Stats::new();
    let a = v4(10, 0, 0, 1, 1);
    let b = v4(10, 0, 0, 2, 2);
    s.on_client_connected(a);
    s.update_client_stats(a, 9);
    s.on_client_connected(b);
    s.on_client_disconnected(b);
    assert_eq!(s.client_count(), 1);
    assert_eq!(s.client(&a).unwrap().total_bytes_sent, 9);
    assert!(s.client(&b).is_none());
}
