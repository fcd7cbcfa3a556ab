//! Streaming statistics: the relay's stream state, one record per connected
//! client (keyed by its socket address), and the running totals from which
//! the per-second status line is computed.

use vstd::prelude::*;
use crate::text::{decimal, push_decimal};

verus! {

/// Where the relay's input stream stands.
#[derive(Clone, Copy, Debug, PartialEq, Eq, Structural)]
pub enum State {
    Idle,
    WaitingForStream,
    Streaming,
    StreamEnded,
}

/// The name of a stream state, as its `Debug` rendering spells it.
pub open spec fn state_name(s: State) -> Seq<char> {
    match s {
        State::Idle => "Idle"@,
        State::WaitingForStream => "WaitingForStream"@,
        State::Streaming => "Streaming"@,
        State::StreamEnded => "StreamEnded"@,
    }
}

impl State {
    /// The name of the state, as its `Debug` rendering spells it.
    pub fn name(&self) -> (n: &'static str)
        ensures
            n@ == state_name(*self),
    {
        match self {
            State::Idle => "Idle",
            State::WaitingForStream => "WaitingForStream",
            State::Streaming => "Streaming",
            State::StreamEnded => "StreamEnded",
        }
    }
}

/// Terminal control sequence that erases the current line.
pub const ERASE_WHOLE_LINE: &'static str = "\x1B[2K";

/// Terminal control sequence that returns the cursor to the line start.
pub const MOVE_TO_START_OF_LINE: &'static str = "\r";

/// Terminal control sequence that shows the cursor.
pub const SHOW_CURSOR: &'static str = "\x1B[?25h";

/// Terminal control sequence that hides the cursor.
pub const HIDE_CURSOR: &'static str = "\x1B[?25l";

/// The status line for the given state, client count and measured rates.
pub open spec fn status_text(state: State, clients: nat, bytes_per_sec: nat, loss_percent: nat) -> Seq<
    char,
> {
    state_name(state) + " - "@ + decimal(clients) + " clients - sending "@ + decimal(
        bytes_per_sec / 1024,
    ) + " KiB/s - "@ + decimal(loss_percent) + "% loss"@
}

/// The status line framed so that it overwrites the previous one in place.
pub open spec fn status_frame_text(status: Seq<char>) -> Seq<char> {
    HIDE_CURSOR@ + MOVE_TO_START_OF_LINE@ + ERASE_WHOLE_LINE@ + status + SHOW_CURSOR@
}

/// Frames a status line so that it overwrites the previous one in place:
/// hide the cursor, return to the line start, erase the line, write the
/// status, show the cursor again.
pub fn status_frame(status: &str) -> (framed: String)
    ensures
        framed@ == status_frame_text(status@),
{
    let mut framed = String::new();
    framed.append(HIDE_CURSOR);
    framed.append(MOVE_TO_START_OF_LINE);
    framed.append(ERASE_WHOLE_LINE);
    framed.append(status);
    framed.append(SHOW_CURSOR);
    proof {
        assert(framed@ =~= status_frame_text(status@));
    }
    framed
}

/// The WebRTC peer-connection state of one client, as webrtcbin reports it.
/// `Unknown` carries the raw value of a state this library does not name.
#[derive(Clone, Copy, Debug, PartialEq, Eq, Structural)]
pub enum PeerConnectionState {
    New,
    Connecting,
    Connected,
    Disconnected,
    Failed,
    Closed,
    Unknown(i32),
}

/// A client's socket address as plain values: for IPv4, `ip` holds the
/// 32-bit address and `flowinfo` and `scope_id` are 0.
#[derive(Clone, Copy, Debug, PartialEq, Eq, Structural)]
pub struct ClientAddr {
    pub v6: bool,
    pub ip: u128,
    pub port: u16,
    pub flowinfo: u32,
    pub scope_id: u32,
}

/// What is known of one client: its connection state, the bytes sent to it
/// and the packet counts it reported.
#[derive(Clone, Copy, Debug)]
pub struct ClientStats {
    pub state: PeerConnectionState,
    pub total_bytes_sent: usize,
    pub total_packets_received: usize,
    pub total_packets_lost: usize,
}

/// The record of a client that has just connected.
pub open spec fn fresh_client() -> ClientStats {
    ClientStats {
        state: PeerConnectionState::New,
        total_bytes_sent: 0,
        total_packets_received: 0,
        total_packets_lost: 0,
    }
}

impl ClientStats {
    /// A record for a client that has just connected: state `New`, all
    /// counters zero.
    pub fn new() -> (c: ClientStats)
        ensures
            c == fresh_client(),
    {
        ClientStats {
            state: PeerConnectionState::New,
            total_bytes_sent: 0,
            total_packets_received: 0,
            total_packets_lost: 0,
        }
    }
}

/// One of the three per-client counters that the statistics add up.
#[derive(Clone, Copy, Debug, PartialEq, Eq, Structural)]
pub enum Counter {
    BytesSent,
    PacketsReceived,
    PacketsLost,
}

/// The value of one counter of a client record.
pub open spec fn count(c: ClientStats, which: Counter) -> nat {
    match which {
        Counter::BytesSent => c.total_bytes_sent as nat,
        Counter::PacketsReceived => c.total_packets_received as nat,
        Counter::PacketsLost => c.total_packets_lost as nat,
    }
}

/// The sum of one counter over all clients of a finite map.
pub closed spec fn total(m: Map<ClientAddr, ClientStats>, which: Counter) -> nat
    decreases m.dom().len(),
{
    if m.dom().finite() && m.dom().len() > 0 {
        let k = m.dom().choose();
        proof {
            lemma_choose_in_nonempty(m.dom());
        }
        count(m[k], which) + total(m.remove(k), which)
    } else {
        0
    }
}

proof fn lemma_choose_in_nonempty(s: Set<ClientAddr>)
    requires
        s.finite(),
        s.len() > 0,
    ensures
        s.contains(s.choose()),
        s.remove(s.choose()).len() < s.len(),
{
    if !s.contains(s.choose()) {
        assert(s =~= Set::empty());
    }
}

/// The total of an empty map is zero.
pub proof fn lemma_total_empty(which: Counter)
    ensures
        total(Map::<ClientAddr, ClientStats>::empty(), which) == 0,
{
}

/// A total can be taken apart at any client: it is that client's counter
/// plus the total of the others.
pub proof fn lemma_total_remove(m: Map<ClientAddr, ClientStats>, k: ClientAddr, which: Counter)
    requires
        m.dom().finite(),
        m.contains_key(k),
    ensures
        total(m, which) == count(m[k], which) + total(m.remove(k), which),
    decreases m.dom().len(),
{
    lemma_choose_in_nonempty_from(m, k);
    let c = m.dom().choose();
    if c != k {
        let mc = m.remove(c);
        let mk = m.remove(k);
        lemma_total_remove(mc, k, which);
        lemma_total_remove(mk, c, which);
        assert(mc.remove(k) =~= mk.remove(c));
    }
}

proof fn lemma_choose_in_nonempty_from(m: Map<ClientAddr, ClientStats>, k: ClientAddr)
    requires
        m.dom().finite(),
        m.contains_key(k),
    ensures
        m.dom().len() > 0,
        m.dom().contains(m.dom().choose()),
        m.remove(m.dom().choose()).dom().len() < m.dom().len(),
{
    assert(m.dom().len() > 0) by {
        if m.dom().len() == 0 {
            assert(m.dom() =~= Set::empty());
        }
    }
    lemma_choose_in_nonempty(m.dom());
    assert(m.remove(m.dom().choose()).dom() =~= m.dom().remove(m.dom().choose()));
}

/// A client that connects under an address not yet known adds nothing to
/// any total: its record starts with every counter at zero.
pub proof fn law_connect_adds_nothing(
    m: Map<ClientAddr, ClientStats>,
    addr: ClientAddr,
    which: Counter,
)
    requires
        m.dom().finite(),
        !m.contains_key(addr),
    ensures
        total(m.insert(addr, fresh_client()), which) == total(m, which),
{
    let m2 = m.insert(addr, fresh_client());
    lemma_total_remove(m2, addr, which);
    assert(m2.remove(addr) =~= m);
}

/// A client that connects under an address not yet known and then
/// disconnects leaves the clients exactly as they were.
pub proof fn law_connect_then_disconnect(m: Map<ClientAddr, ClientStats>, addr: ClientAddr)
    requires
        !m.contains_key(addr),
    ensures
        m.insert(addr, fresh_client()).remove(addr) == m,
{
    assert(m.insert(addr, fresh_client()).remove(addr) =~= m);
}

/// A client that disconnects takes exactly its own counters out of the
/// totals.
pub proof fn law_disconnect_subtracts(
    m: Map<ClientAddr, ClientStats>,
    addr: ClientAddr,
    which: Counter,
)
    requires
        m.dom().finite(),
        m.contains_key(addr),
    ensures
        total(m.remove(addr), which) + count(m[addr], which) == total(m, which),
{
    lemma_total_remove(m, addr, which);
}

/// Replacing one client's record moves each total by exactly the change in
/// that client's counter.
pub proof fn law_replace_moves_total(
    m: Map<ClientAddr, ClientStats>,
    addr: ClientAddr,
    c: ClientStats,
    which: Counter,
)
    requires
        m.dom().finite(),
        m.contains_key(addr),
    ensures
        total(m.insert(addr, c), which) + count(m[addr], which) == total(m, which) + count(
            c,
            which,
        ),
{
    let m2 = m.insert(addr, c);
    lemma_total_remove(m, addr, which);
    lemma_total_remove(m2, addr, which);
    assert(m2.remove(addr) =~= m.remove(addr));
}

// ---------------------------------------------------------------------------
// The association list that stores the clients, and its map view.
// ---------------------------------------------------------------------------

/// The map that an association list stands for.
pub closed spec fn map_of(s: Seq<(ClientAddr, ClientStats)>) -> Map<ClientAddr, ClientStats>
    decreases s.len(),
{
    if s.len() == 0 {
        Map::empty()
    } else {
        map_of(s.drop_last()).insert(s.last().0, s.last().1)
    }
}

/// No address occurs twice in the list.
pub open spec fn keys_distinct(s: Seq<(ClientAddr, ClientStats)>) -> bool {
    forall|i: int, j: int| 0 <= i < j < s.len() ==> #[trigger] s[i].0 != #[trigger] s[j].0
}

/// The sum of one counter along the list.
pub closed spec fn seq_total(s: Seq<(ClientAddr, ClientStats)>, which: Counter) -> nat
    decreases s.len(),
{
    if s.len() == 0 {
        0
    } else {
        seq_total(s.drop_last(), which) + count(s.last().1, which)
    }
}

proof fn lemma_map_of_basics(s: Seq<(ClientAddr, ClientStats)>)
    requires
        keys_distinct(s),
    ensures
        map_of(s).dom().finite(),
        map_of(s).dom().len() == s.len(),
        forall|i: int| 0 <= i < s.len() ==> #[trigger] map_of(s).contains_key(s[i].0),
        forall|i: int| 0 <= i < s.len() ==> #[trigger] map_of(s)[s[i].0] == s[i].1,
        forall|k: ClientAddr|
            #[trigger] map_of(s).contains_key(k) ==> exists|i: int|
                0 <= i < s.len() && #[trigger] s[i].0 == k,
    decreases s.len(),
{
    if s.len() > 0 {
        let t = s.drop_last();
        assert forall|i: int, j: int| 0 <= i < j < t.len() implies #[trigger] t[i].0
            != #[trigger] t[j].0 by {
            assert(t[i] == s[i] && t[j] == s[j]);
        }
        lemma_map_of_basics(t);
        let last = s.last();
        assert(!map_of(t).contains_key(last.0)) by {
            if map_of(t).contains_key(last.0) {
                let i = choose|i: int| 0 <= i < t.len() && #[trigger] t[i].0 == last.0;
                assert(s[i].0 == s[s.len() - 1].0);
            }
        }
        assert forall|i: int|
            #![trigger map_of(s).contains_key(s[i].0)]
            #![trigger map_of(s)[s[i].0]]
            0 <= i < s.len() implies map_of(s).contains_key(s[i].0) && map_of(s)[s[i].0]
                == s[i].1 by {
            if i < s.len() - 1 {
                assert(s[i] == t[i]);
                assert(s[i].0 != s[s.len() - 1].0);
            }
        }
        assert forall|k: ClientAddr| #[trigger] map_of(s).contains_key(k) implies exists|i: int|
            0 <= i < s.len() && #[trigger] s[i].0 == k by {
            if k == last.0 {
                assert(s[s.len() - 1].0 == k);
            } else {
                let i = choose|i: int| 0 <= i < t.len() && #[trigger] t[i].0 == k;
                assert(s[i] == t[i]);
            }
        }
    } else {
        assert(map_of(s).dom() =~= Set::empty());
    }
}

proof fn lemma_seq_total_is_total(s: Seq<(ClientAddr, ClientStats)>, which: Counter)
    requires
        keys_distinct(s),
    ensures
        seq_total(s, which) == total(map_of(s), which),
    decreases s.len(),
{
    if s.len() == 0 {
        assert(map_of(s) =~= Map::empty());
    } else {
        let t = s.drop_last();
        assert forall|i: int, j: int| 0 <= i < j < t.len() implies #[trigger] t[i].0
            != #[trigger] t[j].0 by {
            assert(t[i] == s[i] && t[j] == s[j]);
        }
        lemma_seq_total_is_total(t, which);
        lemma_map_of_basics(s);
        lemma_map_of_basics(t);
        let last = s.last();
        assert(!map_of(t).contains_key(last.0)) by {
            if map_of(t).contains_key(last.0) {
                let i = choose|i: int| 0 <= i < t.len() && #[trigger] t[i].0 == last.0;
                assert(s[i].0 == s[s.len() - 1].0);
            }
        }
        lemma_total_remove(map_of(s), last.0, which);
        assert(map_of(s).remove(last.0) =~= map_of(t));
    }
}

proof fn lemma_seq_total_prefix(s: Seq<(ClientAddr, ClientStats)>, n: int, which: Counter)
    requires
        0 <= n <= s.len(),
    ensures
        seq_total(s.take(n), which) <= seq_total(s, which),
    decreases s.len(),
{
    if n < s.len() {
        let t = s.drop_last();
        assert(s.take(n) =~= t.take(n));
        lemma_seq_total_prefix(t, n, which);
    } else {
        assert(s.take(n) =~= s);
    }
}

proof fn lemma_map_of_update(s: Seq<(ClientAddr, ClientStats)>, i: int, v: ClientStats)
    requires
        keys_distinct(s),
        0 <= i < s.len(),
    ensures
        keys_distinct(s.update(i, (s[i].0, v))),
        map_of(s.update(i, (s[i].0, v))) == map_of(s).insert(s[i].0, v),
    decreases s.len(),
{
    let u = s.update(i, (s[i].0, v));
    let t = s.drop_last();
    assert forall|a: int, b: int| 0 <= a < b < u.len() implies #[trigger] u[a].0
        != #[trigger] u[b].0 by {
        assert(u[a].0 == s[a].0 && u[b].0 == s[b].0);
    }
    if i == s.len() - 1 {
        assert(u.drop_last() =~= t);
        assert(map_of(s).insert(s[i].0, v) =~= map_of(t).insert(s[i].0, v));
    } else {
        assert forall|a: int, b: int| 0 <= a < b < t.len() implies #[trigger] t[a].0
            != #[trigger] t[b].0 by {
            assert(t[a] == s[a] && t[b] == s[b]);
        }
        lemma_map_of_update(t, i, v);
        assert(u.drop_last() =~= t.update(i, (t[i].0, v)));
        assert(s[i].0 != s[s.len() - 1].0);
        assert(map_of(u) =~= map_of(s).insert(s[i].0, v));
    }
}

proof fn lemma_map_of_remove(s: Seq<(ClientAddr, ClientStats)>, i: int)
    requires
        keys_distinct(s),
        0 <= i < s.len(),
    ensures
        keys_distinct(s.remove(i)),
        map_of(s.remove(i)) == map_of(s).remove(s[i].0),
    decreases s.len(),
{
    let r = s.remove(i);
    let t = s.drop_last();
    assert forall|a: int, b: int| 0 <= a < b < r.len() implies #[trigger] r[a].0
        != #[trigger] r[b].0 by {
        let sa = if a < i { a } else { a + 1 };
        let sb = if b < i { b } else { b + 1 };
        assert(r[a] == s[sa] && r[b] == s[sb]);
    }
    assert forall|a: int, b: int| 0 <= a < b < t.len() implies #[trigger] t[a].0
        != #[trigger] t[b].0 by {
        assert(t[a] == s[a] && t[b] == s[b]);
    }
    lemma_map_of_basics(t);
    let last = s.last();
    assert(!map_of(t).contains_key(last.0)) by {
        if map_of(t).contains_key(last.0) {
            let j = choose|j: int| 0 <= j < t.len() && #[trigger] t[j].0 == last.0;
            assert(s[j].0 == s[s.len() - 1].0);
        }
    }
    if i == s.len() - 1 {
        assert(r =~= t);
        assert(map_of(s).remove(last.0) =~= map_of(t));
    } else {
        lemma_map_of_remove(t, i);
        assert(r.drop_last() =~= t.remove(i));
        assert(r.last() == last);
        assert(s[i].0 != last.0);
        assert(map_of(r) =~= map_of(s).remove(s[i].0));
    }
}

proof fn lemma_map_of_push(s: Seq<(ClientAddr, ClientStats)>, k: ClientAddr, v: ClientStats)
    requires
        keys_distinct(s),
        !map_of(s).contains_key(k),
    ensures
        keys_distinct(s.push((k, v))),
        map_of(s.push((k, v))) == map_of(s).insert(k, v),
{
    let p = s.push((k, v));
    lemma_map_of_basics(s);
    assert forall|a: int, b: int| 0 <= a < b < p.len() implies #[trigger] p[a].0
        != #[trigger] p[b].0 by {
        if b == s.len() {
            assert(p[a] == s[a]);
            assert(map_of(s).contains_key(s[a].0));
        } else {
            assert(p[a] == s[a] && p[b] == s[b]);
        }
    }
    assert(p.drop_last() =~= s);
}

// ---------------------------------------------------------------------------
// The statistics.
// ---------------------------------------------------------------------------

/// The abstract state of the statistics.
pub struct StatsView {
    pub state: State,
    pub clients: Map<ClientAddr, ClientStats>,
    pub last_total_bytes: nat,
    pub last_total_packets_received: nat,
    pub last_total_packets_lost: nat,
}

/// The differences between the totals of one sample and those of the one
/// before it (saturating at zero).
#[derive(Clone, Copy, Debug, PartialEq, Eq, Structural)]
pub struct TickSample {
    pub bytes_sent: usize,
    pub packets_received: usize,
    pub packets_lost: usize,
}

/// `a - b`, or zero where `b` exceeds `a`.
pub open spec fn saturating_diff(a: nat, b: nat) -> nat {
    if a >= b { (a - b) as nat } else { 0 }
}

/// What sampling the statistics yields: `None` when one of the three totals
/// exceeds `usize::MAX`; otherwise how far each total moved since the last
/// sample, and the statistics with the new totals recorded as the baseline
/// (the packets-lost baseline takes the packets-received total).
pub open spec fn sample_outcome(v: StatsView) -> Option<(TickSample, StatsView)> {
    let bytes = total(v.clients, Counter::BytesSent);
    let received = total(v.clients, Counter::PacketsReceived);
    let lost = total(v.clients, Counter::PacketsLost);
    if bytes > usize::MAX || received > usize::MAX || lost > usize::MAX {
        None
    } else {
        Some(
            (
                TickSample {
                    bytes_sent: saturating_diff(bytes, v.last_total_bytes) as usize,
                    packets_received: saturating_diff(
                        received,
                        v.last_total_packets_received,
                    ) as usize,
                    packets_lost: saturating_diff(lost, v.last_total_packets_lost) as usize,
                },
                StatsView {
                    last_total_bytes: bytes,
                    last_total_packets_received: received,
                    last_total_packets_lost: received,
                    ..v
                },
            ),
        )
    }
}

/// A sample reports, for bytes and for received packets, how far the total
/// over all clients rose above the previous baseline, and nothing when it
/// did not rise: a total that fell (a client left) is never reported as
/// new traffic.
pub proof fn law_sample_reports_rises_only(v: StatsView)
    requires
        sample_outcome(v) is Some,
    ensures
        ({
            let t = sample_outcome(v).unwrap().0;
            let bytes = total(v.clients, Counter::BytesSent);
            let received = total(v.clients, Counter::PacketsReceived);
            &&& t.bytes_sent as int == (if bytes >= v.last_total_bytes {
                bytes - v.last_total_bytes
            } else {
                0
            })
            &&& t.packets_received as int == (if received >= v.last_total_packets_received {
                received - v.last_total_packets_received
            } else {
                0
            })
            &&& (received <= v.last_total_packets_received ==> t.packets_received == 0)
            &&& t.packets_received <= received
            &&& t.bytes_sent <= bytes
        }),
{
}

/// A sample measures lost packets against the previous lost baseline, then
/// records the new bytes and received totals as baselines and the received
/// total as the next lost baseline; clients and stream state stay as they
/// were.
pub proof fn law_sample_baselines(v: StatsView)
    requires
        sample_outcome(v) is Some,
    ensures
        ({
            let (t, after) = sample_outcome(v).unwrap();
            let lost = total(v.clients, Counter::PacketsLost);
            let received = total(v.clients, Counter::PacketsReceived);
            &&& t.packets_lost as int == (if lost >= v.last_total_packets_lost {
                lost - v.last_total_packets_lost
            } else {
                0
            })
            &&& after.last_total_bytes == total(v.clients, Counter::BytesSent)
            &&& after.last_total_packets_received == received
            &&& after.last_total_packets_lost == received
            &&& after.clients == v.clients
            &&& after.state == v.state
        }),
        (sample_outcome(v) is None) == (total(v.clients, Counter::BytesSent) > usize::MAX || total(
            v.clients,
            Counter::PacketsReceived,
        ) > usize::MAX || total(v.clients, Counter::PacketsLost) > usize::MAX),
{
}

/// The status line names the stream state as it is spelled, then the
/// client count, the byte rate in whole KiB/s (1024 bytes, rounded down)
/// and the loss in percent.
pub proof fn law_status_text(state: State, clients: nat, bytes_per_sec: nat, loss_percent: nat)
    ensures
        status_text(state, clients, bytes_per_sec, loss_percent) == (match state {
            State::Idle => "Idle"@,
            State::WaitingForStream => "WaitingForStream"@,
            State::Streaming => "Streaming"@,
            State::StreamEnded => "StreamEnded"@,
        }) + " - "@ + decimal(clients) + " clients - sending "@ + decimal(bytes_per_sec / 1024)
            + " KiB/s - "@ + decimal(loss_percent) + "% loss"@,
        bytes_per_sec < 1024 ==> decimal(bytes_per_sec / 1024) == decimal(0),
{
}

/// Sampling twice with nothing recorded in between reports no new bytes and
/// no new received packets the second time.
pub proof fn law_sample_twice(v: StatsView)
    requires
        sample_outcome(v) is Some,
    ensures
        ({
            let (_, after) = sample_outcome(v).unwrap();
            &&& sample_outcome(after) is Some
            &&& sample_outcome(after).unwrap().0.bytes_sent == 0
            &&& sample_outcome(after).unwrap().0.packets_received == 0
        }),
{
}

/// Statistics over the stream and the connected clients.
pub struct Stats {
    state: State,
    clients: Vec<(ClientAddr, ClientStats)>,
    last_total_bytes: usize,
    last_total_packets_received: usize,
    last_total_packets_lost: usize,
}

impl View for Stats {
    type V = StatsView;

    closed spec fn view(&self) -> StatsView {
        StatsView {
            state: self.state,
            clients: map_of(self.clients@),
            last_total_bytes: self.last_total_bytes as nat,
            last_total_packets_received: self.last_total_packets_received as nat,
            last_total_packets_lost: self.last_total_packets_lost as nat,
        }
    }
}

impl Stats {
    /// The internal list holds each client address at most once.
    pub closed spec fn wf(&self) -> bool {
        keys_distinct(self.clients@)
    }

    /// Fresh statistics: `Idle`, no clients, all running totals zero.
    pub fn new() -> (s: Stats)
        ensures
            s.wf(),
            s@.state == State::Idle,
            s@.clients == Map::<ClientAddr, ClientStats>::empty(),
            s@.last_total_bytes == 0,
            s@.last_total_packets_received == 0,
            s@.last_total_packets_lost == 0,
    {
        let s = Stats {
            state: State::Idle,
            clients: Vec::new(),
            last_total_bytes: 0,
            last_total_packets_received: 0,
            last_total_packets_lost: 0,
        };
        proof {
            assert(map_of(s.clients@) =~= Map::empty());
        }
        s
    }

    /// The number of clients known; the clients' map is always finite.
    pub fn client_count(&self) -> (n: usize)
        requires
            self.wf(),
        ensures
            self@.clients.dom().finite(),
            n == self@.clients.len(),
    {
        proof {
            lemma_map_of_basics(self.clients@);
        }
        self.clients.len()
    }

    /// The stream state.
    pub fn state(&self) -> (s: State)
        ensures
            s == self@.state,
    {
        self.state
    }

    /// The record of the client at `addr`, if there is one.
    pub fn client(&self, addr: &ClientAddr) -> (c: Option<ClientStats>)
        requires
            self.wf(),
        ensures
            c == (if self@.clients.contains_key(*addr) {
                Some(self@.clients[*addr])
            } else {
                None
            }),
    {
        match self.find(addr) {
            Some(i) => Some(self.clients[i].1),
            None => None,
        }
    }

    fn find(&self, addr: &ClientAddr) -> (r: Option<usize>)
        requires
            self.wf(),
        ensures
            match r {
                Some(i) => i < self.clients@.len() && self.clients@[i as int].0 == *addr
                    && self@.clients.contains_key(*addr) && self@.clients[*addr]
                    == self.clients@[i as int].1,
                None => !self@.clients.contains_key(*addr),
            },
    {
        proof {
            lemma_map_of_basics(self.clients@);
        }
        let mut i: usize = 0;
        while i < self.clients.len()
            invariant
                self.wf(),
                i <= self.clients@.len(),
                forall|j: int| 0 <= j < i ==> self.clients@[j].0 != *addr,
            decreases self.clients@.len() - i,
        {
            if self.clients[i].0 == *addr {
                proof {
                    lemma_map_of_basics(self.clients@);
                }
                return Some(i);
            }
            i = i + 1;
        }
        proof {
            if map_of(self.clients@).contains_key(*addr) {
                let j = choose|j: int| 0 <= j < self.clients@.len() && #[trigger] self.clients@[j].0
                    == *addr;
            }
        }
        None
    }

    /// Records the stream state.
    pub fn set_state(&mut self, state: State)
        requires
            old(self).wf(),
        ensures
            final(self).wf(),
            final(self)@ == (StatsView { state, ..old(self)@ }),
    {
        self.state = state;
    }

    /// Starts a fresh record for the client at `addr`, replacing any record
    /// already held for it.
    pub fn on_client_connected(&mut self, addr: ClientAddr)
        requires
            old(self).wf(),
        ensures
            final(self).wf(),
            final(self)@ == (StatsView {
                clients: old(self)@.clients.insert(addr, fresh_client()),
                ..old(self)@
            }),
    {
        let fresh = ClientStats::new();
        match self.find(&addr) {
            Some(i) => {
                proof {
                    lemma_map_of_update(self.clients@, i as int, fresh);
                }
                self.clients.set(i, (addr, fresh));
            },
            None => {
                proof {
                    lemma_map_of_push(self.clients@, addr, fresh);
                }
                self.clients.push((addr, fresh));
            },
        }
    }

    /// Forgets the client at `addr`.
    pub fn on_client_disconnected(&mut self, addr: ClientAddr)
        requires
            old(self).wf(),
        ensures
            final(self).wf(),
            final(self)@ == (StatsView { clients: old(self)@.clients.remove(addr), ..old(self)@ }),
    {
        match self.find(&addr) {
            Some(i) => {
                proof {
                    lemma_map_of_remove(self.clients@, i as int);
                }
                self.clients.remove(i);
            },
            None => {
                proof {
                    assert(map_of(self.clients@).remove(addr) =~= map_of(self.clients@));
                }
            },
        }
    }

    fn replace_at(&mut self, i: usize, c: ClientStats)
        requires
            old(self).wf(),
            i < old(self).clients@.len(),
        ensures
            final(self).wf(),
            final(self)@ == (StatsView {
                clients: old(self)@.clients.insert(old(self).clients@[i as int].0, c),
                ..old(self)@
            }),
    {
        let addr = self.clients[i].0;
        proof {
            lemma_map_of_update(self.clients@, i as int, c);
        }
        self.clients.set(i, (addr, c));
    }

    /// Records the connection state of the client at `addr`, if it is known.
    pub fn on_client_state(&mut self, addr: ClientAddr, state: PeerConnectionState)
        requires
            old(self).wf(),
        ensures
            final(self).wf(),
            final(self)@ == (if old(self)@.clients.contains_key(addr) {
                StatsView {
                    clients: old(self)@.clients.insert(
                        addr,
                        ClientStats { state, ..old(self)@.clients[addr] },
                    ),
                    ..old(self)@
                }
            } else {
                old(self)@
            }),
    {
        if let Some(i) = self.find(&addr) {
            let c = self.clients[i].1;
            self.replace_at(i, ClientStats { state, ..c });
        }
    }

    /// Records the bytes sent so far to the client at `addr`, if it is known.
    pub fn update_client_stats(&mut self, addr: ClientAddr, total_bytes_sent: usize)
        requires
            old(self).wf(),
        ensures
            final(self).wf(),
            final(self)@ == (if old(self)@.clients.contains_key(addr) {
                StatsView {
                    clients: old(self)@.clients.insert(
                        addr,
                        ClientStats { total_bytes_sent, ..old(self)@.clients[addr] },
                    ),
                    ..old(self)@
                }
            } else {
                old(self)@
            }),
    {
        if let Some(i) = self.find(&addr) {
            let c = self.clients[i].1;
            self.replace_at(i, ClientStats { total_bytes_sent, ..c });
        }
    }

    /// Records the packet counts that the client at `addr` reported, if it
    /// is known.
    pub fn update_remote_stats(
        &mut self,
        addr: ClientAddr,
        total_packets_received: usize,
        total_packets_lost: usize,
    )
        requires
            old(self).wf(),
        ensures
            final(self).wf(),
            final(self)@ == (if old(self)@.clients.contains_key(addr) {
                StatsView {
                    clients: old(self)@.clients.insert(
                        addr,
                        ClientStats {
                            total_packets_received,
                            total_packets_lost,
                            ..old(self)@.clients[addr]
                        },
                    ),
                    ..old(self)@
                }
            } else {
                old(self)@
            }),
    {
        if let Some(i) = self.find(&addr) {
            let c = self.clients[i].1;
            self.replace_at(i, ClientStats { total_packets_received, total_packets_lost, ..c });
        }
    }

    /// Adds up the three counters over all clients and records the totals,
    /// returning how far each total moved since the previous sample.
    ///
    /// Returns `None`, and changes nothing, when a total does not fit in a
    /// `usize`. The packets-lost baseline is set to the packets-received
    /// total, so the next lost difference is taken against that figure.
    #[verifier::loop_isolation(false)]
    pub fn sample(&mut self) -> (r: Option<TickSample>)
        requires
            old(self).wf(),
        ensures
            final(self).wf(),
            match sample_outcome(old(self)@) {
                None => r is None && final(self)@ == old(self)@,
                Some(p) => r == Some(p.0) && final(self)@ == p.1,
            },
    {
        let ghost s = self.clients@;
        proof {
            lemma_seq_total_is_total(s, Counter::BytesSent);
            lemma_seq_total_is_total(s, Counter::PacketsReceived);
            lemma_seq_total_is_total(s, Counter::PacketsLost);
        }
        let mut total_bytes_sent: usize = 0;
        let mut total_packets_received: usize = 0;
        let mut total_packets_lost: usize = 0;
        let mut i: usize = 0;
        while i < self.clients.len()
            invariant
                s == self.clients@,
                i <= s.len(),
                total_bytes_sent == seq_total(s.take(i as int), Counter::BytesSent),
                total_packets_received == seq_total(s.take(i as int), Counter::PacketsReceived),
                total_packets_lost == seq_total(s.take(i as int), Counter::PacketsLost),
            decreases s.len() - i,
        {
            let c = self.clients[i].1;
            proof {
                assert(s.take(i + 1).drop_last() =~= s.take(i as int));
                assert(s.take(i + 1).last() == s[i as int]);
                lemma_seq_total_prefix(s, i + 1, Counter::BytesSent);
                lemma_seq_total_prefix(s, i + 1, Counter::PacketsReceived);
                lemma_seq_total_prefix(s, i + 1, Counter::PacketsLost);
            }
            match total_bytes_sent.checked_add(c.total_bytes_sent) {
                Some(v) => total_bytes_sent = v,
                None => return None,
            }
            match total_packets_received.checked_add(c.total_packets_received) {
                Some(v) => total_packets_received = v,
                None => return None,
            }
            match total_packets_lost.checked_add(c.total_packets_lost) {
                Some(v) => total_packets_lost = v,
                None => return None,
            }
            i = i + 1;
        }
        proof {
            assert(s.take(s.len() as int) =~= s);
        }
        let diff_total_bytes_sent = total_bytes_sent.saturating_sub(self.last_total_bytes);
        self.last_total_bytes = total_bytes_sent;
        let diff_total_packets_received = total_packets_received.saturating_sub(
            self.last_total_packets_received,
        );
        self.last_total_packets_received = total_packets_received;
        let diff_total_packets_lost = total_packets_lost.saturating_sub(
            self.last_total_packets_lost,
        );
        self.last_total_packets_lost = total_packets_received;
        Some(
            TickSample {
                bytes_sent: diff_total_bytes_sent,
                packets_received: diff_total_packets_received,
                packets_lost: diff_total_packets_lost,
            },
        )
    }

    /// The status line: the stream state, the number of clients, the byte
    /// rate in KiB/s (rounded down) and the loss rate in percent, e.g.
    /// `Streaming - 2 clients - sending 150 KiB/s - 3% loss`.
    pub fn status_line(&self, bytes_per_sec: usize, loss_percent: usize) -> (line: String)
        requires
            self.wf(),
        ensures
            line@ == status_text(
                self@.state,
                self@.clients.len(),
                bytes_per_sec as nat,
                loss_percent as nat,
            ),
    {
        let n = self.client_count();
        let mut line = String::new();
        line.append(self.state.name());
        line.append(" - ");
        push_decimal(&mut line, n as u64);
        line.append(" clients - sending ");
        push_decimal(&mut line, (bytes_per_sec / 1024) as u64);
        line.append(" KiB/s - ");
        push_decimal(&mut line, loss_percent as u64);
        line.append("% loss");
        proof {
            assert(line@ =~= status_text(
                self@.state,
                self@.clients.len(),
                bytes_per_sec as nat,
                loss_percent as nat,
            ));
        }
        line
    }
}

} // verus!
