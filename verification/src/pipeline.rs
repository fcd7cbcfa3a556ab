//! The GStreamer side of the relay as text and decisions: the launch
//! description of the transcoding pipeline and of a client's peer bin, the
//! plugin check, the STUN server choice, the reading of webrtcbin's
//! statistics, and what a message from a pipeline bus means for the relay.

use vstd::prelude::*;
use crate::stats::State;
use crate::text::{
    concat_spaces,
    decimal,
    holds_line,
    lemma_spaced_holds_each,
    has_prefix,
    push_decimal,
    push_signed_decimal,
    signed_decimal,
    spaced,
};
use crate::types::Args;

verus! {

// ---------------------------------------------------------------------------
// The transcoding pipeline.
// ---------------------------------------------------------------------------

/// The source element that receives the input stream, and the value of
/// tsparse's `set-timestamps` that goes with it: UDP input is timestamped
/// by tsparse, TCP input is not.
pub open spec fn input_component(udp: bool, host: Seq<char>, port: nat) -> (Seq<char>, Seq<char>) {
    if udp {
        (
            "udpsrc address="@ + host + " port="@ + decimal(port) + " do-timestamp=false"@,
            "true"@,
        )
    } else {
        (
            "tcpserversrc host="@ + host + " port="@ + decimal(port) + " do-timestamp=false"@,
            "false"@,
        )
    }
}

/// The lines of the pipeline description: demultiplex the MPEG-TS input,
/// transcode video to VP9 and audio to Opus, payload both as RTP and end
/// each branch in a tee that client peer bins attach to.
pub open spec fn pipeline_lines(
    input: Seq<char>,
    set_timestamps: Seq<char>,
    cpu_used: int,
    threads: nat,
    video_bitrate: nat,
    audio_bitrate: nat,
) -> Seq<Seq<char>> {
    seq![
        input + " ! queue"@,
        "  ! tsparse set-timestamps="@ + set_timestamps,
        "  ! tsdemux name=demux latency=700"@,
        "demux. ! queue"@,
        "  ! decodebin ! queue"@,
        "  ! videoconvert ! videoscale ! videorate ! queue"@,
        "  ! vp9enc"@,
        "    end-usage=cbr"@,
        "    cpu-used="@ + signed_decimal(cpu_used),
        "    deadline=1"@,
        "    threads="@ + decimal(threads),
        "    static-threshold=0"@,
        "    max-intra-bitrate=300"@,
        "    lag-in-frames=0"@,
        "    min-quantizer=4"@,
        "    max-quantizer=48"@,
        "    error-resilient=1"@,
        "    target-bitrate="@ + decimal(video_bitrate),
        "  ! video/x-vp9 ! queue"@,
        "  ! rtpvp9pay pt=96 ! queue"@,
        "  ! tee name=video-tee ! fakesink"@,
        "demux. ! queue"@,
        "  ! decodebin ! queue"@,
        "  ! audioconvert ! audioresample ! queue"@,
        "  ! audio/x-raw,channels=2"@,
        "  ! opusenc"@,
        "    bitrate="@ + decimal(audio_bitrate),
        "  ! audio/x-opus ! queue"@,
        "  ! rtpopuspay pt=97 ! queue"@,
        "  ! tee name=audio-tee ! fakesink"@,
    ]
}

/// The pipeline description for the given settings and encoder threads.
pub open spec fn pipeline_text(args: Args, threads: nat) -> Seq<char> {
    let (input, set_timestamps) = input_component(
        args.udp,
        args.stream_host@,
        args.stream_port as nat,
    );
    spaced(
        pipeline_lines(
            input,
            set_timestamps,
            args.cpu_used as int,
            threads,
            args.video_bitrate as nat,
            args.audio_bitrate as nat,
        ),
    )
}

/// The pipeline description carries the settings as given: the input
/// source on the configured host and port, tsparse timestamping exactly for
/// UDP input, vp9enc's `cpu-used` as the signed setting (positive values
/// stay positive), the encoder thread count, and the video and audio
/// bitrates.
pub proof fn law_pipeline_carries_settings(args: Args, threads: nat)
    ensures
        holds_line(
            pipeline_text(args, threads),
            (if args.udp { "udpsrc address="@ } else { "tcpserversrc host="@ }) + args.stream_host@
                + " port="@ + decimal(args.stream_port as nat) + " do-timestamp=false"@ + " ! queue"@,
        ),
        holds_line(
            pipeline_text(args, threads),
            "  ! tsparse set-timestamps="@ + (if args.udp { "true"@ } else { "false"@ }),
        ),
        holds_line(pipeline_text(args, threads), "    cpu-used="@ + signed_decimal(args.cpu_used as int)),
        holds_line(pipeline_text(args, threads), "    threads="@ + decimal(threads)),
        holds_line(
            pipeline_text(args, threads),
            "    target-bitrate="@ + decimal(args.video_bitrate as nat),
        ),
        holds_line(pipeline_text(args, threads), "    bitrate="@ + decimal(args.audio_bitrate as nat)),
{
    let (input, set_timestamps) = input_component(
        args.udp,
        args.stream_host@,
        args.stream_port as nat,
    );
    let lines = pipeline_lines(
        input,
        set_timestamps,
        args.cpu_used as int,
        threads,
        args.video_bitrate as nat,
        args.audio_bitrate as nat,
    );
    lemma_spaced_holds_each(lines, 0);
    lemma_spaced_holds_each(lines, 1);
    lemma_spaced_holds_each(lines, 8);
    lemma_spaced_holds_each(lines, 10);
    lemma_spaced_holds_each(lines, 17);
    lemma_spaced_holds_each(lines, 26);
    assert(lines[0] =~= (if args.udp { "udpsrc address="@ } else { "tcpserversrc host="@ })
        + args.stream_host@ + " port="@ + decimal(args.stream_port as nat)
        + " do-timestamp=false"@ + " ! queue"@);
}

fn owned(s: &str) -> (r: String)
    ensures
        r@ == s@,
{
    let mut r = String::new();
    r.append(s);
    r
}

fn with_number(prefix: &str, n: u64) -> (r: String)
    ensures
        r@ == prefix@ + decimal(n as nat),
{
    let mut r = owned(prefix);
    push_decimal(&mut r, n);
    r
}

/// The launch description of the transcoding pipeline for `args`, with the
/// VP9 encoder using `threads` threads.
pub fn pipeline_description_with_threads(args: &Args, threads: usize) -> (d: String)
    ensures
        d@ == pipeline_text(*args, threads as nat),
{
    let mut input = String::new();
    let set_timestamps: &str;
    if args.udp {
        input.append("udpsrc address=");
        set_timestamps = "true";
    } else {
        input.append("tcpserversrc host=");
        set_timestamps = "false";
    }
    input.append(args.stream_host.as_str());
    input.append(" port=");
    push_decimal(&mut input, args.stream_port as u64);
    input.append(" do-timestamp=false");
    let ghost comp = input_component(args.udp, args.stream_host@, args.stream_port as nat);
    proof {
        assert(input@ =~= comp.0);
    }

    let mut lines: Vec<String> = Vec::new();
    let mut first = input;
    first.append(" ! queue");
    lines.push(first);
    let mut ts = owned("  ! tsparse set-timestamps=");
    ts.append(set_timestamps);
    lines.push(ts);
    lines.push(owned("  ! tsdemux name=demux latency=700"));
    lines.push(owned("demux. ! queue"));
    lines.push(owned("  ! decodebin ! queue"));
    lines.push(owned("  ! videoconvert ! videoscale ! videorate ! queue"));
    lines.push(owned("  ! vp9enc"));
    lines.push(owned("    end-usage=cbr"));
    let mut cpu = owned("    cpu-used=");
    push_signed_decimal(&mut cpu, args.cpu_used as i64);
    lines.push(cpu);
    lines.push(owned("    deadline=1"));
    lines.push(with_number("    threads=", threads as u64));
    lines.push(owned("    static-threshold=0"));
    lines.push(owned("    max-intra-bitrate=300"));
    lines.push(owned("    lag-in-frames=0"));
    lines.push(owned("    min-quantizer=4"));
    lines.push(owned("    max-quantizer=48"));
    lines.push(owned("    error-resilient=1"));
    lines.push(with_number("    target-bitrate=", args.video_bitrate as u64));
    lines.push(owned("  ! video/x-vp9 ! queue"));
    lines.push(owned("  ! rtpvp9pay pt=96 ! queue"));
    lines.push(owned("  ! tee name=video-tee ! fakesink"));
    lines.push(owned("demux. ! queue"));
    lines.push(owned("  ! decodebin ! queue"));
    lines.push(owned("  ! audioconvert ! audioresample ! queue"));
    lines.push(owned("  ! audio/x-raw,channels=2"));
    lines.push(owned("  ! opusenc"));
    lines.push(with_number("    bitrate=", args.audio_bitrate as u64));
    lines.push(owned("  ! audio/x-opus ! queue"));
    lines.push(owned("  ! rtpopuspay pt=97 ! queue"));
    lines.push(owned("  ! tee name=audio-tee ! fakesink"));
    proof {
        assert(lines.deep_view() =~= pipeline_lines(
            comp.0,
            comp.1,
            args.cpu_used as int,
            threads as nat,
            args.video_bitrate as nat,
            args.audio_bitrate as nat,
        ));
    }
    concat_spaces(&lines)
}

/// `num_cpus::get`: the number of logical CPUs available to this process;
/// its documentation promises at least one. What the number is depends on
/// the machine and is left unsaid.
#[verifier::external_body]
fn available_cpus() -> (n: usize)
    ensures
        n >= 1,
{
    num_cpus::get()
}

/// The launch description of the transcoding pipeline for `args`, with the
/// VP9 encoder using as many threads as the machine offers CPUs.
pub fn pipeline_description(args: &Args) -> (d: String)
    ensures
        exists|threads: nat| threads >= 1 && d@ == pipeline_text(*args, threads),
{
    let threads = available_cpus();
    pipeline_description_with_threads(args, threads)
}

// ---------------------------------------------------------------------------
// A client's peer bin.
// ---------------------------------------------------------------------------

/// The lines of a client's peer bin: one leaky queue per media kind feeding
/// a webrtcbin.
pub open spec fn peer_bin_lines() -> Seq<Seq<char>> {
    seq![
        "queue name=video-queue leaky=downstream"@,
        "  ! webrtcbin."@,
        "queue name=audio-queue leaky=downstream"@,
        "  ! webrtcbin."@,
        "webrtcbin name=webrtcbin latency=100"@,
    ]
}

/// The launch description of a client's peer bin.
pub fn peer_bin_description() -> (d: String)
    ensures
        d@ == spaced(peer_bin_lines()),
{
    let mut lines: Vec<String> = Vec::new();
    lines.push(owned("queue name=video-queue leaky=downstream"));
    lines.push(owned("  ! webrtcbin."));
    lines.push(owned("queue name=audio-queue leaky=downstream"));
    lines.push(owned("  ! webrtcbin."));
    lines.push(owned("webrtcbin name=webrtcbin latency=100"));
    proof {
        assert(lines.deep_view() =~= peer_bin_lines());
    }
    concat_spaces(&lines)
}

// ---------------------------------------------------------------------------
// The plugin check.
// ---------------------------------------------------------------------------

/// The GStreamer plugins the relay needs, in the order they are checked.
pub open spec fn required_plugin_names() -> Seq<Seq<char>> {
    seq![
        "coreelements"@,
        "webrtc"@,
        "rtpmanager"@,
        "tcp"@,
        "mpegtsdemux"@,
        "videoparsersbad"@,
        "libav"@,
        "videoconvert"@,
        "videoscale"@,
        "videorate"@,
        "vpx"@,
        "rtp"@,
        "audioparsers"@,
        "audioconvert"@,
        "audioresample"@,
        "opus"@,
    ]
}

/// The GStreamer plugins the relay needs, in the order they are checked.
pub fn required_plugins() -> (names: Vec<&'static str>)
    ensures
        names@.map_values(|n: &'static str| n@) == required_plugin_names(),
{
    let names = vec![
        "coreelements",
        "webrtc",
        "rtpmanager",
        "tcp",
        "mpegtsdemux",
        "videoparsersbad",
        "libav",
        "videoconvert",
        "videoscale",
        "videorate",
        "vpx",
        "rtp",
        "audioparsers",
        "audioconvert",
        "audioresample",
        "opus",
    ];
    proof {
        assert(names@.map_values(|n: &'static str| n@) =~= required_plugin_names());
    }
    names
}

/// The error reported for a missing plugin: its name, quoted.
pub open spec fn missing_plugin_message(name: Seq<char>) -> Seq<char> {
    "Missing plugin: \""@ + name + "\""@
}

/// Checks the outcome of looking up each required plugin (`found[i]` for
/// the `i`-th name of `required_plugins`): `Ok` when all were found, else
/// the message naming the first one that was not.
pub fn check_plugins(found: &Vec<bool>) -> (r: Result<(), String>)
    requires
        found@.len() == required_plugin_names().len(),
    ensures
        match r {
            Ok(()) => forall|i: int| 0 <= i < found@.len() ==> found@[i],
            Err(msg) => exists|i: int|
                0 <= i < found@.len() && !found@[i] && (forall|j: int| 0 <= j < i ==> found@[j])
                    && msg@ == missing_plugin_message(required_plugin_names()[i]),
        },
{
    let names = required_plugins();
    let mut i: usize = 0;
    while i < found.len()
        invariant
            found@.len() == names@.len(),
            names@.map_values(|n: &'static str| n@) == required_plugin_names(),
            i <= found@.len(),
            forall|j: int| 0 <= j < i ==> found@[j],
        decreases found@.len() - i,
    {
        if !found[i] {
            let mut msg = String::new();
            msg.append("Missing plugin: \"");
            msg.append(names[i]);
            msg.append("\"");
            proof {
                assert(names@.map_values(|n: &'static str| n@)[i as int] == names@[i as int]@);
                assert(msg@ =~= missing_plugin_message(required_plugin_names()[i as int]));
            }
            return Err(msg);
        }
        i = i + 1;
    }
    Ok(())
}

// ---------------------------------------------------------------------------
// The STUN server.
// ---------------------------------------------------------------------------

/// The STUN server used when no IPv4 address of it can be resolved.
pub const STUN_ADDRESS: &'static str = "stun.l.google.com:19302";

/// One address that the STUN server's name resolved to, as text.
#[derive(Clone, Debug)]
pub struct ResolvedAddr {
    pub is_ipv4: bool,
    pub text: String,
}

/// The STUN address to use: the first IPv4 address among the resolved
/// ones (libnice does not take IPv6 STUN addresses), else the name itself.
pub open spec fn stun_choice(resolved: Seq<ResolvedAddr>) -> Seq<char>
    decreases resolved.len(),
{
    if resolved.len() == 0 {
        STUN_ADDRESS@
    } else if resolved[0].is_ipv4 {
        resolved[0].text@
    } else {
        stun_choice(resolved.drop_first())
    }
}

/// Chooses the STUN address among the resolved addresses of
/// `STUN_ADDRESS`.
pub fn stun_address(resolved: &Vec<ResolvedAddr>) -> (a: String)
    ensures
        a@ == stun_choice(resolved@),
{
    let mut i: usize = 0;
    proof {
        assert(resolved@.skip(0) =~= resolved@);
    }
    while i < resolved.len()
        invariant
            i <= resolved@.len(),
            stun_choice(resolved@) == stun_choice(resolved@.skip(i as int)),
        decreases resolved@.len() - i,
    {
        let ghost rest = resolved@.skip(i as int);
        proof {
            assert(rest[0] == resolved@[i as int]);
        }
        if resolved[i].is_ipv4 {
            return resolved[i].text.clone();
        }
        proof {
            assert(rest.drop_first() =~= resolved@.skip(i + 1));
        }
        i = i + 1;
    }
    proof {
        assert(resolved@.skip(i as int) =~= Seq::<ResolvedAddr>::empty());
    }
    owned(STUN_ADDRESS)
}

/// The `stun-server` property value for a STUN address.
pub fn stun_url(address: &str) -> (url: String)
    ensures
        url@ == "stun://"@ + address@,
{
    let mut url = owned("stun://");
    url.append(address);
    url
}

// ---------------------------------------------------------------------------
// Messages from a pipeline bus.
// ---------------------------------------------------------------------------

/// What the relay reads of a message posted on a pipeline bus.
#[derive(Clone, Debug)]
pub enum PipelineMessage {
    /// An element changed state; whether that element is a pipeline and
    /// whether its new state is `Playing`.
    StateChanged { from_pipeline: bool, now_playing: bool },
    /// The stream ended.
    Eos,
    /// An element failed: its path (if the message names one), the error,
    /// and the debug details (if any).
    Error { source: Option<String>, error: String, debug: Option<String> },
    /// An element warned.
    Warning,
    /// Any other message.
    Other,
}

/// What handling a bus message asks of the relay: a new stream state to
/// record, if any, and whether to clean up and stop.
#[derive(Clone, Copy, Debug, PartialEq, Eq, Structural)]
pub struct Handled {
    pub new_state: Option<State>,
    pub finished: bool,
}

/// An optional text, or `None` spelled out.
pub open spec fn or_none(s: Option<String>) -> Seq<char> {
    match s {
        Some(t) => t@,
        None => "None"@,
    }
}

/// The report of an element error.
pub open spec fn error_report(source: Option<String>, error: Seq<char>, debug: Option<String>) -> Seq<
    char,
> {
    "Error from element "@ + or_none(source) + ": "@ + error + " ("@ + or_none(debug) + ")"@
}

/// What a bus message means for the relay: a pipeline reaching `Playing`
/// means the stream is flowing; the end of the stream is recorded and ends
/// the run; an error ends it with the error's report; anything else is
/// passed over.
pub open spec fn message_outcome(msg: PipelineMessage) -> Result<Handled, Seq<char>> {
    match msg {
        PipelineMessage::StateChanged { from_pipeline, now_playing } => {
            if from_pipeline && now_playing {
                Ok(Handled { new_state: Some(State::Streaming), finished: false })
            } else {
                Ok(Handled { new_state: None, finished: false })
            }
        },
        PipelineMessage::Eos => Ok(Handled { new_state: Some(State::StreamEnded), finished: true }),
        PipelineMessage::Error { source, error, debug } => Err(error_report(source, error@, debug)),
        PipelineMessage::Warning => Ok(Handled { new_state: None, finished: false }),
        PipelineMessage::Other => Ok(Handled { new_state: None, finished: false }),
    }
}

fn push_or_none(out: &mut String, s: &Option<String>)
    ensures
        final(out)@ == old(out)@ + or_none(*s),
{
    match s {
        Some(t) => out.append(t.as_str()),
        None => out.append("None"),
    }
}

/// Decides what a bus message means for the relay (see `message_outcome`).
pub fn handle_pipeline_message(msg: &PipelineMessage) -> (r: Result<Handled, String>)
    ensures
        match (r, message_outcome(*msg)) {
            (Ok(h), Ok(expected)) => h == expected,
            (Err(e), Err(expected)) => e@ == expected,
            _ => false,
        },
{
    match msg {
        PipelineMessage::StateChanged { from_pipeline, now_playing } => {
            if *from_pipeline && *now_playing {
                Ok(Handled { new_state: Some(State::Streaming), finished: false })
            } else {
                Ok(Handled { new_state: None, finished: false })
            }
        },
        PipelineMessage::Eos => Ok(Handled { new_state: Some(State::StreamEnded), finished: true }),
        PipelineMessage::Error { source, error, debug } => {
            let mut report = owned("Error from element ");
            push_or_none(&mut report, source);
            report.append(": ");
            report.append(error.as_str());
            report.append(" (");
            push_or_none(&mut report, debug);
            report.append(")");
            proof {
                assert(report@ =~= error_report(*source, error@, *debug));
            }
            Err(report)
        },
        PipelineMessage::Warning => Ok(Handled { new_state: None, finished: false }),
        PipelineMessage::Other => Ok(Handled { new_state: None, finished: false }),
    }
}

/// A state change announces streaming exactly when it is the pipeline
/// itself that reached `Playing`; no state change ends the run or fails.
pub proof fn law_streaming_only_when_pipeline_plays(from_pipeline: bool, now_playing: bool)
    ensures
        ({
            let r = message_outcome(PipelineMessage::StateChanged { from_pipeline, now_playing });
            &&& r is Ok
            &&& !r->Ok_0.finished
            &&& (r->Ok_0.new_state == Some(State::Streaming)) == (from_pipeline && now_playing)
            &&& !(from_pipeline && now_playing) ==> r->Ok_0.new_state is None
        }),
{
}

/// The end of the stream records `StreamEnded` and ends the run; an error
/// ends it with a report that names the element and carries the error's
/// text; warnings and other messages change nothing.
pub proof fn law_end_error_and_other_messages(
    source: Option<String>,
    error: String,
    debug: Option<String>,
)
    ensures
        message_outcome(PipelineMessage::Eos) == Ok::<Handled, Seq<char>>(
            Handled { new_state: Some(State::StreamEnded), finished: true },
        ),
        message_outcome(PipelineMessage::Warning) == Ok::<Handled, Seq<char>>(
            Handled { new_state: None, finished: false },
        ),
        message_outcome(PipelineMessage::Other) == Ok::<Handled, Seq<char>>(
            Handled { new_state: None, finished: false },
        ),
        message_outcome(PipelineMessage::Error { source, error, debug }) == Err::<Handled, Seq<char>>(
            "Error from element "@ + (match source {
                Some(t) => t@,
                None => "None"@,
            }) + ": "@ + error@ + " ("@ + (match debug {
                Some(t) => t@,
                None => "None"@,
            }) + ")"@,
        ),
{
}

/// The STUN address is the text of the first IPv4 address among the
/// resolved ones; the server's name is used only when none of them is IPv4.
pub proof fn law_stun_first_ipv4(resolved: Seq<ResolvedAddr>)
    ensures
        forall|i: int|
            0 <= i < resolved.len() && #[trigger] resolved[i].is_ipv4 && (forall|j: int|
                0 <= j < i ==> !resolved[j].is_ipv4) ==> stun_choice(resolved) == resolved[i].text@,
        (forall|j: int| 0 <= j < resolved.len() ==> !resolved[j].is_ipv4) ==> stun_choice(resolved)
            == STUN_ADDRESS@,
    decreases resolved.len(),
{
    if resolved.len() > 0 {
        let rest = resolved.drop_first();
        law_stun_first_ipv4(rest);
        assert forall|i: int|
            0 <= i < resolved.len() && #[trigger] resolved[i].is_ipv4 && (forall|j: int|
                0 <= j < i ==> !resolved[j].is_ipv4) implies stun_choice(resolved)
            == resolved[i].text@ by {
            if i > 0 {
                assert(!resolved[0].is_ipv4);
                assert(rest[i - 1] == resolved[i]);
                assert forall|j: int| 0 <= j < i - 1 implies !rest[j].is_ipv4 by {
                    assert(rest[j] == resolved[j + 1]);
                }
            }
        }
        if forall|j: int| 0 <= j < resolved.len() ==> !resolved[j].is_ipv4 {
            assert(!resolved[0].is_ipv4);
            assert forall|j: int| 0 <= j < rest.len() implies !rest[j].is_ipv4 by {
                assert(rest[j] == resolved[j + 1]);
            }
        }
    }
}

// ---------------------------------------------------------------------------
// webrtcbin's statistics.
// ---------------------------------------------------------------------------

/// The name prefix of the statistics entries of outbound RTP streams.
pub const OUTBOUND_STATS_PREFIX: &'static str = "rtp-outbound-stream-stats_";

/// One entry of webrtcbin's statistics: its name, and its `bytes-sent`
/// field if it has one.
#[derive(Clone, Debug)]
pub struct StatsField {
    pub name: String,
    pub bytes_sent: Option<u64>,
}

/// Whether an entry describes an outbound RTP stream.
pub open spec fn is_outbound(f: StatsField) -> bool {
    OUTBOUND_STATS_PREFIX@.is_prefix_of(f.name@)
}

/// The bytes sent over all outbound RTP streams, or `None` when an
/// outbound entry lacks its `bytes-sent` field.
pub open spec fn outbound_total(fields: Seq<StatsField>) -> Option<nat>
    decreases fields.len(),
{
    if fields.len() == 0 {
        Some(0)
    } else {
        let rest = outbound_total(fields.drop_last());
        let f = fields.last();
        if is_outbound(f) {
            match (rest, f.bytes_sent) {
                (Some(a), Some(b)) => Some(a + b as nat),
                _ => None,
            }
        } else {
            rest
        }
    }
}

/// An entry that is not an outbound RTP stream adds nothing; an outbound
/// one adds its `bytes-sent`, and without that field spoils the sum.
pub proof fn law_outbound_entries(fields: Seq<StatsField>, f: StatsField)
    ensures
        !OUTBOUND_STATS_PREFIX@.is_prefix_of(f.name@) ==> outbound_total(fields.push(f))
            == outbound_total(fields),
        OUTBOUND_STATS_PREFIX@.is_prefix_of(f.name@) ==> outbound_total(fields.push(f)) == (
        match (outbound_total(fields), f.bytes_sent) {
            (Some(a), Some(b)) => Some(a + b as nat),
            _ => None::<nat>,
        }),
        outbound_total(Seq::<StatsField>::empty()) == Some(0nat),
{
    assert(fields.push(f).drop_last() =~= fields);
}

proof fn lemma_outbound_prefix(fields: Seq<StatsField>, n: int)
    requires
        0 <= n <= fields.len(),
    ensures
        outbound_total(fields.take(n)) is None ==> outbound_total(fields) is None,
        outbound_total(fields) is Some ==> outbound_total(fields.take(n))->0 <= outbound_total(
            fields,
        )->0,
    decreases fields.len(),
{
    if n < fields.len() {
        let t = fields.drop_last();
        assert(fields.take(n) =~= t.take(n));
        lemma_outbound_prefix(t, n);
    } else {
        assert(fields.take(n) =~= fields);
    }
}

/// Adds up the bytes sent over all outbound RTP streams of a statistics
/// reply. `None` when an outbound entry lacks `bytes-sent` or the sum does
/// not fit in a `u64`.
pub fn outbound_bytes_sent(fields: &Vec<StatsField>) -> (r: Option<u64>)
    ensures
        match r {
            Some(t) => outbound_total(fields@) == Some(t as nat),
            None => outbound_total(fields@) is None || outbound_total(fields@)->0 > u64::MAX,
        },
{
    let mut sum: u64 = 0;
    let mut i: usize = 0;
    while i < fields.len()
        invariant
            i <= fields@.len(),
            outbound_total(fields@.take(i as int)) == Some(sum as nat),
        decreases fields@.len() - i,
    {
        let ghost f = fields@[i as int];
        proof {
            assert(fields@.take(i + 1).drop_last() =~= fields@.take(i as int));
            assert(fields@.take(i + 1).last() == f);
            lemma_outbound_prefix(fields@, i + 1);
        }
        if has_prefix(fields[i].name.as_str(), OUTBOUND_STATS_PREFIX) {
            match fields[i].bytes_sent {
                Some(b) => {
                    match sum.checked_add(b) {
                        Some(v) => sum = v,
                        None => return None,
                    }
                },
                None => return None,
            }
        }
        i = i + 1;
    }
    proof {
        assert(fields@.take(fields@.len() as int) =~= fields@);
    }
    Some(sum)
}

} // verus!
