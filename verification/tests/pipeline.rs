use webrtc_relay::pipeline::{
    check_plugins, handle_pipeline_message, outbound_bytes_sent, peer_bin_description,
    pipeline_description, pipeline_description_with_threads, required_plugins, stun_address,
    stun_url, Handled, PipelineMessage, ResolvedAddr, StatsField, STUN_ADDRESS,
};
use webrtc_relay::stats::State;
use webrtc_relay::types::Args;

fn args(udp: bool) -> Args {
    Args {
        verbose: 0,
        stream_host: "127.0.0.1".to_string(),
        stream_port: 1935,
        signal_server: "127.0.0.1:2222".to_string(),
        udp,
        cpu_used: -8,
        video_bitrate: 2_000_000,
        audio_bitrate: 128_000,
    }
}

const TCP_PIPELINE_LINES: [&str; 30] = [
    "tcpserversrc host=127.0.0.1 port=1935 do-timestamp=false ! queue ",
    "  ! tsparse set-timestamps=false ",
    "  ! tsdemux name=demux latency=700 ",
    "demux. ! queue ",
    "  ! decodebin ! queue ",
    "  ! videoconvert ! videoscale ! videorate ! queue ",
    "  ! vp9enc ",
    "    end-usage=cbr ",
    "    cpu-used=-8 ",
    "    deadline=1 ",
    "    threads=4 ",
    "    static-threshold=0 ",
    "    max-intra-bitrate=300 ",
    "    lag-in-frames=0 ",
    "    min-quantizer=4 ",
    "    max-quantizer=48 ",
    "    error-resilient=1 ",
    "    target-bitrate=2000000 ",
    "  ! video/x-vp9 ! queue ",
    "  ! rtpvp9pay pt=96 ! queue ",
    "  ! tee name=video-tee ! fakesink ",
    "demux. ! queue ",
    "  ! decodebin ! queue ",
    "  ! audioconvert ! audioresample ! queue ",
    "  ! audio/x-raw,channels=2 ",
    "  ! opusenc ",
    "    bitrate=128000 ",
    "  ! audio/x-opus ! queue ",
    "  ! rtpopuspay pt=97 ! queue ",
    "  ! tee name=audio-tee ! fakesink ",
];

#[test]
fn tcp_pipeline_description() {
    assert_eq!(pipeline_description_with_threads(&args(false), 4), TCP_PIPELINE_LINES.concat());
}

#[test]
fn udp_pipeline_description() {
    let d = pipeline_description_with_threads(&args(true), 1);
    assert!(d.starts_with(
        "udpsrc address=127.0.0.1 port=1935 do-timestamp=false ! queue   ! tsparse set-timestamps=true "
    ));
    assert!(d.contains("    threads=1 "));
}

#[test]
fn pipeline_description_uses_the_cpu_count() {
    let d = pipeline_description(&args(false));
    assert_eq!(d, pipeline_description_with_threads(&args(false), num_cpus::get()));
    assert!(!d.contains("    threads=0 "));
}

#[test]
fn peer_bin_text() {
    assert_eq!(
        peer_bin_description(),
        "queue name=video-queue leaky=downstream   ! webrtcbin. queue name=audio-queue leaky=downstream   ! webrtcbin. webrtcbin name=webrtcbin latency=100 "
    );
}

#[test]
fn plugin_check() {
    let names = required_plugins();
    assert_eq!(names.len(), 16);
    assert_eq!(names[0], "coreelements");
    assert_eq!(names[15], "opus");
    let mut found = vec![true; 16];
    assert_eq!(check_plugins(&found), Ok(()));
    found[6] = false;
    found[12] = false;
    assert_eq!(check_plugins(&found), Err("Missing plugin: \"libav\"".to_string()));
}

#[test]
fn stun_choice() {
    let resolved = vec![
        ResolvedAddr { is_ipv4: false, text: "[2001:db8::1]:19302".to_string() },
        ResolvedAddr { is_ipv4: true, text: "74.125.250.129:19302".to_string() },
        ResolvedAddr { is_ipv4: true, text: "74.125.250.130:19302".to_string() },
    ];
    assert_eq!(stun_address(&resolved), "74.125.250.129:19302");
    assert_eq!(stun_address(&resolved[..1].to_vec()), STUN_ADDRESS);
    assert_eq!(stun_address(&Vec::new()), "stun.l.google.com:19302");
    assert_eq!(stun_url("1.2.3.4:19302"), "stun://1.2.3.4:19302");
}

#[test]
fn pipeline_messages() {
    let playing = PipelineMessage::StateChanged { from_pipeline: true, now_playing: true };
    assert_eq!(
        handle_pipeline_message(&playing),
        Ok(Handled { new_state: Some(State::Streaming), finished: false })
    );
    let element_playing = PipelineMessage::StateChanged { from_pipeline: false, now_playing: true };
    assert_eq!(
        handle_pipeline_message(&element_playing),
        Ok(Handled { new_state: None, finished: false })
    );
    let paused = PipelineMessage::StateChanged { from_pipeline: true, now_playing: false };
    assert_eq!(handle_pipeline_message(&paused), Ok(Handled { new_state: None, finished: false }));
    assert_eq!(
        handle_pipeline_message(&PipelineMessage::Eos),
        Ok(Handled { new_state: Some(State::StreamEnded), finished: true })
    );
    assert_eq!(
        handle_pipeline_message(&PipelineMessage::Warning),
        Ok(Handled { new_state: None, finished: false })
    );
    assert_eq!(
        handle_pipeline_message(&PipelineMessage::Other),
        Ok(Handled { new_state: None, finished: false })
    );
    let err = PipelineMessage::Error {
        source: Some("/GstPipeline:pipeline0/GstTCPServerSrc:tcpserversrc0".to_string()),
        error: "Could not open resource".to_string(),
        debug: None,
    };
    assert_eq!(
        handle_pipeline_message(&err),
        Err("Error from element /GstPipeline:pipeline0/GstTCPServerSrc:tcpserversrc0: Could not open resource (None)".to_string())
    );
    let err = PipelineMessage::Error {
        source: None,
        error: "boom".to_string(),
        debug: Some("details".to_string()),
    };
    assert_eq!(
        handle_pipeline_message(&err),
        Err("Error from element None: boom (details)".to_string())
    );
}

fn field(name: &str, bytes: Option<u64>) -> StatsField {
    StatsField { name: name.to_string(), bytes_sent: bytes }
}

#[test]
fn outbound_bytes() {
    let fields = vec![
        field("rtp-outbound-stream-stats_1234", Some(1000)),
        field("rtp-inbound-stream-stats_1", Some(99)),
        field("codec-stats-1", None),
        field("rtp-outbound-stream-stats_5678", Some(250)),
    ];
    assert_eq!(outbound_bytes_sent(&fields), Some(1250));
    assert_eq!(outbound_bytes_sent(&Vec::new()), Some(0));
    assert_eq!(outbound_bytes_sent(&vec![field("transport-stats_1", Some(5))]), Some(0));
    let missing = vec![
        field("rtp-outbound-stream-stats_1", Some(1)),
        field("rtp-outbound-stream-stats_2", None),
    ];
    assert_eq!(outbound_bytes_sent(&missing), None);
    let overflow = vec![
        field("rtp-outbound-stream-stats_1", Some(u64::MAX)),
        field("rtp-outbound-stream-stats_2", Some(1)),
    ];
    assert_eq!(outbound_bytes_sent(&overflow), None);
}
