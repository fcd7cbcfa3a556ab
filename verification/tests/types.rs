use webrtc_relay::types::JsonMsg;

#[test]
fn test_deserialize() {}

#[test]
fn json_msg_variants_hold_their_values() {
    let m = JsonMsg::Ice { sdp_m_line_index: 3, candidate: "candidate:1".to_string() };
    match m {
        JsonMsg::Ice { sdp_m_line_index, candidate } => {
            assert_eq!(sdp_m_line_index, 3);
            assert_eq!(candidate, "candidate:1");
        }
        _ => unreachable!(),
    }
}
