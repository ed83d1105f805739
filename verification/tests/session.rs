use scrcpy_ws::session::{
    ClientAction, ClientEvent, OutboundMessage, VideoConfig, client_step, with_start_code,
};
use scrcpy_ws::demux::{FrameType, VideoFrame};

/// Writes H.264 header fields bit by bit to build small SPS vectors.
struct BitWriter {
    bytes: Vec<u8>,
    nbits: usize,
}

impl BitWriter {
    fn new() -> Self {
        BitWriter { bytes: Vec::new(), nbits: 0 }
    }

    fn push_bit(&mut self, b: u32) {
        if self.nbits % 8 == 0 {
            self.bytes.push(0);
        }
        let last = self.bytes.len() - 1;
        self.bytes[last] |= ((b & 1) as u8) << (7 - (self.nbits % 8));
        self.nbits += 1;
    }

    fn push_bits(&mut self, v: u32, n: u32) {
        for i in (0..n).rev() {
            self.push_bit((v >> i) & 1);
        }
    }

    fn push_ue(&mut self, v: u32) {
        let code = (v as u64) + 1;
        let width = 64 - code.leading_zeros();
        for _ in 0..(width - 1) {
            self.push_bit(0);
        }
        for i in (0..width).rev() {
            self.push_bit(((code >> i) & 1) as u32);
        }
    }

    fn finish(mut self) -> Vec<u8> {
        self.push_bit(1);
        while self.nbits % 8 != 0 {
            self.push_bit(0);
        }
        self.bytes
    }
}

/// A baseline-profile SPS for the given size (both multiples of 16).
fn sps_for(width: u32, height: u32) -> Vec<u8> {
    let mut w = BitWriter::new();
    w.push_bits(0x67, 8);
    w.push_bits(66, 8);
    w.push_bits(0, 8);
    w.push_bits(31, 8);
    w.push_ue(0); // sps id
    w.push_ue(0); // log2_max_frame_num_minus4
    w.push_ue(0); // pic_order_cnt_type
    w.push_ue(0); // log2_max_pic_order_cnt_lsb_minus4
    w.push_ue(1); // max_num_ref_frames
    w.push_bit(0); // gaps flag
    w.push_ue(width / 16 - 1);
    w.push_ue(height / 16 - 1);
    w.push_bit(1); // frame_mbs_only
    w.push_bit(1); // direct_8x8
    w.push_bit(0); // no cropping
    w.finish()
}

#[test]
fn test_initial_config() {
    let c = VideoConfig::initial(1440, 2960);
    assert_eq!(c.width, 1440);
    assert_eq!(c.height, 2960);
    assert_eq!(c.device_width, 1440);
    assert_eq!(c.device_height, 2960);
    assert!(!c.is_landscape);
    assert!(c.sps.is_none());
    assert!(c.pps.is_none());
}

#[test]
fn test_config_json_exact() {
    let c = VideoConfig::initial(1440, 2960);
    assert_eq!(
        c.config_json(),
        "{\"type\":\"config\",\"width\":1440,\"height\":2960,\"device_width\":1440,\"device_height\":2960,\"is_landscape\":false}"
    );
}

#[test]
fn test_apply_sps_caches_with_start_code_and_updates_size() {
    let mut c = VideoConfig::initial(1440, 2960);
    let sps = sps_for(1280, 720);
    let changed = c.apply_sps(&sps);
    assert!(changed);
    assert_eq!(c.width, 1280);
    assert_eq!(c.height, 720);
    assert!(c.is_landscape);
    let cached = c.sps.clone().unwrap();
    assert_eq!(&cached[..4], &[0, 0, 0, 1]);
    assert_eq!(&cached[4..], &sps[..]);
    // the same SPS again changes nothing
    assert!(!c.apply_sps(&sps));
}

#[test]
fn test_apply_sps_malformed_keeps_resolution() {
    let mut c = VideoConfig::initial(1440, 2960);
    let junk = vec![0x67u8, 0x00];
    let changed = c.apply_sps(&junk);
    assert!(!changed);
    assert_eq!(c.width, 1440);
    assert_eq!(c.height, 2960);
    assert!(c.sps.is_some());
}

#[test]
fn test_apply_pps_only_after_sps_and_only_once() {
    let mut c = VideoConfig::initial(1440, 2960);
    let pps = vec![0x68u8, 0xce, 0x38];
    assert!(!c.apply_pps(&pps)); // no SPS yet
    assert!(c.pps.is_none());
    c.apply_sps(&sps_for(1280, 720));
    assert!(c.apply_pps(&pps));
    let cached = c.pps.clone().unwrap();
    assert_eq!(&cached[..4], &[0, 0, 0, 1]);
    assert_eq!(&cached[4..], &pps[..]);
    let other = vec![0x68u8, 0xee];
    assert!(!c.apply_pps(&other)); // first PPS is kept
    assert_eq!(&c.pps.clone().unwrap()[4..], &pps[..]);
}

#[test]
fn test_process_nal_emits_config_before_frame_on_orientation_change() {
    let mut c = VideoConfig::initial(720, 1280);
    // landscape SPS after a portrait start: orientation flips
    let sps = sps_for(1280, 720);
    let frame = VideoFrame::new(0, FrameType::Config, sps.clone());
    let out = c.process_nal(&frame);
    assert_eq!(out.len(), 2);
    match &out[0] {
        OutboundMessage::Text(t) => {
            assert!(t.contains("\"is_landscape\":true"));
            assert!(t.contains("\"width\":1280"));
        }
        OutboundMessage::Binary(_) => panic!("config must precede the frame"),
    }
    match &out[1] {
        OutboundMessage::Binary(d) => {
            assert_eq!(&d[..4], &[0, 0, 0, 1]);
            assert_eq!(&d[4..], &sps[..]);
        }
        OutboundMessage::Text(_) => panic!("the frame must follow the config"),
    }
    assert!(c.is_landscape);
}

#[test]
fn test_process_nal_plain_frame_passes_through() {
    let mut c = VideoConfig::initial(1440, 2960);
    let idr = vec![0x65u8, 0x88, 0x84];
    let out = c.process_nal(&VideoFrame::new(0, FrameType::Video, idr.clone()));
    assert_eq!(out.len(), 1);
    match &out[0] {
        OutboundMessage::Binary(d) => {
            assert_eq!(&d[..4], &[0, 0, 0, 1]);
            assert_eq!(&d[4..], &idr[..]);
        }
        OutboundMessage::Text(_) => panic!("a plain frame carries no config"),
    }
    // the session state is untouched
    assert!(c.sps.is_none());
    assert_eq!(c.width, 1440);
}

#[test]
fn test_connect_messages_without_sps_is_config_only() {
    let c = VideoConfig::initial(1440, 2960);
    let msgs = c.connect_messages();
    assert_eq!(msgs.len(), 1);
    assert!(matches!(&msgs[0], OutboundMessage::Text(_)));
}

#[test]
fn test_connect_messages_full_sequence() {
    let mut c = VideoConfig::initial(1440, 2960);
    let sps = sps_for(1280, 720);
    let pps = vec![0x68u8, 0xce, 0x38];
    c.apply_sps(&sps);
    c.apply_pps(&pps);
    let msgs = c.connect_messages();
    assert_eq!(msgs.len(), 3);
    match &msgs[0] {
        OutboundMessage::Text(t) => assert!(t.starts_with("{\"type\":\"config\"")),
        _ => panic!("first message must be the config JSON"),
    }
    match &msgs[1] {
        OutboundMessage::Binary(d) => assert_eq!(&d[4..], &sps[..]),
        _ => panic!("second message must be the cached SPS"),
    }
    match &msgs[2] {
        OutboundMessage::Binary(d) => assert_eq!(&d[4..], &pps[..]),
        _ => panic!("third message must be the cached PPS"),
    }
}

#[test]
fn test_replay_parameter_sets() {
    let mut c = VideoConfig::initial(1440, 2960);
    assert_eq!(c.replay_parameter_sets().len(), 0);
    let sps = sps_for(1280, 720);
    let pps = vec![0x68u8, 0xce];
    c.apply_sps(&sps);
    c.apply_pps(&pps);
    let frames = c.replay_parameter_sets();
    assert_eq!(frames.len(), 2);
    assert_eq!(&frames[0][4..], &sps[..]);
    assert_eq!(&frames[1][4..], &pps[..]);
}

#[test]
fn test_client_step_decision_table() {
    assert!(matches!(
        client_step(ClientEvent::ConfigUpdate(String::from("{}"))),
        ClientAction::Send(OutboundMessage::Text(_))
    ));
    assert!(matches!(client_step(ClientEvent::ConfigLagged), ClientAction::Ignore));
    assert!(matches!(client_step(ClientEvent::ConfigClosed), ClientAction::Terminate));
    assert!(matches!(
        client_step(ClientEvent::Frame(vec![0, 0, 0, 1, 0x65])),
        ClientAction::Send(OutboundMessage::Binary(_))
    ));
    assert!(matches!(client_step(ClientEvent::FrameLagged), ClientAction::DrainToHead));
    assert!(matches!(client_step(ClientEvent::FrameClosed), ClientAction::Terminate));
    assert!(matches!(
        client_step(ClientEvent::InboundText(String::from("{\"type\":\"key\"}"))),
        ClientAction::ParseControl(_)
    ));
    assert!(matches!(client_step(ClientEvent::InboundBinary), ClientAction::Ignore));
    assert!(matches!(client_step(ClientEvent::InboundPing), ClientAction::Ignore));
    assert!(matches!(client_step(ClientEvent::InboundClose), ClientAction::Terminate));
    assert!(matches!(client_step(ClientEvent::InboundGone), ClientAction::Terminate));
}

#[test]
fn test_with_start_code() {
    assert_eq!(with_start_code(&vec![0x65, 0x01]), vec![0, 0, 0, 1, 0x65, 0x01]);
}
