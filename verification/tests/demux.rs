use scrcpy_ws::demux::{FrameType, NalDemuxer, VideoFrame, CodecInfo, u32_from_be};

fn feed(demux: &mut NalDemuxer, bytes: &[u8], out: &mut Vec<VideoFrame>) {
    for &b in bytes {
        if let Some(f) = demux.push_byte(b) {
            out.push(f);
        }
    }
}

#[test]
fn test_demux_splits_on_three_byte_codes() {
    let sps = [0x67u8, 0x42, 0x00, 0x1f];
    let pps = [0x68u8, 0xce, 0x38, 0x80];
    let idr = [0x65u8, 0x88, 0x84, 0x21];
    let p1 = [0x41u8, 0x9a, 0x02];
    let mut stream: Vec<u8> = vec![0x00]; // dummy byte
    for nal in [&sps[..], &pps[..], &idr[..], &p1[..]] {
        stream.extend_from_slice(&[0x00, 0x00, 0x01]);
        stream.extend_from_slice(nal);
    }
    // trailing start code so the last unit is emitted
    stream.extend_from_slice(&[0x00, 0x00, 0x01]);

    let mut demux = NalDemuxer::new();
    let mut frames: Vec<VideoFrame> = Vec::new();
    feed(&mut demux, &stream, &mut frames);

    assert_eq!(frames.len(), 4);
    assert_eq!(frames[0].data, sps.to_vec());
    assert_eq!(frames[1].data, pps.to_vec());
    assert_eq!(frames[2].data, idr.to_vec());
    assert_eq!(frames[3].data, p1.to_vec());
    assert_eq!(frames[0].frame_type, FrameType::Config);
    assert_eq!(frames[1].frame_type, FrameType::Config);
    assert_eq!(frames[2].frame_type, FrameType::Video);
    assert_eq!(frames[3].frame_type, FrameType::Video);
    assert_eq!(demux.frame_count(), 4);
}

#[test]
fn test_demux_reconstruction_round_trip() {
    // Re-joining the emitted units with start codes reproduces the input
    // minus the dummy byte.
    let nals: Vec<Vec<u8>> = vec![
        vec![0x67, 0x42, 0x00, 0x1f],
        vec![0x68, 0xce, 0x38],
        vec![0x65, 0x88, 0x84],
        vec![0x41, 0x9a],
        vec![0x41, 0x9b, 0x17, 0x2a],
    ];
    let mut stream: Vec<u8> = vec![0xAA]; // dummy byte
    for nal in &nals {
        stream.extend_from_slice(&[0x00, 0x00, 0x01]);
        stream.extend_from_slice(nal);
    }

    let mut demux = NalDemuxer::new();
    let mut frames: Vec<VideoFrame> = Vec::new();
    feed(&mut demux, &stream, &mut frames);
    // the final unit stays buffered until the next start code
    assert_eq!(frames.len(), nals.len() - 1);

    let mut rebuilt: Vec<u8> = vec![0xAA];
    for f in &frames {
        rebuilt.extend_from_slice(&[0x00, 0x00, 0x01]);
        rebuilt.extend_from_slice(&f.data);
    }
    // what remains buffered is the last start code plus the last unit
    rebuilt.extend_from_slice(&[0x00, 0x00, 0x01]);
    rebuilt.extend_from_slice(&nals[nals.len() - 1]);
    assert_eq!(rebuilt, stream);
}

#[test]
fn test_demux_four_byte_codes_attach_leading_zero() {
    // With 4-byte start codes the leading zero byte of the next code ends the
    // previous unit: the accepted start-code-length normalization.
    let sps = [0x67u8, 0x42];
    let pps = [0x68u8, 0xce];
    let mut stream: Vec<u8> = vec![0x00];
    for nal in [&sps[..], &pps[..]] {
        stream.extend_from_slice(&[0x00, 0x00, 0x00, 0x01]);
        stream.extend_from_slice(nal);
    }
    stream.extend_from_slice(&[0x00, 0x00, 0x00, 0x01]);

    let mut demux = NalDemuxer::new();
    let mut frames: Vec<VideoFrame> = Vec::new();
    feed(&mut demux, &stream, &mut frames);
    assert_eq!(frames.len(), 2);
    assert_eq!(frames[0].data, vec![0x67, 0x42, 0x00]);
    assert_eq!(frames[1].data, vec![0x68, 0xce, 0x00]);
    assert_eq!(frames[0].frame_type, FrameType::Config);
}

#[test]
fn test_demux_no_emission_before_second_code() {
    let mut demux = NalDemuxer::new();
    let mut frames: Vec<VideoFrame> = Vec::new();
    feed(&mut demux, &[0x00, 0x00, 0x00, 0x01, 0x65, 0x12, 0x34], &mut frames);
    assert_eq!(frames.len(), 0);
    assert_eq!(demux.frame_count(), 0);
}

#[test]
fn test_demux_adjacent_codes_emit_nothing() {
    let mut demux = NalDemuxer::new();
    let mut frames: Vec<VideoFrame> = Vec::new();
    feed(
        &mut demux,
        &[0x00, 0x00, 0x01, 0x00, 0x00, 0x01, 0x65, 0x01, 0x00, 0x00, 0x01],
        &mut frames,
    );
    assert_eq!(frames.len(), 1);
    assert_eq!(frames[0].data, vec![0x65, 0x01]);
}

#[test]
fn test_is_keyframe_classification() {
    let idr = VideoFrame::new(0, FrameType::Video, vec![0x65, 0x88]);
    let sps = VideoFrame::new(0, FrameType::Config, vec![0x67, 0x42]);
    let pps = VideoFrame::new(0, FrameType::Config, vec![0x68, 0xce]);
    let p = VideoFrame::new(0, FrameType::Video, vec![0x41, 0x9a]);
    let empty = VideoFrame::new(0, FrameType::Video, vec![]);
    assert!(idr.is_keyframe());
    assert!(sps.is_keyframe());
    assert!(pps.is_keyframe());
    assert!(!p.is_keyframe());
    assert!(!empty.is_keyframe());
}

#[test]
fn test_codec_info_from_header_bytes() {
    let mut buf: Vec<u8> = Vec::new();
    buf.extend_from_slice(&0x68323634u32.to_be_bytes());
    buf.extend_from_slice(&1920u32.to_be_bytes());
    buf.extend_from_slice(&1080u32.to_be_bytes());
    let info = CodecInfo::from_header_bytes(&buf);
    assert_eq!(info.codec_id, 0x68323634);
    assert_eq!(info.width, 1920);
    assert_eq!(info.height, 1080);
    assert!(info.config_data.is_none());
}

#[test]
fn test_u32_from_be_exact() {
    assert_eq!(u32_from_be(0x12, 0x34, 0x56, 0x78), 0x12345678);
    assert_eq!(u32_from_be(0, 0, 0, 0), 0);
    assert_eq!(u32_from_be(0xFF, 0xFF, 0xFF, 0xFF), u32::MAX);
}
