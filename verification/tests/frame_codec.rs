use ross_configurator::frame::{Frame, FrameError};

#[test]
fn encode_prefixes_marker_and_length() {
    let frame = Frame::new(vec![0xAA, 0xBB, 0xCC]).unwrap();
    assert_eq!(frame.encode(), vec![0x00, 0x03, 0xAA, 0xBB, 0xCC]);
}

#[test]
fn encode_empty_frame() {
    let frame = Frame::new(vec![]).unwrap();
    assert_eq!(frame.len(), 0);
    assert_eq!(frame.encode(), vec![0x00, 0x00]);
}

#[test]
fn frame_of_255_bytes_is_accepted_and_256_is_not() {
    assert!(Frame::new(vec![7u8; 255]).is_some());
    assert!(Frame::new(vec![7u8; 256]).is_none());
}

#[test]
fn decode_round_trips_every_length() {
    for len in 0..=255usize {
        let payload: Vec<u8> = (0..len).map(|i| (i * 7 + len) as u8).collect();
        let frame = Frame::new(payload.clone()).unwrap();
        let wire = frame.encode();
        assert_eq!(wire.len(), len + 2);
        let (decoded, used) = Frame::decode(&wire).unwrap();
        assert_eq!(used, len + 2);
        assert_eq!(decoded.payload(), &payload);
        assert_eq!(decoded, frame);
    }
}

#[test]
fn decode_leaves_following_bytes_alone() {
    let wire = vec![0x00, 0x02, 0x10, 0x20, 0x00, 0x01, 0x30];
    let (frame, used) = Frame::decode(&wire).unwrap();
    assert_eq!(frame.payload(), &vec![0x10, 0x20]);
    assert_eq!(used, 4);
    let (next, used) = Frame::decode(&wire[4..]).unwrap();
    assert_eq!(next.payload(), &vec![0x30]);
    assert_eq!(used, 3);
}

#[test]
fn decode_rejects_truncated_input() {
    assert_eq!(Frame::decode(&[]), Err(FrameError::Truncated));
    assert_eq!(Frame::decode(&[0x00]), Err(FrameError::Truncated));
    assert_eq!(Frame::decode(&[0x00, 0x02, 0x01]), Err(FrameError::Truncated));
}

#[test]
fn decode_rejects_wrong_marker() {
    assert_eq!(Frame::decode(&[0x01, 0x00]), Err(FrameError::BadMarker));
    assert_eq!(Frame::decode(&[0xFF]), Err(FrameError::BadMarker));
}
