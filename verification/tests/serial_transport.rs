use ross_configurator::frame::FrameError;
use ross_configurator::packet::{BuilderError, Packet};
use ross_configurator::ross_serial::{Received, RossSerial, RossSerialError};

fn pattern(len: usize) -> Vec<u8> {
    (0..len).map(|i| (i * 13 + len + 1) as u8).collect()
}

fn wire(payload: &[u8]) -> Vec<u8> {
    let serial = RossSerial::new();
    serial.try_send_packet(&Packet::new(payload.to_vec()).unwrap()).concat()
}

#[test]
fn send_writes_marker_length_and_frame_payload() {
    let serial = RossSerial::new();
    let frames = serial.try_send_packet(&Packet::new(vec![0xAA, 0xBB]).unwrap());
    assert_eq!(frames, vec![vec![0x00, 0x04, 0x01, 0x00, 0xAA, 0xBB]]);
}

#[test]
fn send_writes_one_byte_string_per_frame() {
    let serial = RossSerial::new();
    let payload = pattern(300);
    let frames = serial.try_send_packet(&Packet::new(payload.clone()).unwrap());
    assert_eq!(frames.len(), 2);
    assert_eq!(frames[0][..4], [0x00, 255, 0x01, 0x01]);
    assert_eq!(frames[0][4..], payload[..253]);
    assert_eq!(frames[1][..4], [0x00, 49, 0x02, 0x00]);
    assert_eq!(frames[1][4..], payload[253..]);
}

#[test]
fn what_is_sent_is_received() {
    for len in [0usize, 1, 100, 253, 254, 255, 256, 1000, 2550] {
        let payload = pattern(len);
        let input = wire(&payload);
        let mut serial = RossSerial::new();
        let received = serial.try_get_packet(&input);
        assert_eq!(received.used, input.len());
        assert_eq!(received.outcome, Some(Ok(Packet::new(payload).unwrap())));
    }
}

#[test]
fn bytes_before_a_marker_are_skipped() {
    let payload = pattern(10);
    let mut input = vec![0xFF, 0x17, 0x80];
    input.extend(wire(&payload));
    input.extend([0x42, 0x43]);
    let mut serial = RossSerial::new();
    let received = serial.try_get_packet(&input);
    assert_eq!(received.used, input.len() - 2);
    assert_eq!(received.outcome, Some(Ok(Packet::new(payload).unwrap())));
}

#[test]
fn empty_input_gives_nothing() {
    let mut serial = RossSerial::new();
    assert_eq!(serial.try_get_packet(&[]), Received { used: 0, outcome: None });
}

#[test]
fn noise_alone_is_used_up_and_gives_nothing() {
    let mut serial = RossSerial::new();
    assert_eq!(serial.try_get_packet(&[1, 2, 3]), Received { used: 3, outcome: None });
}

#[test]
fn frame_cut_short_is_reported_and_not_used_up() {
    let input = wire(&pattern(10));
    let mut serial = RossSerial::new();
    for cut in 1..input.len() {
        let received = serial.try_get_packet(&input[..cut]);
        assert_eq!(
            received,
            Received {
                used: 0,
                outcome: Some(Err(RossSerialError::FrameError(FrameError::Truncated))),
            }
        );
    }
    let received = serial.try_get_packet(&input);
    assert_eq!(received.used, input.len());
    assert_eq!(received.outcome, Some(Ok(Packet::new(pattern(10)).unwrap())));
}

#[test]
fn packet_in_progress_is_kept_between_calls() {
    let payload = pattern(600);
    let frames = RossSerial::new().try_send_packet(&Packet::new(payload.clone()).unwrap());
    assert_eq!(frames.len(), 3);
    let mut serial = RossSerial::new();
    assert_eq!(serial.try_get_packet(&frames[0]), Received { used: frames[0].len(), outcome: None });
    assert_eq!(serial.try_get_packet(&frames[1]), Received { used: frames[1].len(), outcome: None });
    let received = serial.try_get_packet(&frames[2]);
    assert_eq!(received.used, frames[2].len());
    assert_eq!(received.outcome, Some(Ok(Packet::new(payload).unwrap())));
}

#[test]
fn receiving_stops_at_the_first_complete_packet() {
    let first = pattern(5);
    let second = pattern(7);
    let mut input = wire(&first);
    let first_len = input.len();
    input.extend(wire(&second));
    let mut serial = RossSerial::new();
    let received = serial.try_get_packet(&input);
    assert_eq!(received.used, first_len);
    assert_eq!(received.outcome, Some(Ok(Packet::new(first).unwrap())));
    let received = serial.try_get_packet(&input[first_len..]);
    assert_eq!(received.used, input.len() - first_len);
    assert_eq!(received.outcome, Some(Ok(Packet::new(second).unwrap())));
}

#[test]
fn frame_out_of_sequence_is_reported_and_used_up() {
    let mut serial = RossSerial::new();
    let stray = [0x00, 0x03, 0x02, 0x00, 0x55];
    let received = serial.try_get_packet(&stray);
    assert_eq!(
        received,
        Received {
            used: 5,
            outcome: Some(Err(RossSerialError::BuilderError(BuilderError::MissingStart))),
        }
    );
    let payload = pattern(20);
    let input = wire(&payload);
    let received = serial.try_get_packet(&input);
    assert_eq!(received.outcome, Some(Ok(Packet::new(payload).unwrap())));
}

#[test]
fn second_first_frame_drops_the_packet_in_progress() {
    let frames = RossSerial::new().try_send_packet(&Packet::new(pattern(300)).unwrap());
    let mut serial = RossSerial::new();
    assert_eq!(serial.try_get_packet(&frames[0]).outcome, None);
    let received = serial.try_get_packet(&frames[0]);
    assert_eq!(
        received.outcome,
        Some(Err(RossSerialError::BuilderError(BuilderError::UnexpectedStart)))
    );
    assert_eq!(received.used, frames[0].len());
    let received = serial.try_get_packet(&frames[1]);
    assert_eq!(
        received.outcome,
        Some(Err(RossSerialError::BuilderError(BuilderError::MissingStart)))
    );
}

#[test]
fn frame_with_no_header_is_a_builder_error() {
    let mut serial = RossSerial::new();
    let received = serial.try_get_packet(&[0x00, 0x00]);
    assert_eq!(
        received,
        Received {
            used: 2,
            outcome: Some(Err(RossSerialError::BuilderError(BuilderError::Malformed))),
        }
    );
}
