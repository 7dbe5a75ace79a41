use ross_configurator::event::Event;
use ross_configurator::get_devices::{DeviceRecord, DeviceSet};
use ross_configurator::ross_configurator::{ConfiguratorError, DATA_PACKET_SIZE};
use ross_configurator::ross_serial::RossSerialError;
use ross_configurator::transaction::{Action, EngineConfig, Input};
use ross_configurator::transfer::{chunk_range, chunks, refusal, Transfer, TransferKind};
use ross_configurator::upgrade_config::upgrade_config;
use ross_configurator::upgrade_firmware::upgrade_firmware;

const TARGET: u16 = 0x000A;
const ORIGIN: u16 = 0x0001;

fn pattern(len: usize) -> Vec<u8> {
    (0..len).map(|i| (i * 11 + 5) as u8).collect()
}

fn devices() -> DeviceSet {
    let mut devices = DeviceSet::new();
    devices.insert(DeviceRecord { address: TARGET, firmware_version: None });
    devices
}

fn ack() -> Event {
    Event::Ack { receiver_address: ORIGIN, transmitter_address: TARGET }
}

/// Plays a device that acknowledges every request, and records the requests.
fn run_with_acks(mut transfer: Transfer) -> (Vec<Event>, Result<(), ConfiguratorError>) {
    let mut sent = vec![];
    let mut now = 0u64;
    let mut action = transfer.action();
    loop {
        match action {
            Action::Send => {
                sent.push(transfer.request().duplicate());
                action = transfer.step(now, Input::Sent);
            }
            Action::Poll => {
                now += 1;
                action = transfer.step(now, Input::Received(ack()));
            }
            Action::Done => return (sent, transfer.finished().unwrap()),
        }
    }
}

#[test]
fn chunking_of_the_listed_lengths() {
    for len in [0usize, 1, 127, 128, 129, 256, 1000] {
        let payload = pattern(len);
        let parts = chunks(&payload, 128);
        assert_eq!(parts.concat(), payload);
        assert_eq!(parts.len(), (len + 127) / 128);
        if let Some((last, full)) = parts.split_last() {
            for part in full {
                assert_eq!(part.len(), 128);
            }
            let expected = if len % 128 == 0 { 128 } else { len % 128 };
            assert_eq!(last.len(), expected);
        }
    }
}

#[test]
fn chunk_counts_are_exact() {
    let counts: Vec<usize> =
        [0usize, 1, 127, 128, 129, 256, 1000].iter().map(|&n| chunks(&pattern(n), 128).len()).collect();
    assert_eq!(counts, vec![0, 1, 1, 1, 2, 2, 8]);
    assert_eq!(chunks(&pattern(1000), 128).last().unwrap().len(), 104);
}

#[test]
fn chunks_are_in_ascending_offset_order() {
    let payload = pattern(300);
    let parts = chunks(&payload, 128);
    assert_eq!(parts[0], payload[0..128]);
    assert_eq!(parts[1], payload[128..256]);
    assert_eq!(parts[2], payload[256..300]);
}

#[test]
fn chunk_size_zero_gives_no_chunks() {
    assert!(chunks(&pattern(10), 0).is_empty());
}

#[test]
fn firmware_of_300_bytes_takes_four_transactions_in_order() {
    let firmware = pattern(300);
    let transfer =
        upgrade_firmware(ORIGIN, &devices(), &firmware, TARGET, EngineConfig::default(), 0).unwrap();
    let (sent, result) = run_with_acks(transfer);
    assert_eq!(result, Ok(()));
    assert_eq!(
        sent,
        vec![
            Event::ProgrammerStartFirmwareUpgrade {
                receiver_address: TARGET,
                programmer_address: ORIGIN,
                firmware_size: 300,
            },
            Event::Data {
                receiver_address: TARGET,
                transmitter_address: ORIGIN,
                data_len: 128,
                data: firmware[0..128].to_vec(),
            },
            Event::Data {
                receiver_address: TARGET,
                transmitter_address: ORIGIN,
                data_len: 128,
                data: firmware[128..256].to_vec(),
            },
            Event::Data {
                receiver_address: TARGET,
                transmitter_address: ORIGIN,
                data_len: 44,
                data: firmware[256..300].to_vec(),
            },
        ]
    );
}

#[test]
fn config_upload_declares_its_size_in_a_config_start_event() {
    let data = pattern(129);
    let transfer =
        upgrade_config(ORIGIN, &devices(), &data, TARGET, EngineConfig::default(), 0).unwrap();
    let (sent, result) = run_with_acks(transfer);
    assert_eq!(result, Ok(()));
    assert_eq!(sent.len(), 3);
    assert_eq!(
        sent[0],
        Event::ProgrammerStartConfigUpgrade {
            receiver_address: TARGET,
            programmer_address: ORIGIN,
            config_size: 129,
        }
    );
    assert_eq!(
        sent[2],
        Event::Data {
            receiver_address: TARGET,
            transmitter_address: ORIGIN,
            data_len: 1,
            data: vec![data[128]],
        }
    );
}

#[test]
fn acknowledged_counts_the_transactions_done() {
    let mut transfer =
        Transfer::new(TARGET, ORIGIN, TransferKind::Firmware, &pattern(200), 128, EngineConfig::default(), 0)
            .unwrap();
    assert_eq!(transfer.acknowledged(), 0);
    transfer.step(0, Input::Sent);
    assert_eq!(transfer.step(1, Input::Received(ack())), Action::Send);
    assert_eq!(transfer.acknowledged(), 1);
    transfer.step(1, Input::Sent);
    assert_eq!(transfer.step(2, Input::Received(ack())), Action::Send);
    assert_eq!(transfer.acknowledged(), 2);
    assert_eq!(transfer.finished(), None);
    transfer.step(2, Input::Sent);
    assert_eq!(transfer.step(3, Input::Received(ack())), Action::Done);
    assert_eq!(transfer.acknowledged(), 3);
    assert_eq!(transfer.finished(), Some(Ok(())));
    assert_eq!(transfer.step(4, Input::Sent), Action::Done);
    assert_eq!(transfer.acknowledged(), 3);
}

#[test]
fn next_chunk_waits_for_the_acknowledgement_of_the_one_before() {
    let firmware = pattern(300);
    let mut transfer =
        upgrade_firmware(ORIGIN, &devices(), &firmware, TARGET, EngineConfig::default(), 0).unwrap();
    transfer.step(0, Input::Sent);
    transfer.step(1, Input::Received(ack()));
    let first_chunk = transfer.request().duplicate();
    transfer.step(1, Input::Sent);
    assert_eq!(transfer.step(2, Input::Nothing), Action::Poll);
    let wrong = Event::Ack { receiver_address: ORIGIN, transmitter_address: 0x000B };
    assert_eq!(transfer.step(3, Input::Received(wrong)), Action::Poll);
    assert_eq!(transfer.request(), &first_chunk);
    assert_eq!(transfer.step(102, Input::Nothing), Action::Send);
    assert_eq!(transfer.request(), &first_chunk);
    assert_eq!(transfer.acknowledged(), 1);
}

#[test]
fn start_that_is_never_acknowledged_sends_no_chunk() {
    let config = EngineConfig { packet_timeout_ms: 100, max_retries: 3, transaction_timeout_ms: None };
    let mut transfer =
        upgrade_firmware(ORIGIN, &devices(), &pattern(300), TARGET, config, 0).unwrap();
    let mut now = 0;
    let mut sent = vec![];
    let mut action = transfer.action();
    while action != Action::Done {
        action = match action {
            Action::Send => {
                sent.push(transfer.request().duplicate());
                transfer.step(now, Input::Sent)
            }
            _ => {
                now += 101;
                transfer.step(now, Input::Nothing)
            }
        };
    }
    assert_eq!(transfer.finished(), Some(Err(ConfiguratorError::TransactionTimedOut)));
    assert_eq!(sent.len(), 3);
    for event in sent {
        assert!(matches!(event, Event::ProgrammerStartFirmwareUpgrade { .. }));
    }
    assert_eq!(transfer.acknowledged(), 0);
}

#[test]
fn failure_on_a_chunk_aborts_the_rest() {
    let mut transfer =
        upgrade_firmware(ORIGIN, &devices(), &pattern(300), TARGET, EngineConfig::default(), 0).unwrap();
    transfer.step(0, Input::Sent);
    transfer.step(1, Input::Received(ack()));
    transfer.step(1, Input::Sent);
    transfer.step(2, Input::Received(ack()));
    transfer.step(2, Input::Sent);
    assert_eq!(transfer.step(3, Input::Failed(RossSerialError::ReadError)), Action::Done);
    assert_eq!(
        transfer.finished(),
        Some(Err(ConfiguratorError::SerialError(RossSerialError::ReadError)))
    );
    assert_eq!(transfer.acknowledged(), 2);
    assert_eq!(transfer.step(4, Input::Received(ack())), Action::Done);
    assert_eq!(transfer.acknowledged(), 2);
}

#[test]
fn empty_payload_is_refused_before_anything_is_sent() {
    assert_eq!(
        upgrade_firmware(ORIGIN, &devices(), &[], TARGET, EngineConfig::default(), 0).err(),
        Some(ConfiguratorError::EmptyPayload)
    );
    assert_eq!(
        upgrade_config(ORIGIN, &devices(), &[], TARGET, EngineConfig::default(), 0).err(),
        Some(ConfiguratorError::EmptyPayload)
    );
}

#[test]
fn unknown_device_is_not_found() {
    assert_eq!(
        upgrade_firmware(ORIGIN, &devices(), &pattern(10), 0x000B, EngineConfig::default(), 0).err(),
        Some(ConfiguratorError::DeviceNotFound)
    );
    assert_eq!(
        upgrade_config(ORIGIN, &DeviceSet::new(), &pattern(10), TARGET, EngineConfig::default(), 0).err(),
        Some(ConfiguratorError::DeviceNotFound)
    );
    assert_eq!(
        upgrade_firmware(ORIGIN, &DeviceSet::new(), &[], TARGET, EngineConfig::default(), 0).err(),
        Some(ConfiguratorError::DeviceNotFound)
    );
}

#[test]
fn chunk_size_must_fit_a_data_event() {
    let payload = pattern(10);
    let config = EngineConfig::default();
    assert_eq!(
        Transfer::new(TARGET, ORIGIN, TransferKind::Firmware, &payload, 0, config, 0).err(),
        Some(ConfiguratorError::BadUsage)
    );
    assert_eq!(
        Transfer::new(TARGET, ORIGIN, TransferKind::Firmware, &payload, 0x1_0000, config, 0).err(),
        Some(ConfiguratorError::BadUsage)
    );
    assert!(Transfer::new(TARGET, ORIGIN, TransferKind::Firmware, &payload, 0xFFFF, config, 0).is_ok());
    assert_eq!(DATA_PACKET_SIZE, 128);
}

#[test]
fn transfer_with_no_attempt_allowed_times_out_at_once() {
    let config = EngineConfig { packet_timeout_ms: 100, max_retries: 0, transaction_timeout_ms: None };
    let transfer = upgrade_firmware(ORIGIN, &devices(), &pattern(10), TARGET, config, 0).unwrap();
    assert_eq!(transfer.action(), Action::Done);
    assert_eq!(transfer.finished(), Some(Err(ConfiguratorError::TransactionTimedOut)));
}

#[test]
fn refusal_names_the_reason() {
    assert_eq!(refusal(300, 128), None);
    assert_eq!(refusal(1, 1), None);
    assert_eq!(refusal(0xFFFF_FFFF, 0xFFFF), None);
    assert_eq!(refusal(0, 128), Some(ConfiguratorError::EmptyPayload));
    assert_eq!(refusal(0x1_0000_0000, 128), Some(ConfiguratorError::PayloadTooLarge));
    assert_eq!(refusal(300, 0), Some(ConfiguratorError::BadUsage));
    assert_eq!(refusal(0, 0), Some(ConfiguratorError::BadUsage));
    assert_eq!(refusal(300, 0x1_0000), Some(ConfiguratorError::BadUsage));
}

#[test]
fn chunk_ranges_of_300_bytes() {
    assert_eq!(chunk_range(300, 128, 0), Some((0, 128)));
    assert_eq!(chunk_range(300, 128, 1), Some((128, 256)));
    assert_eq!(chunk_range(300, 128, 2), Some((256, 300)));
    assert_eq!(chunk_range(300, 128, 3), None);
    assert_eq!(chunk_range(256, 128, 1), Some((128, 256)));
    assert_eq!(chunk_range(256, 128, 2), None);
    assert_eq!(chunk_range(0, 128, 0), None);
    assert_eq!(chunk_range(300, 0, 0), None);
    assert_eq!(chunk_range(300, 128, usize::MAX), None);
}

#[test]
fn chunk_ranges_agree_with_the_chunks() {
    for len in [1usize, 127, 128, 129, 256, 1000] {
        let payload = pattern(len);
        let parts = chunks(&payload, 128);
        for (i, part) in parts.iter().enumerate() {
            let (start, end) = chunk_range(len, 128, i).unwrap();
            assert_eq!(part[..], payload[start..end]);
        }
        assert_eq!(chunk_range(len, 128, parts.len()), None);
    }
}
