use ross_configurator::event::Event;
use ross_configurator::event_type::EventType;
use ross_configurator::ross_configurator::ConfiguratorError;
use ross_configurator::send_event::{event_from_fields, narrow, parse_u16, parse_u32, parse_u8, send_event};

#[test]
fn parse_reads_decimal_and_prefixed_numbers() {
    assert_eq!(parse_u8("42"), Ok(42));
    assert_eq!(parse_u16("0x10"), Ok(16));
    assert_eq!(parse_u16("0xFFFF"), Ok(0xFFFF));
    assert_eq!(parse_u32("0b0110"), Ok(6));
    assert_eq!(parse_u32("0o42"), Ok(34));
    assert_eq!(parse_u32("1_000_000"), Ok(1_000_000));
}

#[test]
fn parse_rejects_what_does_not_fit_or_is_no_number() {
    assert_eq!(parse_u8("256"), Err(ConfiguratorError::BadUsage));
    assert_eq!(parse_u16("65536"), Err(ConfiguratorError::BadUsage));
    assert_eq!(parse_u32("4294967296"), Err(ConfiguratorError::BadUsage));
    assert_eq!(parse_u16("ten"), Err(ConfiguratorError::BadUsage));
    assert_eq!(parse_u16(""), Err(ConfiguratorError::BadUsage));
    assert_eq!(parse_u16("-1"), Err(ConfiguratorError::BadUsage));
}

#[test]
fn narrow_keeps_numbers_up_to_the_limit() {
    assert_eq!(narrow(Some(255), 255), Ok(255));
    assert_eq!(narrow(Some(256), 255), Err(ConfiguratorError::BadUsage));
    assert_eq!(narrow(None, 255), Err(ConfiguratorError::BadUsage));
}

#[test]
fn send_event_builds_ack() {
    assert_eq!(
        send_event(EventType::Ack, vec!["0x0001", "0x0002"]),
        Ok(Event::Ack { receiver_address: 1, transmitter_address: 2 })
    );
}

#[test]
fn send_event_builds_data_with_matching_length() {
    assert_eq!(
        send_event(EventType::Data, vec!["1", "2", "3", "0x0A", "0x0B", "0x0C"]),
        Ok(Event::Data {
            receiver_address: 1,
            transmitter_address: 2,
            data_len: 3,
            data: vec![0x0A, 0x0B, 0x0C],
        })
    );
    assert_eq!(
        send_event(EventType::Data, vec!["1", "2", "0"]),
        Ok(Event::Data { receiver_address: 1, transmitter_address: 2, data_len: 0, data: vec![] })
    );
}

#[test]
fn send_event_rejects_data_with_wrong_byte_count() {
    assert_eq!(
        send_event(EventType::Data, vec!["1", "2", "3", "0x0A", "0x0B"]),
        Err(ConfiguratorError::BadUsage)
    );
    assert_eq!(
        send_event(EventType::Data, vec!["1", "2", "1", "0x0A", "0x0B"]),
        Err(ConfiguratorError::BadUsage)
    );
    assert_eq!(
        send_event(EventType::Data, vec!["1", "2", "1", "0x100"]),
        Err(ConfiguratorError::BadUsage)
    );
}

#[test]
fn send_event_builds_each_remaining_kind() {
    assert_eq!(send_event(EventType::ConfiguratorHello, vec![]), Ok(Event::ConfiguratorHello));
    assert_eq!(
        send_event(EventType::BootloaderHello, vec!["0x0001", "0x000A"]),
        Ok(Event::BootloaderHello { programmer_address: 1, bootloader_address: 10 })
    );
    assert_eq!(
        send_event(EventType::ProgrammerHello, vec!["7"]),
        Ok(Event::ProgrammerHello { programmer_address: 7 })
    );
    assert_eq!(
        send_event(EventType::ProgrammerStartFirmwareUpgrade, vec!["10", "1", "300"]),
        Ok(Event::ProgrammerStartFirmwareUpgrade {
            receiver_address: 10,
            programmer_address: 1,
            firmware_size: 300,
        })
    );
    assert_eq!(
        send_event(EventType::ProgrammerStartConfigUpgrade, vec!["10", "70000"]),
        Ok(Event::ProgrammerStartConfigUpgrade {
            receiver_address: 10,
            programmer_address: 10,
            config_size: 70000,
        })
    );
    assert_eq!(
        send_event(EventType::ButtonPressed, vec!["10", "11", "3"]),
        Ok(Event::ButtonPressed { receiver_address: 10, button_address: 11, index: 3 })
    );
    assert_eq!(
        send_event(EventType::ButtonReleased, vec!["10", "11", "3"]),
        Ok(Event::ButtonReleased { receiver_address: 10, button_address: 11, index: 3 })
    );
    assert_eq!(
        send_event(EventType::SystemTick, vec!["0xFFFF"]),
        Ok(Event::SystemTick { receiver_address: 0xFFFF })
    );
}

#[test]
fn send_event_rejects_missing_or_malformed_fields() {
    assert_eq!(send_event(EventType::Ack, vec!["1"]), Err(ConfiguratorError::BadUsage));
    assert_eq!(send_event(EventType::Ack, vec!["1", "x"]), Err(ConfiguratorError::BadUsage));
    assert_eq!(send_event(EventType::SystemTick, vec![]), Err(ConfiguratorError::BadUsage));
    assert_eq!(
        send_event(EventType::ButtonPressed, vec!["1", "2", "256"]),
        Err(ConfiguratorError::BadUsage)
    );
    assert_eq!(
        send_event(EventType::ProgrammerHello, vec!["0x10000"]),
        Err(ConfiguratorError::BadUsage)
    );
}

#[test]
fn send_event_ignores_fields_it_does_not_need() {
    assert_eq!(
        send_event(EventType::ProgrammerHello, vec!["7", "not a number"]),
        Ok(Event::ProgrammerHello { programmer_address: 7 })
    );
}

#[test]
fn event_from_fields_takes_parsed_numbers() {
    assert_eq!(
        event_from_fields(EventType::Ack, &vec![Some(1), Some(2)]),
        Ok(Event::Ack { receiver_address: 1, transmitter_address: 2 })
    );
    assert_eq!(
        event_from_fields(EventType::Ack, &vec![Some(1), None]),
        Err(ConfiguratorError::BadUsage)
    );
    assert_eq!(
        event_from_fields(EventType::Ack, &vec![Some(1), Some(0x1_0000)]),
        Err(ConfiguratorError::BadUsage)
    );
}
