use ross_configurator::event::Event;
use ross_configurator::get_devices::{get_devices, DeviceRecord, DeviceSet, Discovery, DISCOVERY_WINDOW_MS};
use ross_configurator::ross_configurator::ConfiguratorError;
use ross_configurator::ross_serial::RossSerialError;
use ross_configurator::transaction::{Action, Input};

fn hello(from: u16) -> Event {
    Event::BootloaderHello { programmer_address: 1, bootloader_address: from }
}

fn record(address: u16) -> DeviceRecord {
    DeviceRecord { address, firmware_version: None }
}

#[test]
fn device_set_keeps_one_record_per_address() {
    let mut devices = DeviceSet::new();
    assert_eq!(devices.len(), 0);
    assert!(devices.insert(record(10)));
    assert!(!devices.insert(record(10)));
    assert!(devices.insert(record(11)));
    assert!(!devices.insert(DeviceRecord { address: 10, firmware_version: Some(7) }));
    assert_eq!(devices.len(), 2);
    assert_eq!(devices.records(), &vec![record(10), record(11)]);
}

#[test]
fn device_set_finds_by_address() {
    let mut devices = DeviceSet::new();
    devices.insert(DeviceRecord { address: 10, firmware_version: Some(3) });
    devices.insert(record(11));
    assert_eq!(devices.find(10), Some(DeviceRecord { address: 10, firmware_version: Some(3) }));
    assert_eq!(devices.find(11), Some(record(11)));
    assert_eq!(devices.find(12), None);
}

#[test]
fn two_hellos_from_one_address_give_one_record() {
    let mut discovery = get_devices(1);
    assert_eq!(discovery.action(), Action::Send);
    assert_eq!(discovery.request(), &Event::ProgrammerHello { programmer_address: 1 });
    assert_eq!(discovery.step(0, Input::Sent), Action::Poll);
    assert_eq!(discovery.step(10, Input::Received(hello(0x000A))), Action::Poll);
    assert_eq!(discovery.step(20, Input::Received(hello(0x000A))), Action::Poll);
    assert_eq!(discovery.step(DISCOVERY_WINDOW_MS + 1, Input::Nothing), Action::Done);
    let devices = discovery.outcome().unwrap().unwrap();
    assert_eq!(devices.records(), &vec![record(0x000A)]);
}

#[test]
fn repeated_reply_that_is_not_adjacent_is_still_collapsed() {
    let mut discovery = Discovery::new(Event::ProgrammerHello { programmer_address: 1 }, 100);
    discovery.step(0, Input::Sent);
    discovery.step(1, Input::Received(hello(10)));
    discovery.step(2, Input::Received(hello(11)));
    discovery.step(3, Input::Received(hello(10)));
    discovery.step(4, Input::Received(hello(12)));
    assert_eq!(discovery.step(101, Input::Received(hello(11))), Action::Done);
    let devices = discovery.outcome().unwrap().unwrap();
    assert_eq!(devices.records(), &vec![record(10), record(11), record(12)]);
}

#[test]
fn no_reply_gives_an_empty_set() {
    let mut discovery = get_devices(1);
    discovery.step(0, Input::Sent);
    assert_eq!(discovery.step(500, Input::Nothing), Action::Poll);
    assert_eq!(discovery.step(501, Input::Nothing), Action::Done);
    assert_eq!(discovery.outcome().unwrap().unwrap().len(), 0);
}

#[test]
fn other_events_are_not_collected() {
    let mut discovery = get_devices(1);
    discovery.step(0, Input::Sent);
    discovery.step(1, Input::Received(Event::Ack { receiver_address: 1, transmitter_address: 10 }));
    discovery.step(2, Input::Received(Event::ProgrammerHello { programmer_address: 3 }));
    discovery.step(501, Input::Nothing);
    assert_eq!(discovery.outcome().unwrap().unwrap().len(), 0);
}

#[test]
fn reply_that_closes_the_window_is_still_collected() {
    let mut discovery = get_devices(1);
    discovery.step(0, Input::Sent);
    assert_eq!(discovery.step(600, Input::Received(hello(10))), Action::Done);
    assert_eq!(discovery.outcome().unwrap().unwrap().records(), &vec![record(10)]);
}

#[test]
fn broken_link_fails_the_round() {
    let mut discovery = get_devices(1);
    assert_eq!(discovery.step(0, Input::Failed(RossSerialError::WriteError)), Action::Done);
    assert_eq!(
        discovery.outcome(),
        Some(Err(ConfiguratorError::SerialError(RossSerialError::WriteError)))
    );
    let mut discovery = get_devices(1);
    discovery.step(0, Input::Sent);
    discovery.step(1, Input::Received(hello(10)));
    assert_eq!(discovery.step(2, Input::Failed(RossSerialError::ReadError)), Action::Done);
    assert_eq!(
        discovery.outcome(),
        Some(Err(ConfiguratorError::SerialError(RossSerialError::ReadError)))
    );
}

#[test]
fn running_round_has_no_outcome() {
    let mut discovery = get_devices(1);
    discovery.step(0, Input::Sent);
    assert_eq!(discovery.outcome(), None);
}
