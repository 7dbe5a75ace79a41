//! Composing a single event from text fields.

use vstd::prelude::*;

use crate::event::{Event, EventView};
use crate::event_type::EventType;
use crate::ross_configurator::ConfiguratorError;

verus! {

/// The number that `parse_int::parse::<u64>` reads from a text, if it reads
/// one.
pub uninterp spec fn parsed_number(text: Seq<char>) -> Option<u64>;

/// Calls `parse_int::parse::<u64>`, which reads an unsigned number written in
/// decimal or with a `0x`, `0o` or `0b` prefix, and keeps the number or the
/// fact that there was none. The result depends on the text alone.
#[verifier::external_body]
fn parse_number(text: &str) -> (value: Option<u64>)
    ensures
        value == parsed_number(text@),
{
    parse_int::parse::<u64>(text).ok()
}

/// The number in `value` if there is one and it is at most `max`.
pub open spec fn narrow_spec(value: Option<u64>, max: u64) -> Option<u64> {
    match value {
        Some(v) if v <= max => Some(v),
        _ => None,
    }
}

/// Field `i` of `fields` as a number of at most `max`, if the field exists
/// and holds one.
pub open spec fn field_spec(fields: Seq<Option<u64>>, i: int, max: u64) -> Option<u64> {
    if 0 <= i < fields.len() {
        narrow_spec(fields[i], max)
    } else {
        None
    }
}

/// Whether fields `0..count` all hold 16-bit numbers.
pub open spec fn addresses_ok(fields: Seq<Option<u64>>, count: int) -> bool {
    forall|i: int| 0 <= i < count ==> (#[trigger] field_spec(fields, i, 0xFFFF)) is Some
}

/// Field `i` as a 16-bit number; meaningful where [`addresses_ok`] covers it.
pub open spec fn address_at(fields: Seq<Option<u64>>, i: int) -> u16 {
    field_spec(fields, i, 0xFFFF)->0 as u16
}

/// The event that the parsed fields describe, if they describe one.
///
/// Addresses and lengths are 16-bit, sizes 32-bit, data bytes and button
/// indices 8-bit. Fields beyond those an event needs are ignored, except for
/// a data event, whose byte count must match its declared length exactly.
/// A start-config-upgrade event takes its receiver and programmer address
/// from the same first field, and its size from the second.
pub open spec fn event_spec(event: EventType, fields: Seq<Option<u64>>) -> Option<EventView> {
    match event {
        EventType::Ack => if addresses_ok(fields, 2) {
            Some(
                EventView::Ack {
                    receiver_address: address_at(fields, 0),
                    transmitter_address: address_at(fields, 1),
                },
            )
        } else {
            None
        },
        EventType::Data => if addresses_ok(fields, 3) && fields.len() == address_at(fields, 2) + 3
            && (forall|i: int| 3 <= i < fields.len() ==> (#[trigger] field_spec(fields, i, 0xFF)) is Some) {
            Some(
                EventView::Data {
                    receiver_address: address_at(fields, 0),
                    transmitter_address: address_at(fields, 1),
                    data_len: address_at(fields, 2),
                    data: Seq::new(
                        (fields.len() - 3) as nat,
                        |i: int| field_spec(fields, i + 3, 0xFF)->0 as u8,
                    ),
                },
            )
        } else {
            None
        },
        EventType::ConfiguratorHello => Some(EventView::ConfiguratorHello),
        EventType::BootloaderHello => if addresses_ok(fields, 2) {
            Some(
                EventView::BootloaderHello {
                    programmer_address: address_at(fields, 0),
                    bootloader_address: address_at(fields, 1),
                },
            )
        } else {
            None
        },
        EventType::ProgrammerHello => if addresses_ok(fields, 1) {
            Some(EventView::ProgrammerHello { programmer_address: address_at(fields, 0) })
        } else {
            None
        },
        EventType::ProgrammerStartFirmwareUpgrade => if addresses_ok(fields, 2) && field_spec(
            fields,
            2,
            0xFFFF_FFFF,
        ) is Some {
            Some(
                EventView::ProgrammerStartFirmwareUpgrade {
                    receiver_address: address_at(fields, 0),
                    programmer_address: address_at(fields, 1),
                    firmware_size: field_spec(fields, 2, 0xFFFF_FFFF)->0 as u32,
                },
            )
        } else {
            None
        },
        EventType::ProgrammerStartConfigUpgrade => if addresses_ok(fields, 1) && field_spec(
            fields,
            1,
            0xFFFF_FFFF,
        ) is Some {
            Some(
                EventView::ProgrammerStartConfigUpgrade {
                    receiver_address: address_at(fields, 0),
                    programmer_address: address_at(fields, 0),
                    config_size: field_spec(fields, 1, 0xFFFF_FFFF)->0 as u32,
                },
            )
        } else {
            None
        },
        EventType::ButtonPressed => if addresses_ok(fields, 2) && field_spec(fields, 2, 0xFF) is Some {
            Some(
                EventView::ButtonPressed {
                    receiver_address: address_at(fields, 0),
                    button_address: address_at(fields, 1),
                    index: field_spec(fields, 2, 0xFF)->0 as u8,
                },
            )
        } else {
            None
        },
        EventType::ButtonReleased => if addresses_ok(fields, 2) && field_spec(fields, 2, 0xFF) is Some {
            Some(
                EventView::ButtonReleased {
                    receiver_address: address_at(fields, 0),
                    button_address: address_at(fields, 1),
                    index: field_spec(fields, 2, 0xFF)->0 as u8,
                },
            )
        } else {
            None
        },
        EventType::SystemTick => if addresses_ok(fields, 1) {
            Some(EventView::SystemTick { receiver_address: address_at(fields, 0) })
        } else {
            None
        },
    }
}

/// Keeps a parsed number that is at most `max`; anything else is bad usage.
pub fn narrow(value: Option<u64>, max: u64) -> (result: Result<u64, ConfiguratorError>)
    ensures
        match result {
            Ok(v) => narrow_spec(value, max) == Some(v),
            Err(e) => e == ConfiguratorError::BadUsage && narrow_spec(value, max) is None,
        },
{
    match value {
        Some(v) => if v <= max {
            Ok(v)
        } else {
            Err(ConfiguratorError::BadUsage)
        },
        None => Err(ConfiguratorError::BadUsage),
    }
}

/// Reads an 8-bit number from text.
pub fn parse_u8(string: &str) -> (result: Result<u8, ConfiguratorError>)
    ensures
        match result {
            Ok(v) => narrow_spec(parsed_number(string@), 0xFF) == Some(v as u64),
            Err(e) => e == ConfiguratorError::BadUsage && narrow_spec(parsed_number(string@), 0xFF)
                is None,
        },
{
    match narrow(parse_number(string), 0xFF) {
        Ok(v) => Ok(v as u8),
        Err(e) => Err(e),
    }
}

/// Reads a 16-bit number from text.
pub fn parse_u16(string: &str) -> (result: Result<u16, ConfiguratorError>)
    ensures
        match result {
            Ok(v) => narrow_spec(parsed_number(string@), 0xFFFF) == Some(v as u64),
            Err(e) => e == ConfiguratorError::BadUsage && narrow_spec(parsed_number(string@), 0xFFFF)
                is None,
        },
{
    match narrow(parse_number(string), 0xFFFF) {
        Ok(v) => Ok(v as u16),
        Err(e) => Err(e),
    }
}

/// Reads a 32-bit number from text.
pub fn parse_u32(string: &str) -> (result: Result<u32, ConfiguratorError>)
    ensures
        match result {
            Ok(v) => narrow_spec(parsed_number(string@), 0xFFFF_FFFF) == Some(v as u64),
            Err(e) => e == ConfiguratorError::BadUsage && narrow_spec(
                parsed_number(string@),
                0xFFFF_FFFF,
            ) is None,
        },
{
    match narrow(parse_number(string), 0xFFFF_FFFF) {
        Ok(v) => Ok(v as u32),
        Err(e) => Err(e),
    }
}

/// Field `i` as a number of at most `max`.
fn field(fields: &Vec<Option<u64>>, i: usize, max: u64) -> (result: Result<u64, ConfiguratorError>)
    ensures
        match result {
            Ok(v) => field_spec(fields@, i as int, max) == Some(v),
            Err(e) => e == ConfiguratorError::BadUsage && field_spec(fields@, i as int, max) is None,
        },
{
    if i < fields.len() {
        narrow(fields[i], max)
    } else {
        Err(ConfiguratorError::BadUsage)
    }
}

/// Builds the event of kind `event` from fields that have already been
/// parsed. Succeeds exactly when [`event_spec`] describes an event, and then
/// returns that event; fails with `BadUsage` otherwise.
pub fn event_from_fields(event: EventType, fields: &Vec<Option<u64>>) -> (result: Result<
    Event,
    ConfiguratorError,
>)
    ensures
        match result {
            Ok(built) => event_spec(event, fields@) == Some(built@) && built.wf(),
            Err(e) => e == ConfiguratorError::BadUsage && event_spec(event, fields@) is None,
        },
{
    match event {
        EventType::Ack => {
            let receiver_address = field(fields, 0, 0xFFFF)? as u16;
            let transmitter_address = field(fields, 1, 0xFFFF)? as u16;
            Ok(Event::Ack { receiver_address, transmitter_address })
        },
        EventType::Data => {
            let receiver_address = field(fields, 0, 0xFFFF)? as u16;
            let transmitter_address = field(fields, 1, 0xFFFF)? as u16;
            let data_len = field(fields, 2, 0xFFFF)? as u16;
            if fields.len() != data_len as usize + 3 {
                return Err(ConfiguratorError::BadUsage);
            }
            let mut bytes: Vec<u8> = Vec::with_capacity(data_len as usize);
            let mut i: usize = 3;
            while i < fields.len()
                invariant
                    event is Data,
                    3 <= i <= fields@.len(),
                    bytes@.len() == i - 3,
                    forall|j: int| 3 <= j < i ==> (#[trigger] field_spec(fields@, j, 0xFF)) is Some,
                    forall|j: int|
                        0 <= j < i - 3 ==> bytes@[j] == field_spec(fields@, j + 3, 0xFF)->0 as u8,
                decreases fields@.len() - i,
            {
                let byte = field(fields, i, 0xFF)? as u8;
                bytes.push(byte);
                i += 1;
            }
            assert(bytes@ == Seq::new(
                (fields@.len() - 3) as nat,
                |j: int| field_spec(fields@, j + 3, 0xFF)->0 as u8,
            ));
            Ok(Event::Data { receiver_address, transmitter_address, data_len, data: bytes })
        },
        EventType::ConfiguratorHello => Ok(Event::ConfiguratorHello),
        EventType::BootloaderHello => {
            let programmer_address = field(fields, 0, 0xFFFF)? as u16;
            let bootloader_address = field(fields, 1, 0xFFFF)? as u16;
            Ok(Event::BootloaderHello { programmer_address, bootloader_address })
        },
        EventType::ProgrammerHello => {
            let programmer_address = field(fields, 0, 0xFFFF)? as u16;
            Ok(Event::ProgrammerHello { programmer_address })
        },
        EventType::ProgrammerStartFirmwareUpgrade => {
            let receiver_address = field(fields, 0, 0xFFFF)? as u16;
            let programmer_address = field(fields, 1, 0xFFFF)? as u16;
            let firmware_size = field(fields, 2, 0xFFFF_FFFF)? as u32;
            Ok(
                Event::ProgrammerStartFirmwareUpgrade {
                    receiver_address,
                    programmer_address,
                    firmware_size,
                },
            )
        },
        EventType::ProgrammerStartConfigUpgrade => {
            let receiver_address = field(fields, 0, 0xFFFF)? as u16;
            let programmer_address = field(fields, 0, 0xFFFF)? as u16;
            let config_size = field(fields, 1, 0xFFFF_FFFF)? as u32;
            Ok(Event::ProgrammerStartConfigUpgrade { receiver_address, programmer_address, config_size })
        },
        EventType::ButtonPressed => {
            let receiver_address = field(fields, 0, 0xFFFF)? as u16;
            let button_address = field(fields, 1, 0xFFFF)? as u16;
            let index = field(fields, 2, 0xFF)? as u8;
            Ok(Event::ButtonPressed { receiver_address, button_address, index })
        },
        EventType::ButtonReleased => {
            let receiver_address = field(fields, 0, 0xFFFF)? as u16;
            let button_address = field(fields, 1, 0xFFFF)? as u16;
            let index = field(fields, 2, 0xFF)? as u8;
            Ok(Event::ButtonReleased { receiver_address, button_address, index })
        },
        EventType::SystemTick => {
            let receiver_address = field(fields, 0, 0xFFFF)? as u16;
            Ok(Event::SystemTick { receiver_address })
        },
    }
}

/// The numbers read from each text of `data`, in order.
pub open spec fn parsed_fields(data: Seq<&str>) -> Seq<Option<u64>> {
    Seq::new(data.len(), |i: int| parsed_number(data[i]@))
}

/// Composes the event of kind `event` from its fields written as text.
///
/// Each field is read as a number; the event is then built as
/// [`event_from_fields`] says. The caller sends the event it gets.
pub fn send_event(event: EventType, data: Vec<&str>) -> (result: Result<Event, ConfiguratorError>)
    ensures
        match result {
            Ok(built) => event_spec(event, parsed_fields(data@)) == Some(built@) && built.wf(),
            Err(e) => e == ConfiguratorError::BadUsage && event_spec(event, parsed_fields(data@))
                is None,
        },
{
    let mut fields: Vec<Option<u64>> = Vec::with_capacity(data.len());
    let mut i: usize = 0;
    while i < data.len()
        invariant
            i <= data@.len(),
            fields@ == parsed_fields(data@).take(i as int),
        decreases data@.len() - i,
    {
        fields.push(parse_number(data[i]));
        i += 1;
    }
    assert(parsed_fields(data@).take(i as int) == parsed_fields(data@));
    event_from_fields(event, &fields)
}

} // verus!
