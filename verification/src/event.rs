//! Application events, as typed values.
//!
//! How an event is laid out in a packet's bytes is fixed outside this
//! library; here an event is a closed sum with one case per kind, and the
//! rules that read its fields.

use vstd::prelude::*;

verus! {

/// A typed application event. Addresses are opaque 16-bit node identifiers.
#[derive(Debug, PartialEq, Eq)]
pub enum Event {
    Ack { receiver_address: u16, transmitter_address: u16 },
    Data { receiver_address: u16, transmitter_address: u16, data_len: u16, data: Vec<u8> },
    ConfiguratorHello,
    BootloaderHello { programmer_address: u16, bootloader_address: u16 },
    ProgrammerHello { programmer_address: u16 },
    ProgrammerStartFirmwareUpgrade {
        receiver_address: u16,
        programmer_address: u16,
        firmware_size: u32,
    },
    ProgrammerStartConfigUpgrade { receiver_address: u16, programmer_address: u16, config_size: u32 },
    ProgrammerSetDeviceAddress { receiver_address: u16, programmer_address: u16, new_address: u16 },
    ButtonPressed { receiver_address: u16, button_address: u16, index: u8 },
    ButtonReleased { receiver_address: u16, button_address: u16, index: u8 },
    SystemTick { receiver_address: u16 },
    BcmChangeBrightness {
        receiver_address: u16,
        transmitter_address: u16,
        index: u8,
        brightness: u8,
    },
}

/// What an [`Event`] is, with its data bytes as a sequence.
pub ghost enum EventView {
    Ack { receiver_address: u16, transmitter_address: u16 },
    Data { receiver_address: u16, transmitter_address: u16, data_len: u16, data: Seq<u8> },
    ConfiguratorHello,
    BootloaderHello { programmer_address: u16, bootloader_address: u16 },
    ProgrammerHello { programmer_address: u16 },
    ProgrammerStartFirmwareUpgrade {
        receiver_address: u16,
        programmer_address: u16,
        firmware_size: u32,
    },
    ProgrammerStartConfigUpgrade { receiver_address: u16, programmer_address: u16, config_size: u32 },
    ProgrammerSetDeviceAddress { receiver_address: u16, programmer_address: u16, new_address: u16 },
    ButtonPressed { receiver_address: u16, button_address: u16, index: u8 },
    ButtonReleased { receiver_address: u16, button_address: u16, index: u8 },
    SystemTick { receiver_address: u16 },
    BcmChangeBrightness {
        receiver_address: u16,
        transmitter_address: u16,
        index: u8,
        brightness: u8,
    },
}

impl View for Event {
    type V = EventView;

    open spec fn view(&self) -> EventView {
        match *self {
            Event::Ack { receiver_address, transmitter_address } => EventView::Ack {
                receiver_address,
                transmitter_address,
            },
            Event::Data { receiver_address, transmitter_address, data_len, data } => EventView::Data {
                receiver_address,
                transmitter_address,
                data_len,
                data: data@,
            },
            Event::ConfiguratorHello => EventView::ConfiguratorHello,
            Event::BootloaderHello { programmer_address, bootloader_address } => {
                EventView::BootloaderHello { programmer_address, bootloader_address }
            },
            Event::ProgrammerHello { programmer_address } => EventView::ProgrammerHello {
                programmer_address,
            },
            Event::ProgrammerStartFirmwareUpgrade {
                receiver_address,
                programmer_address,
                firmware_size,
            } => EventView::ProgrammerStartFirmwareUpgrade {
                receiver_address,
                programmer_address,
                firmware_size,
            },
            Event::ProgrammerStartConfigUpgrade {
                receiver_address,
                programmer_address,
                config_size,
            } => EventView::ProgrammerStartConfigUpgrade {
                receiver_address,
                programmer_address,
                config_size,
            },
            Event::ProgrammerSetDeviceAddress {
                receiver_address,
                programmer_address,
                new_address,
            } => EventView::ProgrammerSetDeviceAddress {
                receiver_address,
                programmer_address,
                new_address,
            },
            Event::ButtonPressed { receiver_address, button_address, index } => {
                EventView::ButtonPressed { receiver_address, button_address, index }
            },
            Event::ButtonReleased { receiver_address, button_address, index } => {
                EventView::ButtonReleased { receiver_address, button_address, index }
            },
            Event::SystemTick { receiver_address } => EventView::SystemTick { receiver_address },
            Event::BcmChangeBrightness {
                receiver_address,
                transmitter_address,
                index,
                brightness,
            } => EventView::BcmChangeBrightness {
                receiver_address,
                transmitter_address,
                index,
                brightness,
            },
        }
    }
}

impl EventView {
    /// A data event declares exactly as many bytes as it carries; every
    /// other event is well formed as it stands.
    pub open spec fn wf(self) -> bool {
        self matches EventView::Data { data_len, data, .. } ==> data.len() == data_len
    }
}

impl Event {
    /// See [`EventView::wf`].
    pub open spec fn wf(&self) -> bool {
        self@.wf()
    }

    /// A copy of this event.
    pub fn duplicate(&self) -> (copy: Event)
        ensures
            copy@ == self@,
    {
        match self {
            Event::Ack { receiver_address, transmitter_address } => Event::Ack {
                receiver_address: *receiver_address,
                transmitter_address: *transmitter_address,
            },
            Event::Data { receiver_address, transmitter_address, data_len, data } => {
                let mut bytes: Vec<u8> = Vec::with_capacity(data.len());
                let mut i: usize = 0;
                while i < data.len()
                    invariant
                        i <= data@.len(),
                        bytes@ == data@.take(i as int),
                    decreases data@.len() - i,
                {
                    bytes.push(data[i]);
                    i += 1;
                }
                assert(data@.take(i as int) == data@);
                Event::Data {
                    receiver_address: *receiver_address,
                    transmitter_address: *transmitter_address,
                    data_len: *data_len,
                    data: bytes,
                }
            },
            Event::ConfiguratorHello => Event::ConfiguratorHello,
            Event::BootloaderHello { programmer_address, bootloader_address } => {
                Event::BootloaderHello {
                    programmer_address: *programmer_address,
                    bootloader_address: *bootloader_address,
                }
            },
            Event::ProgrammerHello { programmer_address } => Event::ProgrammerHello {
                programmer_address: *programmer_address,
            },
            Event::ProgrammerStartFirmwareUpgrade {
                receiver_address,
                programmer_address,
                firmware_size,
            } => Event::ProgrammerStartFirmwareUpgrade {
                receiver_address: *receiver_address,
                programmer_address: *programmer_address,
                firmware_size: *firmware_size,
            },
            Event::ProgrammerStartConfigUpgrade {
                receiver_address,
                programmer_address,
                config_size,
            } => Event::ProgrammerStartConfigUpgrade {
                receiver_address: *receiver_address,
                programmer_address: *programmer_address,
                config_size: *config_size,
            },
            Event::ProgrammerSetDeviceAddress {
                receiver_address,
                programmer_address,
                new_address,
            } => Event::ProgrammerSetDeviceAddress {
                receiver_address: *receiver_address,
                programmer_address: *programmer_address,
                new_address: *new_address,
            },
            Event::ButtonPressed { receiver_address, button_address, index } => {
                Event::ButtonPressed {
                    receiver_address: *receiver_address,
                    button_address: *button_address,
                    index: *index,
                }
            },
            Event::ButtonReleased { receiver_address, button_address, index } => {
                Event::ButtonReleased {
                    receiver_address: *receiver_address,
                    button_address: *button_address,
                    index: *index,
                }
            },
            Event::SystemTick { receiver_address } => Event::SystemTick {
                receiver_address: *receiver_address,
            },
            Event::BcmChangeBrightness {
                receiver_address,
                transmitter_address,
                index,
                brightness,
            } => Event::BcmChangeBrightness {
                receiver_address: *receiver_address,
                transmitter_address: *transmitter_address,
                index: *index,
                brightness: *brightness,
            },
        }
    }
}

} // verus!
