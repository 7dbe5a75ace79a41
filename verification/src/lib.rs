//! Host-side configuration and firmware update of microcontroller devices
//! over a serial link.
//!
//! The library is free of I/O: it frames bytes, reassembles packets, and
//! decides what a request/reply exchange, a discovery round or a bulk upload
//! does next. The caller owns the serial port and the clock, performs the
//! action each state machine asks for, and reports back what happened.
//!
//! From the wire up: [`frame`] is the length-prefixed frame, [`packet`] the
//! splitting of a packet into frames and its reassembly, [`ross_serial`] the
//! transport over a byte stream, [`event`] the typed events, [`transaction`]
//! the exchange with retries, [`get_devices`] discovery, and [`transfer`]
//! the chunked upload. The other modules start one command each.

pub mod bytes;
pub mod event;
pub mod event_type;
pub mod frame;
pub mod get_devices;
pub mod get_info;
pub mod get_programmer;
pub mod packet;
pub mod ross_configurator;
pub mod ross_serial;
pub mod send_event;
pub mod set_device_address;
pub mod transaction;
pub mod transfer;
pub mod upgrade_config;
pub mod upgrade_firmware;
