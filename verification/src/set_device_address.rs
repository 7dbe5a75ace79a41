//! Giving a discovered device a new address.

use vstd::prelude::*;

use crate::event::{Event, EventView};
use crate::get_devices::{has_address, DeviceSet};
use crate::ross_configurator::ConfiguratorError;
use crate::transaction::{start_spec, EngineConfig, Expect, Transaction};

verus! {

/// Starts, at time `now`, the exchange that tells the device at `address` to
/// answer to `new_address` from now on.
///
/// The device must be among the discovered ones; if it is not, nothing is
/// sent and the device is reported as not found. The device acknowledges to
/// the programmer.
pub fn set_device_address(
    programmer_address: u16,
    devices: &DeviceSet,
    new_address: u16,
    address: u16,
    config: EngineConfig,
    now: u64,
) -> (result: Result<Transaction, ConfiguratorError>)
    ensures
        match result {
            Ok(transaction) => has_address(devices@, address) && transaction.wf() && transaction@
                == start_spec(
                EventView::ProgrammerSetDeviceAddress {
                    receiver_address: address,
                    programmer_address,
                    new_address,
                },
                Expect::Ack { receiver_address: programmer_address, transmitter_address: address },
                config,
                now,
            ),
            Err(e) => e == ConfiguratorError::DeviceNotFound && !has_address(devices@, address),
        },
{
    match devices.find(address) {
        Some(device) => {
            let request = Event::ProgrammerSetDeviceAddress {
                receiver_address: device.address,
                programmer_address,
                new_address,
            };
            let expect = Expect::Ack {
                receiver_address: programmer_address,
                transmitter_address: device.address,
            };
            Ok(Transaction::new(request, expect, config, now))
        },
        None => Err(ConfiguratorError::DeviceNotFound),
    }
}

} // verus!
