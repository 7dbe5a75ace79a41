//! Uploading a firmware image to a discovered device.

use vstd::prelude::*;

use crate::get_devices::{has_address, DeviceSet};
use crate::ross_configurator::{ConfiguratorError, DATA_PACKET_SIZE};
use crate::transfer::{transfer_refusal, transfer_spec, Transfer, TransferKind};
use crate::transaction::EngineConfig;

verus! {

/// Starts, at time `now`, the upload of the image `firmware` to the device
/// at `address`, in chunks of [`DATA_PACKET_SIZE`] bytes.
///
/// The device must be among the discovered ones; if it is not, it is
/// reported as not found, even where the image would be refused too. An
/// empty image, or one too large to declare, is refused before anything is
/// sent.
pub fn upgrade_firmware(
    programmer_address: u16,
    devices: &DeviceSet,
    firmware: &[u8],
    address: u16,
    config: EngineConfig,
    now: u64,
) -> (result: Result<Transfer, ConfiguratorError>)
    ensures
        match result {
            Ok(transfer) => has_address(devices@, address) && transfer_refusal(
                firmware@.len() as int,
                DATA_PACKET_SIZE as int,
            ) is None && transfer.wf() && transfer@ == transfer_spec(
                address,
                programmer_address,
                TransferKind::Firmware,
                firmware@,
                DATA_PACKET_SIZE as int,
                config,
                now,
            ),
            Err(e) => if has_address(devices@, address) {
                transfer_refusal(firmware@.len() as int, DATA_PACKET_SIZE as int) == Some(e)
            } else {
                e == ConfiguratorError::DeviceNotFound
            },
        },
{
    match devices.find(address) {
        Some(device) => Transfer::new(
            device.address,
            programmer_address,
            TransferKind::Firmware,
            firmware,
            DATA_PACKET_SIZE,
            config,
            now,
        ),
        None => Err(ConfiguratorError::DeviceNotFound),
    }
}

} // verus!
