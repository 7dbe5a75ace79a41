//! Protocol constants and the error type shared by every command.

use vstd::prelude::*;

use crate::ross_serial::RossSerialError;

verus! {

/// How long one request attempt waits for its reply, in milliseconds.
pub const PACKET_TIMEOUT_MS: u64 = 100;

/// How many times a request is sent before the transaction gives up.
pub const TRANSACTION_RETRY_COUNT: u64 = 5;

/// Serial speed used when none is given.
pub const DEFAULT_BAUDRATE: u64 = 115_200;

/// Number of payload bytes carried by one data event of a bulk transfer.
pub const DATA_PACKET_SIZE: usize = 128;

/// Why a command failed.
#[derive(Clone, Copy, Debug, PartialEq, Eq, Structural)]
pub enum ConfiguratorError {
    /// The arguments of a command do not describe a valid request.
    BadUsage,
    /// The addressed device is not among the discovered ones.
    DeviceNotFound,
    /// No correlated reply arrived within the retry budget or the deadline.
    TransactionTimedOut,
    /// A bulk transfer was asked to send nothing.
    EmptyPayload,
    /// A bulk transfer was asked to send more than its size field can declare.
    PayloadTooLarge,
    /// The serial transport failed while sending or receiving.
    SerialError(RossSerialError),
    /// A local file could not be read.
    IOError,
    /// The serial port could not be opened.
    FailedToOpenDevice,
}

} // verus!
