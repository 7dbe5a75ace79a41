//! The kinds of event that can be composed by hand from text fields.

use vstd::prelude::*;

verus! {

/// Selects which event a list of text fields describes.
#[derive(Clone, Copy, Debug, PartialEq, Eq, Structural)]
pub enum EventType {
    Ack,
    Data,
    ConfiguratorHello,
    BootloaderHello,
    ProgrammerHello,
    ProgrammerStartFirmwareUpgrade,
    ProgrammerStartConfigUpgrade,
    ButtonPressed,
    ButtonReleased,
    SystemTick,
}

} // verus!
