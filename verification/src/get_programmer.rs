//! Finding the programmer at the other end of the serial link.

use vstd::prelude::*;

use crate::event::{Event, EventView};
use crate::transaction::{start_spec, EngineConfig, Expect, Transaction};

verus! {

/// Starts the exchange that finds the programmer, at time `now`: the
/// configurator's hello is sent, and the hello of a programmer is the reply.
pub fn get_programmer(config: EngineConfig, now: u64) -> (transaction: Transaction)
    ensures
        transaction@ == start_spec(
            EventView::ConfiguratorHello,
            Expect::ProgrammerHello,
            config,
            now,
        ),
        transaction.wf(),
{
    Transaction::new(Event::ConfiguratorHello, Expect::ProgrammerHello, config, now)
}

/// The address in a programmer's hello.
pub open spec fn programmer_address_spec(reply: EventView) -> Option<u16> {
    match reply {
        EventView::ProgrammerHello { programmer_address } => Some(programmer_address),
        _ => None,
    }
}

/// Reads the programmer's address from its hello; nothing from any other
/// event.
pub fn programmer_address(reply: &Event) -> (address: Option<u16>)
    ensures
        address == programmer_address_spec(reply@),
{
    match reply {
        Event::ProgrammerHello { programmer_address } => Some(*programmer_address),
        _ => None,
    }
}

} // verus!
