//! Identifying the programmer, however long it takes.

use vstd::prelude::*;

use crate::event::{Event, EventView};
use crate::ross_configurator::PACKET_TIMEOUT_MS;
use crate::transaction::{start_spec, EngineConfig, Expect, Transaction};

verus! {

/// The tuning of the exchange that [`get_info`] starts: the usual packet
/// timeout, and as many attempts as a counter can hold.
pub open spec fn persistent_config() -> EngineConfig {
    EngineConfig {
        packet_timeout_ms: PACKET_TIMEOUT_MS,
        max_retries: u64::MAX,
        transaction_timeout_ms: None,
    }
}

/// Starts, at time `now`, the exchange that identifies the programmer and
/// does not give up: the configurator's hello is sent again after every
/// packet timeout until a programmer's hello arrives.
pub fn get_info(now: u64) -> (transaction: Transaction)
    ensures
        transaction@ == start_spec(
            EventView::ConfiguratorHello,
            Expect::ProgrammerHello,
            persistent_config(),
            now,
        ),
        transaction.wf(),
{
    let config = EngineConfig {
        packet_timeout_ms: PACKET_TIMEOUT_MS,
        max_retries: u64::MAX,
        transaction_timeout_ms: None,
    };
    Transaction::new(Event::ConfiguratorHello, Expect::ProgrammerHello, config, now)
}

} // verus!
