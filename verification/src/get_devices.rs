//! Discovery: one broadcast hello, every distinct device that answers.
//!
//! Unlike a transaction, discovery does not know how many replies to
//! expect. It sends the hello once and collects bootloader hellos until its
//! window closes. Replies are kept by device address: a device that answers
//! twice is recorded once.

use vstd::prelude::*;

use crate::event::{Event, EventView};
use crate::ross_configurator::ConfiguratorError;
use crate::transaction::{action_of, elapsed, fatal, is_fatal, Action, Input, InputView, Resolution, State};

verus! {

/// How long discovery collects replies unless told otherwise: five packet
/// timeouts.
pub const DISCOVERY_WINDOW_MS: u64 = 500;

/// One discovered device.
#[derive(Clone, Copy, Debug, PartialEq, Eq, Structural)]
pub struct DeviceRecord {
    /// The address the device answers to.
    pub address: u16,
    /// The firmware it reported, if it reported one.
    pub firmware_version: Option<u32>,
}

/// Whether some record of `records` has the address `address`.
pub open spec fn has_address(records: Seq<DeviceRecord>, address: u16) -> bool {
    exists|i: int| 0 <= i < records.len() && (#[trigger] records[i]).address == address
}

/// Whether no two records of `records` share an address.
pub open spec fn distinct_addresses(records: Seq<DeviceRecord>) -> bool {
    forall|i: int, j: int|
        0 <= i < j < records.len() ==> (#[trigger] records[i]).address != (
        #[trigger] records[j]).address
}

/// `records` with `record` added: at the end if its address is new,
/// not at all if a record with that address is already there.
pub open spec fn insert_spec(records: Seq<DeviceRecord>, record: DeviceRecord) -> Seq<DeviceRecord> {
    if has_address(records, record.address) {
        records
    } else {
        records.push(record)
    }
}

/// The first record of `records` with the address `address`.
pub open spec fn find_spec(records: Seq<DeviceRecord>, address: u16) -> Option<DeviceRecord>
    decreases records.len(),
{
    if records.len() == 0 {
        None
    } else if records[0].address == address {
        Some(records[0])
    } else {
        find_spec(records.drop_first(), address)
    }
}

/// The devices found, at most one per address, in order of first reply.
#[derive(Debug, PartialEq, Eq)]
pub struct DeviceSet {
    records: Vec<DeviceRecord>,
}

impl View for DeviceSet {
    type V = Seq<DeviceRecord>;

    closed spec fn view(&self) -> Seq<DeviceRecord> {
        self.records@
    }
}

impl DeviceSet {
    /// No address occurs twice.
    #[verifier::type_invariant]
    pub open spec fn wf(&self) -> bool {
        distinct_addresses(self@)
    }

    /// The empty set.
    pub fn new() -> (devices: DeviceSet)
        ensures
            devices@ == Seq::<DeviceRecord>::empty(),
            devices.wf(),
    {
        DeviceSet { records: Vec::new() }
    }

    /// The number of devices.
    pub fn len(&self) -> (n: usize)
        ensures
            n == self@.len(),
    {
        self.records.len()
    }

    /// The records, in order of first reply.
    pub fn records(&self) -> (records: &Vec<DeviceRecord>)
        ensures
            records@ == self@,
    {
        &self.records
    }

    /// The record of the device with the address `address`, if it is in the
    /// set.
    pub fn find(&self, address: u16) -> (found: Option<DeviceRecord>)
        ensures
            found == find_spec(self@, address),
            found is Some <==> has_address(self@, address),
            found matches Some(record) ==> record.address == address && self@.contains(record),
    {
        let mut i: usize = 0;
        assert(self@.skip(0) == self@);
        while i < self.records.len()
            invariant
                i <= self.records@.len(),
                find_spec(self@, address) == find_spec(self@.skip(i as int), address),
                forall|k: int| 0 <= k < i ==> (#[trigger] self@[k]).address != address,
            decreases self.records@.len() - i,
        {
            let record = self.records[i];
            if record.address == address {
                return Some(record);
            }
            assert(self@.skip(i as int).drop_first() == self@.skip(i + 1));
            i += 1;
        }
        None
    }

    /// Adds `record` unless a device with its address is already in the
    /// set; says whether it was added.
    pub fn insert(&mut self, record: DeviceRecord) -> (added: bool)
        ensures
            final(self).wf(),
            final(self)@ == insert_spec(old(self)@, record),
            added == !has_address(old(self)@, record.address),
    {
        proof {
            use_type_invariant(&*self);
        }
        match self.find(record.address) {
            Some(_) => false,
            None => {
                let mut records: Vec<DeviceRecord> = Vec::new();
                std::mem::swap(&mut self.records, &mut records);
                records.push(record);
                self.records = records;
                true
            },
        }
    }
}

/// Two replies from one address leave one record: adding a record whose
/// address is already in the set changes nothing, so the set holds the
/// record that came first, once.
pub proof fn lemma_same_address_once(records: Seq<DeviceRecord>, first: DeviceRecord, second: DeviceRecord)
    requires
        distinct_addresses(records),
        first.address == second.address,
    ensures
        insert_spec(insert_spec(records, first), second) == insert_spec(records, first),
        distinct_addresses(insert_spec(records, first)),
        insert_spec(insert_spec(Seq::empty(), first), second) == seq![first],
{
    let once = insert_spec(records, first);
    if !has_address(records, first.address) {
        assert(once[records.len() as int].address == second.address);
    }
    let alone = insert_spec(Seq::<DeviceRecord>::empty(), first);
    assert(alone[0].address == second.address);
}

/// A discovery round as a value.
pub ghost struct DiscoveryView {
    pub request: EventView,
    pub window_ms: u64,
    pub state: State,
    pub window_start: u64,
    pub devices: Seq<DeviceRecord>,
}

/// The record that a reply stands for, if the reply is a bootloader's hello.
pub open spec fn record_of(event: EventView) -> Option<DeviceRecord> {
    match event {
        EventView::BootloaderHello { bootloader_address, .. } => Some(
            DeviceRecord { address: bootloader_address, firmware_version: None },
        ),
        _ => None,
    }
}

impl DiscoveryView {
    /// The devices after a reply: with its record added if it is a
    /// bootloader's hello from an address not yet seen.
    pub open spec fn collect(self, input: InputView) -> Seq<DeviceRecord> {
        match input {
            InputView::Received(event) => match record_of(event) {
                Some(record) => insert_spec(self.devices, record),
                None => self.devices,
            },
            _ => self.devices,
        }
    }

    /// The round after the caller reports `input` at time `now`.
    ///
    /// While sending: a report that the hello was sent opens the window; a
    /// broken link ends the round; anything else changes nothing. While
    /// collecting: a broken link ends the round with failure; anything else
    /// is collected, and the round ends with success once the window has
    /// been open for longer than its length. Once over, nothing changes.
    pub open spec fn step(self, now: u64, input: InputView) -> DiscoveryView {
        match self.state {
            State::Resolved(_) => self,
            State::Sending => match input {
                InputView::Sent => DiscoveryView {
                    state: State::AwaitingReply,
                    window_start: now,
                    ..self
                },
                InputView::Failed(e) if is_fatal(e) => DiscoveryView {
                    state: State::Resolved(Resolution::Failed(e)),
                    ..self
                },
                _ => self,
            },
            State::AwaitingReply => match input {
                InputView::Failed(e) if is_fatal(e) => DiscoveryView {
                    state: State::Resolved(Resolution::Failed(e)),
                    ..self
                },
                _ => DiscoveryView {
                    state: if elapsed(now, self.window_start) > self.window_ms {
                        State::Resolved(Resolution::Completed)
                    } else {
                        State::AwaitingReply
                    },
                    devices: self.collect(input),
                    ..self
                },
            },
        }
    }

    /// No address occurs twice.
    pub open spec fn wf(self) -> bool {
        distinct_addresses(self.devices)
    }

    /// The result of the round, once it is over.
    pub open spec fn outcome(self) -> Option<Result<Seq<DeviceRecord>, ConfiguratorError>> {
        match self.state {
            State::Resolved(Resolution::Failed(e)) => Some(Err(ConfiguratorError::SerialError(e))),
            State::Resolved(_) => Some(Ok(self.devices)),
            _ => None,
        }
    }
}

/// One discovery round in progress.
#[derive(Debug)]
pub struct Discovery {
    request: Event,
    window_ms: u64,
    state: State,
    window_start: u64,
    devices: DeviceSet,
}

impl View for Discovery {
    type V = DiscoveryView;

    closed spec fn view(&self) -> DiscoveryView {
        DiscoveryView {
            request: self.request@,
            window_ms: self.window_ms,
            state: self.state,
            window_start: self.window_start,
            devices: self.devices@,
        }
    }
}

impl Discovery {
    /// See [`DiscoveryView::wf`].
    pub open spec fn wf(&self) -> bool {
        self@.wf()
    }

    /// Starts a round that broadcasts `request` and then collects replies
    /// for `window_ms` milliseconds.
    pub fn new(request: Event, window_ms: u64) -> (discovery: Discovery)
        ensures
            discovery@ == (DiscoveryView {
                request: request@,
                window_ms,
                state: State::Sending,
                window_start: 0,
                devices: Seq::empty(),
            }),
            discovery.wf(),
    {
        Discovery {
            request,
            window_ms,
            state: State::Sending,
            window_start: 0,
            devices: DeviceSet::new(),
        }
    }

    /// The hello this round broadcasts.
    pub fn request(&self) -> (request: &Event)
        ensures
            request@ == self@.request,
    {
        &self.request
    }

    /// What the caller is to do next.
    pub fn action(&self) -> (action: Action)
        ensures
            action == action_of(self@.state),
    {
        match self.state {
            State::Sending => Action::Send,
            State::AwaitingReply => Action::Poll,
            State::Resolved(_) => Action::Done,
        }
    }

    /// Takes the caller's report of what the last action gave, at time
    /// `now`, and says what to do next.
    pub fn step(&mut self, now: u64, input: Input) -> (action: Action)
        ensures
            final(self)@ == old(self)@.step(now, input@),
            final(self).wf(),
            action == action_of(final(self)@.state),
    {
        proof {
            use_type_invariant(&self.devices);
        }
        match self.state {
            State::Resolved(_) => {},
            State::Sending => match input {
                Input::Sent => {
                    self.state = State::AwaitingReply;
                    self.window_start = now;
                },
                Input::Failed(e) => {
                    if fatal(e) {
                        self.state = State::Resolved(Resolution::Failed(e));
                    }
                },
                _ => {},
            },
            State::AwaitingReply => {
                let broken = match input {
                    Input::Failed(e) => if fatal(e) {
                        Some(e)
                    } else {
                        None
                    },
                    Input::Received(Event::BootloaderHello { bootloader_address, .. }) => {
                        self.devices.insert(
                            DeviceRecord { address: bootloader_address, firmware_version: None },
                        );
                        None
                    },
                    _ => None,
                };
                match broken {
                    Some(e) => {
                        self.state = State::Resolved(Resolution::Failed(e));
                    },
                    None => {
                        if now >= self.window_start && now - self.window_start > self.window_ms {
                            self.state = State::Resolved(Resolution::Completed);
                        }
                    },
                }
            },
        }
        self.action()
    }

    /// The result, once the round is over: the devices found, or why the
    /// round failed. Nothing while it is still running.
    pub fn outcome(self) -> (outcome: Option<Result<DeviceSet, ConfiguratorError>>)
        ensures
            match outcome {
                Some(Ok(devices)) => self@.outcome() == Some(
                    Ok::<Seq<DeviceRecord>, ConfiguratorError>(devices@),
                ) && devices.wf(),
                Some(Err(e)) => self@.outcome() == Some(
                    Err::<Seq<DeviceRecord>, ConfiguratorError>(e),
                ),
                None => self@.outcome() is None,
            },
    {
        proof {
            use_type_invariant(&self.devices);
        }
        match self.state {
            State::Resolved(Resolution::Failed(e)) => Some(Err(ConfiguratorError::SerialError(e))),
            State::Resolved(_) => Some(Ok(self.devices)),
            _ => None,
        }
    }
}

/// Starts the discovery of the devices behind the programmer with the
/// address `programmer_address`: its hello is broadcast, and bootloader
/// hellos are collected for [`DISCOVERY_WINDOW_MS`].
pub fn get_devices(programmer_address: u16) -> (discovery: Discovery)
    ensures
        discovery@ == (DiscoveryView {
            request: EventView::ProgrammerHello { programmer_address },
            window_ms: DISCOVERY_WINDOW_MS,
            state: State::Sending,
            window_start: 0,
            devices: Seq::empty(),
        }),
        discovery.wf(),
{
    Discovery::new(Event::ProgrammerHello { programmer_address }, DISCOVERY_WINDOW_MS)
}

/// A device that answers twice within one round is recorded once: while
/// replies are collected, a bootloader's hello from an address puts that
/// address into the set, and a second hello from the same address changes
/// nothing, whenever it comes.
pub proof fn lemma_second_reply_adds_nothing(
    d: DiscoveryView,
    first_at: u64,
    first: EventView,
    second_at: u64,
    second: EventView,
)
    requires
        d.wf(),
        d.state == State::AwaitingReply,
        record_of(first) is Some,
        record_of(second) is Some,
        record_of(first)->0.address == record_of(second)->0.address,
    ensures
        ({
            let once = d.step(first_at, InputView::Received(first));
            let twice = once.step(second_at, InputView::Received(second));
            &&& has_address(once.devices, record_of(first)->0.address)
            &&& distinct_addresses(once.devices)
            &&& twice.devices == once.devices
        }),
{
    let record = record_of(first)->0;
    let once = d.step(first_at, InputView::Received(first));
    if !has_address(d.devices, record.address) {
        assert(once.devices[d.devices.len() as int].address == record.address);
    }
}

} // verus!
