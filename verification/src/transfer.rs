//! The bulk transfer protocol: one start transaction, then one data
//! transaction per chunk, strictly in order.
//!
//! At most one chunk is in flight: the next is sent only after the one
//! before it has been acknowledged. A failure ends the transfer where it
//! stands; what was sent is not taken back, and a transfer cannot be resumed.

use vstd::arithmetic::div_mod::{
    lemma_basic_div,
    lemma_div_minus_one,
    lemma_mod_self_0,
    lemma_mod_sub_multiples_vanish,
    lemma_small_mod,
};
use vstd::prelude::*;
use vstd::slice::{slice_subrange, slice_to_vec};

use crate::bytes::{byte_views, join};
use crate::event::{Event, EventView};
use crate::ross_configurator::ConfiguratorError;
use crate::transaction::{
    action_of,
    start_spec,
    Action,
    EngineConfig,
    Expect,
    Input,
    InputView,
    Resolution,
    State,
    Transaction,
    TransactionView,
};

verus! {

/// The largest chunk a data event can declare.
pub const MAX_CHUNK_SIZE: usize = 0xFFFF;

/// The largest payload a start event can declare.
pub const MAX_TRANSFER_SIZE: usize = 0xFFFF_FFFF;

/// How many chunks of `chunk_size` bytes a payload of `len` bytes makes:
/// `len / chunk_size`, rounded up.
pub open spec fn chunk_count(len: int, chunk_size: int) -> int {
    if len <= 0 {
        0
    } else {
        (len - 1) / chunk_size + 1
    }
}

/// The chunks of `payload`: `chunk_size` bytes at a time from the front,
/// and what is left at the end. An empty payload has no chunks.
pub open spec fn chunks_spec(payload: Seq<u8>, chunk_size: int) -> Seq<Seq<u8>>
    decreases payload.len(),
{
    if payload.len() == 0 || chunk_size <= 0 {
        Seq::empty()
    } else if payload.len() <= chunk_size {
        seq![payload]
    } else {
        seq![payload.take(chunk_size)] + chunks_spec(payload.skip(chunk_size), chunk_size)
    }
}

/// Splits `payload` into chunks of `chunk_size` bytes; the last one holds
/// what is left. Gives no chunks for an empty payload or a chunk size of 0.
pub fn chunks(payload: &[u8], chunk_size: usize) -> (parts: Vec<Vec<u8>>)
    ensures
        byte_views(parts@) == chunks_spec(payload@, chunk_size as int),
{
    let mut parts: Vec<Vec<u8>> = Vec::new();
    if chunk_size == 0 {
        return parts;
    }
    let mut offset: usize = 0;
    assert(payload@.skip(0) == payload@);
    while offset < payload.len()
        invariant
            chunk_size > 0,
            offset <= payload@.len(),
            byte_views(parts@) + chunks_spec(payload@.skip(offset as int), chunk_size as int)
                == chunks_spec(payload@, chunk_size as int),
        decreases payload@.len() - offset,
    {
        let left = payload.len() - offset;
        let n = if left <= chunk_size {
            left
        } else {
            chunk_size
        };
        let ghost rest = payload@.skip(offset as int);
        let chunk = slice_to_vec(slice_subrange(payload, offset, offset + n));
        assert(chunk@ == rest.take(n as int));
        assert(rest.skip(n as int) == payload@.skip(offset + n));
        parts.push(chunk);
        offset += n;
    }
    parts
}

/// Chunking is correct: for a chunk size above zero, the chunks of a payload
/// join back to the payload; there are `len / chunk_size` of them, rounded
/// up; every chunk but the last has exactly `chunk_size` bytes; and the last
/// has `len % chunk_size` bytes, or `chunk_size` if that is zero.
pub proof fn lemma_chunks(payload: Seq<u8>, chunk_size: int)
    requires
        chunk_size > 0,
    ensures
        join(chunks_spec(payload, chunk_size)) == payload,
        chunks_spec(payload, chunk_size).len() == chunk_count(payload.len() as int, chunk_size),
        forall|i: int|
            0 <= i < chunks_spec(payload, chunk_size).len() - 1 ==> (#[trigger] chunks_spec(
                payload,
                chunk_size,
            )[i]).len() == chunk_size,
        payload.len() > 0 ==> chunks_spec(payload, chunk_size).last().len() == (if payload.len() as int
            % chunk_size == 0 {
            chunk_size
        } else {
            payload.len() as int % chunk_size
        }),
    decreases payload.len(),
{
    let len = payload.len() as int;
    let parts = chunks_spec(payload, chunk_size);
    if 0 < len <= chunk_size {
        assert(join(parts) == payload + join(parts.drop_first()));
        lemma_basic_div(len - 1, chunk_size);
        if len == chunk_size {
            lemma_mod_self_0(chunk_size);
        } else {
            lemma_small_mod(len as nat, chunk_size as nat);
        }
    } else if len > chunk_size {
        let rest = payload.skip(chunk_size);
        lemma_chunks(rest, chunk_size);
        assert(parts.drop_first() == chunks_spec(rest, chunk_size));
        lemma_div_minus_one(len - 1, chunk_size);
        lemma_mod_sub_multiples_vanish(len, chunk_size);
    }
}

/// The byte range of chunk `i` in a payload of `len` bytes: from offset
/// `i * chunk_size` to `chunk_size` bytes later, or to the end of the
/// payload if that comes first. There is none where the offset lies outside
/// the payload.
pub open spec fn chunk_range_spec(len: int, chunk_size: int, i: int) -> Option<(int, int)> {
    if chunk_size > 0 && 0 <= i && i * chunk_size < len {
        Some(
            (
                i * chunk_size,
                if i * chunk_size + chunk_size < len {
                    i * chunk_size + chunk_size
                } else {
                    len
                },
            ),
        )
    } else {
        None
    }
}

/// Computes the byte range of chunk `i`, for reporting which bytes a data
/// transaction carries.
pub fn chunk_range(len: usize, chunk_size: usize, i: usize) -> (range: Option<(usize, usize)>)
    ensures
        match range {
            Some((start, end)) => chunk_range_spec(len as int, chunk_size as int, i as int) == Some(
                (start as int, end as int),
            ),
            None => chunk_range_spec(len as int, chunk_size as int, i as int) is None,
        },
{
    if chunk_size == 0 {
        return None;
    }
    match i.checked_mul(chunk_size) {
        Some(start) => if start < len {
            let end = if len - start > chunk_size {
                start + chunk_size
            } else {
                len
            };
            Some((start, end))
        } else {
            None
        },
        None => None,
    }
}

/// Chunks come in ascending offset order: for a chunk size above zero, a
/// payload has a chunk `i` exactly where [`chunk_range_spec`] gives a range,
/// and the chunk is the payload's bytes in that range.
pub proof fn lemma_chunk_offsets(payload: Seq<u8>, chunk_size: int, i: int)
    requires
        chunk_size > 0,
    ensures
        0 <= i < chunks_spec(payload, chunk_size).len() <==> chunk_range_spec(
            payload.len() as int,
            chunk_size,
            i,
        ) is Some,
        chunk_range_spec(payload.len() as int, chunk_size, i) matches Some((start, end))
            ==> 0 <= start < end <= payload.len() && chunks_spec(payload, chunk_size)[i]
            == payload.subrange(start, end),
    decreases payload.len(),
{
    if i == 0 {
        assert(i * chunk_size == 0) by (nonlinear_arith)
            requires
                i == 0,
        ;
    } else if i > 0 {
        assert((i - 1) * chunk_size + chunk_size == i * chunk_size) by (nonlinear_arith);
        assert((i - 1) * chunk_size >= 0) by (nonlinear_arith)
            requires
                i >= 1,
                chunk_size > 0,
        ;
        if payload.len() > chunk_size {
            lemma_chunk_offsets(payload.skip(chunk_size), chunk_size, i - 1);
        }
    }
}

/// What is being transferred, which decides the start event.
#[derive(Clone, Copy, Debug, PartialEq, Eq, Structural)]
pub enum TransferKind {
    /// A firmware image.
    Firmware,
    /// A serialized configuration.
    Config,
}

/// A transfer as a value.
pub ghost struct TransferView {
    pub target_address: u16,
    pub origin_address: u16,
    pub kind: TransferKind,
    pub size: u32,
    pub chunks: Seq<Seq<u8>>,
    pub config: EngineConfig,
    /// How many transactions have been acknowledged: the start, then one per
    /// chunk.
    pub acknowledged: nat,
    /// How the transfer ended, once it has.
    pub finished: Option<Result<(), ConfiguratorError>>,
    /// The transaction in flight, or the last one.
    pub current: TransactionView,
}

/// The event that opens a transfer of `size` bytes of the kind `kind`.
pub open spec fn start_request(
    kind: TransferKind,
    target_address: u16,
    origin_address: u16,
    size: u32,
) -> EventView {
    match kind {
        TransferKind::Firmware => EventView::ProgrammerStartFirmwareUpgrade {
            receiver_address: target_address,
            programmer_address: origin_address,
            firmware_size: size,
        },
        TransferKind::Config => EventView::ProgrammerStartConfigUpgrade {
            receiver_address: target_address,
            programmer_address: origin_address,
            config_size: size,
        },
    }
}

/// The acknowledgement every transaction of a transfer waits for: from the
/// target, to the origin.
pub open spec fn acknowledgement(target_address: u16, origin_address: u16) -> Expect {
    Expect::Ack { receiver_address: origin_address, transmitter_address: target_address }
}

impl TransferView {
    /// See [`acknowledgement`].
    pub open spec fn expect(self) -> Expect {
        acknowledgement(self.target_address, self.origin_address)
    }

    /// The request of transaction `k`: the start event, which declares the
    /// total size, for `k = 0`; the data event with chunk `k - 1` after that.
    pub open spec fn request(self, k: int) -> EventView {
        if k == 0 {
            start_request(self.kind, self.target_address, self.origin_address, self.size)
        } else {
            EventView::Data {
                receiver_address: self.target_address,
                transmitter_address: self.origin_address,
                data_len: self.chunks[k - 1].len() as u16,
                data: self.chunks[k - 1],
            }
        }
    }

    /// The number of transactions the whole transfer takes.
    pub open spec fn total(self) -> nat {
        1 + self.chunks.len()
    }

    /// The transfer after the caller reports `input` at time `now`.
    ///
    /// The report goes to the transaction in flight. If that succeeds, the
    /// transfer is over when it was the last one, and otherwise the next
    /// transaction starts at `now`. If it fails, the transfer is over with
    /// its error. Once over, nothing changes.
    pub open spec fn step(self, now: u64, input: InputView) -> TransferView {
        if self.finished is Some {
            self
        } else {
            let current = self.current.step(now, input);
            match current.state {
                State::Resolved(Resolution::Completed) => if self.acknowledged + 1 == self.total() {
                    TransferView {
                        acknowledged: self.acknowledged + 1,
                        finished: Some(Ok(())),
                        current,
                        ..self
                    }
                } else {
                    TransferView {
                        acknowledged: self.acknowledged + 1,
                        current: start_spec(
                            self.request(self.acknowledged as int + 1),
                            self.expect(),
                            self.config,
                            now,
                        ),
                        ..self
                    }
                },
                State::Resolved(Resolution::Failed(e)) => TransferView {
                    finished: Some(Err(ConfiguratorError::SerialError(e))),
                    current,
                    ..self
                },
                State::Resolved(_) => TransferView {
                    finished: Some(Err(ConfiguratorError::TransactionTimedOut)),
                    current,
                    ..self
                },
                _ => TransferView { current, ..self },
            }
        }
    }

    /// What the caller is to do next.
    pub open spec fn action(self) -> Action {
        if self.finished is Some {
            Action::Done
        } else {
            action_of(self.current.state)
        }
    }

    /// The sizes are in bounds: there is a chunk, every chunk fits a data
    /// event, and no more transactions are acknowledged than the transfer
    /// takes, fewer while it is running.
    pub open spec fn bounded(self) -> bool {
        &&& 1 <= self.chunks.len() <= MAX_TRANSFER_SIZE
        &&& forall|i: int|
            0 <= i < self.chunks.len() ==> 1 <= (#[trigger] self.chunks[i]).len() <= MAX_CHUNK_SIZE
        &&& self.acknowledged <= self.total()
        &&& self.finished is None ==> self.acknowledged < self.total()
    }

    /// The parts agree: the sizes are in bounds; the transaction in flight
    /// is the one after the acknowledged ones; and the transfer has
    /// succeeded exactly when all of them are acknowledged.
    pub open spec fn wf(self) -> bool {
        &&& self.bounded()
        &&& self.current.wf()
        &&& self.finished is None ==> {
            &&& self.config.max_retries >= 1
            &&& !(self.current.state is Resolved)
            &&& self.current.request == self.request(self.acknowledged as int)
            &&& self.current.expect == self.expect()
            &&& self.current.max_retries == self.config.max_retries
            &&& self.current.packet_timeout_ms == self.config.packet_timeout_ms
        }
        &&& self.finished == Some(Ok::<(), ConfiguratorError>(())) <==> self.acknowledged
            == self.total()
    }
}

/// The transfer that [`Transfer::new`] makes at time `now`: nothing
/// acknowledged, the start transaction in flight. If no attempt is allowed
/// at all, it is over at once, timed out.
pub open spec fn transfer_spec(
    target_address: u16,
    origin_address: u16,
    kind: TransferKind,
    payload: Seq<u8>,
    chunk_size: int,
    config: EngineConfig,
    now: u64,
) -> TransferView {
    TransferView {
        target_address,
        origin_address,
        kind,
        size: payload.len() as u32,
        chunks: chunks_spec(payload, chunk_size),
        config,
        acknowledged: 0,
        finished: if config.max_retries == 0 {
            Some(Err(ConfiguratorError::TransactionTimedOut))
        } else {
            None
        },
        current: start_spec(
            start_request(kind, target_address, origin_address, payload.len() as u32),
            acknowledgement(target_address, origin_address),
            config,
            now,
        ),
    }
}

/// Why a transfer cannot be started, if it cannot: a chunk size that no data
/// event can declare, nothing to send, or more than a start event can
/// declare.
pub open spec fn transfer_refusal(payload_len: int, chunk_size: int) -> Option<ConfiguratorError> {
    if chunk_size <= 0 || chunk_size > MAX_CHUNK_SIZE {
        Some(ConfiguratorError::BadUsage)
    } else if payload_len == 0 {
        Some(ConfiguratorError::EmptyPayload)
    } else if payload_len > MAX_TRANSFER_SIZE {
        Some(ConfiguratorError::PayloadTooLarge)
    } else {
        None
    }
}

/// Decides whether a transfer of `payload_len` bytes in chunks of
/// `chunk_size` bytes can be started, and why not if it cannot.
pub fn refusal(payload_len: usize, chunk_size: usize) -> (refused: Option<ConfiguratorError>)
    ensures
        refused == transfer_refusal(payload_len as int, chunk_size as int),
{
    if chunk_size == 0 || chunk_size > MAX_CHUNK_SIZE {
        Some(ConfiguratorError::BadUsage)
    } else if payload_len == 0 {
        Some(ConfiguratorError::EmptyPayload)
    } else if payload_len > MAX_TRANSFER_SIZE {
        Some(ConfiguratorError::PayloadTooLarge)
    } else {
        None
    }
}

/// One bulk transfer in progress.
#[derive(Debug)]
pub struct Transfer {
    target_address: u16,
    origin_address: u16,
    kind: TransferKind,
    size: u32,
    chunks: Vec<Vec<u8>>,
    config: EngineConfig,
    acknowledged: u64,
    finished: Option<Result<(), ConfiguratorError>>,
    current: Transaction,
}

impl View for Transfer {
    type V = TransferView;

    closed spec fn view(&self) -> TransferView {
        TransferView {
            target_address: self.target_address,
            origin_address: self.origin_address,
            kind: self.kind,
            size: self.size,
            chunks: byte_views(self.chunks@),
            config: self.config,
            acknowledged: self.acknowledged as nat,
            finished: self.finished,
            current: self.current@,
        }
    }
}

impl Transfer {
    /// See [`TransferView::bounded`].
    #[verifier::type_invariant]
    pub open spec fn bounded(&self) -> bool {
        self@.bounded()
    }

    /// See [`TransferView::wf`].
    pub open spec fn wf(&self) -> bool {
        self@.wf()
    }

    /// Starts the transfer of `payload` from `origin_address` to
    /// `target_address` at time `now`, in chunks of `chunk_size` bytes.
    ///
    /// Refuses as [`transfer_refusal`] says; in particular an empty payload
    /// is refused before anything is sent.
    pub fn new(
        target_address: u16,
        origin_address: u16,
        kind: TransferKind,
        payload: &[u8],
        chunk_size: usize,
        config: EngineConfig,
        now: u64,
    ) -> (result: Result<Transfer, ConfiguratorError>)
        ensures
            match result {
                Ok(transfer) => transfer_refusal(payload@.len() as int, chunk_size as int) is None
                    && transfer@ == transfer_spec(
                    target_address,
                    origin_address,
                    kind,
                    payload@,
                    chunk_size as int,
                    config,
                    now,
                ) && transfer.wf(),
                Err(e) => transfer_refusal(payload@.len() as int, chunk_size as int) == Some(e),
            },
    {
        match refusal(payload.len(), chunk_size) {
            Some(e) => {
                return Err(e);
            },
            None => {},
        }
        let size = payload.len() as u32;
        let parts = chunks(payload, chunk_size);
        proof {
            lemma_chunks(payload@, chunk_size as int);
            lemma_chunk_sizes(payload@, chunk_size as int);
        }
        let request = match kind {
            TransferKind::Firmware => Event::ProgrammerStartFirmwareUpgrade {
                receiver_address: target_address,
                programmer_address: origin_address,
                firmware_size: size,
            },
            TransferKind::Config => Event::ProgrammerStartConfigUpgrade {
                receiver_address: target_address,
                programmer_address: origin_address,
                config_size: size,
            },
        };
        let expect = Expect::Ack {
            receiver_address: origin_address,
            transmitter_address: target_address,
        };
        let current = Transaction::new(request, expect, config, now);
        let finished = if config.max_retries == 0 {
            Some(Err(ConfiguratorError::TransactionTimedOut))
        } else {
            None
        };
        Ok(
            Transfer {
                target_address,
                origin_address,
                kind,
                size,
                chunks: parts,
                config,
                acknowledged: 0,
                finished,
                current,
            },
        )
    }

    /// The request to send now: that of the transaction in flight.
    pub fn request(&self) -> (request: &Event)
        ensures
            request@ == self@.current.request,
    {
        self.current.request()
    }

    /// How many transactions have been acknowledged so far.
    pub fn acknowledged(&self) -> (n: u64)
        ensures
            n == self@.acknowledged,
    {
        self.acknowledged
    }

    /// How the transfer ended, once it has.
    pub fn finished(&self) -> (finished: Option<Result<(), ConfiguratorError>>)
        ensures
            finished == self@.finished,
    {
        self.finished
    }

    /// What the caller is to do next.
    pub fn action(&self) -> (action: Action)
        ensures
            action == self@.action(),
    {
        match self.finished {
            Some(_) => Action::Done,
            None => self.current.action(),
        }
    }

    /// Takes the caller's report of what the last action gave, at time
    /// `now`, and says what to do next.
    pub fn step(&mut self, now: u64, input: Input) -> (action: Action)
        ensures
            final(self)@ == old(self)@.step(now, input@),
            old(self).wf() ==> final(self).wf(),
            action == final(self)@.action(),
    {
        proof {
            use_type_invariant(&*self);
            use_type_invariant(&self.current);
        }
        match self.finished {
            Some(_) => {
                return Action::Done;
            },
            None => {},
        }
        let action = self.current.step(now, input);
        match self.current.state() {
            State::Resolved(Resolution::Completed) => {
                if self.acknowledged == self.chunks.len() as u64 {
                    self.finished = Some(Ok(()));
                    self.acknowledged = self.acknowledged + 1;
                    Action::Done
                } else {
                    let chunk = &self.chunks[self.acknowledged as usize];
                    let request = Event::Data {
                        receiver_address: self.target_address,
                        transmitter_address: self.origin_address,
                        data_len: chunk.len() as u16,
                        data: slice_to_vec(chunk.as_slice()),
                    };
                    let expect = Expect::Ack {
                        receiver_address: self.origin_address,
                        transmitter_address: self.target_address,
                    };
                    self.acknowledged = self.acknowledged + 1;
                    self.current = Transaction::new(request, expect, self.config, now);
                    self.current.action()
                }
            },
            State::Resolved(Resolution::Failed(e)) => {
                self.finished = Some(Err(ConfiguratorError::SerialError(e)));
                Action::Done
            },
            State::Resolved(_) => {
                self.finished = Some(Err(ConfiguratorError::TransactionTimedOut));
                Action::Done
            },
            _ => action,
        }
    }
}

/// For a chunk size above zero, no chunk is empty and none is longer than
/// the chunk size, and a payload that is not empty has a chunk.
pub proof fn lemma_chunk_sizes(payload: Seq<u8>, chunk_size: int)
    requires
        chunk_size > 0,
    ensures
        payload.len() > 0 ==> chunks_spec(payload, chunk_size).len() >= 1,
        chunks_spec(payload, chunk_size).len() <= payload.len(),
        forall|i: int|
            0 <= i < chunks_spec(payload, chunk_size).len() ==> 1 <= (#[trigger] chunks_spec(
                payload,
                chunk_size,
            )[i]).len() <= chunk_size,
    decreases payload.len(),
{
    if payload.len() > chunk_size {
        lemma_chunk_sizes(payload.skip(chunk_size), chunk_size);
    }
}

/// The transfer after a series of rounds in each of which the request in
/// flight is reported sent at the first time and the target's
/// acknowledgement is reported received at the second.
pub open spec fn run_acknowledged(t: TransferView, rounds: Seq<(u64, u64)>) -> TransferView
    decreases rounds.len(),
{
    if rounds.len() == 0 {
        t
    } else {
        run_acknowledged(t, rounds.drop_last()).step(rounds.last().0, InputView::Sent).step(
            rounds.last().1,
            InputView::Received(
                EventView::Ack {
                    receiver_address: t.origin_address,
                    transmitter_address: t.target_address,
                },
            ),
        )
    }
}

/// A transfer whose every request is acknowledged issues its transactions
/// one at a time and in order: after `k` acknowledged rounds, `k`
/// transactions are done; while some are left, the transfer asks to send
/// the request of transaction `k`, which is the start event for `k = 0` and
/// the data event of chunk `k - 1` after that; and after exactly one round
/// for the start and one per chunk, it has succeeded.
pub proof fn lemma_transfer_in_order(t: TransferView, rounds: Seq<(u64, u64)>)
    requires
        t.wf(),
        t.finished is None,
        t.acknowledged == 0,
        t.current.state == State::Sending,
        rounds.len() <= t.total(),
    ensures
        ({
            let after = run_acknowledged(t, rounds);
            &&& after.wf()
            &&& after.acknowledged == rounds.len()
            &&& after.chunks == t.chunks
            &&& after.target_address == t.target_address
            &&& after.origin_address == t.origin_address
            &&& after.kind == t.kind
            &&& after.size == t.size
            &&& after.config == t.config
            &&& rounds.len() < t.total() ==> {
                &&& after.finished is None
                &&& after.action() == Action::Send
                &&& after.current.request == t.request(rounds.len() as int)
            }
            &&& rounds.len() == t.total() ==> after.finished == Some(Ok::<(), ConfiguratorError>(()))
        }),
    decreases rounds.len(),
{
    if rounds.len() > 0 {
        lemma_transfer_in_order(t, rounds.drop_last());
    }
}

/// A transfer that is acknowledged throughout takes exactly one transaction
/// for the start and one for every chunk, in order: started for a payload
/// that is not refused, with at least one attempt allowed, it has `k`
/// transactions done after `k` acknowledged rounds; while fewer are done
/// than the chunks number plus one, it asks to send the next request, the
/// start event first and then the data event of each chunk in turn; and
/// when that many are done, it has succeeded.
pub proof fn lemma_acknowledged_transfer(
    target_address: u16,
    origin_address: u16,
    kind: TransferKind,
    payload: Seq<u8>,
    chunk_size: int,
    config: EngineConfig,
    now: u64,
    rounds: Seq<(u64, u64)>,
)
    requires
        transfer_refusal(payload.len() as int, chunk_size) is None,
        config.max_retries >= 1,
        rounds.len() <= 1 + chunk_count(payload.len() as int, chunk_size),
    ensures
        ({
            let start = transfer_spec(
                target_address,
                origin_address,
                kind,
                payload,
                chunk_size,
                config,
                now,
            );
            let after = run_acknowledged(start, rounds);
            let total = 1 + chunk_count(payload.len() as int, chunk_size);
            &&& start.wf()
            &&& start.total() == total
            &&& after.wf()
            &&& after.acknowledged == rounds.len()
            &&& rounds.len() < total ==> {
                &&& after.finished is None
                &&& after.action() == Action::Send
                &&& after.current.request == start.request(rounds.len() as int)
            }
            &&& rounds.len() == total ==> after.finished == Some(Ok::<(), ConfiguratorError>(()))
        }),
{
    lemma_chunks(payload, chunk_size);
    lemma_chunk_sizes(payload, chunk_size);
    let start = transfer_spec(
        target_address,
        origin_address,
        kind,
        payload,
        chunk_size,
        config,
        now,
    );
    lemma_transfer_in_order(start, rounds);
}

} // verus!
