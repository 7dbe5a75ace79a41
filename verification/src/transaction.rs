//! The transaction engine: one request, one correlated reply, bounded
//! retries.
//!
//! A transaction never touches the transport or the clock. It tells its
//! caller what to do next, the caller does it and reports what happened,
//! together with the current time in milliseconds. A request that is not
//! answered in time is sent again as it is, so requests must be safe to
//! receive more than once.

use vstd::prelude::*;

use crate::event::{Event, EventView};
use crate::ross_configurator::{ConfiguratorError, PACKET_TIMEOUT_MS, TRANSACTION_RETRY_COUNT};
use crate::ross_serial::RossSerialError;

verus! {

/// The tuning of a transaction.
#[derive(Clone, Copy, Debug, PartialEq, Eq, Structural)]
pub struct EngineConfig {
    /// How long one attempt waits for its reply.
    pub packet_timeout_ms: u64,
    /// How many times the request is sent at most.
    pub max_retries: u64,
    /// How long the whole transaction may take, if it is limited.
    pub transaction_timeout_ms: Option<u64>,
}

impl Default for EngineConfig {
    /// A timeout of 100 ms per attempt, 5 attempts, no overall limit.
    fn default() -> (config: EngineConfig)
        ensures
            config == (EngineConfig {
                packet_timeout_ms: PACKET_TIMEOUT_MS,
                max_retries: TRANSACTION_RETRY_COUNT,
                transaction_timeout_ms: None,
            }),
    {
        EngineConfig {
            packet_timeout_ms: PACKET_TIMEOUT_MS,
            max_retries: TRANSACTION_RETRY_COUNT,
            transaction_timeout_ms: None,
        }
    }
}

/// The rule that tells the reply to a request from other traffic.
#[derive(Clone, Copy, Debug, PartialEq, Eq, Structural)]
pub enum Expect {
    /// An acknowledgement sent by `transmitter_address` to
    /// `receiver_address`.
    Ack { receiver_address: u16, transmitter_address: u16 },
    /// Any hello of a programmer.
    ProgrammerHello,
}

impl Expect {
    /// Whether `event` is the reply this rule waits for.
    pub open spec fn matches(self, event: EventView) -> bool {
        match self {
            Expect::Ack { receiver_address, transmitter_address } => event == (EventView::Ack {
                receiver_address,
                transmitter_address,
            }),
            Expect::ProgrammerHello => event is ProgrammerHello,
        }
    }

    /// Decides whether `event` is the reply this rule waits for.
    pub fn accepts(&self, event: &Event) -> (accepted: bool)
        ensures
            accepted == self.matches(event@),
        no_unwind
    {
        match self {
            Expect::Ack { receiver_address, transmitter_address } => match event {
                Event::Ack { receiver_address: to, transmitter_address: from } => *to
                    == *receiver_address && *from == *transmitter_address,
                _ => false,
            },
            Expect::ProgrammerHello => match event {
                Event::ProgrammerHello { .. } => true,
                _ => false,
            },
        }
    }
}

/// How a transaction ended.
#[derive(Clone, Copy, Debug, PartialEq, Eq, Structural)]
pub enum Resolution {
    /// The exchange ran to its end: the correlated reply arrived, or the
    /// collection window closed.
    Completed,
    /// The time allowed for the whole transaction ran out.
    Timeout,
    /// Every attempt timed out.
    Exhausted,
    /// The transport failed.
    Failed(RossSerialError),
}

/// Where a transaction stands.
#[derive(Clone, Copy, Debug, PartialEq, Eq, Structural)]
pub enum State {
    /// The request is to be sent.
    Sending,
    /// The request has been sent and its reply is awaited.
    AwaitingReply,
    /// The transaction is over.
    Resolved(Resolution),
}

/// What the caller is to do next.
#[derive(Clone, Copy, Debug, PartialEq, Eq, Structural)]
pub enum Action {
    /// Send the request, then report `Sent`, or `Failed` with a write error.
    Send,
    /// Try to receive, then report what came.
    Poll,
    /// Nothing more: the result is ready.
    Done,
}

/// What the caller reports.
#[derive(Debug, PartialEq, Eq)]
pub enum Input {
    /// The request has been written and flushed.
    Sent,
    /// A packet arrived and was decoded to this event.
    Received(Event),
    /// Nothing complete has arrived yet.
    Nothing,
    /// Sending or receiving gave this error.
    Failed(RossSerialError),
}

/// An [`Input`], with its event as an [`EventView`].
pub ghost enum InputView {
    Sent,
    Received(EventView),
    Nothing,
    Failed(RossSerialError),
}

impl View for Input {
    type V = InputView;

    open spec fn view(&self) -> InputView {
        match *self {
            Input::Sent => InputView::Sent,
            Input::Received(event) => InputView::Received(event@),
            Input::Nothing => InputView::Nothing,
            Input::Failed(e) => InputView::Failed(e),
        }
    }
}

/// Whether a transport error means the link itself is broken. A frame or a
/// frame sequence that does not hold together is noise, not a broken link.
pub open spec fn is_fatal(e: RossSerialError) -> bool {
    e is ReadError || e is WriteError
}

/// The milliseconds from `start` to `now`; none if the clock went back.
pub open spec fn elapsed(now: u64, start: u64) -> int {
    if now >= start {
        now - start
    } else {
        0
    }
}

/// The action that goes with a state.
pub open spec fn action_of(state: State) -> Action {
    match state {
        State::Sending => Action::Send,
        State::AwaitingReply => Action::Poll,
        State::Resolved(_) => Action::Done,
    }
}

/// A transaction as a value: its fixed parts and where it stands.
pub ghost struct TransactionView {
    pub request: EventView,
    pub expect: Expect,
    pub packet_timeout_ms: u64,
    pub max_retries: u64,
    pub deadline: Option<u64>,
    pub state: State,
    pub retries_remaining: u64,
    pub attempts: u64,
    pub attempt_start: u64,
    pub reply: Option<EventView>,
}

impl TransactionView {
    /// Whether `input` ends the wait at once: the correlated reply, or a
    /// broken link.
    pub open spec fn decisive(self, input: InputView) -> bool {
        match input {
            InputView::Received(event) => self.expect.matches(event),
            InputView::Failed(e) => is_fatal(e),
            _ => false,
        }
    }

    /// The state after a wait that brought nothing decisive, judged at time
    /// `now`: over if the transaction's deadline has passed; after a timed
    /// out attempt, one retry less, and over if none is left, else sending
    /// again; otherwise still waiting.
    pub open spec fn after_wait(self, now: u64) -> TransactionView {
        if self.deadline is Some && now > self.deadline->0 {
            TransactionView { state: State::Resolved(Resolution::Timeout), ..self }
        } else if elapsed(now, self.attempt_start) > self.packet_timeout_ms {
            if self.retries_remaining <= 1 {
                TransactionView {
                    state: State::Resolved(Resolution::Exhausted),
                    retries_remaining: 0,
                    ..self
                }
            } else {
                TransactionView {
                    state: State::Sending,
                    retries_remaining: (self.retries_remaining - 1) as u64,
                    ..self
                }
            }
        } else {
            self
        }
    }

    /// The transaction after the caller reports `input` at time `now`.
    ///
    /// While sending: a report that the request was sent starts the wait
    /// and counts the attempt; a broken link ends the transaction; anything
    /// else changes nothing. While waiting: the correlated reply ends the
    /// transaction with success, a broken link with failure; anything else
    /// is judged by [`Self::after_wait`]. Once over, nothing changes.
    pub open spec fn step(self, now: u64, input: InputView) -> TransactionView {
        match self.state {
            State::Resolved(_) => self,
            State::Sending => match input {
                InputView::Sent => TransactionView {
                    state: State::AwaitingReply,
                    attempts: (self.attempts + 1) as u64,
                    attempt_start: now,
                    ..self
                },
                InputView::Failed(e) if is_fatal(e) => TransactionView {
                    state: State::Resolved(Resolution::Failed(e)),
                    ..self
                },
                _ => self,
            },
            State::AwaitingReply => match input {
                InputView::Received(event) if self.expect.matches(event) => TransactionView {
                    state: State::Resolved(Resolution::Completed),
                    reply: Some(event),
                    ..self
                },
                InputView::Failed(e) if is_fatal(e) => TransactionView {
                    state: State::Resolved(Resolution::Failed(e)),
                    ..self
                },
                _ => self.after_wait(now),
            },
        }
    }

    /// The counters agree with the state: every attempt but the current one
    /// has used up a retry; and after success the correlated reply is held.
    pub open spec fn wf(self) -> bool {
        &&& match self.state {
            State::Sending => self.retries_remaining >= 1 && self.attempts + self.retries_remaining
                == self.max_retries,
            State::AwaitingReply => self.retries_remaining >= 1 && self.attempts >= 1
                && self.attempts + self.retries_remaining == self.max_retries + 1,
            State::Resolved(Resolution::Exhausted) => self.retries_remaining == 0 && self.attempts
                == self.max_retries,
            State::Resolved(Resolution::Completed) => 1 <= self.attempts <= self.max_retries,
            State::Resolved(_) => self.attempts <= self.max_retries,
        }
        &&& self.state == State::Resolved(Resolution::Completed) ==> self.reply is Some
        &&& self.reply matches Some(event) ==> self.expect.matches(event)
    }

    /// The result of the transaction, once it is over.
    pub open spec fn outcome(self) -> Option<Result<EventView, ConfiguratorError>> {
        match self.state {
            State::Resolved(Resolution::Completed) => Some(Ok(self.reply->0)),
            State::Resolved(Resolution::Timeout) => Some(
                Err(ConfiguratorError::TransactionTimedOut),
            ),
            State::Resolved(Resolution::Exhausted) => Some(
                Err(ConfiguratorError::TransactionTimedOut),
            ),
            State::Resolved(Resolution::Failed(e)) => Some(Err(ConfiguratorError::SerialError(e))),
            _ => None,
        }
    }
}

/// The transaction that [`Transaction::new`] makes at time `now`.
pub open spec fn start_spec(
    request: EventView,
    expect: Expect,
    config: EngineConfig,
    now: u64,
) -> TransactionView {
    TransactionView {
        request,
        expect,
        packet_timeout_ms: config.packet_timeout_ms,
        max_retries: config.max_retries,
        deadline: match config.transaction_timeout_ms {
            Some(limit) if now + limit <= u64::MAX => Some((now + limit) as u64),
            _ => None,
        },
        state: if config.max_retries == 0 {
            State::Resolved(Resolution::Exhausted)
        } else {
            State::Sending
        },
        retries_remaining: config.max_retries,
        attempts: 0,
        attempt_start: now,
        reply: None,
    }
}

/// The part of a transaction that changes as it runs.
#[derive(Clone, Copy, Debug)]
struct Progress {
    state: State,
    retries_remaining: u64,
    attempts: u64,
    attempt_start: u64,
}

/// One request/reply exchange in progress.
#[derive(Debug)]
pub struct Transaction {
    request: Event,
    expect: Expect,
    packet_timeout_ms: u64,
    max_retries: u64,
    deadline: Option<u64>,
    progress: Progress,
    reply: Option<Event>,
}

impl View for Transaction {
    type V = TransactionView;

    closed spec fn view(&self) -> TransactionView {
        TransactionView {
            request: self.request@,
            expect: self.expect,
            packet_timeout_ms: self.packet_timeout_ms,
            max_retries: self.max_retries,
            deadline: self.deadline,
            state: self.progress.state,
            retries_remaining: self.progress.retries_remaining,
            attempts: self.progress.attempts,
            attempt_start: self.progress.attempt_start,
            reply: match self.reply {
                Some(event) => Some(event@),
                None => None,
            },
        }
    }
}

/// Decides whether a transport error means the link itself is broken.
pub fn fatal(e: RossSerialError) -> (broken: bool)
    ensures
        broken == is_fatal(e),
    no_unwind
{
    match e {
        RossSerialError::ReadError => true,
        RossSerialError::WriteError => true,
        _ => false,
    }
}

impl Transaction {
    /// See [`TransactionView::wf`].
    #[verifier::type_invariant]
    pub open spec fn wf(&self) -> bool {
        self@.wf()
    }

    /// Starts a transaction at time `now`. It asks for the request to be
    /// sent, unless no attempt is allowed at all: then it is over at once.
    pub fn new(request: Event, expect: Expect, config: EngineConfig, now: u64) -> (transaction:
        Transaction)
        ensures
            transaction@ == start_spec(request@, expect, config, now),
            transaction.wf(),
    {
        let deadline = match config.transaction_timeout_ms {
            Some(limit) => if limit <= u64::MAX - now {
                Some(now + limit)
            } else {
                None
            },
            None => None,
        };
        let state = if config.max_retries == 0 {
            State::Resolved(Resolution::Exhausted)
        } else {
            State::Sending
        };
        Transaction {
            request,
            expect,
            packet_timeout_ms: config.packet_timeout_ms,
            max_retries: config.max_retries,
            deadline,
            progress: Progress {
                state,
                retries_remaining: config.max_retries,
                attempts: 0,
                attempt_start: now,
            },
            reply: None,
        }
    }

    /// The request this transaction sends.
    pub fn request(&self) -> (request: &Event)
        ensures
            request@ == self@.request,
    {
        &self.request
    }

    /// Where the transaction stands.
    pub fn state(&self) -> (state: State)
        ensures
            state == self@.state,
        no_unwind
    {
        self.progress.state
    }

    /// How many times the request has been sent.
    pub fn attempts(&self) -> (attempts: u64)
        ensures
            attempts == self@.attempts,
    {
        self.progress.attempts
    }

    /// What the caller is to do next.
    pub fn action(&self) -> (action: Action)
        ensures
            action == action_of(self@.state),
        no_unwind
    {
        match self.progress.state {
            State::Sending => Action::Send,
            State::AwaitingReply => Action::Poll,
            State::Resolved(_) => Action::Done,
        }
    }

    /// Takes the caller's report of what the last action gave, at time
    /// `now`, and says what to do next.
    pub fn step(&mut self, now: u64, input: Input) -> (action: Action)
        ensures
            final(self)@ == old(self)@.step(now, input@),
            final(self).wf(),
            action == action_of(final(self)@.state),
        no_unwind
    {
        proof {
            use_type_invariant(&*self);
        }
        let progress = self.progress;
        match progress.state {
            State::Resolved(_) => {},
            State::Sending => match input {
                Input::Sent => {
                    self.progress = Progress {
                        state: State::AwaitingReply,
                        attempts: progress.attempts + 1,
                        attempt_start: now,
                        ..progress
                    };
                },
                Input::Failed(e) => {
                    if fatal(e) {
                        self.progress = Progress {
                            state: State::Resolved(Resolution::Failed(e)),
                            ..progress
                        };
                    }
                },
                _ => {},
            },
            State::AwaitingReply => match input {
                Input::Received(event) => {
                    if self.expect.accepts(&event) {
                        self.reply = Some(event);
                        self.progress = Progress {
                            state: State::Resolved(Resolution::Completed),
                            ..progress
                        };
                    } else {
                        self.progress = self.waited(now);
                    }
                },
                Input::Failed(e) => {
                    if fatal(e) {
                        self.progress = Progress {
                            state: State::Resolved(Resolution::Failed(e)),
                            ..progress
                        };
                    } else {
                        self.progress = self.waited(now);
                    }
                },
                _ => {
                    self.progress = self.waited(now);
                },
            },
        }
        self.action()
    }

    /// Judges a wait that brought nothing decisive.
    fn waited(&self, now: u64) -> (progress: Progress)
        requires
            self@.state == State::AwaitingReply,
        ensures
            (Transaction { progress, ..*self })@ == self@.after_wait(now),
        no_unwind
    {
        let progress = self.progress;
        let past_deadline = match self.deadline {
            Some(deadline) => now > deadline,
            None => false,
        };
        if past_deadline {
            Progress { state: State::Resolved(Resolution::Timeout), ..progress }
        } else if now >= progress.attempt_start && now - progress.attempt_start
            > self.packet_timeout_ms {
            if progress.retries_remaining <= 1 {
                Progress {
                    state: State::Resolved(Resolution::Exhausted),
                    retries_remaining: 0,
                    ..progress
                }
            } else {
                Progress {
                    state: State::Sending,
                    retries_remaining: progress.retries_remaining - 1,
                    ..progress
                }
            }
        } else {
            progress
        }
    }

    /// The result, once the transaction is over: the reply, or why there is
    /// none. Nothing while it is still running.
    pub fn outcome(self) -> (outcome: Option<Result<Event, ConfiguratorError>>)
        ensures
            match outcome {
                Some(Ok(event)) => self@.outcome() == Some(
                    Ok::<EventView, ConfiguratorError>(event@),
                ),
                Some(Err(e)) => self@.outcome() == Some(Err::<EventView, ConfiguratorError>(e)),
                None => self@.outcome() is None,
            },
    {
        proof {
            use_type_invariant(&self);
        }
        match self.progress.state {
            State::Resolved(Resolution::Completed) => match self.reply {
                Some(event) => Some(Ok(event)),
                None => Some(Err(ConfiguratorError::TransactionTimedOut)),
            },
            State::Resolved(Resolution::Timeout) => Some(
                Err(ConfiguratorError::TransactionTimedOut),
            ),
            State::Resolved(Resolution::Exhausted) => Some(
                Err(ConfiguratorError::TransactionTimedOut),
            ),
            State::Resolved(Resolution::Failed(e)) => Some(Err(ConfiguratorError::SerialError(e))),
            _ => None,
        }
    }
}

/// The transaction after a series of reports, each with its time.
pub open spec fn run(t: TransactionView, trace: Seq<(u64, InputView)>) -> TransactionView
    decreases trace.len(),
{
    if trace.len() == 0 {
        t
    } else {
        run(t, trace.drop_last()).step(trace.last().0, trace.last().1)
    }
}

/// The transaction after a series of attempts that each time out: in every
/// round the request is reported sent at the first time, and a wait that
/// brought nothing is reported at the second.
pub open spec fn run_timed_out(t: TransactionView, rounds: Seq<(u64, u64)>) -> TransactionView
    decreases rounds.len(),
{
    if rounds.len() == 0 {
        t
    } else {
        run_timed_out(t, rounds.drop_last()).step(rounds.last().0, InputView::Sent).step(
            rounds.last().1,
            InputView::Nothing,
        )
    }
}

/// A step keeps a transaction well formed and its fixed parts as they are,
/// and sends at most once.
pub proof fn lemma_step_keeps(t: TransactionView, now: u64, input: InputView)
    requires
        t.wf(),
    ensures
        t.step(now, input).wf(),
        t.step(now, input).request == t.request,
        t.step(now, input).expect == t.expect,
        t.step(now, input).packet_timeout_ms == t.packet_timeout_ms,
        t.step(now, input).max_retries == t.max_retries,
        t.step(now, input).deadline == t.deadline,
        t.attempts <= t.step(now, input).attempts <= t.attempts + 1,
        t.state is Resolved ==> t.step(now, input) == t,
{
}

/// The retry bound: with no limit on the whole transaction, as long as
/// neither the correlated reply arrives nor the link breaks, the request is
/// never sent more than `max_retries` times, and the transaction can only
/// end by running out of attempts, after exactly `max_retries` of them, with
/// a timeout as its result.
pub proof fn lemma_retry_bound(t: TransactionView, trace: Seq<(u64, InputView)>)
    requires
        t.wf(),
        !(t.state is Resolved),
        t.deadline is None,
        forall|i: int| 0 <= i < trace.len() ==> !t.decisive((#[trigger] trace[i]).1),
    ensures
        run(t, trace).wf(),
        run(t, trace).attempts <= t.max_retries,
        run(t, trace).state is Resolved ==> {
            &&& run(t, trace).state == State::Resolved(Resolution::Exhausted)
            &&& run(t, trace).attempts == t.max_retries
            &&& run(t, trace).outcome() == Some(
                Err::<EventView, ConfiguratorError>(ConfiguratorError::TransactionTimedOut),
            )
        },
        run(t, trace).expect == t.expect,
        run(t, trace).deadline == t.deadline,
        run(t, trace).max_retries == t.max_retries,
    decreases trace.len(),
{
    if trace.len() > 0 {
        let before = trace.drop_last();
        lemma_retry_bound(t, before);
        lemma_step_keeps(run(t, before), trace.last().0, trace.last().1);
    }
}

/// A transport that stays silent: a transaction started with `max_retries`
/// attempts allowed and no limit on the whole, whose every attempt times
/// out, has sent the request once per round; it asks to send again while
/// rounds are left, and after exactly `max_retries` rounds it is over with a
/// timeout. With no attempt allowed it is over before the first send.
pub proof fn lemma_silence_exhausts(
    request: EventView,
    expect: Expect,
    config: EngineConfig,
    now: u64,
    rounds: Seq<(u64, u64)>,
)
    requires
        config.transaction_timeout_ms is None,
        rounds.len() <= config.max_retries,
        forall|i: int|
            0 <= i < rounds.len() ==> elapsed((#[trigger] rounds[i]).1, rounds[i].0)
                > config.packet_timeout_ms,
    ensures
        ({
            let t = run_timed_out(start_spec(request, expect, config, now), rounds);
            &&& t.wf()
            &&& t.attempts == rounds.len()
            &&& t.request == request
            &&& t.expect == expect
            &&& t.deadline is None
            &&& t.packet_timeout_ms == config.packet_timeout_ms
            &&& t.max_retries == config.max_retries
            &&& rounds.len() < config.max_retries ==> t.state == State::Sending
            &&& rounds.len() == config.max_retries ==> t.state == State::Resolved(
                Resolution::Exhausted,
            ) && t.outcome() == Some(
                Err::<EventView, ConfiguratorError>(ConfiguratorError::TransactionTimedOut),
            )
        }),
    decreases rounds.len(),
{
    if rounds.len() > 0 {
        lemma_silence_exhausts(request, expect, config, now, rounds.drop_last());
    }
}

/// A reply on a later attempt: when the attempts before it time out and the
/// correlated reply arrives while attempt number `rounds.len() + 1` is
/// awaited, the transaction succeeds with that reply, having sent the
/// request exactly that many times.
pub proof fn lemma_reply_ends_retries(
    request: EventView,
    expect: Expect,
    config: EngineConfig,
    now: u64,
    rounds: Seq<(u64, u64)>,
    sent_at: u64,
    replied_at: u64,
    reply: EventView,
)
    requires
        config.transaction_timeout_ms is None,
        rounds.len() < config.max_retries,
        forall|i: int|
            0 <= i < rounds.len() ==> elapsed((#[trigger] rounds[i]).1, rounds[i].0)
                > config.packet_timeout_ms,
        expect.matches(reply),
    ensures
        ({
            let t = run_timed_out(start_spec(request, expect, config, now), rounds).step(
                sent_at,
                InputView::Sent,
            ).step(replied_at, InputView::Received(reply));
            &&& t.state == State::Resolved(Resolution::Completed)
            &&& t.attempts == rounds.len() + 1
            &&& t.outcome() == Some(Ok::<EventView, ConfiguratorError>(reply))
        }),
{
    lemma_silence_exhausts(request, expect, config, now, rounds);
}

} // verus!
