use crate::protocol::{decode, decode_response, ResponseModel, ResponsePacket, ResponsePacketOption};
use vstd::prelude::*;
use vstd::utf8::{decode_utf8, valid_utf8};

verus! {

/// Serial speed of the controller: 115200 baud, 8 data bits, 1 stop bit, no parity.
pub const LEDSC_BAUD: u32 = 115200;

/// How long a response is awaited after a command is sent, in milliseconds.
pub const RECEIVE_TIMEOUT_MS: u64 = 500;

/// The interval between two polls of a quiet port, in milliseconds.
pub const POLL_INTERVAL_MS: u64 = 10;

/// The bytes asked for by one read.
pub const READ_CHUNK_LEN: usize = 10;

/// The ways a transport operation fails.
#[derive(Clone, Copy, Debug, PartialEq, Eq, Structural)]
pub enum TransportError {
    /// The serial ports could not be listed.
    NoPortsAvailable,
    /// The ports were listed, but no controller answered on any of them.
    NoDeviceFound,
    FailedToOpenPort,
    FailedToWrite,
    /// The port failed while it was polled or read, or sent bytes that are not UTF-8.
    SerialLinkError,
    /// The whole time budget passed without a byte.
    TimedOut,
    /// A well-formed response reported a nonzero status.
    RemoteReportedFailure,
    /// The response was not a well-formed frame.
    LocalParseFailure,
}

// ---------------------------------------------------------------------------
// Read accumulation
// ---------------------------------------------------------------------------

/// Where a read accumulation stands; each phase awaits one kind of event.
#[derive(Clone, Copy, Debug, PartialEq, Eq, Structural)]
pub enum ReadPhase {
    /// Waiting for bytes: awaits how many bytes the port has.
    WaitPoll,
    /// Waiting for bytes: awaits the end of a sleep of one poll interval.
    WaitSleep,
    /// Draining: awaits how many bytes the port has.
    DrainPoll,
    /// Draining: awaits the bytes of one read.
    DrainRead,
    /// The port failed.
    Failed,
    /// The time budget is spent.
    Complete,
}

/// What the caller must do next for a read accumulation.
#[derive(Clone, Copy, Debug, PartialEq, Eq, Structural)]
pub enum ReadAction {
    /// Ask the port how many bytes it has, and report `Available` or `PortFailed`.
    Poll,
    /// Sleep one poll interval, and report `Slept`.
    Sleep,
    /// Read up to `READ_CHUNK_LEN` bytes, and report `Received` or `PortFailed`.
    Read,
    /// Stop: the outcome is ready.
    Finish,
}

/// What happened when the caller carried out an action, with the milliseconds
/// that passed since the previous event (or since the start).
#[derive(Clone, Debug)]
pub enum ReadEvent {
    Available { count: u32, elapsed_ms: u64 },
    Slept { elapsed_ms: u64 },
    Received { bytes: Vec<u8>, elapsed_ms: u64 },
    PortFailed,
}

/// The state of a read accumulation.
pub struct ReadState {
    phase: ReadPhase,
    budget_ms: u64,
    remaining_ms: u64,
    charged: Ghost<nat>,
    slept: Ghost<nat>,
    received: Vec<u8>,
}

/// The mathematical content of a `ReadState`.
pub struct ReadModel {
    pub phase: ReadPhase,
    /// The whole time budget, in milliseconds.
    pub budget: nat,
    /// The part of the budget not yet spent.
    pub remaining: nat,
    /// The milliseconds charged against the budget so far.
    pub charged: nat,
    /// The sleeps taken so far.
    pub slept: nat,
    /// Bytes received so far, in order.
    pub received: Seq<u8>,
}

impl View for ReadState {
    type V = ReadModel;

    closed spec fn view(&self) -> ReadModel {
        ReadModel {
            phase: self.phase,
            budget: self.budget_ms as nat,
            remaining: self.remaining_ms as nat,
            charged: self.charged@,
            slept: self.slept@,
            received: self.received@,
        }
    }
}

/// The action that a phase awaits.
pub open spec fn action_of(phase: ReadPhase) -> ReadAction {
    match phase {
        ReadPhase::WaitPoll | ReadPhase::DrainPoll => ReadAction::Poll,
        ReadPhase::WaitSleep => ReadAction::Sleep,
        ReadPhase::DrainRead => ReadAction::Read,
        ReadPhase::Failed | ReadPhase::Complete => ReadAction::Finish,
    }
}

/// The state in which an accumulation with a budget of `timeout_ms` begins.
pub open spec fn start_model(timeout_ms: u64) -> ReadModel {
    ReadModel {
        phase: if timeout_ms == 0 {
            ReadPhase::Complete
        } else {
            ReadPhase::WaitPoll
        },
        budget: timeout_ms as nat,
        remaining: timeout_ms as nat,
        charged: 0,
        slept: 0,
        received: Seq::empty(),
    }
}

/// Whether `event` reports on the action that `phase` awaits.
pub open spec fn answers(phase: ReadPhase, event: ReadEvent) -> bool {
    match (phase, event) {
        (ReadPhase::WaitPoll, ReadEvent::Available { .. })
        | (ReadPhase::DrainPoll, ReadEvent::Available { .. })
        | (ReadPhase::WaitSleep, ReadEvent::Slept { .. })
        | (ReadPhase::DrainRead, ReadEvent::Received { .. })
        | (ReadPhase::WaitPoll, ReadEvent::PortFailed)
        | (ReadPhase::DrainPoll, ReadEvent::PortFailed)
        | (ReadPhase::DrainRead, ReadEvent::PortFailed) => true,
        _ => false,
    }
}

/// The milliseconds an event costs the budget: the time that passed, but at
/// least one poll interval for a sleep and at least one millisecond for a read.
pub open spec fn charge_of(event: ReadEvent) -> nat {
    match event {
        ReadEvent::Available { elapsed_ms, .. } => elapsed_ms as nat,
        ReadEvent::Slept { elapsed_ms } => if elapsed_ms < POLL_INTERVAL_MS {
            POLL_INTERVAL_MS as nat
        } else {
            elapsed_ms as nat
        },
        ReadEvent::Received { elapsed_ms, .. } => if elapsed_ms < 1 {
            1
        } else {
            elapsed_ms as nat
        },
        ReadEvent::PortFailed => 0,
    }
}

/// The state after `event`. Every event is charged against the budget. While
/// waiting, a quiet port is slept on one poll interval at a time; once bytes are
/// there they are drained chunk by chunk, and a quiet port sends the
/// accumulation back to sleep. Only a spent budget ends it, however many bytes
/// have come. An event that the phase does not await changes nothing.
pub open spec fn next_state(s: ReadModel, event: ReadEvent) -> ReadModel {
    if !answers(s.phase, event) {
        s
    } else if event is PortFailed {
        ReadModel { phase: ReadPhase::Failed, ..s }
    } else {
        let c = charge_of(event);
        let remaining = if c >= s.remaining {
            0
        } else {
            (s.remaining - c) as nat
        };
        let phase = if remaining == 0 {
            ReadPhase::Complete
        } else {
            match event {
                ReadEvent::Available { count, .. } => if count == 0 {
                    ReadPhase::WaitSleep
                } else if s.phase == ReadPhase::WaitPoll {
                    ReadPhase::DrainPoll
                } else {
                    ReadPhase::DrainRead
                },
                ReadEvent::Slept { .. } => ReadPhase::WaitPoll,
                _ => ReadPhase::DrainPoll,
            }
        };
        ReadModel {
            phase,
            remaining,
            charged: s.charged + c,
            slept: if event is Slept {
                s.slept + 1
            } else {
                s.slept
            },
            received: match event {
                ReadEvent::Received { bytes, .. } => s.received + bytes@,
                _ => s.received,
            },
            ..s
        }
    }
}

/// Whether the accumulation has stopped.
pub open spec fn is_finished(phase: ReadPhase) -> bool {
    phase == ReadPhase::Failed || phase == ReadPhase::Complete
}

/// The outcome of a finished accumulation: a port failure, a timeout if no byte
/// came, else the bytes as UTF-8 text.
pub open spec fn outcome_of(s: ReadModel) -> Result<Seq<char>, TransportError> {
    if s.phase == ReadPhase::Failed {
        Err(TransportError::SerialLinkError)
    } else if s.received.len() == 0 {
        Err(TransportError::TimedOut)
    } else if valid_utf8(s.received) {
        Ok(decode_utf8(s.received))
    } else {
        Err(TransportError::SerialLinkError)
    }
}

/// The bookkeeping of an accumulation holds: the remaining budget is the budget
/// less what was charged, an unfinished accumulation has budget left, a
/// completed one has none, and every sleep was charged a whole poll interval.
pub open spec fn read_model_wf(m: ReadModel) -> bool {
    &&& m.remaining == if m.charged >= m.budget {
        0
    } else {
        (m.budget - m.charged) as nat
    }
    &&& !is_finished(m.phase) ==> m.remaining > 0
    &&& m.phase == ReadPhase::Complete ==> m.remaining == 0
    &&& m.slept * POLL_INTERVAL_MS <= m.charged
}

/// Relies on `String::from_utf8`: it succeeds exactly on valid UTF-8 and then holds
/// the decoded chars.
#[verifier::external_body]
fn utf8_to_string(bytes: Vec<u8>) -> (r: Option<String>)
    ensures
        r is Some <==> valid_utf8(bytes@),
        r matches Some(s) ==> s@ == decode_utf8(bytes@),
{
    String::from_utf8(bytes).ok()
}

impl ReadState {
    /// The bookkeeping holds (see `read_model_wf`).
    pub open spec fn wf(&self) -> bool {
        read_model_wf(self@)
    }

    /// Begins an accumulation with a budget of `timeout_ms`.
    pub fn start(timeout_ms: u64) -> (r: ReadState)
        ensures
            r@ == start_model(timeout_ms),
            r.wf(),
    {
        let phase = if timeout_ms == 0 {
            ReadPhase::Complete
        } else {
            ReadPhase::WaitPoll
        };
        let r = ReadState {
            phase,
            budget_ms: timeout_ms,
            remaining_ms: timeout_ms,
            charged: Ghost(0),
            slept: Ghost(0),
            received: Vec::new(),
        };
        assert(r@.received =~= Seq::<u8>::empty());
        r
    }

    /// What the caller must do next.
    pub fn action(&self) -> (a: ReadAction)
        ensures
            a == action_of(self@.phase),
    {
        match self.phase {
            ReadPhase::WaitPoll | ReadPhase::DrainPoll => ReadAction::Poll,
            ReadPhase::WaitSleep => ReadAction::Sleep,
            ReadPhase::DrainRead => ReadAction::Read,
            ReadPhase::Failed | ReadPhase::Complete => ReadAction::Finish,
        }
    }

    /// Charges `cost` milliseconds against the budget.
    fn charge(&mut self, cost: u64)
        ensures
            final(self).remaining_ms == if cost >= old(self).remaining_ms {
                0
            } else {
                old(self).remaining_ms - cost
            },
            final(self).charged@ == old(self).charged@ + cost,
            final(self).phase == old(self).phase,
            final(self).budget_ms == old(self).budget_ms,
            final(self).slept == old(self).slept,
            final(self).received == old(self).received,
    {
        if cost >= self.remaining_ms {
            self.remaining_ms = 0;
        } else {
            self.remaining_ms = self.remaining_ms - cost;
        }
        self.charged = Ghost(self.charged@ + cost as nat);
    }

    /// Takes in what happened when the caller carried out the action.
    pub fn step(&mut self, event: ReadEvent)
        requires
            old(self).wf(),
        ensures
            final(self).wf(),
            final(self)@ == next_state(old(self)@, event),
    {
        let ghost pre = self@;
        let ghost ev = event;
        let answered = match (self.phase, &event) {
            (ReadPhase::WaitPoll, ReadEvent::Available { .. })
            | (ReadPhase::DrainPoll, ReadEvent::Available { .. })
            | (ReadPhase::WaitSleep, ReadEvent::Slept { .. })
            | (ReadPhase::DrainRead, ReadEvent::Received { .. })
            | (ReadPhase::WaitPoll, ReadEvent::PortFailed)
            | (ReadPhase::DrainPoll, ReadEvent::PortFailed)
            | (ReadPhase::DrainRead, ReadEvent::PortFailed) => true,
            _ => false,
        };
        if !answered {
            return;
        }
        match event {
            ReadEvent::PortFailed => {
                self.phase = ReadPhase::Failed;
            },
            ReadEvent::Available { count, elapsed_ms } => {
                self.charge(elapsed_ms);
                if self.remaining_ms == 0 {
                    self.phase = ReadPhase::Complete;
                } else if count == 0 {
                    self.phase = ReadPhase::WaitSleep;
                } else if self.phase == ReadPhase::WaitPoll {
                    self.phase = ReadPhase::DrainPoll;
                } else {
                    self.phase = ReadPhase::DrainRead;
                }
            },
            ReadEvent::Slept { elapsed_ms } => {
                let cost = if elapsed_ms < POLL_INTERVAL_MS {
                    POLL_INTERVAL_MS
                } else {
                    elapsed_ms
                };
                self.charge(cost);
                self.slept = Ghost(self.slept@ + 1nat);
                if self.remaining_ms == 0 {
                    self.phase = ReadPhase::Complete;
                } else {
                    self.phase = ReadPhase::WaitPoll;
                }
            },
            ReadEvent::Received { bytes, elapsed_ms } => {
                let cost = if elapsed_ms < 1 {
                    1
                } else {
                    elapsed_ms
                };
                self.charge(cost);
                let mut bytes = bytes;
                self.received.append(&mut bytes);
                if self.remaining_ms == 0 {
                    self.phase = ReadPhase::Complete;
                } else {
                    self.phase = ReadPhase::DrainPoll;
                }
            },
        }
        assert(self@ =~= next_state(pre, ev));
    }

    /// The outcome of a finished accumulation.
    pub fn outcome(self) -> (r: Result<String, TransportError>)
        requires
            is_finished(self@.phase),
        ensures
            match (r, outcome_of(self@)) {
                (Ok(s), Ok(t)) => s@ == t,
                (Err(e), Err(f)) => e == f,
                _ => false,
            },
    {
        if self.phase == ReadPhase::Failed {
            return Err(TransportError::SerialLinkError);
        }
        if self.received.len() == 0 {
            return Err(TransportError::TimedOut);
        }
        match utf8_to_string(self.received) {
            Some(text) => Ok(text),
            None => Err(TransportError::SerialLinkError),
        }
    }
}

// ---------------------------------------------------------------------------
// Timing
// ---------------------------------------------------------------------------

/// Whatever events come, an accumulation keeps its bookkeeping, every event is
/// charged what `charge_of` says, and it completes only once the milliseconds
/// charged, which are those the caller reported, reach the budget.
pub proof fn lemma_complete_only_after_budget(s: ReadModel, event: ReadEvent)
    requires
        read_model_wf(s),
    ensures
        read_model_wf(next_state(s, event)),
        next_state(s, event).charged == s.charged || next_state(s, event).charged == s.charged
            + charge_of(event),
        next_state(s, event).phase == ReadPhase::Complete ==> next_state(s, event).charged
            >= s.budget,
{
}

/// A measure of the work left to an unfinished accumulation: four steps for each
/// millisecond of budget left, plus a few for the phase.
pub open spec fn read_measure(s: ReadModel) -> nat {
    if is_finished(s.phase) {
        0
    } else {
        4 * s.remaining + match s.phase {
            ReadPhase::WaitPoll => 3nat,
            ReadPhase::DrainPoll => 2nat,
            ReadPhase::DrainRead => 1nat,
            _ => 0nat,
        }
    }
}

/// Each event that an unfinished accumulation awaits either finishes it or
/// lowers its measure.
pub proof fn lemma_read_progress(s: ReadModel, event: ReadEvent)
    requires
        read_model_wf(s),
        !is_finished(s.phase),
        answers(s.phase, event),
    ensures
        is_finished(next_state(s, event).phase) || read_measure(next_state(s, event))
            < read_measure(s),
{
}

/// The state after the events `events`, taken in turn.
pub open spec fn run(s: ReadModel, events: Seq<ReadEvent>) -> ReadModel
    decreases events.len(),
{
    if events.len() == 0 {
        s
    } else {
        run(next_state(s, events[0]), events.drop_first())
    }
}

/// Each event of `events` reports on the action that the accumulation awaits
/// when it comes, until the accumulation finishes.
pub open spec fn answered(s: ReadModel, events: Seq<ReadEvent>) -> bool
    decreases events.len(),
{
    events.len() == 0 || is_finished(s.phase) || (answers(s.phase, events[0]) && answered(
        next_state(s, events[0]),
        events.drop_first(),
    ))
}

proof fn lemma_run_finished(s: ReadModel, events: Seq<ReadEvent>)
    requires
        is_finished(s.phase),
    ensures
        run(s, events) == s,
    decreases events.len(),
{
    if events.len() > 0 {
        lemma_run_finished(next_state(s, events[0]), events.drop_first());
    }
}

proof fn lemma_run_finishes(s: ReadModel, events: Seq<ReadEvent>)
    requires
        read_model_wf(s),
        answered(s, events),
        events.len() > read_measure(s),
    ensures
        is_finished(run(s, events).phase),
    decreases events.len(),
{
    if is_finished(s.phase) {
        lemma_run_finished(s, events);
    } else {
        let n = next_state(s, events[0]);
        lemma_read_progress(s, events[0]);
        lemma_complete_only_after_budget(s, events[0]);
        lemma_run_finishes(n, events.drop_first());
    }
}

/// Whatever the port does, an accumulation with a budget of `timeout_ms` has
/// finished after at most `4 * timeout_ms + 4` events that report on its actions.
pub proof fn lemma_read_finishes_within_budget(timeout_ms: u64, events: Seq<ReadEvent>)
    requires
        answered(start_model(timeout_ms), events),
        events.len() >= 4 * timeout_ms + 4,
    ensures
        is_finished(run(start_model(timeout_ms), events).phase),
{
    lemma_run_finishes(start_model(timeout_ms), events);
}

/// What a port that never has a byte reports for the action a phase awaits:
/// polls take no time, and a sleep takes exactly one poll interval.
pub open spec fn quiet_event(phase: ReadPhase) -> ReadEvent {
    if phase == ReadPhase::WaitSleep {
        ReadEvent::Slept { elapsed_ms: POLL_INTERVAL_MS }
    } else {
        ReadEvent::Available { count: 0, elapsed_ms: 0 }
    }
}

/// The state in which an accumulation on a port that never has a byte ends.
pub open spec fn run_quiet(s: ReadModel) -> ReadModel
    decreases read_measure(s),
{
    let n = next_state(s, quiet_event(s.phase));
    if !is_finished(s.phase) && read_measure(n) < read_measure(s) {
        run_quiet(n)
    } else {
        s
    }
}

proof fn lemma_run_quiet(s: ReadModel)
    requires
        read_model_wf(s),
        s.phase == ReadPhase::WaitPoll || s.phase == ReadPhase::WaitSleep,
        s.charged == s.slept * POLL_INTERVAL_MS,
    ensures
        run_quiet(s).phase == ReadPhase::Complete,
        s.budget <= run_quiet(s).slept * POLL_INTERVAL_MS,
        run_quiet(s).slept * POLL_INTERVAL_MS < s.budget + POLL_INTERVAL_MS,
        run_quiet(s).received == s.received,
    decreases read_measure(s),
{
    let n = next_state(s, quiet_event(s.phase));
    lemma_read_progress(s, quiet_event(s.phase));
    lemma_complete_only_after_budget(s, quiet_event(s.phase));
    if n.phase != ReadPhase::Complete {
        lemma_run_quiet(n);
    } else {
        let m = n;
        assert(read_measure(m) == 0);
        assert(run_quiet(m) == m);
    }
}

/// On a port that never has a byte, an accumulation sleeps until the time slept
/// reaches the budget, never less, falling short of one more interval, and then
/// times out.
pub proof fn lemma_quiet_port_times_out(timeout_ms: u64)
    ensures
        run_quiet(start_model(timeout_ms)).phase == ReadPhase::Complete,
        timeout_ms <= run_quiet(start_model(timeout_ms)).slept * POLL_INTERVAL_MS,
        run_quiet(start_model(timeout_ms)).slept * POLL_INTERVAL_MS < timeout_ms
            + POLL_INTERVAL_MS,
        outcome_of(run_quiet(start_model(timeout_ms))) == Err::<Seq<char>, TransportError>(
            TransportError::TimedOut,
        ),
{
    let s = start_model(timeout_ms);
    if s.phase == ReadPhase::WaitPoll {
        lemma_run_quiet(s);
    }
    assert(run_quiet(s).received == Seq::<u8>::empty());
}

// ---------------------------------------------------------------------------
// Replies
// ---------------------------------------------------------------------------

/// Whether a probe's reply shows a controller on the port: any response that
/// decodes to a packet, whatever status it reports.
pub open spec fn probe_accepts_spec(reply: Result<Seq<char>, TransportError>) -> bool {
    match reply {
        Ok(text) => !(decode(text) is FailedLocal),
        Err(_) => false,
    }
}

/// Whether a probe's reply shows a controller on the port.
pub fn probe_accepts(reply: &Result<String, TransportError>) -> (r: bool)
    ensures
        r == probe_accepts_spec(
            match reply {
                Ok(text) => Ok(text@),
                Err(e) => Err(*e),
            },
        ),
{
    match reply {
        Ok(text) => match decode_response(text.as_str()) {
            ResponsePacketOption::FailedLocal(_) => false,
            _ => true,
        },
        Err(_) => false,
    }
}

/// The packet of a reply that reports success; a reply that reports a failure,
/// or does not decode, or never came, gives the matching error.
pub fn interpret_reply(reply: Result<String, TransportError>) -> (r: Result<
    ResponsePacket,
    TransportError,
>)
    ensures
        match reply {
            Err(e) => r == Err::<ResponsePacket, TransportError>(e),
            Ok(text) => match decode(text@) {
                ResponseModel::Success(p) => r matches Ok(q) && q@ == p,
                ResponseModel::FailedRemote(_) => r == Err::<ResponsePacket, TransportError>(
                    TransportError::RemoteReportedFailure,
                ),
                ResponseModel::FailedLocal(_) => r == Err::<ResponsePacket, TransportError>(
                    TransportError::LocalParseFailure,
                ),
            },
        },
{
    match reply {
        Err(e) => Err(e),
        Ok(text) => match decode_response(text.as_str()) {
            ResponsePacketOption::Success(packet) => Ok(packet),
            ResponsePacketOption::FailedRemote(_) => Err(TransportError::RemoteReportedFailure),
            ResponsePacketOption::FailedLocal(_) => Err(TransportError::LocalParseFailure),
        },
    }
}

// ---------------------------------------------------------------------------
// Discovery
// ---------------------------------------------------------------------------

/// What the caller must do next to discover a controller.
#[derive(Clone, Copy, Debug, PartialEq, Eq, Structural)]
pub enum DiscoveryAction {
    /// Probe the port of this index in the listing, and report the verdict.
    Probe(usize),
    /// The controller is on the port of this index.
    Found(usize),
    /// Discovery failed.
    Fail(TransportError),
}

/// The next action of a discovery, given the outcome of listing the ports
/// (their number, or `None` if they could not be listed) and the verdicts of the
/// probes so far. Ports are probed in order; the first port whose probe is
/// accepted is the match, and a rejected probe only moves on to the next port.
pub open spec fn discovery_action(listed: Option<nat>, verdicts: Seq<bool>) -> DiscoveryAction {
    match listed {
        None => DiscoveryAction::Fail(TransportError::NoPortsAvailable),
        Some(count) => if verdicts.len() > 0 && verdicts.last() {
            DiscoveryAction::Found((verdicts.len() - 1) as usize)
        } else if verdicts.len() < count {
            DiscoveryAction::Probe(verdicts.len() as usize)
        } else {
            DiscoveryAction::Fail(TransportError::NoDeviceFound)
        },
    }
}

/// The state of a discovery.
pub struct Discovery {
    listed: Option<usize>,
    probed: usize,
    found: bool,
    verdicts: Ghost<Seq<bool>>,
}

impl Discovery {
    /// The outcome of listing the ports.
    pub closed spec fn listed(&self) -> Option<nat> {
        match self.listed {
            Some(n) => Some(n as nat),
            None => None,
        }
    }

    /// The verdicts reported so far, in port order.
    pub closed spec fn verdicts(&self) -> Seq<bool> {
        self.verdicts@
    }

    /// Verdicts come one per port, in order, and none follows an accepted one.
    pub closed spec fn wf(&self) -> bool {
        &&& self.probed == self.verdicts@.len()
        &&& self.found == (self.verdicts@.len() > 0 && self.verdicts@.last())
        &&& forall|i: int| 0 <= i < self.verdicts@.len() - 1 ==> !self.verdicts@[i]
        &&& self.listed matches Some(n) ==> self.probed <= n
        &&& self.listed is None ==> self.probed == 0
    }

    /// Begins a discovery over the listed ports.
    pub fn start(listed: Option<usize>) -> (r: Discovery)
        ensures
            r.wf(),
            r.listed() == match listed {
                Some(n) => Some(n as nat),
                None => None::<nat>,
            },
            r.verdicts() == Seq::<bool>::empty(),
    {
        Discovery { listed, probed: 0, found: false, verdicts: Ghost(Seq::empty()) }
    }

    /// What the caller must do next.
    pub fn action(&self) -> (a: DiscoveryAction)
        requires
            self.wf(),
        ensures
            a == discovery_action(self.listed(), self.verdicts()),
    {
        match self.listed {
            None => DiscoveryAction::Fail(TransportError::NoPortsAvailable),
            Some(count) => {
                if self.found {
                    DiscoveryAction::Found(self.probed - 1)
                } else if self.probed < count {
                    DiscoveryAction::Probe(self.probed)
                } else {
                    DiscoveryAction::Fail(TransportError::NoDeviceFound)
                }
            },
        }
    }

    /// Takes in the verdict of the probe that `action` asked for; a verdict
    /// that no probe was asked for changes nothing.
    pub fn report(&mut self, accepted: bool)
        requires
            old(self).wf(),
        ensures
            final(self).wf(),
            final(self).listed() == old(self).listed(),
            final(self).verdicts() == if discovery_action(
                old(self).listed(),
                old(self).verdicts(),
            ) is Probe {
                old(self).verdicts().push(accepted)
            } else {
                old(self).verdicts()
            },
    {
        if let Some(count) = self.listed {
            if !self.found && self.probed < count {
                self.probed = self.probed + 1;
                self.found = accepted;
                self.verdicts = Ghost(self.verdicts@.push(accepted));
            }
        }
    }
}

/// A discovery that ends on a port found it by the first accepted probe: every
/// port before it was probed and rejected.
pub proof fn lemma_found_is_first_accepted(listed: Option<nat>, verdicts: Seq<bool>, i: usize)
    requires
        verdicts.len() <= usize::MAX,
        forall|k: int| 0 <= k < verdicts.len() - 1 ==> !verdicts[k],
        discovery_action(listed, verdicts) == DiscoveryAction::Found(i),
    ensures
        i < verdicts.len(),
        verdicts[i as int],
        forall|k: int| 0 <= k < i ==> !verdicts[k],
        listed is Some,
{
}

} // verus!
