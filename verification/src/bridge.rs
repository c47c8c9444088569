//! Routing: which sink a `JointCommand` reaches, whether the safety
//! interlock stops it first, and how a transport that fails to deliver
//! is reported.

use vstd::prelude::*;

use crate::interlock::{assess_interlock, block_reason, InterlockDecision, TwinRiskReport};
use crate::protocol::{JointCommand, Mode};
use crate::text::{decimal, decimal_reads_back, parse_u64_spec, push_decimal};

verus! {

/// A transport-level failure to deliver a command, distinct from a
/// deliberate refusal by the interlock.
#[derive(Debug, Clone, Copy, PartialEq, Eq, Structural)]
pub enum TransportError {
    /// The send did not complete within the transport's own timeout.
    Timeout { after_ms: u64 },
    /// The transport has no live connection to send on at all.
    Disconnected,
}

impl TransportError {
    /// The human-readable description of the failure.
    pub open spec fn message(self) -> Seq<char> {
        match self {
            TransportError::Timeout { after_ms } => "transport timed out after "@ + decimal(
                after_ms as nat,
            ) + "ms"@,
            TransportError::Disconnected => "transport is disconnected"@,
        }
    }

    /// Renders the description of the failure.
    pub fn to_string(&self) -> (r: String)
        ensures
            r@ == self.message(),
    {
        match self {
            TransportError::Timeout { after_ms } => {
                let mut s = String::from_str("transport timed out after ");
                push_decimal(&mut s, *after_ms);
                s.append("ms");
                s
            },
            TransportError::Disconnected => String::from_str("transport is disconnected"),
        }
    }
}

/// Something a command can be sent to.
pub trait CommandSink: Sized {
    /// The commands this sink has confirmed as delivered, oldest first.
    spec fn delivered(&self) -> Seq<JointCommand>;

    /// The whole effect of one `send` of `command` that returned `sent`:
    /// whether `after` is what the sink may become from `self`.
    spec fn sends_to(&self, after: Self, command: JointCommand, sent: Result<(), TransportError>) -> bool;

    /// What the next `send` returns, where the sink's own state decides
    /// it; `None` where it depends on anything beyond that state.
    spec fn predicted_send(&self) -> Option<Result<(), TransportError>>;

    /// Sends one command. A confirmed delivery appends it to
    /// `delivered`; a failure leaves `delivered` as it was. Sending does
    /// not change what the sink predicts of the next send.
    fn send(&mut self, command: &JointCommand) -> (r: Result<(), TransportError>)
        ensures
            r is Ok ==> final(self).delivered() == old(self).delivered().push(*command),
            r is Err ==> final(self).delivered() == old(self).delivered(),
            old(self).predicted_send() matches Some(p) ==> r == p,
            final(self).predicted_send() == old(self).predicted_send(),
            old(self).sends_to(*final(self), *command, r),
    ;
}

/// How a call of `send` on `before`, leaving `after`, may have gone when
/// it returned `sent`.
pub open spec fn sink_took<S: CommandSink>(
    before: S,
    after: S,
    command: JointCommand,
    sent: Result<(), TransportError>,
) -> bool {
    &&& sent is Ok ==> after.delivered() == before.delivered().push(command)
    &&& sent is Err ==> after.delivered() == before.delivered()
    &&& before.predicted_send() matches Some(p) ==> sent == p
    &&& after.predicted_send() == before.predicted_send()
    &&& before.sends_to(after, command, sent)
}

/// A sink that records every command and always succeeds.
#[derive(Debug)]
pub struct RecordingSink {
    pub received: Vec<JointCommand>,
}

impl Default for RecordingSink {
    fn default() -> (r: RecordingSink)
        ensures
            r.received@ == Seq::<JointCommand>::empty(),
    {
        RecordingSink { received: Vec::new() }
    }
}

impl CommandSink for RecordingSink {
    open spec fn delivered(&self) -> Seq<JointCommand> {
        self.received@
    }

    open spec fn sends_to(
        &self,
        after: RecordingSink,
        command: JointCommand,
        sent: Result<(), TransportError>,
    ) -> bool {
        &&& sent == Ok::<(), TransportError>(())
        &&& after.received@ == self.received@.push(command)
    }

    open spec fn predicted_send(&self) -> Option<Result<(), TransportError>> {
        Some(Ok(()))
    }

    fn send(&mut self, command: &JointCommand) -> (r: Result<(), TransportError>) {
        self.received.push(command.duplicate());
        Ok(())
    }
}

/// A transport stand-in that can fail the two ways a real link fails:
/// no connection (`connected == false`), or a link slower than its
/// budget (`latency_ms > timeout_ms`). Delivered commands are recorded.
#[derive(Debug)]
pub struct SimulatedTransport {
    pub connected: bool,
    pub latency_ms: u64,
    pub timeout_ms: u64,
    pub received: Vec<JointCommand>,
}

impl SimulatedTransport {
    /// What a send over this transport returns.
    pub open spec fn send_result(&self) -> Result<(), TransportError> {
        if !self.connected {
            Err(TransportError::Disconnected)
        } else if self.latency_ms > self.timeout_ms {
            Err(TransportError::Timeout { after_ms: self.timeout_ms })
        } else {
            Ok(())
        }
    }

    /// A connected transport with no latency and no timeout.
    pub fn healthy() -> (r: SimulatedTransport)
        ensures
            r.connected,
            r.latency_ms == 0,
            r.timeout_ms == u64::MAX,
            r.received@ == Seq::<JointCommand>::empty(),
    {
        SimulatedTransport {
            connected: true,
            latency_ms: 0,
            timeout_ms: u64::MAX,
            received: Vec::new(),
        }
    }

    /// The same transport with the given latency and timeout budget.
    pub fn with_timeout(self, latency_ms: u64, timeout_ms: u64) -> (r: SimulatedTransport)
        ensures
            r.connected == self.connected,
            r.latency_ms == latency_ms,
            r.timeout_ms == timeout_ms,
            r.received@ == self.received@,
    {
        let mut t = self;
        t.latency_ms = latency_ms;
        t.timeout_ms = timeout_ms;
        t
    }

    /// A transport with no live connection.
    pub fn disconnected() -> (r: SimulatedTransport)
        ensures
            !r.connected,
            r.latency_ms == 0,
            r.timeout_ms == u64::MAX,
            r.received@ == Seq::<JointCommand>::empty(),
    {
        SimulatedTransport {
            connected: false,
            latency_ms: 0,
            timeout_ms: u64::MAX,
            received: Vec::new(),
        }
    }
}

impl CommandSink for SimulatedTransport {
    open spec fn delivered(&self) -> Seq<JointCommand> {
        self.received@
    }

    open spec fn sends_to(
        &self,
        after: SimulatedTransport,
        command: JointCommand,
        sent: Result<(), TransportError>,
    ) -> bool {
        &&& sent == self.send_result()
        &&& after.connected == self.connected
        &&& after.latency_ms == self.latency_ms
        &&& after.timeout_ms == self.timeout_ms
        &&& after.received@ == if sent is Ok {
            self.received@.push(command)
        } else {
            self.received@
        }
    }

    open spec fn predicted_send(&self) -> Option<Result<(), TransportError>> {
        Some(self.send_result())
    }

    fn send(&mut self, command: &JointCommand) -> (r: Result<(), TransportError>) {
        if !self.connected {
            return Err(TransportError::Disconnected);
        }
        if self.latency_ms > self.timeout_ms {
            return Err(TransportError::Timeout { after_ms: self.timeout_ms });
        }
        self.received.push(command.duplicate());
        Ok(())
    }
}


/// Either sink the bridge may be given for real hardware: the recording
/// stand-in, or the simulated transport.
#[derive(Debug)]
pub enum RealSink {
    Recording(RecordingSink),
    Simulated(SimulatedTransport),
}

impl CommandSink for RealSink {
    open spec fn delivered(&self) -> Seq<JointCommand> {
        match self {
            RealSink::Recording(s) => s.delivered(),
            RealSink::Simulated(t) => t.delivered(),
        }
    }

    open spec fn predicted_send(&self) -> Option<Result<(), TransportError>> {
        match self {
            RealSink::Recording(s) => s.predicted_send(),
            RealSink::Simulated(t) => t.predicted_send(),
        }
    }

    open spec fn sends_to(
        &self,
        after: RealSink,
        command: JointCommand,
        sent: Result<(), TransportError>,
    ) -> bool {
        match (self, after) {
            (RealSink::Recording(s), RealSink::Recording(a)) => s.sends_to(a, command, sent),
            (RealSink::Simulated(t), RealSink::Simulated(a)) => t.sends_to(a, command, sent),
            _ => false,
        }
    }

    fn send(&mut self, command: &JointCommand) -> (r: Result<(), TransportError>) {
        match self {
            RealSink::Recording(s) => s.send(command),
            RealSink::Simulated(t) => t.send(command),
        }
    }
}

impl RealSink {
    /// Whether `self` is a fresh sink set up from the given settings.
    pub open spec fn set_up_as(
        self,
        simulate: bool,
        disconnected: bool,
        latency_ms: u64,
        timeout_ms: u64,
    ) -> bool {
        &&& self.delivered() == Seq::<JointCommand>::empty()
        &&& match self {
            RealSink::Recording(_) => !simulate,
            RealSink::Simulated(t) => {
                &&& simulate
                &&& t.connected == !disconnected
                &&& disconnected ==> t.latency_ms == 0 && t.timeout_ms == u64::MAX
                &&& !disconnected ==> t.latency_ms == latency_ms && t.timeout_ms == timeout_ms
            },
        }
    }

    /// A fresh sink for real hardware: the recording stand-in unless
    /// `simulate`; otherwise a simulated transport, disconnected if
    /// `disconnected`, else with the given latency and timeout budget.
    pub fn configured(simulate: bool, disconnected: bool, latency_ms: u64, timeout_ms: u64) -> (r:
        RealSink)
        ensures
            r.set_up_as(simulate, disconnected, latency_ms, timeout_ms),
            r.predicted_send() == Some(configured_send(simulate, disconnected, latency_ms, timeout_ms)),
    {
        if simulate {
            let t = if disconnected {
                SimulatedTransport::disconnected()
            } else {
                SimulatedTransport::healthy().with_timeout(latency_ms, timeout_ms)
            };
            RealSink::Simulated(t)
        } else {
            RealSink::Recording(RecordingSink::default())
        }
    }
}

/// What the first send over a sink set up by `RealSink::configured` returns.
pub open spec fn configured_send(simulate: bool, disconnected: bool, latency_ms: u64, timeout_ms: u64) -> Result<(), TransportError> {
    if !simulate {
        Ok(())
    } else if disconnected {
        Err(TransportError::Disconnected)
    } else if latency_ms > timeout_ms {
        Err(TransportError::Timeout { after_ms: timeout_ms })
    } else {
        Ok(())
    }
}

/// What became of a routed command.
#[derive(Debug, Clone, PartialEq)]
pub enum RouteOutcome {
    SentReal,
    SentSimulation,
    BlockedByInterlock { reason: String },
    /// The interlock allowed the command (or simulation mode never gates
    /// it), but the transport did not deliver it. Never reported as sent.
    TransportFailure { reason: String },
}

/// A `RouteOutcome` with its texts taken as character sequences.
pub enum OutcomeView {
    SentReal,
    SentSimulation,
    BlockedByInterlock { reason: Seq<char> },
    TransportFailure { reason: Seq<char> },
}

impl View for RouteOutcome {
    type V = OutcomeView;

    open spec fn view(&self) -> OutcomeView {
        match self {
            RouteOutcome::SentReal => OutcomeView::SentReal,
            RouteOutcome::SentSimulation => OutcomeView::SentSimulation,
            RouteOutcome::BlockedByInterlock { reason } => OutcomeView::BlockedByInterlock {
                reason: reason@,
            },
            RouteOutcome::TransportFailure { reason } => OutcomeView::TransportFailure {
                reason: reason@,
            },
        }
    }
}

/// The outcome of a command that the interlock let through to the sink of
/// `mode`, when the sink's `send` returned `sent`.
pub open spec fn delivery_outcome(mode: Mode, sent: Result<(), TransportError>) -> OutcomeView {
    match sent {
        Ok(()) => match mode {
            Mode::Real => OutcomeView::SentReal,
            Mode::Simulation => OutcomeView::SentSimulation,
        },
        Err(e) => OutcomeView::TransportFailure { reason: e.message() },
    }
}

/// Whether the interlock blocks a real command under `risk`; no report
/// at all counts as no imminent collision.
pub open spec fn interlock_blocks(risk: Option<TwinRiskReport>) -> bool {
    risk matches Some(r) && r.collision_imminent
}

/// The outcome of routing under `mode` and `risk`, when the real sink's
/// send would return `real_send` and the simulation sink's `sim_send`.
pub open spec fn routed_outcome(
    mode: Mode,
    risk: Option<TwinRiskReport>,
    real_send: Result<(), TransportError>,
    sim_send: Result<(), TransportError>,
) -> OutcomeView {
    match mode {
        Mode::Simulation => delivery_outcome(Mode::Simulation, sim_send),
        Mode::Real => if interlock_blocks(risk) {
            OutcomeView::BlockedByInterlock { reason: block_reason(risk->0) }
        } else {
            delivery_outcome(Mode::Real, real_send)
        },
    }
}

/// The outcome of a command that reached the sink of `mode`, given what
/// that sink's `send` returned.
pub fn outcome_of_delivery(mode: Mode, sent: Result<(), TransportError>) -> (r: RouteOutcome)
    ensures
        r@ == delivery_outcome(mode, sent),
{
    match sent {
        Ok(()) => match mode {
            Mode::Real => RouteOutcome::SentReal,
            Mode::Simulation => RouteOutcome::SentSimulation,
        },
        Err(e) => RouteOutcome::TransportFailure { reason: e.to_string() },
    }
}

/// Routes commands by mode.
pub struct Bridge {
    pub mode: Mode,
}

impl Bridge {
    pub fn new(mode: Mode) -> (b: Bridge)
        ensures
            b.mode == mode,
    {
        Bridge { mode }
    }

    /// Routes one command by the bridge's mode. A `Real` command reaches
    /// `real_sink` only if the interlock allows it (no report counts as no
    /// imminent collision); a `Simulation` command always reaches
    /// `sim_sink`, ungated. The sink that is not used is left untouched.
    pub fn route_command<R: CommandSink, S: CommandSink>(
        &self,
        command: JointCommand,
        risk: Option<TwinRiskReport>,
        real_sink: &mut R,
        sim_sink: &mut S,
    ) -> (r: RouteOutcome)
        ensures
            self.mode == Mode::Simulation ==> {
                &&& *final(real_sink) == *old(real_sink)
                &&& exists|sent: Result<(), TransportError>|
                    #[trigger] sink_took(*old(sim_sink), *final(sim_sink), command, sent)
                        && r@ == delivery_outcome(Mode::Simulation, sent)
            },
            self.mode == Mode::Real && (risk matches Some(report) && report.collision_imminent)
                ==> {
                &&& r is BlockedByInterlock
                &&& *final(real_sink) == *old(real_sink)
            },
            self.mode == Mode::Real && interlock_blocks(risk) ==> {
                &&& *final(real_sink) == *old(real_sink)
                &&& *final(sim_sink) == *old(sim_sink)
                &&& r@ == OutcomeView::BlockedByInterlock { reason: block_reason(risk->0) }
            },
            self.mode == Mode::Real && !interlock_blocks(risk) ==> {
                &&& *final(sim_sink) == *old(sim_sink)
                &&& exists|sent: Result<(), TransportError>|
                    #[trigger] sink_took(*old(real_sink), *final(real_sink), command, sent)
                        && r@ == delivery_outcome(Mode::Real, sent)
            },
            old(real_sink).predicted_send() is Some && old(sim_sink).predicted_send() is Some
                ==> r@ == routed_outcome(
                self.mode,
                risk,
                old(real_sink).predicted_send()->0,
                old(sim_sink).predicted_send()->0,
            ),
    {
        match self.mode {
            Mode::Simulation => {
                let ghost before = *sim_sink;
                let sent = sim_sink.send(&command);
                assert(sink_took(before, *sim_sink, command, sent));
                outcome_of_delivery(Mode::Simulation, sent)
            },
            Mode::Real => {
                let decision = match risk {
                    Some(report) => assess_interlock(&report),
                    None => InterlockDecision::Allow,
                };
                match decision {
                    InterlockDecision::Allow => {
                        let ghost before = *real_sink;
                        let sent = real_sink.send(&command);
                        assert(sink_took(before, *real_sink, command, sent));
                        outcome_of_delivery(Mode::Real, sent)
                    },
                    InterlockDecision::Block { reason } => RouteOutcome::BlockedByInterlock {
                        reason,
                    },
                }
            },
        }
    }

    /// Shadows a command onto `mirror_sink`, whatever the bridge's mode and
    /// never gated by the interlock; a transport failure is returned, not
    /// swallowed.
    pub fn mirror_command<M: CommandSink>(&self, command: &JointCommand, mirror_sink: &mut M) -> (r:
        Result<(), TransportError>)
        ensures
            sink_took(*old(mirror_sink), *final(mirror_sink), *command, r),
    {
        mirror_sink.send(command)
    }
}

/// A command is reported sent exactly when its sink confirmed delivery;
/// a failed delivery is always reported as a transport failure.
pub proof fn delivery_reported_only_when_confirmed(mode: Mode, sent: Result<(), TransportError>)
    ensures
        (delivery_outcome(mode, sent) is SentReal || delivery_outcome(mode, sent) is SentSimulation)
            <==> sent is Ok,
        delivery_outcome(mode, sent) is TransportFailure <==> sent is Err,
        !(delivery_outcome(mode, sent) is BlockedByInterlock),
{
}

/// Simulation mode is never gated by the interlock, whatever the twin
/// reports, and never uses the real sink's result.
pub proof fn simulation_is_never_gated(
    risk: Option<TwinRiskReport>,
    real_send: Result<(), TransportError>,
    other_real_send: Result<(), TransportError>,
    sim_send: Result<(), TransportError>,
)
    ensures
        !(routed_outcome(Mode::Simulation, risk, real_send, sim_send) is BlockedByInterlock),
        routed_outcome(Mode::Simulation, risk, real_send, sim_send) == routed_outcome(
            Mode::Simulation,
            None,
            other_real_send,
            sim_send,
        ),
{
}

/// Once the interlock blocks, the transport's state makes no difference:
/// the outcome is the block, whatever either sink would have returned.
pub proof fn interlock_block_takes_precedence(
    risk: Option<TwinRiskReport>,
    real_send: Result<(), TransportError>,
    other_real_send: Result<(), TransportError>,
    sim_send: Result<(), TransportError>,
)
    requires
        interlock_blocks(risk),
    ensures
        routed_outcome(Mode::Real, risk, real_send, sim_send) == routed_outcome(
            Mode::Real,
            risk,
            other_real_send,
            sim_send,
        ),
        routed_outcome(Mode::Real, risk, real_send, sim_send) is BlockedByInterlock,
{
}

/// A connected simulated transport delivers exactly when its latency is
/// within its timeout budget, the boundary included; a disconnected one
/// never delivers.
pub proof fn timeout_budget_is_inclusive(t: SimulatedTransport)
    ensures
        t.connected ==> (t.send_result() is Ok <==> t.latency_ms <= t.timeout_ms),
        !t.connected ==> t.send_result() == Err::<(), TransportError>(TransportError::Disconnected),
        t.connected && t.latency_ms > t.timeout_ms ==> t.send_result() == Err::<(), TransportError>(
            TransportError::Timeout { after_ms: t.timeout_ms },
        ),
{
}

/// Commands confirmed one after the other by a sink are delivered in the
/// order they were sent.
pub proof fn confirmed_commands_keep_their_order<S: CommandSink>(
    s0: S,
    s1: S,
    s2: S,
    first: JointCommand,
    second: JointCommand,
)
    requires
        sink_took(s0, s1, first, Ok(())),
        sink_took(s1, s2, second, Ok(())),
    ensures
        s2.delivered() == s0.delivered() + seq![first, second],
{
    assert(s2.delivered() =~= s0.delivered() + seq![first, second]);
}

/// A real command is blocked exactly when the twin's report says a
/// collision is imminent, whatever distance it reports; without a report,
/// or with one that sees no imminent collision, it goes to the real sink
/// as if there were no report at all.
pub proof fn imminent_collision_always_blocks(
    report: TwinRiskReport,
    real_send: Result<(), TransportError>,
    sim_send: Result<(), TransportError>,
)
    ensures
        interlock_blocks(Some(report)) == report.collision_imminent,
        !interlock_blocks(None),
        report.collision_imminent ==> routed_outcome(Mode::Real, Some(report), real_send, sim_send)
            is BlockedByInterlock,
        !report.collision_imminent ==> routed_outcome(Mode::Real, Some(report), real_send, sim_send)
            == routed_outcome(Mode::Real, None, real_send, sim_send),
        routed_outcome(Mode::Real, None, real_send, sim_send) is SentReal <==> real_send is Ok,
        routed_outcome(Mode::Simulation, Some(report), real_send, sim_send) is SentSimulation
            <==> sim_send is Ok,
{
}

/// A confirmed delivery is reported as sent to the sink of the mode it
/// was routed by; a failed one is reported with the failure's own text.
pub proof fn delivery_outcome_meaning(mode: Mode, e: TransportError)
    ensures
        delivery_outcome(Mode::Real, Ok(())) == OutcomeView::SentReal,
        delivery_outcome(Mode::Simulation, Ok(())) == OutcomeView::SentSimulation,
        delivery_outcome(mode, Err(e)) == (OutcomeView::TransportFailure { reason: e.message() }),
{
}

/// The first send over a sink set up by `RealSink::configured`: the
/// recording stand-in always delivers; a disconnected transport never
/// does; a connected one delivers exactly when its latency is within its
/// timeout, the boundary included, and otherwise times out after it.
pub proof fn configured_send_meaning(simulate: bool, disconnected: bool, latency_ms: u64, timeout_ms: u64)
    ensures
        !simulate ==> configured_send(simulate, disconnected, latency_ms, timeout_ms) == Ok::<
            (),
            TransportError,
        >(()),
        simulate && disconnected ==> configured_send(simulate, disconnected, latency_ms, timeout_ms)
            == Err::<(), TransportError>(TransportError::Disconnected),
        simulate && !disconnected ==> (configured_send(
            simulate,
            disconnected,
            latency_ms,
            timeout_ms,
        ) is Ok <==> latency_ms <= timeout_ms),
        simulate && !disconnected && latency_ms > timeout_ms ==> configured_send(
            simulate,
            disconnected,
            latency_ms,
            timeout_ms,
        ) == Err::<(), TransportError>(TransportError::Timeout { after_ms: timeout_ms }),
{
}

/// A timeout's description quotes the budget it ran out of, in decimal:
/// reading the number back between its fixed words gives `after_ms`.
pub proof fn timeout_message_quotes_budget(after_ms: u64)
    ensures
        ({
            let m = TransportError::Timeout { after_ms }.message();
            let head = "transport timed out after "@;
            &&& m.len() == head.len() + decimal(after_ms as nat).len() + 2
            &&& m.subrange(0, head.len() as int) == head
            &&& parse_u64_spec(m.subrange(head.len() as int, m.len() - 2)) == Some(after_ms)
            &&& m.subrange(m.len() - 2, m.len() as int) == "ms"@
        }),
{
    reveal_strlit("ms");
    let m = TransportError::Timeout { after_ms }.message();
    let head = "transport timed out after "@;
    let d = decimal(after_ms as nat);
    assert(m == head + d + "ms"@);
    assert(m.subrange(0, head.len() as int) =~= head);
    assert(m.subrange(head.len() as int, m.len() - 2) =~= d);
    assert(m.subrange(m.len() - 2, m.len() as int) =~= "ms"@);
    decimal_reads_back(after_ms);
}

} // verus!
