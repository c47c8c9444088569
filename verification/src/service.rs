//! The decisions of the JSON/HTTP service: what each request is, what
//! each routing call records, and the running counters it reports.
//! Receiving requests, parsing their JSON and writing responses is left
//! to the caller.

use vstd::prelude::*;

use crate::bridge::{
    configured_send, routed_outcome, Bridge, OutcomeView, RealSink, RecordingSink,
    RouteOutcome, TransportError,
};
use crate::interlock::TwinRiskReport;
use crate::protocol::{JointCommand, Mode};
use crate::text::{before_query, request_path, str_eq};

verus! {

/// The request methods the service tells apart.
#[derive(Debug, Clone, Copy, PartialEq, Eq, Structural)]
pub enum RequestMethod {
    Get,
    Post,
    Other,
}

/// Which handler a `POST` goes to once its body has been read.
#[derive(Debug, Clone, Copy, PartialEq, Eq, Structural)]
pub enum PostTarget {
    Route,
    Mirror,
    Unknown,
}

/// What to do with an incoming request.
#[derive(Debug, Clone, Copy, PartialEq, Eq, Structural)]
pub enum RequestPlan {
    /// Answer with the counters.
    ReportStats,
    /// Answer "not found" without reading the body.
    NotFound,
    /// Read the body, then hand it to the target.
    ReadBody(PostTarget),
}

/// The plan for a request to the path `path` with method `method`.
pub open spec fn request_plan(path: Seq<char>, method: RequestMethod) -> RequestPlan {
    if path == "/stats"@ && method == RequestMethod::Get {
        RequestPlan::ReportStats
    } else if method != RequestMethod::Post {
        RequestPlan::NotFound
    } else if path == "/route"@ {
        RequestPlan::ReadBody(PostTarget::Route)
    } else if path == "/mirror"@ {
        RequestPlan::ReadBody(PostTarget::Mirror)
    } else {
        RequestPlan::ReadBody(PostTarget::Unknown)
    }
}

/// Plans a request from its target (path and query) and method.
pub fn plan_request(target: &str, method: RequestMethod) -> (r: RequestPlan)
    ensures
        r == request_plan(before_query(target@), method),
{
    let path = request_path(target);
    if str_eq(path.as_str(), "/stats") && method == RequestMethod::Get {
        RequestPlan::ReportStats
    } else if method != RequestMethod::Post {
        RequestPlan::NotFound
    } else if str_eq(path.as_str(), "/route") {
        RequestPlan::ReadBody(PostTarget::Route)
    } else if str_eq(path.as_str(), "/mirror") {
        RequestPlan::ReadBody(PostTarget::Mirror)
    } else {
        RequestPlan::ReadBody(PostTarget::Unknown)
    }
}

/// Counters over the service's lifetime.
#[derive(Debug, Clone, Copy, PartialEq, Eq, Structural)]
pub struct Stats {
    pub routed_real: u64,
    pub routed_simulation: u64,
    pub blocked_by_interlock: u64,
    pub transport_failures: u64,
    pub mirrored: u64,
    pub mirror_failures: u64,
    pub malformed_requests: u64,
    pub not_found: u64,
}

/// The counter that a routing outcome adds to, read from `s`.
pub open spec fn route_count(s: Stats, o: OutcomeView) -> u64 {
    match o {
        OutcomeView::SentReal => s.routed_real,
        OutcomeView::SentSimulation => s.routed_simulation,
        OutcomeView::BlockedByInterlock { .. } => s.blocked_by_interlock,
        OutcomeView::TransportFailure { .. } => s.transport_failures,
    }
}

/// `s` with one more of the routing outcome `o` counted.
pub open spec fn counted_route(s: Stats, o: OutcomeView) -> Stats {
    match o {
        OutcomeView::SentReal => Stats { routed_real: (s.routed_real + 1) as u64, ..s },
        OutcomeView::SentSimulation => Stats {
            routed_simulation: (s.routed_simulation + 1) as u64,
            ..s
        },
        OutcomeView::BlockedByInterlock { .. } => Stats {
            blocked_by_interlock: (s.blocked_by_interlock + 1) as u64,
            ..s
        },
        OutcomeView::TransportFailure { .. } => Stats {
            transport_failures: (s.transport_failures + 1) as u64,
            ..s
        },
    }
}

/// `s` with one more mirroring counted, by whether it was delivered.
pub open spec fn counted_mirror(s: Stats, delivered: bool) -> Stats {
    if delivered {
        Stats { mirrored: (s.mirrored + 1) as u64, ..s }
    } else {
        Stats { mirror_failures: (s.mirror_failures + 1) as u64, ..s }
    }
}

impl Stats {
    /// All counters at zero.
    pub fn new() -> (r: Stats)
        ensures
            r == (Stats {
                routed_real: 0,
                routed_simulation: 0,
                blocked_by_interlock: 0,
                transport_failures: 0,
                mirrored: 0,
                mirror_failures: 0,
                malformed_requests: 0,
                not_found: 0,
            }),
    {
        Stats {
            routed_real: 0,
            routed_simulation: 0,
            blocked_by_interlock: 0,
            transport_failures: 0,
            mirrored: 0,
            mirror_failures: 0,
            malformed_requests: 0,
            not_found: 0,
        }
    }

    /// Counts a request answered with "not found".
    pub fn record_not_found(&mut self)
        requires
            old(self).not_found < u64::MAX,
        ensures
            *final(self) == (Stats { not_found: (old(self).not_found + 1) as u64, ..*old(self) }),
    {
        self.not_found = self.not_found + 1;
    }

    /// Counts a request whose body could not be read or parsed.
    pub fn record_malformed(&mut self)
        requires
            old(self).malformed_requests < u64::MAX,
        ensures
            *final(self) == (Stats {
                malformed_requests: (old(self).malformed_requests + 1) as u64,
                ..*old(self)
            }),
    {
        self.malformed_requests = self.malformed_requests + 1;
    }

    /// Counts one routing outcome.
    pub fn record_route(&mut self, outcome: &RouteOutcome)
        requires
            route_count(*old(self), outcome@) < u64::MAX,
        ensures
            *final(self) == counted_route(*old(self), outcome@),
    {
        match outcome {
            RouteOutcome::SentReal => self.routed_real = self.routed_real + 1,
            RouteOutcome::SentSimulation => self.routed_simulation = self.routed_simulation + 1,
            RouteOutcome::BlockedByInterlock { .. } => self.blocked_by_interlock =
                self.blocked_by_interlock + 1,
            RouteOutcome::TransportFailure { .. } => self.transport_failures =
                self.transport_failures + 1,
        }
    }

    /// Counts one mirroring, delivered or not.
    pub fn record_mirror(&mut self, result: &Result<(), TransportError>)
        requires
            result is Ok ==> old(self).mirrored < u64::MAX,
            result is Err ==> old(self).mirror_failures < u64::MAX,
        ensures
            *final(self) == counted_mirror(*old(self), result is Ok),
    {
        match result {
            Ok(()) => self.mirrored = self.mirrored + 1,
            Err(_) => self.mirror_failures = self.mirror_failures + 1,
        }
    }
}

/// How a route request asks for the real-hardware transport.
pub struct TransportConfig {
    pub disconnected: bool,
    pub latency_ms: Option<u64>,
    pub timeout_ms: Option<u64>,
}

impl TransportConfig {
    /// Whether the request asks for the simulated transport at all.
    pub open spec fn simulates(self) -> bool {
        self.disconnected || self.latency_ms is Some || self.timeout_ms is Some
    }

    /// What a send over the transport the request asks for returns.
    pub open spec fn send_spec(self) -> Result<(), TransportError> {
        configured_send(
            self.simulates(),
            self.disconnected,
            match self.latency_ms {
                Some(l) => l,
                None => 0,
            },
            match self.timeout_ms {
                Some(t) => t,
                None => u64::MAX,
            },
        )
    }
}

/// The outcome of a route request.
pub open spec fn served_outcome(
    mode: Mode,
    risk: Option<TwinRiskReport>,
    transport: TransportConfig,
) -> OutcomeView {
    routed_outcome(mode, risk, transport.send_spec(), Ok(()))
}

impl Stats {
    /// The counter that a route request would add to, read before serving
    /// it.
    pub fn route_count_for(
        &self,
        mode: Mode,
        risk: &Option<TwinRiskReport>,
        transport: &TransportConfig,
    ) -> (r: u64)
        ensures
            r == route_count(*self, served_outcome(mode, *risk, *transport)),
    {
        match mode {
            Mode::Simulation => self.routed_simulation,
            Mode::Real => {
                let blocked = match risk {
                    Some(report) => report.collision_imminent,
                    None => false,
                };
                if blocked {
                    self.blocked_by_interlock
                } else {
                    let simulate = transport.disconnected || transport.latency_ms.is_some()
                        || transport.timeout_ms.is_some();
                    let latency_ms = match transport.latency_ms {
                        Some(l) => l,
                        None => 0,
                    };
                    let timeout_ms = match transport.timeout_ms {
                        Some(t) => t,
                        None => u64::MAX,
                    };
                    if simulate && (transport.disconnected || latency_ms > timeout_ms) {
                        self.transport_failures
                    } else {
                        self.routed_real
                    }
                }
            },
        }
    }
}

/// Handles a parsed route request: routes the command through a bridge of
/// the requested mode, to the requested real-hardware transport or to a
/// fresh recording sink for the twin, and counts the outcome.
pub fn serve_route(
    stats: &mut Stats,
    mode: Mode,
    command: JointCommand,
    risk: Option<TwinRiskReport>,
    transport: TransportConfig,
) -> (r: RouteOutcome)
    requires
        route_count(*old(stats), served_outcome(mode, risk, transport)) < u64::MAX,
    ensures
        r@ == served_outcome(mode, risk, transport),
        *final(stats) == counted_route(*old(stats), r@),
{
    let simulate = transport.disconnected || transport.latency_ms.is_some()
        || transport.timeout_ms.is_some();
    let latency_ms = match transport.latency_ms {
        Some(l) => l,
        None => 0,
    };
    let timeout_ms = match transport.timeout_ms {
        Some(t) => t,
        None => u64::MAX,
    };
    let mut real_sink = RealSink::configured(simulate, transport.disconnected, latency_ms, timeout_ms);
    let mut sim_sink = RecordingSink::default();
    let bridge = Bridge::new(mode);
    let outcome = bridge.route_command(command, risk, &mut real_sink, &mut sim_sink);
    stats.record_route(&outcome);
    outcome
}

/// Handles a parsed mirror request: shadows the command onto a fresh
/// recording sink and counts it.
pub fn serve_mirror(stats: &mut Stats, command: JointCommand) -> (r: Result<(), TransportError>)
    requires
        old(stats).mirrored < u64::MAX,
    ensures
        r == Ok::<(), TransportError>(()),
        *final(stats) == counted_mirror(*old(stats), true),
{
    let bridge = Bridge::new(Mode::Simulation);
    let mut sink = RecordingSink::default();
    let result = bridge.mirror_command(&command, &mut sink);
    stats.record_mirror(&result);
    result
}

/// One of the service's counters.
#[derive(Debug, Clone, Copy, PartialEq, Eq, Structural)]
pub enum Counter {
    RoutedReal,
    RoutedSimulation,
    BlockedByInterlock,
    TransportFailures,
    Mirrored,
    MirrorFailures,
    MalformedRequests,
    NotFound,
}

/// The value of counter `c` in `s`.
pub open spec fn counter_value(s: Stats, c: Counter) -> u64 {
    match c {
        Counter::RoutedReal => s.routed_real,
        Counter::RoutedSimulation => s.routed_simulation,
        Counter::BlockedByInterlock => s.blocked_by_interlock,
        Counter::TransportFailures => s.transport_failures,
        Counter::Mirrored => s.mirrored,
        Counter::MirrorFailures => s.mirror_failures,
        Counter::MalformedRequests => s.malformed_requests,
        Counter::NotFound => s.not_found,
    }
}

/// `s` with counter `c` one higher.
pub open spec fn bumped(s: Stats, c: Counter) -> Stats {
    match c {
        Counter::RoutedReal => Stats { routed_real: (s.routed_real + 1) as u64, ..s },
        Counter::RoutedSimulation => Stats {
            routed_simulation: (s.routed_simulation + 1) as u64,
            ..s
        },
        Counter::BlockedByInterlock => Stats {
            blocked_by_interlock: (s.blocked_by_interlock + 1) as u64,
            ..s
        },
        Counter::TransportFailures => Stats {
            transport_failures: (s.transport_failures + 1) as u64,
            ..s
        },
        Counter::Mirrored => Stats { mirrored: (s.mirrored + 1) as u64, ..s },
        Counter::MirrorFailures => Stats { mirror_failures: (s.mirror_failures + 1) as u64, ..s },
        Counter::MalformedRequests => Stats {
            malformed_requests: (s.malformed_requests + 1) as u64,
            ..s
        },
        Counter::NotFound => Stats { not_found: (s.not_found + 1) as u64, ..s },
    }
}

/// The counter a routing outcome adds to.
pub open spec fn outcome_counter(o: OutcomeView) -> Counter {
    match o {
        OutcomeView::SentReal => Counter::RoutedReal,
        OutcomeView::SentSimulation => Counter::RoutedSimulation,
        OutcomeView::BlockedByInterlock { .. } => Counter::BlockedByInterlock,
        OutcomeView::TransportFailure { .. } => Counter::TransportFailures,
    }
}

/// What the caller found in a request's body, as the plan asked.
pub enum BodyRead {
    /// The plan did not ask for the body.
    NotRead,
    /// The body could not be read.
    Unreadable,
    /// The body was read; nothing more is done with it.
    Read,
    /// The body is not a valid request for its target.
    Malformed,
    /// A valid route request.
    Route {
        mode: Mode,
        command: JointCommand,
        risk: Option<TwinRiskReport>,
        transport: TransportConfig,
    },
    /// A valid mirror request.
    Mirror { command: JointCommand },
}

/// Whether `body` is what a caller can find for a request planned as `plan`.
pub open spec fn body_fits(plan: RequestPlan, body: BodyRead) -> bool {
    match plan {
        RequestPlan::ReportStats => body is NotRead,
        RequestPlan::NotFound => body is NotRead,
        RequestPlan::ReadBody(PostTarget::Unknown) => body is Unreadable || body is Read,
        RequestPlan::ReadBody(PostTarget::Route) => body is Unreadable || body is Malformed
            || body is Route,
        RequestPlan::ReadBody(PostTarget::Mirror) => body is Unreadable || body is Malformed
            || body is Mirror,
    }
}

/// The counter a request adds to, if any.
pub open spec fn request_counter(plan: RequestPlan, body: BodyRead) -> Option<Counter> {
    match plan {
        RequestPlan::ReportStats => None,
        RequestPlan::NotFound => Some(Counter::NotFound),
        RequestPlan::ReadBody(_) => match body {
            BodyRead::Unreadable => Some(Counter::MalformedRequests),
            BodyRead::Malformed => Some(Counter::MalformedRequests),
            BodyRead::Route { mode, risk, transport, .. } => Some(
                outcome_counter(served_outcome(mode, risk, transport)),
            ),
            BodyRead::Mirror { .. } => Some(Counter::Mirrored),
            _ => Some(Counter::NotFound),
        },
    }
}

/// The counters after handling a request, starting from `s`.
pub open spec fn counted_request(s: Stats, plan: RequestPlan, body: BodyRead) -> Stats {
    match request_counter(plan, body) {
        Some(c) => bumped(s, c),
        None => s,
    }
}

/// Whether counting the request cannot overflow its counter.
pub open spec fn has_room(s: Stats, plan: RequestPlan, body: BodyRead) -> bool {
    request_counter(plan, body) matches Some(c) ==> counter_value(s, c) < u64::MAX
}

/// The answer to a request.
pub enum Reply {
    /// 200 with the counters report, taken from these counters.
    Stats { stats: Stats },
    /// 404, `{"error":"not found"}`.
    NotFound,
    /// 400: the body could not be read or is not a valid request.
    Malformed,
    /// 200 with the routing outcome.
    Routed { outcome: RouteOutcome },
    /// 200 with whether the mirroring was delivered.
    Mirrored { result: Result<(), TransportError> },
}

/// The HTTP status of a reply.
pub open spec fn reply_status(r: Reply) -> u16 {
    match r {
        Reply::NotFound => 404,
        Reply::Malformed => 400,
        _ => 200,
    }
}

impl Reply {
    /// The HTTP status of this reply.
    pub fn status(&self) -> (r: u16)
        ensures
            r == reply_status(*self),
    {
        match self {
            Reply::NotFound => 404,
            Reply::Malformed => 400,
            _ => 200,
        }
    }
}

/// Whether `r` is the answer to a request planned as `plan` with `body`,
/// when the counters stood at `s` before it.
pub open spec fn answers(r: Reply, s: Stats, plan: RequestPlan, body: BodyRead) -> bool {
    match plan {
        RequestPlan::ReportStats => r matches Reply::Stats { stats } && stats == s,
        RequestPlan::NotFound => r is NotFound,
        RequestPlan::ReadBody(_) => match body {
            BodyRead::Unreadable => r is Malformed,
            BodyRead::Malformed => r is Malformed,
            BodyRead::Route { mode, risk, transport, .. } => r matches Reply::Routed { outcome }
                && outcome@ == served_outcome(mode, risk, transport),
            BodyRead::Mirror { .. } => r matches Reply::Mirrored { result } && result
                == Ok::<(), TransportError>(()),
            _ => r is NotFound,
        },
    }
}

impl Stats {
    /// Whether the request can be counted without overflowing its counter.
    pub fn has_room_for(&self, plan: RequestPlan, body: &BodyRead) -> (r: bool)
        ensures
            r == has_room(*self, plan, *body),
    {
        match plan {
            RequestPlan::ReportStats => true,
            RequestPlan::NotFound => self.not_found < u64::MAX,
            RequestPlan::ReadBody(_) => match body {
                BodyRead::Unreadable => self.malformed_requests < u64::MAX,
                BodyRead::Malformed => self.malformed_requests < u64::MAX,
                BodyRead::Route { mode, risk, transport, .. } => self.route_count_for(
                    *mode,
                    risk,
                    transport,
                ) < u64::MAX,
                BodyRead::Mirror { .. } => self.mirrored < u64::MAX,
                _ => self.not_found < u64::MAX,
            },
        }
    }
}

/// Handles one request: counts it and gives its answer. `plan` is what
/// `plan_request` gave for it and `body` what was found in its body.
pub fn handle_request(stats: &mut Stats, plan: RequestPlan, body: BodyRead) -> (r: Reply)
    requires
        body_fits(plan, body),
        has_room(*old(stats), plan, body),
    ensures
        *final(stats) == counted_request(*old(stats), plan, body),
        answers(r, *old(stats), plan, body),
{
    match plan {
        RequestPlan::ReportStats => Reply::Stats { stats: *stats },
        RequestPlan::NotFound => {
            stats.record_not_found();
            Reply::NotFound
        },
        RequestPlan::ReadBody(_) => match body {
            BodyRead::Unreadable => {
                stats.record_malformed();
                Reply::Malformed
            },
            BodyRead::Malformed => {
                stats.record_malformed();
                Reply::Malformed
            },
            BodyRead::Route { mode, command, risk, transport } => {
                let outcome = serve_route(stats, mode, command, risk, transport);
                Reply::Routed { outcome }
            },
            BodyRead::Mirror { command } => {
                let result = serve_mirror(stats, command);
                Reply::Mirrored { result }
            },
            _ => {
                stats.record_not_found();
                Reply::NotFound
            },
        },
    }
}

/// All counters at zero.
pub open spec fn zero_stats() -> Stats {
    Stats {
        routed_real: 0,
        routed_simulation: 0,
        blocked_by_interlock: 0,
        transport_failures: 0,
        mirrored: 0,
        mirror_failures: 0,
        malformed_requests: 0,
        not_found: 0,
    }
}

/// The counters after handling `requests` in order, starting from zero.
pub open spec fn counted_requests(requests: Seq<(RequestPlan, BodyRead)>) -> Stats
    decreases requests.len(),
{
    if requests.len() == 0 {
        zero_stats()
    } else {
        counted_request(
            counted_requests(requests.drop_last()),
            requests.last().0,
            requests.last().1,
        )
    }
}

/// How many of `requests` add to counter `c`.
pub open spec fn times_counted(requests: Seq<(RequestPlan, BodyRead)>, c: Counter) -> nat
    decreases requests.len(),
{
    if requests.len() == 0 {
        0
    } else {
        times_counted(requests.drop_last(), c) + if request_counter(
            requests.last().0,
            requests.last().1,
        ) == Some(c) {
            1nat
        } else {
            0nat
        }
    }
}

/// Over any run of requests handled from a fresh start, each counter holds
/// the number of requests that add to it.
pub proof fn counters_count_requests(requests: Seq<(RequestPlan, BodyRead)>, c: Counter)
    requires
        requests.len() <= u64::MAX,
    ensures
        counter_value(counted_requests(requests), c) == times_counted(requests, c),
        times_counted(requests, c) <= requests.len(),
    decreases requests.len(),
{
    if requests.len() > 0 {
        let rest = requests.drop_last();
        counters_count_requests(rest, c);
        let s = counted_requests(rest);
        let (plan, body) = requests.last();
        match request_counter(plan, body) {
            Some(d) => {
                assert(counter_value(bumped(s, d), c) == if d == c {
                    counter_value(s, c) + 1
                } else {
                    counter_value(s, c) as int
                });
            },
            None => {},
        }
    }
}

/// A request answered "not found" (any method but `POST` to a path other
/// than `/stats`, or a readable `POST` to an unknown path) adds one to the
/// not-found counter and to no other.
pub proof fn not_found_counts_once(s: Stats, path: Seq<char>, method: RequestMethod, body: BodyRead)
    requires
        body_fits(request_plan(path, method), body),
        request_plan(path, method) is NotFound || (request_plan(path, method) == RequestPlan::ReadBody(
            PostTarget::Unknown,
        ) && body is Read),
    ensures
        request_counter(request_plan(path, method), body) == Some(Counter::NotFound),
        forall|c: Counter|
            #![trigger counter_value(counted_request(s, request_plan(path, method), body), c)]
            s.not_found < u64::MAX ==> counter_value(
                counted_request(s, request_plan(path, method), body),
                c,
            ) == if c == Counter::NotFound {
                s.not_found + 1
            } else {
                counter_value(s, c) as int
            },
{
}

/// A route request that leaves out `latency_ms` is served as one with no
/// latency, and one that leaves out `timeout_ms` as one with no budget: a
/// connected transport then always delivers. A disconnected one never does.
pub proof fn omitted_transport_settings(mode: Mode, risk: Option<TwinRiskReport>, t: TransportConfig)
    ensures
        served_outcome(mode, risk, TransportConfig { latency_ms: None, ..t }) == served_outcome(
            mode,
            risk,
            TransportConfig { latency_ms: Some(0), ..t },
        ),
        !t.disconnected && t.latency_ms is None ==> t.send_spec() == Ok::<(), TransportError>(()),
        !t.disconnected && t.timeout_ms is None ==> t.send_spec() == Ok::<(), TransportError>(()),
        t.disconnected ==> t.send_spec() == Err::<(), TransportError>(TransportError::Disconnected),
        !t.simulates() ==> t.send_spec() == Ok::<(), TransportError>(()),
{
}

/// Only a `GET` of `/stats` is answered with the counters; any other
/// request that is not a `POST` is not found before its body is read; a
/// `POST` has its body read and goes to `/route`, `/mirror` or nowhere.
pub proof fn request_plan_meaning(path: Seq<char>, method: RequestMethod)
    ensures
        request_plan(path, method) is ReportStats <==> (path == "/stats"@ && method
            == RequestMethod::Get),
        method != RequestMethod::Post && !(path == "/stats"@ && method == RequestMethod::Get)
            ==> request_plan(path, method) is NotFound,
        method == RequestMethod::Post ==> request_plan(path, method) is ReadBody,
        method == RequestMethod::Post && path == "/route"@ ==> request_plan(path, method)
            == RequestPlan::ReadBody(PostTarget::Route),
        method == RequestMethod::Post && path == "/mirror"@ ==> request_plan(path, method)
            == RequestPlan::ReadBody(PostTarget::Mirror),
        method == RequestMethod::Post && path != "/route"@ && path != "/mirror"@
            ==> request_plan(path, method) == RequestPlan::ReadBody(PostTarget::Unknown),
{
    reveal_strlit("/stats");
    reveal_strlit("/route");
    reveal_strlit("/mirror");
    assert("/stats"@[1] != "/route"@[1]);
    assert("/stats"@[1] != "/mirror"@[1]);
}

/// Each handled request counts where its answer says: a routed request
/// under the counter of its routing outcome, a mirrored one as mirrored,
/// a malformed one as malformed, an unknown one as not found, and the
/// counters report under none.
pub proof fn requests_count_by_their_answer(plan: RequestPlan, body: BodyRead)
    requires
        body_fits(plan, body),
    ensures
        plan is ReportStats ==> request_counter(plan, body) is None,
        plan is NotFound ==> request_counter(plan, body) == Some(Counter::NotFound),
        body is Unreadable || body is Malformed ==> request_counter(plan, body) == Some(
            Counter::MalformedRequests,
        ),
        body is Read ==> request_counter(plan, body) == Some(Counter::NotFound),
        body is Mirror ==> request_counter(plan, body) == Some(Counter::Mirrored),
        body matches BodyRead::Route { mode, risk, transport, .. } ==> ({
            let o = served_outcome(mode, risk, transport);
            &&& o is SentReal ==> request_counter(plan, body) == Some(Counter::RoutedReal)
            &&& o is SentSimulation ==> request_counter(plan, body) == Some(
                Counter::RoutedSimulation,
            )
            &&& o is BlockedByInterlock ==> request_counter(plan, body) == Some(
                Counter::BlockedByInterlock,
            )
            &&& o is TransportFailure ==> request_counter(plan, body) == Some(
                Counter::TransportFailures,
            )
        }),
{
}

/// A request is answered 404 exactly when it counts as not found, 400
/// exactly when it counts as malformed, and 200 otherwise: for the
/// counters report and for every parsed route or mirror request.
pub proof fn replies_carry_their_status(r: Reply, s: Stats, plan: RequestPlan, body: BodyRead)
    requires
        body_fits(plan, body),
        answers(r, s, plan, body),
    ensures
        reply_status(r) == 404 <==> request_counter(plan, body) == Some(Counter::NotFound),
        reply_status(r) == 400 <==> request_counter(plan, body) == Some(Counter::MalformedRequests),
        reply_status(r) == 200 <==> (plan is ReportStats || body is Route || body is Mirror),
        body is Mirror ==> reply_status(r) == 200,
        body is Route ==> reply_status(r) == 200,
{
}

} // verus!
