use hydra_umc_hil_bridge::bridge::{RouteOutcome, TransportError};
use hydra_umc_hil_bridge::interlock::TwinRiskReport;
use hydra_umc_hil_bridge::protocol::{JointCommand, Mode};
use hydra_umc_hil_bridge::service::{
    handle_request, BodyRead, Reply, plan_request, serve_mirror, serve_route, PostTarget, RequestMethod, RequestPlan, Stats,
    TransportConfig,
};

fn cmd(joint: &str, position: f64) -> JointCommand {
    JointCommand {
        joint: joint.to_string(),
        position_bits: position.to_bits(),
    }
}

fn no_transport() -> TransportConfig {
    TransportConfig { disconnected: false, latency_ms: None, timeout_ms: None }
}

fn risk(distance_m: f64) -> Option<TwinRiskReport> {
    Some(TwinRiskReport {
        collision_imminent: true,
        distance_bits: distance_m.to_bits(),
    })
}

/// Handles one request the way the service loop does.
fn handle(stats: &mut Stats, target: &str, method: RequestMethod, body: BodyRead) -> Reply {
    let plan = plan_request(target, method);
    assert!(stats.has_room_for(plan, &body));
    handle_request(stats, plan, body)
}

fn route_body(mode: Mode, risk: Option<TwinRiskReport>, transport: TransportConfig) -> BodyRead {
    BodyRead::Route { mode, command: cmd("shoulder", 1.0), risk, transport }
}

#[test]
fn stats_reports_real_process_lifetime_counters() {
    let mut stats = Stats::new();

    let reply = handle(&mut stats, "/stats", RequestMethod::Get, BodyRead::NotRead);
    assert_eq!(reply.status(), 200);

    handle(&mut stats, "/route", RequestMethod::Post, route_body(Mode::Real, None, no_transport()));
    handle(&mut stats, "/route", RequestMethod::Post, route_body(Mode::Simulation, None, no_transport()));
    handle(&mut stats, "/route", RequestMethod::Post, route_body(Mode::Real, risk(0.1), no_transport()));
    handle(
        &mut stats,
        "/route",
        RequestMethod::Post,
        route_body(
            Mode::Real,
            None,
            TransportConfig { disconnected: true, latency_ms: None, timeout_ms: None },
        ),
    );
    // The body "not json" does not parse as a route request.
    handle(&mut stats, "/route", RequestMethod::Post, BodyRead::Malformed);
    handle(&mut stats, "/mirror", RequestMethod::Post, BodyRead::Mirror { command: cmd("elbow", 0.5) });
    handle(&mut stats, "/nope", RequestMethod::Get, BodyRead::NotRead);

    let reply = handle(&mut stats, "/stats", RequestMethod::Get, BodyRead::NotRead);
    assert_eq!(reply.status(), 200);
    let counters = match reply {
        Reply::Stats { stats } => stats,
        _ => panic!("stats must report the counters"),
    };
    assert_eq!(counters.routed_real, 1);
    assert_eq!(counters.routed_simulation, 1);
    assert_eq!(counters.blocked_by_interlock, 1);
    assert_eq!(counters.transport_failures, 1);
    assert_eq!(counters.mirrored, 1);
    assert_eq!(counters.malformed_requests, 1);
    assert_eq!(counters.not_found, 1);
}

#[test]
fn request_plans() {
    assert_eq!(plan_request("/stats?verbose=1", RequestMethod::Get), RequestPlan::ReportStats);
    assert_eq!(plan_request("/stats", RequestMethod::Post), RequestPlan::ReadBody(PostTarget::Unknown));
    assert_eq!(plan_request("/route", RequestMethod::Get), RequestPlan::NotFound);
    assert_eq!(plan_request("/route", RequestMethod::Other), RequestPlan::NotFound);
    assert_eq!(plan_request("/route?x", RequestMethod::Post), RequestPlan::ReadBody(PostTarget::Route));
    assert_eq!(plan_request("/mirror?", RequestMethod::Post), RequestPlan::ReadBody(PostTarget::Mirror));
    assert_eq!(plan_request("/nope", RequestMethod::Post), RequestPlan::ReadBody(PostTarget::Unknown));
    assert_eq!(plan_request("?/stats", RequestMethod::Get), RequestPlan::NotFound);
}

#[test]
fn serve_route_outcomes() {
    let mut stats = Stats::new();
    assert_eq!(
        serve_route(&mut stats, Mode::Real, cmd("j1", 1.0), None, no_transport()),
        RouteOutcome::SentReal
    );
    assert_eq!(
        serve_route(&mut stats, Mode::Real, cmd("j1", 1.0), risk(0.02), no_transport()),
        RouteOutcome::BlockedByInterlock {
            reason: "twin reports imminent collision at 0.020m".to_string()
        }
    );
    assert_eq!(
        serve_route(
            &mut stats,
            Mode::Real,
            cmd("j1", 1.0),
            None,
            TransportConfig { disconnected: false, latency_ms: Some(500), timeout_ms: Some(100) }
        ),
        RouteOutcome::TransportFailure {
            reason: "transport timed out after 100ms".to_string()
        }
    );
    assert_eq!(
        serve_route(
            &mut stats,
            Mode::Real,
            cmd("j1", 1.0),
            None,
            TransportConfig { disconnected: false, latency_ms: Some(500), timeout_ms: None }
        ),
        RouteOutcome::SentReal
    );
    assert_eq!(
        serve_route(&mut stats, Mode::Simulation, cmd("j1", 1.0), risk(0.0), no_transport()),
        RouteOutcome::SentSimulation
    );
    assert_eq!(stats.routed_real, 2);
    assert_eq!(stats.blocked_by_interlock, 1);
    assert_eq!(stats.transport_failures, 1);
    assert_eq!(stats.routed_simulation, 1);
}

#[test]
fn stats_counters_count_one_at_a_time() {
    let mut stats = Stats::new();
    stats.record_mirror(&Err(TransportError::Disconnected));
    stats.record_route(&RouteOutcome::TransportFailure { reason: String::new() });
    stats.record_not_found();
    stats.record_not_found();
    assert_eq!(stats.mirror_failures, 1);
    assert_eq!(stats.mirrored, 0);
    assert_eq!(stats.transport_failures, 1);
    assert_eq!(stats.not_found, 2);
    assert_eq!(stats.malformed_requests, 0);
}

#[test]
fn mirror_request_is_delivered() {
    let mut stats = Stats::new();
    assert_eq!(serve_mirror(&mut stats, cmd("elbow", 0.5)), Ok(()));
    assert_eq!(stats.mirrored, 1);
}

#[test]
fn handled_requests_answer_and_count() {
    let mut stats = Stats::new();

    let plan = plan_request("/nope", RequestMethod::Get);
    let reply = handle_request(&mut stats, plan, BodyRead::NotRead);
    assert!(matches!(reply, Reply::NotFound));
    assert_eq!(reply.status(), 404);
    assert_eq!(stats.not_found, 1);

    let plan = plan_request("/elsewhere", RequestMethod::Post);
    let reply = handle_request(&mut stats, plan, BodyRead::Read);
    assert_eq!(reply.status(), 404);
    assert_eq!(stats.not_found, 2);

    let plan = plan_request("/route", RequestMethod::Post);
    let reply = handle_request(&mut stats, plan, BodyRead::Unreadable);
    assert!(matches!(reply, Reply::Malformed));
    assert_eq!(reply.status(), 400);
    let reply = handle_request(&mut stats, plan, BodyRead::Malformed);
    assert_eq!(reply.status(), 400);
    assert_eq!(stats.malformed_requests, 2);

    let reply = handle_request(
        &mut stats,
        plan,
        BodyRead::Route { mode: Mode::Real, command: cmd("j1", 1.0), risk: risk(0.02), transport: no_transport() },
    );
    assert_eq!(reply.status(), 200);
    match reply {
        Reply::Routed { outcome } => assert_eq!(
            outcome,
            RouteOutcome::BlockedByInterlock {
                reason: "twin reports imminent collision at 0.020m".to_string()
            }
        ),
        _ => panic!("expected a routing outcome"),
    }

    let plan = plan_request("/mirror", RequestMethod::Post);
    let reply = handle_request(&mut stats, plan, BodyRead::Mirror { command: cmd("elbow", 0.5) });
    assert!(matches!(reply, Reply::Mirrored { result: Ok(()) }));

    let plan = plan_request("/stats", RequestMethod::Get);
    match handle_request(&mut stats, plan, BodyRead::NotRead) {
        Reply::Stats { stats: counters } => {
            assert_eq!(counters.not_found, 2);
            assert_eq!(counters.malformed_requests, 2);
            assert_eq!(counters.blocked_by_interlock, 1);
            assert_eq!(counters.mirrored, 1);
        }
        _ => panic!("expected the counters report"),
    }
    assert_eq!(stats.not_found, 2);
}

#[test]
fn room_for_counting() {
    let mut stats = Stats::new();
    stats.not_found = u64::MAX;
    assert!(!stats.has_room_for(RequestPlan::NotFound, &BodyRead::NotRead));
    assert!(stats.has_room_for(RequestPlan::ReportStats, &BodyRead::NotRead));
    assert!(stats.has_room_for(RequestPlan::ReadBody(PostTarget::Route), &BodyRead::Malformed));
}
