use hydra_umc_hil_bridge::bridge::{
    outcome_of_delivery, Bridge, CommandSink, RealSink, RecordingSink, RouteOutcome, SimulatedTransport, TransportError,
};
use hydra_umc_hil_bridge::interlock::TwinRiskReport;
use hydra_umc_hil_bridge::protocol::{JointCommand, Mode};

fn cmd(joint: &str, position: f64) -> JointCommand {
    JointCommand {
        joint: joint.to_string(),
        position_bits: position.to_bits(),
    }
}

fn risk(collision_imminent: bool, distance_m: f64) -> TwinRiskReport {
    TwinRiskReport {
        collision_imminent,
        distance_bits: distance_m.to_bits(),
    }
}

#[test]
fn simulation_mode_always_routes_to_sim_sink() {
    let bridge = Bridge::new(Mode::Simulation);
    let mut real = RecordingSink::default();
    let mut sim = RecordingSink::default();
    let risk = Some(risk(true, 0.0));
    let outcome = bridge.route_command(cmd("j1", 0.5), risk, &mut real, &mut sim);
    assert_eq!(outcome, RouteOutcome::SentSimulation);
    assert_eq!(sim.received.len(), 1);
    assert!(real.received.is_empty());
}

#[test]
fn real_mode_routes_to_real_sink_when_no_risk() {
    let bridge = Bridge::new(Mode::Real);
    let mut real = RecordingSink::default();
    let mut sim = RecordingSink::default();
    let outcome = bridge.route_command(cmd("j1", 0.5), None, &mut real, &mut sim);
    assert_eq!(outcome, RouteOutcome::SentReal);
    assert_eq!(real.received.len(), 1);
    assert!(sim.received.is_empty());
}

#[test]
fn real_mode_blocked_by_interlock_never_reaches_real_sink() {
    let bridge = Bridge::new(Mode::Real);
    let mut real = RecordingSink::default();
    let mut sim = RecordingSink::default();
    let risk = Some(risk(true, 0.01));
    let outcome = bridge.route_command(cmd("j1", 0.5), risk, &mut real, &mut sim);
    assert!(matches!(outcome, RouteOutcome::BlockedByInterlock { .. }));
    assert!(real.received.is_empty());
}

#[test]
fn mirror_reaches_sink_regardless_of_mode() {
    let bridge = Bridge::new(Mode::Real);
    let mut mirror = RecordingSink::default();
    let result = bridge.mirror_command(&cmd("j1", 1.0), &mut mirror);
    assert_eq!(result, Ok(()));
    assert_eq!(mirror.received.len(), 1);
}

#[test]
fn simulated_transport_healthy_delivers_the_command() {
    let mut transport = SimulatedTransport::healthy();
    let result = transport.send(&cmd("j1", 0.5));
    assert_eq!(result, Ok(()));
    assert_eq!(transport.received.len(), 1);
}

#[test]
fn simulated_transport_disconnected_fails_safe_without_hardware() {
    let mut transport = SimulatedTransport::disconnected();
    let result = transport.send(&cmd("j1", 0.5));
    assert_eq!(result, Err(TransportError::Disconnected));
    assert!(transport.received.is_empty());
}

#[test]
fn simulated_transport_verifiable_timeout_when_latency_exceeds_budget() {
    let mut transport = SimulatedTransport::healthy().with_timeout(150, 100);
    let result = transport.send(&cmd("j1", 0.5));
    assert_eq!(result, Err(TransportError::Timeout { after_ms: 100 }));
    assert!(transport.received.is_empty());
}

#[test]
fn simulated_transport_latency_at_exactly_the_timeout_still_succeeds() {
    let mut transport = SimulatedTransport::healthy().with_timeout(100, 100);
    let result = transport.send(&cmd("j1", 0.5));
    assert_eq!(result, Ok(()));
    assert_eq!(transport.received.len(), 1);
}

#[test]
fn simulated_transport_preserves_confirmed_command_order() {
    let mut transport = SimulatedTransport::healthy();
    transport.send(&cmd("j1", 0.1)).unwrap();
    transport.send(&cmd("j2", 0.2)).unwrap();
    assert_eq!(transport.received, vec![cmd("j1", 0.1), cmd("j2", 0.2)]);
}

#[test]
fn real_mode_transport_timeout_never_reports_sent_real() {
    let bridge = Bridge::new(Mode::Real);
    let mut real = SimulatedTransport::healthy().with_timeout(500, 100);
    let mut sim = RecordingSink::default();
    let outcome = bridge.route_command(cmd("j1", 0.5), None, &mut real, &mut sim);
    assert_eq!(
        outcome,
        RouteOutcome::TransportFailure {
            reason: "transport timed out after 100ms".to_string()
        }
    );
    assert!(real.received.is_empty());
}

#[test]
fn real_mode_disconnected_transport_never_reports_sent_real() {
    let bridge = Bridge::new(Mode::Real);
    let mut real = SimulatedTransport::disconnected();
    let mut sim = RecordingSink::default();
    let outcome = bridge.route_command(cmd("j1", 0.5), None, &mut real, &mut sim);
    assert_eq!(
        outcome,
        RouteOutcome::TransportFailure {
            reason: "transport is disconnected".to_string()
        }
    );
}

#[test]
fn interlock_block_takes_precedence_over_transport_state() {
    let bridge = Bridge::new(Mode::Real);
    let mut real = SimulatedTransport::healthy();
    let mut sim = RecordingSink::default();
    let risk = Some(risk(true, 0.01));
    let outcome = bridge.route_command(cmd("j1", 0.5), risk, &mut real, &mut sim);
    assert!(matches!(outcome, RouteOutcome::BlockedByInterlock { .. }));
    assert!(real.received.is_empty());
}

#[test]
fn blocked_outcome_quotes_the_twin_distance() {
    let bridge = Bridge::new(Mode::Real);
    let mut real = RecordingSink::default();
    let mut sim = RecordingSink::default();
    let outcome = bridge.route_command(cmd("j1", 0.5), Some(risk(true, 0.02)), &mut real, &mut sim);
    assert_eq!(
        outcome,
        RouteOutcome::BlockedByInterlock {
            reason: "twin reports imminent collision at 0.020m".to_string()
        }
    );
    assert!(sim.received.is_empty());
}

#[test]
fn real_mode_without_imminent_flag_is_sent() {
    let bridge = Bridge::new(Mode::Real);
    let mut real = RecordingSink::default();
    let mut sim = RecordingSink::default();
    let outcome = bridge.route_command(cmd("j3", -1.25), Some(risk(false, 0.001)), &mut real, &mut sim);
    assert_eq!(outcome, RouteOutcome::SentReal);
    assert_eq!(real.received, vec![cmd("j3", -1.25)]);
}

#[test]
fn simulation_mode_transport_failure_is_reported() {
    let bridge = Bridge::new(Mode::Simulation);
    let mut real = RecordingSink::default();
    let mut sim = SimulatedTransport::disconnected();
    let outcome = bridge.route_command(cmd("j1", 0.5), None, &mut real, &mut sim);
    assert_eq!(
        outcome,
        RouteOutcome::TransportFailure {
            reason: "transport is disconnected".to_string()
        }
    );
    assert!(real.received.is_empty());
}

#[test]
fn mirror_failure_is_returned_not_swallowed() {
    let bridge = Bridge::new(Mode::Simulation);
    let mut mirror = SimulatedTransport::healthy().with_timeout(7, 3);
    let result = bridge.mirror_command(&cmd("j1", 1.0), &mut mirror);
    assert_eq!(result, Err(TransportError::Timeout { after_ms: 3 }));
    assert!(mirror.received.is_empty());
}

#[test]
fn disconnected_wins_over_latency() {
    let mut transport = SimulatedTransport::disconnected().with_timeout(900, 1);
    assert_eq!(transport.send(&cmd("j1", 0.5)), Err(TransportError::Disconnected));
}

#[test]
fn transport_error_messages() {
    assert_eq!(
        TransportError::Timeout { after_ms: 0 }.to_string(),
        "transport timed out after 0ms"
    );
    assert_eq!(
        TransportError::Timeout { after_ms: 18446744073709551615 }.to_string(),
        "transport timed out after 18446744073709551615ms"
    );
    assert_eq!(
        TransportError::Timeout { after_ms: 1040 }.to_string(),
        "transport timed out after 1040ms"
    );
    assert_eq!(TransportError::Disconnected.to_string(), "transport is disconnected");
}

#[test]
fn outcome_of_delivery_for_each_result() {
    assert_eq!(outcome_of_delivery(Mode::Real, Ok(())), RouteOutcome::SentReal);
    assert_eq!(outcome_of_delivery(Mode::Simulation, Ok(())), RouteOutcome::SentSimulation);
    assert_eq!(
        outcome_of_delivery(Mode::Real, Err(TransportError::Timeout { after_ms: 25 })),
        RouteOutcome::TransportFailure {
            reason: "transport timed out after 25ms".to_string()
        }
    );
}

#[test]
fn configured_real_sinks() {
    match RealSink::configured(false, true, 5, 1) {
        RealSink::Recording(s) => assert!(s.received.is_empty()),
        RealSink::Simulated(_) => panic!("expected the recording sink"),
    }
    match RealSink::configured(true, false, 5, 1) {
        RealSink::Simulated(t) => {
            assert!(t.connected);
            assert_eq!((t.latency_ms, t.timeout_ms), (5, 1));
        }
        RealSink::Recording(_) => panic!("expected the simulated transport"),
    }
    match RealSink::configured(true, true, 5, 1) {
        RealSink::Simulated(t) => {
            assert!(!t.connected);
            assert_eq!((t.latency_ms, t.timeout_ms), (0, u64::MAX));
        }
        RealSink::Recording(_) => panic!("expected the simulated transport"),
    }
}

#[test]
fn real_sink_delegates_sends() {
    let mut sink = RealSink::configured(true, false, 10, 20);
    assert_eq!(sink.send(&cmd("j1", 0.5)), Ok(()));
    match sink {
        RealSink::Simulated(t) => assert_eq!(t.received, vec![cmd("j1", 0.5)]),
        RealSink::Recording(_) => panic!("expected the simulated transport"),
    }
}

#[test]
fn joint_command_copies_are_equal() {
    let c = cmd("wrist", 3.5);
    assert_eq!(c.duplicate(), c);
    assert_eq!(c.clone(), c);
}

#[test]
fn joint_commands_compare_positions_as_floats() {
    assert_eq!(cmd("j1", 0.0), cmd("j1", -0.0));
    assert_ne!(cmd("j1", f64::NAN), cmd("j1", f64::NAN));
    assert_ne!(cmd("j1", 0.5), cmd("j2", 0.5));
    assert_ne!(cmd("j1", 0.5), cmd("j1", 0.25));
}

#[test]
fn risk_reports_compare_distances_as_floats() {
    assert_ne!(risk(true, 0.0201), risk(true, 0.0202));
    assert_eq!(risk(true, 0.0), risk(true, -0.0));
    assert_ne!(risk(true, 0.5), risk(false, 0.5));
    assert_ne!(risk(true, f64::NAN), risk(true, f64::NAN));
}

#[test]
fn routing_keeps_the_transport_settings() {
    let bridge = Bridge::new(Mode::Real);
    let mut real = SimulatedTransport::healthy().with_timeout(20, 30);
    let mut sim = RecordingSink::default();
    assert_eq!(bridge.route_command(cmd("j1", 0.5), None, &mut real, &mut sim), RouteOutcome::SentReal);
    assert_eq!(bridge.route_command(cmd("j2", 0.5), None, &mut real, &mut sim), RouteOutcome::SentReal);
    assert!(real.connected);
    assert_eq!((real.latency_ms, real.timeout_ms), (20, 30));
    assert_eq!(real.received, vec![cmd("j1", 0.5), cmd("j2", 0.5)]);
}
