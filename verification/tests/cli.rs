use hydra_umc_hil_bridge::bridge::RealSink;
use hydra_umc_hil_bridge::cli::{
    command_inputs, find_flag, finish_mirror, finish_route, has_flag, plan_mirror, plan_route,
    real_sink_from_args, route_mode, serve_address, route_report, subcommand, CliReport, Subcommand,
};
use hydra_umc_hil_bridge::bridge::RouteOutcome;
use hydra_umc_hil_bridge::protocol::Mode;

fn args(xs: &[&str]) -> Vec<String> {
    xs.iter().map(|s| s.to_string()).collect()
}

/// Runs `route` the way the program does, reading the floats here.
fn run_route(xs: &[&str]) -> CliReport {
    let a = args(xs);
    match plan_route(&a) {
        Err(report) => report,
        Ok(plan) => {
            let bits = plan.inputs.position_text.parse::<f64>().ok().map(f64::to_bits);
            let distance = plan
                .distance_text
                .as_deref()
                .and_then(|s| s.parse::<f64>().ok())
                .map(f64::to_bits);
            finish_route(plan, bits, distance)
        }
    }
}

fn run_mirror(xs: &[&str]) -> CliReport {
    let a = args(xs);
    match plan_mirror(&a) {
        Err(report) => report,
        Ok(inputs) => {
            let parsed = inputs.position_text.parse::<f64>().ok();
            finish_mirror(inputs, parsed.map(f64::to_bits))
        }
    }
}

#[test]
fn find_flag_takes_the_value_after_the_first_occurrence() {
    let a = args(&["--joint", "a", "--joint", "b"]);
    assert_eq!(find_flag(&a, "--joint"), Some("a".to_string()));
    assert_eq!(find_flag(&a, "--position"), None);
    let a = args(&["--x", "--x", "v"]);
    assert_eq!(find_flag(&a, "--x"), Some("--x".to_string()));
    let a = args(&["--mode"]);
    assert_eq!(find_flag(&a, "--mode"), None);
    let a = args(&["--mode", "real", "--mode"]);
    assert_eq!(find_flag(&a, "--mode"), Some("real".to_string()));
}

#[test]
fn has_flag_anywhere() {
    let a = args(&["--joint", "a", "--collision-risk"]);
    assert!(has_flag(&a, "--collision-risk"));
    assert!(has_flag(&a, "--joint"));
    assert!(!has_flag(&a, "--distance"));
    assert!(!has_flag(&args(&[]), "--joint"));
}

#[test]
fn route_mode_values_and_errors() {
    assert_eq!(route_mode(&args(&["--mode", "real"])), Ok(Mode::Real));
    assert_eq!(route_mode(&args(&["--mode", "simulation"])), Ok(Mode::Simulation));
    assert_eq!(
        route_mode(&args(&["--mode", "bogus"])),
        Err("route: --mode must be 'real' or 'simulation', got 'bogus'".to_string())
    );
    assert_eq!(
        route_mode(&args(&["--joint", "j1"])),
        Err("route: missing required --mode real|simulation".to_string())
    );
}

#[test]
fn command_inputs_errors_in_order() {
    match command_inputs(&args(&["--position", "0.5"])) {
        Err(e) => assert_eq!(e, "missing required --joint NAME"),
        Ok(_) => panic!("expected an error"),
    }
    match command_inputs(&args(&["--joint", "j1"])) {
        Err(e) => assert_eq!(e, "missing required --position VALUE"),
        Ok(_) => panic!("expected an error"),
    }
    match command_inputs(&args(&["--joint", "j1", "--position", "x"])) {
        Ok(i) => {
            assert_eq!(i.joint, "j1");
            assert_eq!(i.position_text, "x");
        }
        Err(_) => panic!("expected inputs"),
    }
}

#[test]
fn route_real_no_risk_is_sent() {
    let r = run_route(&["--mode", "real", "--joint", "shoulder", "--position", "0.5"]);
    assert_eq!(r.message, "SENT: routed to real HYDRA-UMC controller");
    assert_eq!(r.exit_code, 0);
    assert!(!r.to_stderr);
}

#[test]
fn route_real_with_collision_risk_is_blocked() {
    let r = run_route(&[
        "--mode", "real", "--joint", "shoulder", "--position", "0.5", "--collision-risk",
        "--distance", "0.02",
    ]);
    assert_eq!(
        r.message,
        "BLOCKED: safety interlock refused to forward to real hardware (twin reports imminent collision at 0.020m)"
    );
    assert_eq!(r.exit_code, 1);
}

#[test]
fn route_collision_risk_without_distance_quotes_zero() {
    let r = run_route(&["--mode", "real", "--joint", "j1", "--position", "1", "--collision-risk"]);
    assert_eq!(
        r.message,
        "BLOCKED: safety interlock refused to forward to real hardware (twin reports imminent collision at 0.000m)"
    );
}

#[test]
fn route_simulation_ignores_collision_risk() {
    let r = run_route(&[
        "--mode", "simulation", "--joint", "shoulder", "--position", "0.5", "--collision-risk",
        "--distance", "0.02",
    ]);
    assert_eq!(r.message, "SENT: routed to HYDRA-UMC-TWIN (simulation)");
    assert_eq!(r.exit_code, 0);
}

#[test]
fn route_transport_timeout() {
    let r = run_route(&[
        "--mode", "real", "--joint", "shoulder", "--position", "0.5",
        "--transport-timeout-ms", "100", "--transport-latency-ms", "500",
    ]);
    assert_eq!(
        r.message,
        "TRANSPORT FAILURE: command was not confirmed delivered (transport timed out after 100ms)"
    );
    assert_eq!(r.exit_code, 3);
}

#[test]
fn route_transport_disconnected() {
    let r = run_route(&[
        "--mode", "real", "--joint", "shoulder", "--position", "0.5", "--transport-disconnected",
    ]);
    assert_eq!(
        r.message,
        "TRANSPORT FAILURE: command was not confirmed delivered (transport is disconnected)"
    );
    assert_eq!(r.exit_code, 3);
}

#[test]
fn route_usage_errors() {
    let r = run_route(&["--joint", "j1", "--position", "0.5"]);
    assert_eq!(r.message, "route: missing required --mode real|simulation");
    assert_eq!((r.exit_code, r.to_stderr), (2, true));
    let r = run_route(&["--mode", "bogus", "--joint", "j1", "--position", "0.5"]);
    assert_eq!(r.message, "route: --mode must be 'real' or 'simulation', got 'bogus'");
    let r = run_route(&["--mode", "simulation", "--position", "0.5"]);
    assert_eq!(r.message, "route: missing required --joint NAME");
    assert_eq!((r.exit_code, r.to_stderr), (2, true));
    match plan_route(&args(&["--mode", "bogus"])) {
        Err(e) => assert_eq!((e.exit_code, e.to_stderr), (2, true)),
        Ok(_) => panic!("expected a usage error"),
    }
    let r = run_route(&["--mode", "simulation", "--joint", "j1", "--position", "notanumber"]);
    assert_eq!(r.message, "route: 'notanumber' is not a valid number for --position");
    assert_eq!((r.exit_code, r.to_stderr), (2, true));
}

#[test]
fn transport_flags_choose_the_real_sink() {
    match real_sink_from_args(&args(&["--mode", "real"])) {
        RealSink::Recording(_) => {}
        RealSink::Simulated(_) => panic!("no transport flag: expected the recording sink"),
    }
    match real_sink_from_args(&args(&["--transport-latency-ms", "abc"])) {
        RealSink::Simulated(t) => {
            assert!(t.connected);
            assert_eq!((t.latency_ms, t.timeout_ms), (0, u64::MAX));
        }
        RealSink::Recording(_) => panic!("expected the simulated transport"),
    }
    match real_sink_from_args(&args(&["--transport-timeout-ms", "+40", "--transport-latency-ms", "39"])) {
        RealSink::Simulated(t) => assert_eq!((t.latency_ms, t.timeout_ms), (39, 40)),
        RealSink::Recording(_) => panic!("expected the simulated transport"),
    }
}

#[test]
fn unparsable_latency_still_uses_the_simulated_transport() {
    let r = run_route(&["--mode", "real", "--joint", "j1", "--position", "0.5", "--transport-latency-ms", "slow"]);
    assert_eq!(r.message, "SENT: routed to real HYDRA-UMC controller");
}

#[test]
fn route_reports_and_exit_codes() {
    let r = route_report(&RouteOutcome::SentSimulation);
    assert_eq!((r.message.as_str(), r.exit_code), ("SENT: routed to HYDRA-UMC-TWIN (simulation)", 0));
    let r = route_report(&RouteOutcome::BlockedByInterlock { reason: "why".to_string() });
    assert_eq!(
        (r.message.as_str(), r.exit_code),
        ("BLOCKED: safety interlock refused to forward to real hardware (why)", 1)
    );
    let r = route_report(&RouteOutcome::TransportFailure { reason: "lost".to_string() });
    assert_eq!(
        (r.message.as_str(), r.exit_code),
        ("TRANSPORT FAILURE: command was not confirmed delivered (lost)", 3)
    );
}

#[test]
fn mirror_shadows_the_command() {
    let r = run_mirror(&["--joint", "elbow", "--position", "-0.3"]);
    assert_eq!(r.message, "MIRRORED: joint 'elbow' = -0.300000 shadowed into the twin");
    assert_eq!((r.exit_code, r.to_stderr), (0, false));
    let r = run_mirror(&["--joint", "j2", "--position", "-1.25"]);
    assert_eq!(r.message, "MIRRORED: joint 'j2' = -1.250000 shadowed into the twin");
}

#[test]
fn mirror_usage_errors() {
    let r = run_mirror(&["--position", "1"]);
    assert_eq!(r.message, "mirror: missing required --joint NAME");
    assert_eq!((r.exit_code, r.to_stderr), (2, true));
    match plan_mirror(&args(&["--joint", "j1"])) {
        Err(e) => assert_eq!((e.exit_code, e.to_stderr), (2, true)),
        Ok(_) => panic!("expected a usage error"),
    }
    let r = run_mirror(&["--joint", "j1"]);
    assert_eq!(r.message, "mirror: missing required --position VALUE");
    let r = run_mirror(&["--joint", "j1", "--position", "x1"]);
    assert_eq!(r.message, "mirror: 'x1' is not a valid number for --position");
    assert_eq!((r.exit_code, r.to_stderr), (2, true));
}

#[test]
fn subcommand_from_first_argument() {
    assert_eq!(subcommand(&args(&["route", "--mode", "real"])), Subcommand::Route);
    assert_eq!(subcommand(&args(&["mirror"])), Subcommand::Mirror);
    assert_eq!(subcommand(&args(&[])), Subcommand::Identity);
    assert_eq!(subcommand(&args(&["serve", "--port", "9000"])), Subcommand::Serve);
    assert_eq!(subcommand(&args(&["help"])), Subcommand::Identity);
    assert_eq!(subcommand(&args(&["--mode", "route"])), Subcommand::Identity);
}

#[test]
fn serve_address_defaults_and_flags() {
    assert_eq!(serve_address(&args(&[])), "127.0.0.1:8113");
    assert_eq!(
        serve_address(&args(&["--addr", "0.0.0.0", "--port", "9000"])),
        "0.0.0.0:9000"
    );
    assert_eq!(serve_address(&args(&["--port", "1"])), "127.0.0.1:1");
}
