use hydra_umc_hil_bridge::interlock::{assess_interlock, InterlockDecision, TwinRiskReport};

fn report(collision_imminent: bool, distance_m: f64) -> TwinRiskReport {
    TwinRiskReport {
        collision_imminent,
        distance_bits: distance_m.to_bits(),
    }
}

#[test]
fn no_risk_allows() {
    let risk = report(false, 2.0);
    assert_eq!(assess_interlock(&risk), InterlockDecision::Allow);
}

#[test]
fn imminent_collision_blocks() {
    let risk = report(true, 0.02);
    match assess_interlock(&risk) {
        InterlockDecision::Block { reason } => assert!(reason.contains("0.020")),
        InterlockDecision::Allow => panic!("expected Block"),
    }
}

#[test]
fn far_distance_without_imminent_flag_still_allows() {
    let risk = report(false, 0.001);
    assert_eq!(assess_interlock(&risk), InterlockDecision::Allow);
}

#[test]
fn block_reason_is_exact() {
    let risk = report(true, 12.3456);
    assert_eq!(
        assess_interlock(&risk),
        InterlockDecision::Block {
            reason: "twin reports imminent collision at 12.346m".to_string()
        }
    );
}

#[test]
fn block_ignores_large_distance() {
    let risk = report(true, 1000.0);
    assert!(matches!(assess_interlock(&risk), InterlockDecision::Block { .. }));
}
