//! The command line: reading flags, planning a `route` or `mirror` run,
//! and the report (message and exit code) each run ends with.
//!
//! Reading and rendering the floating-point position and distance is not
//! done here: a caller hands those in already parsed or rendered.

use vstd::prelude::*;

use crate::bridge::{
    TransportError, configured_send, routed_outcome, Bridge, CommandSink, OutcomeView, RealSink, RecordingSink,
    RouteOutcome,
};
use crate::binary64::{fixed_text, is_nan, lemma_fixed_text_sign, render_fixed, sign_negative};
use crate::interlock::TwinRiskReport;
use crate::protocol::{JointCommand, Mode};
use crate::text::{parse_u64, parse_u64_spec, str_eq, text_result};

verus! {

/// Whether `i` is the first position at which `flag` occurs in `args`.
pub open spec fn first_at(args: Seq<String>, flag: Seq<char>, i: int) -> bool {
    &&& 0 <= i < args.len()
    &&& args[i]@ == flag
    &&& forall|j: int| 0 <= j < i ==> args[j]@ != flag
}

/// Whether `flag` occurs anywhere in `args`.
pub open spec fn has_flag_spec(args: Seq<String>, flag: Seq<char>) -> bool {
    exists|i: int| 0 <= i < args.len() && #[trigger] args[i]@ == flag
}

/// The argument right after the first occurrence of `flag`, if both exist.
pub open spec fn find_flag_spec(args: Seq<String>, flag: Seq<char>) -> Option<String> {
    if exists|i: int| first_at(args, flag, i) {
        let i = choose|i: int| first_at(args, flag, i);
        if i + 1 < args.len() {
            Some(args[i + 1])
        } else {
            None
        }
    } else {
        None
    }
}

/// The value given after the first occurrence of `flag`.
pub fn find_flag(args: &[String], flag: &str) -> (r: Option<String>)
    ensures
        r == find_flag_spec(args@, flag@),
{
    let mut i: usize = 0;
    while i < args.len()
        invariant
            i <= args@.len(),
            forall|j: int| 0 <= j < i ==> args@[j]@ != flag@,
        decreases args@.len() - i,
    {
        if str_eq(args[i].as_str(), flag) {
            proof {
                assert(first_at(args@, flag@, i as int));
                let k = choose|k: int| first_at(args@, flag@, k);
                assert(k == i);
            }
            if i + 1 < args.len() {
                return Some(args[i + 1].clone());
            }
            return None;
        }
        i = i + 1;
    }
    assert(!exists|k: int| first_at(args@, flag@, k));
    None
}

/// Whether `flag` occurs among the arguments.
pub fn has_flag(args: &[String], flag: &str) -> (r: bool)
    ensures
        r == has_flag_spec(args@, flag@),
{
    let mut i: usize = 0;
    while i < args.len()
        invariant
            i <= args@.len(),
            forall|j: int| 0 <= j < i ==> args@[j]@ != flag@,
        decreases args@.len() - i,
    {
        if str_eq(args[i].as_str(), flag) {
            return true;
        }
        i = i + 1;
    }
    false
}

/// A flag that has a value also counts as present.
pub proof fn found_flag_is_present(args: Seq<String>, flag: Seq<char>)
    ensures
        find_flag_spec(args, flag) is Some ==> has_flag_spec(args, flag),
{
    if find_flag_spec(args, flag) is Some {
        let i = choose|i: int| first_at(args, flag, i);
        assert(args[i]@ == flag);
    }
}

/// A flag's value is the argument right after the flag's first
/// occurrence, when there is one.
pub proof fn find_flag_meaning(args: Seq<String>, flag: Seq<char>)
    ensures
        find_flag_spec(args, flag) matches Some(v) ==> exists|i: int|
            0 <= i && i + 1 < args.len() && args[i]@ == flag && args[i + 1] == v && (forall|j: int|
                0 <= j < i ==> #[trigger] args[j]@ != flag),
        (exists|i: int| 0 <= i && i + 1 < args.len() && #[trigger] args[i]@ == flag)
            ==> find_flag_spec(args, flag) is Some,
{
    if find_flag_spec(args, flag) is Some {
        let i = choose|i: int| first_at(args, flag, i);
        assert(0 <= i && i + 1 < args.len() && args[i]@ == flag);
    }
    if exists|i: int| 0 <= i && i + 1 < args.len() && #[trigger] args[i]@ == flag {
        let k = choose|i: int| 0 <= i && i + 1 < args.len() && #[trigger] args[i]@ == flag;
        lemma_first_occurrence(args, flag, k);
    }
}

/// Where `flag` occurs at `k`, it first occurs at or before `k`.
proof fn lemma_first_occurrence(args: Seq<String>, flag: Seq<char>, k: int)
    requires
        0 <= k < args.len(),
        args[k]@ == flag,
    ensures
        exists|i: int| first_at(args, flag, i) && i <= k,
    decreases k,
{
    if forall|j: int| 0 <= j < k ==> args[j]@ != flag {
        assert(first_at(args, flag, k));
    } else {
        let j = choose|j: int| 0 <= j < k && args[j]@ == flag;
        lemma_first_occurrence(args, flag, j);
    }
}

/// The mode a `route` run asks for, or the usage error it ends with.
pub open spec fn mode_choice(args: Seq<String>) -> Result<Mode, Seq<char>> {
    match find_flag_spec(args, "--mode"@) {
        Some(v) => if v@ == "real"@ {
            Ok(Mode::Real)
        } else if v@ == "simulation"@ {
            Ok(Mode::Simulation)
        } else {
            Err("route: --mode must be 'real' or 'simulation', got '"@ + v@ + "'"@)
        },
        None => Err("route: missing required --mode real|simulation"@),
    }
}

/// Reads `--mode`.
pub fn route_mode(args: &[String]) -> (r: Result<Mode, String>)
    ensures
        text_result(r) == mode_choice(args@),
{
    match find_flag(args, "--mode") {
        Some(v) => {
            if str_eq(v.as_str(), "real") {
                Ok(Mode::Real)
            } else if str_eq(v.as_str(), "simulation") {
                Ok(Mode::Simulation)
            } else {
                let mut e = String::from_str("route: --mode must be 'real' or 'simulation', got '");
                e.append(v.as_str());
                e.append("'");
                Err(e)
            }
        },
        None => Err(String::from_str("route: missing required --mode real|simulation")),
    }
}

/// The joint and the position text a command is made of, before the
/// position is read as a number.
pub struct CommandInputs {
    pub joint: String,
    pub position_text: String,
}

/// The inputs of a command, or the usage error for the first one missing.
pub open spec fn command_inputs_spec(args: Seq<String>) -> Result<CommandInputs, Seq<char>> {
    match find_flag_spec(args, "--joint"@) {
        None => Err("missing required --joint NAME"@),
        Some(joint) => match find_flag_spec(args, "--position"@) {
            None => Err("missing required --position VALUE"@),
            Some(position_text) => Ok(CommandInputs { joint, position_text }),
        },
    }
}

/// Reads `--joint` and `--position`.
pub fn command_inputs(args: &[String]) -> (r: Result<CommandInputs, String>)
    ensures
        text_result(r) == command_inputs_spec(args@),
{
    let joint = match find_flag(args, "--joint") {
        Some(j) => j,
        None => return Err(String::from_str("missing required --joint NAME")),
    };
    let position_text = match find_flag(args, "--position") {
        Some(p) => p,
        None => return Err(String::from_str("missing required --position VALUE")),
    };
    Ok(CommandInputs { joint, position_text })
}

/// The complaint about a position that is not a number, for the
/// subcommand `which`.
pub open spec fn invalid_position_message(which: Seq<char>, position_text: Seq<char>) -> Seq<char> {
    which + ": '"@ + position_text + "' is not a valid number for --position"@
}

/// What a run prints and the exit code it ends with.
pub struct CliReport {
    pub message: String,
    pub exit_code: u8,
    /// Whether the message goes to standard error rather than output.
    pub to_stderr: bool,
}

/// A `u64` flag's value: the number after the flag's first occurrence,
/// or `default` where it is absent or not a number.
pub open spec fn flag_number(args: Seq<String>, flag: Seq<char>, default: u64) -> u64 {
    match find_flag_spec(args, flag) {
        Some(v) => match parse_u64_spec(v@) {
            Some(n) => n,
            None => default,
        },
        None => default,
    }
}

/// Whether any of the transport flags asks for the simulated transport.
pub open spec fn simulate_transport(args: Seq<String>) -> bool {
    ||| has_flag_spec(args, "--transport-disconnected"@)
    ||| has_flag_spec(args, "--transport-latency-ms"@)
    ||| has_flag_spec(args, "--transport-timeout-ms"@)
}

/// Reads a `u64` flag.
fn flag_number_of(args: &[String], flag: &str, default: u64) -> (r: u64)
    ensures
        r == flag_number(args@, flag@, default),
        find_flag_spec(args@, flag@) is None ==> r == default,
{
    match find_flag(args, flag) {
        Some(v) => match parse_u64(v.as_str()) {
            Some(n) => n,
            None => default,
        },
        None => default,
    }
}

/// The sink a `route` run uses for real hardware, from its transport flags.
pub fn real_sink_from_args(args: &[String]) -> (r: RealSink)
    ensures
        r.set_up_as(
            simulate_transport(args@),
            has_flag_spec(args@, "--transport-disconnected"@),
            flag_number(args@, "--transport-latency-ms"@, 0),
            flag_number(args@, "--transport-timeout-ms"@, u64::MAX),
        ),
        r.predicted_send() == Some(
            configured_send(
                simulate_transport(args@),
                has_flag_spec(args@, "--transport-disconnected"@),
                flag_number(args@, "--transport-latency-ms"@, 0),
                flag_number(args@, "--transport-timeout-ms"@, u64::MAX),
            ),
        ),
{
    let disconnected = has_flag(args, "--transport-disconnected");
    let latency_ms = flag_number_of(args, "--transport-latency-ms", 0);
    let timeout_ms = flag_number_of(args, "--transport-timeout-ms", u64::MAX);
    let simulate = disconnected || has_flag(args, "--transport-latency-ms") || has_flag(
        args,
        "--transport-timeout-ms",
    );
    RealSink::configured(simulate, disconnected, latency_ms, timeout_ms)
}

/// Everything a `route` run reads from its arguments.
pub struct RoutePlan {
    pub mode: Mode,
    pub inputs: CommandInputs,
    /// Whether the twin is to be taken as reporting an imminent collision.
    pub collision_risk: bool,
    /// The text given after `--distance`, if any.
    pub distance_text: Option<String>,
    pub real_sink: RealSink,
}

/// The report of a run that ends on a usage error: the message on
/// standard error, exit code 2.
fn usage_error(message: String) -> (r: CliReport)
    ensures
        r.message == message,
        r.exit_code == 2,
        r.to_stderr,
{
    CliReport { message, exit_code: 2, to_stderr: true }
}

/// Reads the arguments of a `route` run, or gives the usage-error report
/// that ends it (exit code 2, on standard error): the mode is checked
/// first, then the command's inputs.
pub fn plan_route(args: &[String]) -> (r: Result<RoutePlan, CliReport>)
    ensures
        r matches Err(e) ==> {
            &&& e.exit_code == 2
            &&& e.to_stderr
            &&& {
                ||| mode_choice(args@) matches Err(m) && e.message@ == m
                ||| mode_choice(args@) is Ok && (command_inputs_spec(args@) matches Err(m)
                    && e.message@ == "route: "@ + m)
            }
        },
        r matches Ok(p) ==> {
            &&& mode_choice(args@) == Ok::<Mode, Seq<char>>(p.mode)
            &&& command_inputs_spec(args@) == Ok::<CommandInputs, Seq<char>>(p.inputs)
            &&& p.collision_risk == has_flag_spec(args@, "--collision-risk"@)
            &&& p.distance_text == find_flag_spec(args@, "--distance"@)
            &&& p.real_sink.set_up_as(
                simulate_transport(args@),
                has_flag_spec(args@, "--transport-disconnected"@),
                flag_number(args@, "--transport-latency-ms"@, 0),
                flag_number(args@, "--transport-timeout-ms"@, u64::MAX),
            )
        },
{
    let mode = match route_mode(args) {
        Ok(m) => m,
        Err(e) => return Err(usage_error(e)),
    };
    let inputs = match command_inputs(args) {
        Ok(i) => i,
        Err(e) => {
            let mut m = String::from_str("route: ");
            m.append(e.as_str());
            return Err(usage_error(m));
        },
    };
    let collision_risk = has_flag(args, "--collision-risk");
    let distance_text = find_flag(args, "--distance");
    let real_sink = real_sink_from_args(args);
    Ok(RoutePlan { mode, inputs, collision_risk, distance_text, real_sink })
}

/// The message a `route` run prints for its outcome.
pub open spec fn route_message(o: OutcomeView) -> Seq<char> {
    match o {
        OutcomeView::SentReal => "SENT: routed to real HYDRA-UMC controller"@,
        OutcomeView::SentSimulation => "SENT: routed to HYDRA-UMC-TWIN (simulation)"@,
        OutcomeView::BlockedByInterlock { reason } =>
            "BLOCKED: safety interlock refused to forward to real hardware ("@ + reason + ")"@,
        OutcomeView::TransportFailure { reason } =>
            "TRANSPORT FAILURE: command was not confirmed delivered ("@ + reason + ")"@,
    }
}

/// The exit code of a `route` run: 0 sent, 1 blocked by the interlock,
/// 3 not confirmed delivered.
pub open spec fn route_exit_code(o: OutcomeView) -> u8 {
    match o {
        OutcomeView::SentReal => 0,
        OutcomeView::SentSimulation => 0,
        OutcomeView::BlockedByInterlock { .. } => 1,
        OutcomeView::TransportFailure { .. } => 3,
    }
}

/// A `route` run exits with 0 exactly when its command was sent, and
/// tells a block by the interlock (1) apart from a failed delivery (3).
pub proof fn route_exit_code_tells_outcomes_apart(o: OutcomeView)
    ensures
        route_exit_code(o) == 0 <==> (o is SentReal || o is SentSimulation),
        route_exit_code(o) == 1 <==> o is BlockedByInterlock,
        route_exit_code(o) == 3 <==> o is TransportFailure,
{
}

/// The report a `route` run ends with for `outcome`.
pub fn route_report(outcome: &RouteOutcome) -> (r: CliReport)
    ensures
        r.message@ == route_message(outcome@),
        r.exit_code == route_exit_code(outcome@),
        !r.to_stderr,
{
    match outcome {
        RouteOutcome::SentReal => CliReport {
            message: String::from_str("SENT: routed to real HYDRA-UMC controller"),
            exit_code: 0,
            to_stderr: false,
        },
        RouteOutcome::SentSimulation => CliReport {
            message: String::from_str("SENT: routed to HYDRA-UMC-TWIN (simulation)"),
            exit_code: 0,
            to_stderr: false,
        },
        RouteOutcome::BlockedByInterlock { reason } => {
            let mut m = String::from_str(
                "BLOCKED: safety interlock refused to forward to real hardware (",
            );
            m.append(reason.as_str());
            m.append(")");
            CliReport { message: m, exit_code: 1, to_stderr: false }
        },
        RouteOutcome::TransportFailure { reason } => {
            let mut m = String::from_str("TRANSPORT FAILURE: command was not confirmed delivered (");
            m.append(reason.as_str());
            m.append(")");
            CliReport { message: m, exit_code: 3, to_stderr: false }
        },
    }
}

/// The usage error for a position that is not a number.
fn invalid_position(which: &str, position_text: &String) -> (r: CliReport)
    ensures
        r.message@ == invalid_position_message(which@, position_text@),
        r.exit_code == 2,
        r.to_stderr,
{
    let mut m = String::from_str(which);
    m.append(": '");
    m.append(position_text.as_str());
    m.append("' is not a valid number for --position");
    usage_error(m)
}

/// The risk report a `route` run acts on: with `--collision-risk`, an
/// imminent collision at the distance read from `--distance`, or at
/// `0.0` (bit pattern 0) where that is absent or not a number.
pub open spec fn planned_risk(collision_risk: bool, distance_bits: Option<u64>) -> Option<
    TwinRiskReport,
> {
    if collision_risk {
        Some(
            TwinRiskReport {
                collision_imminent: true,
                distance_bits: match distance_bits {
                    Some(d) => d,
                    None => 0,
                },
            },
        )
    } else {
        None
    }
}

/// Finishes a `route` run. `position_bits` is the position read from
/// `plan.inputs.position_text`, or `None` where that text is not a
/// number; `distance_bits` likewise the distance read from
/// `plan.distance_text`. The command goes to the planned real sink or to
/// a fresh recording sink for the twin.
pub fn finish_route(plan: RoutePlan, position_bits: Option<u64>, distance_bits: Option<u64>) -> (r:
    CliReport)
    ensures
        position_bits is None ==> {
            &&& r.message@ == invalid_position_message("route"@, plan.inputs.position_text@)
            &&& r.exit_code == 2
            &&& r.to_stderr
        },
        position_bits is Some ==> {
            let o = routed_outcome(
                plan.mode,
                planned_risk(plan.collision_risk, distance_bits),
                plan.real_sink.predicted_send()->0,
                Ok(()),
            );
            &&& r.message@ == route_message(o)
            &&& r.exit_code == route_exit_code(o)
            &&& !r.to_stderr
        },
{
    let bits = match position_bits {
        Some(b) => b,
        None => return invalid_position("route", &plan.inputs.position_text),
    };
    let RoutePlan { mode, inputs, collision_risk, distance_text: _, real_sink } = plan;
    let command = JointCommand { joint: inputs.joint, position_bits: bits };
    let risk = if collision_risk {
        let distance = match distance_bits {
            Some(d) => d,
            None => 0,
        };
        Some(TwinRiskReport { collision_imminent: true, distance_bits: distance })
    } else {
        None
    };
    let bridge = Bridge::new(mode);
    let mut real_target = real_sink;
    let mut sim = RecordingSink::default();
    let outcome = bridge.route_command(command, risk, &mut real_target, &mut sim);
    route_report(&outcome)
}

/// Reads the arguments of a `mirror` run, or gives the usage-error
/// report that ends it (exit code 2, on standard error).
pub fn plan_mirror(args: &[String]) -> (r: Result<CommandInputs, CliReport>)
    ensures
        r matches Ok(i) ==> command_inputs_spec(args@) == Ok::<CommandInputs, Seq<char>>(i),
        r matches Err(e) ==> {
            &&& e.exit_code == 2
            &&& e.to_stderr
            &&& command_inputs_spec(args@) matches Err(m) && e.message@ == "mirror: "@ + m
        },
{
    match command_inputs(args) {
        Ok(i) => Ok(i),
        Err(e) => {
            let mut m = String::from_str("mirror: ");
            m.append(e.as_str());
            Err(usage_error(m))
        },
    }
}

/// The message of a `mirror` run that shadowed `joint` at the position
/// with bits `position_bits`, quoted with six decimal places.
pub open spec fn mirrored_message(joint: Seq<char>, position_bits: u64) -> Seq<char> {
    "MIRRORED: joint '"@ + joint + "' = "@ + fixed_text(position_bits, 6)
        + " shadowed into the twin"@
}

/// Finishes a `mirror` run: shadows the command onto a fresh recording
/// sink for the twin. `position_bits` is the position read from
/// `inputs.position_text`, or `None` where it is not a number.
pub fn finish_mirror(inputs: CommandInputs, position_bits: Option<u64>) -> (r: CliReport)
    ensures
        position_bits is None ==> {
            &&& r.message@ == invalid_position_message("mirror"@, inputs.position_text@)
            &&& r.exit_code == 2
            &&& r.to_stderr
        },
        position_bits is Some ==> {
            &&& r.message@ == mirrored_message(inputs.joint@, position_bits->0)
            &&& r.exit_code == 0
            &&& !r.to_stderr
        },
{
    let bits = match position_bits {
        Some(b) => b,
        None => return invalid_position("mirror", &inputs.position_text),
    };
    let command = JointCommand { joint: inputs.joint, position_bits: bits };
    let bridge = Bridge::new(Mode::Simulation);
    let mut sink = RecordingSink::default();
    match bridge.mirror_command(&command, &mut sink) {
        Ok(()) => {
            let mut m = String::from_str("MIRRORED: joint '");
            m.append(command.joint.as_str());
            m.append("' = ");
            let position = render_fixed(command.position_bits, 6);
            m.append(position.as_str());
            m.append(" shadowed into the twin");
            CliReport { message: m, exit_code: 0, to_stderr: false }
        },
        Err(e) => {
            let mut m = String::from_str(
                "TRANSPORT FAILURE: shadow update was not confirmed delivered (",
            );
            m.append(e.to_string().as_str());
            m.append(")");
            CliReport { message: m, exit_code: 3, to_stderr: false }
        },
    }
}

/// What the first argument asks the program to do.
#[derive(Debug, Clone, Copy, PartialEq, Eq, Structural)]
pub enum Subcommand {
    Route,
    Mirror,
    /// Serve the JSON/HTTP interface.
    Serve,
    /// Anything else: print the program's identity.
    Identity,
}

/// Picks the subcommand from the first argument.
pub fn subcommand(args: &[String]) -> (r: Subcommand)
    ensures
        r == (if args@.len() > 0 && args@[0]@ == "route"@ {
            Subcommand::Route
        } else if args@.len() > 0 && args@[0]@ == "mirror"@ {
            Subcommand::Mirror
        } else if args@.len() > 0 && args@[0]@ == "serve"@ {
            Subcommand::Serve
        } else {
            Subcommand::Identity
        }),
{
    if args.len() > 0 && str_eq(args[0].as_str(), "route") {
        Subcommand::Route
    } else if args.len() > 0 && str_eq(args[0].as_str(), "mirror") {
        Subcommand::Mirror
    } else if args.len() > 0 && str_eq(args[0].as_str(), "serve") {
        Subcommand::Serve
    } else {
        Subcommand::Identity
    }
}

/// The address a `serve` run listens on: `--addr` (by default
/// `127.0.0.1`), a colon, and `--port` (by default `8113`).
pub open spec fn serve_address_spec(args: Seq<String>) -> Seq<char> {
    let addr = match find_flag_spec(args, "--addr"@) {
        Some(a) => a@,
        None => "127.0.0.1"@,
    };
    let port = match find_flag_spec(args, "--port"@) {
        Some(p) => p@,
        None => "8113"@,
    };
    addr + ":"@ + port
}

/// Reads the address a `serve` run listens on.
pub fn serve_address(args: &[String]) -> (r: String)
    ensures
        r@ == serve_address_spec(args@),
{
    let mut address = match find_flag(args, "--addr") {
        Some(a) => a,
        None => String::from_str("127.0.0.1"),
    };
    address.append(":");
    match find_flag(args, "--port") {
        Some(p) => address.append(p.as_str()),
        None => address.append("8113"),
    }
    address
}

/// A `u64` flag that is absent, or has no value, or a value that is not a
/// number, reads as the caller's default; otherwise it reads as that
/// number.
pub proof fn absent_flag_reads_as_default(args: Seq<String>, flag: Seq<char>, default: u64)
    ensures
        !has_flag_spec(args, flag) ==> flag_number(args, flag, default) == default,
        find_flag_spec(args, flag) is None ==> flag_number(args, flag, default) == default,
        find_flag_spec(args, flag) matches Some(v) ==> (parse_u64_spec(v@) matches Some(n)
            ==> flag_number(args, flag, default) == n),
        find_flag_spec(args, flag) matches Some(v) ==> (parse_u64_spec(v@) is None ==> flag_number(
            args,
            flag,
            default,
        ) == default),
{
    found_flag_is_present(args, flag);
}

/// A `route` run that does not give `--transport-latency-ms` (nor
/// `--transport-disconnected`) sends without delay: its real sink delivers,
/// whatever timeout budget it was given.
pub proof fn route_without_latency_is_not_delayed(args: Seq<String>)
    requires
        !has_flag_spec(args, "--transport-latency-ms"@),
        !has_flag_spec(args, "--transport-disconnected"@),
    ensures
        flag_number(args, "--transport-latency-ms"@, 0) == 0,
        configured_send(
            simulate_transport(args),
            has_flag_spec(args, "--transport-disconnected"@),
            flag_number(args, "--transport-latency-ms"@, 0),
            flag_number(args, "--transport-timeout-ms"@, u64::MAX),
        ) == Ok::<(), TransportError>(()),
{
    absent_flag_reads_as_default(args, "--transport-latency-ms"@, 0);
}

/// The text at which a `mirror` run's message quotes the position.
pub open spec fn mirrored_prefix(joint: Seq<char>) -> Seq<char> {
    "MIRRORED: joint '"@ + joint + "' = "@
}

/// A `mirror` run's message names the joint, then quotes the position
/// itself: with a minus sign exactly when the position is negative (or
/// negative zero), and with six decimal places.
pub proof fn mirrored_message_quotes_position(joint: Seq<char>, position_bits: u64)
    ensures
        mirrored_message(joint, position_bits).len() > mirrored_prefix(joint).len(),
        mirrored_message(joint, position_bits).subrange(0, mirrored_prefix(joint).len() as int)
            == mirrored_prefix(joint),
        mirrored_message(joint, position_bits)[mirrored_prefix(joint).len() as int] == '-' <==> (
        sign_negative(position_bits) && !is_nan(position_bits)),
        mirrored_message(joint, position_bits).subrange(
            mirrored_prefix(joint).len() as int,
            (mirrored_prefix(joint).len() + fixed_text(position_bits, 6).len()) as int,
        ) == fixed_text(position_bits, 6),
{
    lemma_fixed_text_sign(position_bits, 6);
    let m = mirrored_message(joint, position_bits);
    let p = mirrored_prefix(joint);
    let f = fixed_text(position_bits, 6);
    assert(m == p + f + " shadowed into the twin"@);
    assert(m.subrange(0, p.len() as int) =~= p);
    assert(m.subrange(p.len() as int, (p.len() + f.len()) as int) =~= f);
    assert(m[p.len() as int] == f[0]);
}

} // verus!
