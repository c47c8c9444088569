//! The message shapes the bridge routes.

use vstd::prelude::*;
use vstd::std_specs::cmp::PartialEqSpecImpl;

use crate::binary64::{same_value, values_equal};
use crate::text::str_eq;

verus! {

/// One joint set-point. The position travels as the bit pattern of its
/// IEEE-754 binary64 value: the bridge carries it through and compares
/// it as `f64` values compare, but never computes with it.
#[derive(Debug)]
pub struct JointCommand {
    pub joint: String,
    pub position_bits: u64,
}

impl JointCommand {
    /// An exact copy of this command.
    pub fn duplicate(&self) -> (r: JointCommand)
        ensures
            r == *self,
    {
        JointCommand { joint: self.joint.clone(), position_bits: self.position_bits }
    }
}

impl Clone for JointCommand {
    fn clone(&self) -> (r: JointCommand)
        ensures
            r == *self,
    {
        self.duplicate()
    }
}

/// Two commands are equal when their joints are and their positions
/// compare equal as `f64` values (so `0.0` equals `-0.0`, and a NaN
/// position equals nothing).
impl PartialEq for JointCommand {
    fn eq(&self, other: &JointCommand) -> (r: bool) {
        str_eq(self.joint.as_str(), other.joint.as_str()) && values_equal(
            self.position_bits,
            other.position_bits,
        )
    }
}

impl PartialEqSpecImpl for JointCommand {
    open spec fn obeys_eq_spec() -> bool {
        true
    }

    open spec fn eq_spec(&self, other: &JointCommand) -> bool {
        self.joint@ == other.joint@ && same_value(self.position_bits, other.position_bits)
    }
}

/// Where a routed command goes.
#[derive(Debug, Clone, Copy, PartialEq, Eq, Structural)]
pub enum Mode {
    /// Towards the real controller, subject to the safety interlock.
    Real,
    /// Towards the digital twin only; never gated by the interlock.
    Simulation,
}

} // verus!
