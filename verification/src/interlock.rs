//! The safety interlock: whether a command bound for real hardware may
//! be forwarded, given what the digital twin reports.

use vstd::prelude::*;
use vstd::std_specs::cmp::PartialEqSpecImpl;

use crate::binary64::{
    fixed_text, is_nan, lemma_fixed_text_sign, render_fixed, same_value, sign_negative, values_equal,
};

verus! {

/// What the digital twin reports about the risk of the next motion.
///
/// The distance (metres) is held as the bit pattern of its IEEE-754
/// binary64 value; the interlock quotes it and never reasons about it.
#[derive(Debug, Clone, Copy)]
pub struct TwinRiskReport {
    pub collision_imminent: bool,
    pub distance_bits: u64,
}

/// Two reports are equal when their flags are and their distances compare
/// equal as `f64` values.
impl PartialEq for TwinRiskReport {
    fn eq(&self, other: &TwinRiskReport) -> (r: bool) {
        self.collision_imminent == other.collision_imminent && values_equal(
            self.distance_bits,
            other.distance_bits,
        )
    }
}

impl PartialEqSpecImpl for TwinRiskReport {
    open spec fn obeys_eq_spec() -> bool {
        true
    }

    open spec fn eq_spec(&self, other: &TwinRiskReport) -> bool {
        self.collision_imminent == other.collision_imminent && same_value(
            self.distance_bits,
            other.distance_bits,
        )
    }
}

/// The interlock's verdict.
#[derive(Debug, Clone, PartialEq)]
pub enum InterlockDecision {
    Allow,
    Block { reason: String },
}

/// The reason given when the interlock blocks on `risk`.
pub open spec fn block_reason(risk: TwinRiskReport) -> Seq<char> {
    "twin reports imminent collision at "@ + fixed_text(risk.distance_bits, 3) + "m"@
}

/// Blocks exactly when the twin reports an imminent collision, whatever
/// distance it reports alongside: the twin's own conclusion is trusted,
/// not second-guessed with a threshold of this module's own. The reason
/// quotes the distance with three decimal places.
pub fn assess_interlock(risk: &TwinRiskReport) -> (d: InterlockDecision)
    ensures
        d is Block <==> risk.collision_imminent,
        d matches InterlockDecision::Block { reason } ==> reason@ == block_reason(*risk),
{
    if risk.collision_imminent {
        let mut reason = String::from_str("twin reports imminent collision at ");
        let distance = render_fixed(risk.distance_bits, 3);
        reason.append(distance.as_str());
        reason.append("m");
        InterlockDecision::Block { reason }
    } else {
        InterlockDecision::Allow
    }
}

/// The block reason quotes the twin's distance with three decimal places
/// after its fixed words: with a minus sign exactly when the distance is
/// negative (a negative zero too), and ending in metres.
pub proof fn block_reason_quotes_distance(risk: TwinRiskReport)
    ensures
        ({
            let r = block_reason(risk);
            let head = "twin reports imminent collision at "@;
            let d = fixed_text(risk.distance_bits, 3);
            &&& r.len() == head.len() + d.len() + 1
            &&& r.subrange(0, head.len() as int) == head
            &&& r.subrange(head.len() as int, r.len() - 1) == d
            &&& (r[head.len() as int] == '-' <==> (sign_negative(risk.distance_bits) && !is_nan(
                risk.distance_bits,
            )))
            &&& r.last() == 'm'
        }),
{
    reveal_strlit("m");
    lemma_fixed_text_sign(risk.distance_bits, 3);
    let r = block_reason(risk);
    let head = "twin reports imminent collision at "@;
    let d = fixed_text(risk.distance_bits, 3);
    assert(r == head + d + "m"@);
    assert(r.subrange(0, head.len() as int) =~= head);
    assert(r.subrange(head.len() as int, r.len() - 1) =~= d);
    assert(r[head.len() as int] == d[0]);
}

} // verus!
