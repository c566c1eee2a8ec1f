//! Time units of the beacon, in milliseconds, and the fixed pulse plan.
use vstd::prelude::*;

verus! {

/// The base unit: a short pulse.
pub const DIT: u16 = 195;

/// A long pulse, three base units.
pub const DAH: u16 = 3 * DIT;

/// The silence between two pulses of a cycle.
pub const INTRA_SYMBOL_SPACE: u16 = DIT;

/// The silence between two cycles.
pub const WORD_SPACE: u16 = 7 * DIT;

/// How often each symbol of the plan is repeated.
pub const REPEATS: usize = 3;

/// Number of symbols in the plan.
pub const SYMBOLS: usize = 3;

/// Number of pulses in one cycle: every symbol, each repeated.
pub const UNITS: usize = REPEATS * SYMBOLS;

/// The pulse plan as a sequence of high durations: S, O, S.
pub open spec fn plan() -> Seq<u16> {
    seq![DIT, DAH, DIT]
}

/// The high duration of pulse `unit` of a cycle.
pub open spec fn duration_of(unit: nat) -> u16 {
    plan()[(unit / (REPEATS as nat)) as int]
}

/// The pulse plan: one high duration per symbol.
pub fn pulse_plan() -> (r: [u16; 3])
    ensures
        r@ == plan(),
{
    let r: [u16; 3] = [DIT, DAH, DIT];
    proof {
        assert(r@ =~= plan());
    }
    r
}

/// The high duration of pulse `unit` of a cycle.
pub fn unit_duration(unit: usize) -> (r: u16)
    requires
        unit < UNITS,
    ensures
        r == duration_of(unit as nat),
{
    let plan = pulse_plan();
    plan[unit / REPEATS]
}

} // verus!
