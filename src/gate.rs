//! The sensor gate: turns one read of the sensor input into "active" or not.
use vstd::prelude::*;

verus! {

/// What one read of the sensor means for the sensor gate: active when the read
/// succeeded and found the input asserted; a failed read counts as inactive.
pub open spec fn reads_active<E>(read: Result<bool, E>) -> bool {
    match read {
        Ok(asserted) => asserted,
        Err(_) => false,
    }
}

/// Whether the guarded condition is active, given a fresh read of the sensor
/// input (`Ok(true)` when the input is asserted). A read error leaves the sensor gate
/// inactive, so that a faulty sensor never silences the beacon.
pub fn is_active<E>(read: Result<bool, E>) -> (r: bool)
    ensures
        r == reads_active(read),
        r <==> read is Ok && read->Ok_0,
{
    match read {
        Ok(asserted) => asserted,
        Err(_) => false,
    }
}

} // verus!
