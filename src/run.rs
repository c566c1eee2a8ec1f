//! What the driver does when run against a world: a sensor that answers the
//! gate checks in order, pin writes that succeed, and a clock that only the
//! waits advance. The laws of the beacon are stated over these runs.
use vstd::prelude::*;
use crate::driver::{entry, Action, Event, Phase};
use crate::timing::{duration_of, INTRA_SYMBOL_SPACE, UNITS};

verus! {

/// What the driver's surroundings have seen so far.
pub struct World {
    /// Milliseconds waited.
    pub time: int,
    /// Gate checks answered; the next answer is the sensor gate oracle at this index.
    pub asked: int,
    /// Whether the output is high.
    pub high: bool,
    /// Milliseconds waited while the output was high.
    pub lit: int,
}

/// The event that answers action `a` in world `w`: the sensor gate reads `g` at the
/// number of checks made so far, writes succeed, waits end.
pub open spec fn respond(a: Action, w: World, g: spec_fn(int) -> bool) -> Event {
    match a {
        Action::CheckGate => Event::Gate(g(w.asked)),
        Action::SetHigh => Event::Written(true),
        Action::SetLow => Event::Written(true),
        Action::Wait(_) => Event::Elapsed,
    }
}

/// The world once action `a` has been carried out.
pub open spec fn perform(a: Action, w: World) -> World {
    match a {
        Action::CheckGate => World { asked: w.asked + 1, ..w },
        Action::SetHigh => World { high: true, ..w },
        Action::SetLow => World { high: false, ..w },
        Action::Wait(d) => World {
            time: w.time + d,
            lit: if w.high { w.lit + d } else { w.lit },
            ..w
        },
    }
}

/// Phase and world after `n` steps from phase `p` in world `w`.
pub open spec fn run(p: Phase, w: World, g: spec_fn(int) -> bool, n: nat) -> (Phase, World)
    decreases n,
{
    if n == 0 {
        (p, w)
    } else {
        let a = p.action();
        run(p.next(respond(a, w, g)), perform(a, w), g, (n - 1) as nat)
    }
}

/// The actions asked for in the first `n` steps from phase `p` in world `w`.
pub open spec fn actions(p: Phase, w: World, g: spec_fn(int) -> bool, n: nat) -> Seq<Action>
    decreases n,
{
    if n == 0 {
        Seq::empty()
    } else {
        let a = p.action();
        seq![a] + actions(p.next(respond(a, w, g)), perform(a, w), g, (n - 1) as nat)
    }
}

/// The actions of one pulse with the sensor gate inactive: check, raise, check,
/// hold for `d`, lower, check, wait out the silence between pulses.
pub open spec fn pulse_actions(d: u16) -> Seq<Action> {
    seq![
        Action::CheckGate,
        Action::SetHigh,
        Action::CheckGate,
        Action::Wait(d),
        Action::SetLow,
        Action::CheckGate,
        Action::Wait(INTRA_SYMBOL_SPACE),
    ]
}

/// The actions of the last pulse of a cycle with the sensor gate inactive:
/// check, raise, check, hold for `d`, lower, check; the silence between
/// cycles takes the place of the one between pulses.
pub open spec fn last_pulse_actions(d: u16) -> Seq<Action> {
    seq![
        Action::CheckGate,
        Action::SetHigh,
        Action::CheckGate,
        Action::Wait(d),
        Action::SetLow,
        Action::CheckGate,
    ]
}

/// The actions of pulses `from` up to `to` (exclusive), none of them the
/// last of the cycle, with the sensor gate inactive.
pub open spec fn pulses_actions(from: nat, to: nat) -> Seq<Action>
    decreases to - from,
{
    if from < to {
        pulse_actions(duration_of(from)) + pulses_actions(from + 1, to)
    } else {
        Seq::empty()
    }
}

/// The high time of pulses `from` up to `to` (exclusive).
pub open spec fn lit_between(from: nat, to: nat) -> int
    decreases to - from,
{
    if from < to {
        duration_of(from) + lit_between(from + 1, to)
    } else {
        0
    }
}

/// The sensor gate answers the checks with indices `from` up to `to` (exclusive)
/// with "inactive".
pub open spec fn quiet(g: spec_fn(int) -> bool, from: int, to: int) -> bool {
    forall|i: int| from <= i < to ==> !#[trigger] g(i)
}

/// Running `n + m` steps is running `n` steps, then `m` more.
pub proof fn lemma_run_split(p: Phase, w: World, g: spec_fn(int) -> bool, n: nat, m: nat)
    ensures
        run(p, w, g, n + m) == run(run(p, w, g, n).0, run(p, w, g, n).1, g, m),
        actions(p, w, g, n + m) == actions(p, w, g, n) + actions(
            run(p, w, g, n).0,
            run(p, w, g, n).1,
            g,
            m,
        ),
    decreases n,
{
    if n > 0 {
        let a = p.action();
        let p1 = p.next(respond(a, w, g));
        let w1 = perform(a, w);
        lemma_run_split(p1, w1, g, (n - 1) as nat, m);
        assert((n + m - 1) as nat == (n - 1) as nat + m);
        assert(actions(p, w, g, n + m) =~= actions(p, w, g, n) + actions(
            run(p, w, g, n).0,
            run(p, w, g, n).1,
            g,
            m,
        ));
    } else {
        assert(actions(p, w, g, n + m) =~= actions(p, w, g, n) + actions(
            run(p, w, g, n).0,
            run(p, w, g, n).1,
            g,
            m,
        ));
    }
}

/// One pulse other than the last, with the sensor gate inactive at its three
/// checks, takes seven steps, lights the output for the pulse's duration and
/// ends low.
pub proof fn lemma_pulse(unit: nat, w: World, g: spec_fn(int) -> bool)
    requires
        unit + 1 < UNITS,
        quiet(g, w.asked, w.asked + 3),
    ensures
        run(entry(unit), w, g, 7) == (
            entry(unit + 1),
            World {
                time: w.time + duration_of(unit) + INTRA_SYMBOL_SPACE,
                asked: w.asked + 3,
                high: false,
                lit: w.lit + duration_of(unit),
            },
        ),
        actions(entry(unit), w, g, 7) == pulse_actions(duration_of(unit)),
{
    assert(!g(w.asked) && !g(w.asked + 1) && !g(w.asked + 2));
    reveal_with_fuel(run, 8);
    reveal_with_fuel(actions, 8);
    assert(actions(entry(unit), w, g, 7) =~= pulse_actions(duration_of(unit)));
}

/// Pulses `from` up to `to`, before the last pulse, with the sensor gate
/// inactive throughout.
pub proof fn lemma_pulses(from: nat, to: nat, w: World, g: spec_fn(int) -> bool)
    requires
        from <= to < UNITS,
        quiet(g, w.asked, w.asked + 3 * (to - from)),
    ensures
        run(entry(from), w, g, 7 * (to - from) as nat) == (
            entry(to),
            World {
                time: w.time + lit_between(from, to) + INTRA_SYMBOL_SPACE * (to - from),
                asked: w.asked + 3 * (to - from),
                high: if from < to { false } else { w.high },
                lit: w.lit + lit_between(from, to),
            },
        ),
        actions(entry(from), w, g, 7 * (to - from) as nat) == pulses_actions(from, to),
    decreases to - from,
{
    if from < to {
        lemma_pulse(from, w, g);
        let w1 = run(entry(from), w, g, 7).1;
        lemma_pulses(from + 1, to, w1, g);
        lemma_run_split(entry(from), w, g, 7, 7 * (to - from - 1) as nat);
        assert(7 + 7 * (to - from - 1) as nat == 7 * (to - from) as nat);
        assert(lit_between(from, to) == duration_of(from) + lit_between(from + 1, to));
        assert(INTRA_SYMBOL_SPACE * (to - from) == INTRA_SYMBOL_SPACE + INTRA_SYMBOL_SPACE * (to - (
        from + 1))) by (nonlinear_arith);
    } else {
        reveal_with_fuel(run, 1);
        reveal_with_fuel(actions, 1);
        assert(actions(entry(from), w, g, 0) =~= pulses_actions(from, to));
        assert(INTRA_SYMBOL_SPACE * (to - from) == 0) by (nonlinear_arith)
            requires
                from == to,
        ;
        assert(lit_between(from, to) == 0);
    }
}

} // verus!
