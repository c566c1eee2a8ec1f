//! Laws of the beacon, proved over runs of the driver.
use vstd::prelude::*;
use crate::driver::{entry, loop_top, Action, Event, Phase};
use crate::gate::reads_active;
use crate::run::{
    actions, last_pulse_actions, lemma_pulses, lemma_run_split, lit_between, perform,
    pulses_actions, quiet, run,
    World,
};
use crate::timing::{duration_of, DAH, DIT, INTRA_SYMBOL_SPACE, UNITS, WORD_SPACE};

verus! {

/// The index of the last pulse of a cycle.
pub open spec fn last_unit() -> nat {
    (UNITS - 1) as nat
}

/// Steps from the loop top to the post-cycle check with the sensor gate
/// inactive: the loop-top check, seven per pulse and six for the last one,
/// whose silence the one between cycles replaces.
pub open spec fn emission_steps() -> nat {
    1 + 7 * last_unit() + 6
}

/// Steps in one cycle with the sensor gate inactive: the emission, the
/// post-cycle check and the silence between cycles.
pub open spec fn cycle_steps() -> nat {
    emission_steps() + 2
}

/// The actions from the loop top to the post-cycle check with the sensor
/// gate inactive.
pub open spec fn emission_actions() -> Seq<Action> {
    seq![Action::CheckGate] + pulses_actions(0, last_unit()) + last_pulse_actions(
        duration_of(last_unit()),
    )
}

/// The actions of one cycle with the sensor gate inactive.
pub open spec fn quiet_cycle_actions() -> Seq<Action> {
    emission_actions() + seq![Action::CheckGate, Action::Wait(WORD_SPACE)]
}

/// The milliseconds that the pulses of a full cycle and the silences between
/// them take: every pulse's high time and one silence fewer than pulses.
pub open spec fn emission_time() -> int {
    lit_between(0, UNITS as nat) + INTRA_SYMBOL_SPACE * last_unit()
}

/// The high times of the nine pulses: three short, three long, three short.
pub proof fn lemma_pulse_durations()
    ensures
        forall|k: nat|
            k < UNITS ==> #[trigger] duration_of(k) == seq![DIT, DIT, DIT, DAH, DAH, DAH, DIT, DIT, DIT][k as int],
        lit_between(0, UNITS as nat) == 3 * DIT + 3 * DAH + 3 * DIT,
        lit_between(0, 1) == DIT,
{
    reveal_with_fuel(lit_between, 10);
    assert forall|k: nat| k < UNITS implies #[trigger] duration_of(k) == seq![
        DIT,
        DIT,
        DIT,
        DAH,
        DAH,
        DAH,
        DIT,
        DIT,
        DIT,
    ][k as int] by {
        assert(k == 0 || k == 1 || k == 2 || k == 3 || k == 4 || k == 5 || k == 6 || k == 7 || k
            == 8);
    }
}

/// From the loop top with the sensor gate inactive, the first `k` pulses.
proof fn lemma_first_pulses(k: nat, w: World, g: spec_fn(int) -> bool)
    requires
        k < UNITS,
        quiet(g, w.asked, w.asked + 1 + 3 * k),
    ensures
        run(loop_top(), w, g, 1 + 7 * k) == (
            entry(k),
            World {
                time: w.time + lit_between(0, k) + INTRA_SYMBOL_SPACE * k,
                asked: w.asked + 1 + 3 * k,
                high: if k > 0 { false } else { w.high },
                lit: w.lit + lit_between(0, k),
            },
        ),
        actions(loop_top(), w, g, 1 + 7 * k) == seq![Action::CheckGate] + pulses_actions(0, k),
{
    assert(!g(w.asked));
    reveal_with_fuel(run, 2);
    reveal_with_fuel(actions, 2);
    let w1 = perform(Action::CheckGate, w);
    assert(run(loop_top(), w, g, 1) == (entry(0), w1));
    assert(actions(loop_top(), w, g, 1) =~= seq![Action::CheckGate]);
    lemma_pulses(0, k, w1, g);
    lemma_run_split(loop_top(), w, g, 1, 7 * k);
}

/// From the loop top with the sensor gate inactive, every pulse of the cycle:
/// the driver reaches the post-cycle check with the output low.
proof fn lemma_emission(w: World, g: spec_fn(int) -> bool)
    requires
        quiet(g, w.asked, w.asked + 1 + 3 * UNITS),
    ensures
        run(loop_top(), w, g, emission_steps()) == (
            Phase::WordCheck,
            World {
                time: w.time + emission_time(),
                asked: w.asked + 1 + 3 * UNITS,
                high: false,
                lit: w.lit + lit_between(0, UNITS as nat),
            },
        ),
        actions(loop_top(), w, g, emission_steps()) == emission_actions(),
{
    lemma_first_pulses(last_unit(), w, g);
    let w1 = run(loop_top(), w, g, 1 + 7 * last_unit()).1;
    assert(!g(w1.asked) && !g(w1.asked + 1) && !g(w1.asked + 2));
    reveal_with_fuel(run, 7);
    reveal_with_fuel(actions, 7);
    assert(actions(entry(last_unit()), w1, g, 6) =~= last_pulse_actions(
        duration_of(last_unit()),
    ));
    lemma_lit_extend(0, last_unit());
    lemma_run_split(loop_top(), w, g, 1 + 7 * last_unit(), 6);
    assert(actions(loop_top(), w, g, emission_steps()) =~= emission_actions());
}

/// Gate never active: one cycle from the loop top raises the nine pulses of
/// the plan (three short, three long, three short), each held for its
/// duration; the eight silences between pulses separate them, and the
/// silence between cycles follows the last pulse directly. The cycle is then
/// back at the loop top with the output low, having taken the pulses' high
/// time, eight silences between pulses and the silence between cycles.
pub proof fn lemma_quiet_cycle(w: World, g: spec_fn(int) -> bool)
    requires
        forall|i: int| !#[trigger] g(i),
    ensures
        run(loop_top(), w, g, cycle_steps()) == (
            loop_top(),
            World {
                time: w.time + emission_time() + WORD_SPACE,
                asked: w.asked + 2 + 3 * UNITS,
                high: false,
                lit: w.lit + lit_between(0, UNITS as nat),
            },
        ),
        actions(loop_top(), w, g, cycle_steps()) == quiet_cycle_actions(),
        emission_time() + WORD_SPACE == 5850,
        lit_between(0, UNITS as nat) == 2925,
{
    lemma_pulse_durations();
    lemma_emission(w, g);
    let w1 = run(loop_top(), w, g, emission_steps()).1;
    assert(!g(w1.asked));
    reveal_with_fuel(run, 3);
    reveal_with_fuel(actions, 3);
    assert(actions(Phase::WordCheck, w1, g, 2) =~= seq![
        Action::CheckGate,
        Action::Wait(WORD_SPACE),
    ]);
    lemma_run_split(loop_top(), w, g, emission_steps(), 2);
    assert(actions(loop_top(), w, g, cycle_steps()) =~= quiet_cycle_actions());
}

/// Gate active at the first check of the outer loop: that iteration asks for
/// nothing but the check, leaves the output and the clock alone, and is back
/// at the loop top.
pub proof fn lemma_immediate_abort(w: World, g: spec_fn(int) -> bool)
    requires
        g(w.asked),
    ensures
        run(loop_top(), w, g, 1) == (loop_top(), World { asked: w.asked + 1, ..w }),
        actions(loop_top(), w, g, 1) == seq![Action::CheckGate],
{
    reveal_with_fuel(run, 2);
    reveal_with_fuel(actions, 2);
    assert(actions(loop_top(), w, g, 1) =~= seq![Action::CheckGate]);
}

/// Gate first active at the check right after pulse `k` was raised: the
/// output is forced low at once, pulse `k` is not held, no later pulse is
/// emitted, and the driver goes to the post-cycle check. The cycle's high
/// time is that of the pulses before `k`.
pub proof fn lemma_abort_after_raise(k: nat, w: World, g: spec_fn(int) -> bool)
    requires
        k < UNITS,
        quiet(g, w.asked, w.asked + 2 + 3 * k),
        g(w.asked + 2 + 3 * k),
    ensures
        run(loop_top(), w, g, 1 + 7 * k + 4) == (
            Phase::WordCheck,
            World {
                time: w.time + lit_between(0, k) + INTRA_SYMBOL_SPACE * k,
                asked: w.asked + 3 + 3 * k,
                high: false,
                lit: w.lit + lit_between(0, k),
            },
        ),
        actions(loop_top(), w, g, 1 + 7 * k + 4) == seq![Action::CheckGate] + pulses_actions(0, k)
            + seq![Action::CheckGate, Action::SetHigh, Action::CheckGate, Action::SetLow],
{
    lemma_first_pulses(k, w, g);
    let w1 = run(loop_top(), w, g, 1 + 7 * k).1;
    assert(!g(w1.asked));
    reveal_with_fuel(run, 5);
    reveal_with_fuel(actions, 5);
    assert(actions(entry(k), w1, g, 4) =~= seq![
        Action::CheckGate,
        Action::SetHigh,
        Action::CheckGate,
        Action::SetLow,
    ]);
    lemma_run_split(loop_top(), w, g, 1 + 7 * k, 4);
    assert(actions(loop_top(), w, g, 1 + 7 * k + 4) =~= seq![Action::CheckGate] + pulses_actions(
        0,
        k,
    ) + seq![Action::CheckGate, Action::SetHigh, Action::CheckGate, Action::SetLow]);
}

/// Gate first active at the check right after pulse `k` was lowered (it rose
/// while the pulse was held, a wait that is never cut short): pulse `k` was
/// held in full, the output is low, the silence after it is skipped and no
/// later pulse is emitted. When `k` is the first pulse, the cycle's high time
/// is exactly one short unit.
pub proof fn lemma_abort_after_lower(k: nat, w: World, g: spec_fn(int) -> bool)
    requires
        k < UNITS,
        quiet(g, w.asked, w.asked + 3 + 3 * k),
        g(w.asked + 3 + 3 * k),
    ensures
        run(loop_top(), w, g, 1 + 7 * k + 6) == (
            Phase::WordCheck,
            World {
                time: w.time + lit_between(0, k + 1) + INTRA_SYMBOL_SPACE * k,
                asked: w.asked + 4 + 3 * k,
                high: false,
                lit: w.lit + lit_between(0, k + 1),
            },
        ),
        actions(loop_top(), w, g, 1 + 7 * k + 6) == seq![Action::CheckGate] + pulses_actions(0, k)
            + seq![
            Action::CheckGate,
            Action::SetHigh,
            Action::CheckGate,
            Action::Wait(duration_of(k)),
            Action::SetLow,
            Action::CheckGate,
        ],
        k == 0 ==> run(loop_top(), w, g, 1 + 7 * k + 6).1.lit == w.lit + DIT,
{
    lemma_pulse_durations();
    lemma_first_pulses(k, w, g);
    let w1 = run(loop_top(), w, g, 1 + 7 * k).1;
    assert(!g(w1.asked) && !g(w1.asked + 1));
    reveal_with_fuel(run, 7);
    reveal_with_fuel(actions, 7);
    assert(actions(entry(k), w1, g, 6) =~= seq![
        Action::CheckGate,
        Action::SetHigh,
        Action::CheckGate,
        Action::Wait(duration_of(k)),
        Action::SetLow,
        Action::CheckGate,
    ]);
    lemma_split_lit(k);
    lemma_run_split(loop_top(), w, g, 1 + 7 * k, 6);
    assert(actions(loop_top(), w, g, 1 + 7 * k + 6) =~= seq![Action::CheckGate] + pulses_actions(
        0,
        k,
    ) + seq![
        Action::CheckGate,
        Action::SetHigh,
        Action::CheckGate,
        Action::Wait(duration_of(k)),
        Action::SetLow,
        Action::CheckGate,
    ]);
}

/// The high time of the pulses before `k + 1` adds pulse `k` to those
/// before `k`.
proof fn lemma_split_lit(k: nat)
    ensures
        lit_between(0, k + 1) == lit_between(0, k) + duration_of(k),
{
    lemma_lit_extend(0, k);
}

/// `lit_between(from, to + 1)` adds pulse `to` to `lit_between(from, to)`.
proof fn lemma_lit_extend(from: nat, to: nat)
    requires
        from <= to,
    ensures
        lit_between(from, to + 1) == lit_between(from, to) + duration_of(to),
    decreases to - from,
{
    if from < to {
        lemma_lit_extend(from + 1, to);
    } else {
        reveal_with_fuel(lit_between, 2);
    }
}

/// Sensor read always failing: the sensor gate reads as never active, and the cycle
/// is the one with the sensor gate never active.
pub proof fn lemma_read_errors_fail_open<E>(reads: spec_fn(int) -> Result<bool, E>, w: World)
    requires
        forall|i: int| #[trigger] reads(i) is Err,
    ensures
        forall|i: int| !reads_active(#[trigger] reads(i)),
        run(loop_top(), w, |i: int| reads_active(reads(i)), cycle_steps()) == run(
            loop_top(),
            w,
            |i: int| false,
            cycle_steps(),
        ),
        actions(loop_top(), w, |i: int| reads_active(reads(i)), cycle_steps())
            == quiet_cycle_actions(),
{
    let g = |i: int| reads_active(reads(i));
    assert forall|i: int| !#[trigger] g(i) by {
        assert(reads(i) is Err);
    }
    lemma_quiet_cycle(w, g);
    lemma_quiet_cycle(w, |i: int| false);
}

/// No state outlives a cycle: from any well-formed phase, every phase that a
/// run reaches is well-formed, and whenever it is back at the top of the outer
/// loop it is in the very state the driver starts in, carrying no pulse
/// index; from there a clear gate starts the first repetition of the first
/// symbol.
pub proof fn lemma_restart_is_fresh(p: Phase, w: World, g: spec_fn(int) -> bool, n: nat)
    requires
        p.wf(),
    ensures
        run(p, w, g, n).0.wf(),
        run(p, w, g, n).0 is CycleCheck ==> run(p, w, g, n).0 == loop_top(),
        loop_top().next(Event::Gate(false)) == (Phase::UnitCheck { unit: 0 }),
        loop_top().unit() is None,
    decreases n,
{
    if n > 0 {
        let a = p.action();
        let e = crate::run::respond(a, w, g);
        lemma_restart_is_fresh(p.next(e), perform(a, w), g, (n - 1) as nat);
    }
}

/// Gate active exactly at the post-cycle check, after a cycle in which it was
/// never active: the silence between cycles is skipped, and the next loop-top
/// check comes with no time waited since the last pulse was lowered.
pub proof fn lemma_word_space_skip(w: World, g: spec_fn(int) -> bool)
    requires
        quiet(g, w.asked, w.asked + 1 + 3 * UNITS),
        g(w.asked + 1 + 3 * UNITS),
    ensures
        run(loop_top(), w, g, emission_steps() + 1) == (
            loop_top(),
            World {
                time: w.time + emission_time(),
                asked: w.asked + 2 + 3 * UNITS,
                high: false,
                lit: w.lit + lit_between(0, UNITS as nat),
            },
        ),
        actions(loop_top(), w, g, emission_steps() + 1) == emission_actions() + seq![
            Action::CheckGate,
        ],
{
    lemma_emission(w, g);
    reveal_with_fuel(run, 2);
    reveal_with_fuel(actions, 2);
    let w1 = run(loop_top(), w, g, emission_steps()).1;
    assert(actions(Phase::WordCheck, w1, g, 1) =~= seq![Action::CheckGate]);
    lemma_run_split(loop_top(), w, g, emission_steps(), 1);
}

} // verus!
