use sos_beacon::driver::{Action, Event, Phase, SignalDriver};
use sos_beacon::gate::is_active;
use sos_beacon::timing::{pulse_plan, unit_duration, DAH, DIT, INTRA_SYMBOL_SPACE, WORD_SPACE};

/// Runs `steps` steps: the sensor gate answers the n-th check with `gate(n)`,
/// writes succeed, waits end. Returns the actions, the time waited and the
/// time waited with the output high.
fn simulate(
    driver: &mut SignalDriver,
    steps: usize,
    gate: &dyn Fn(usize) -> bool,
) -> (Vec<Action>, u32, u32) {
    let mut seen = Vec::new();
    let mut asked = 0usize;
    let mut high = false;
    let mut time = 0u32;
    let mut lit = 0u32;
    for _ in 0..steps {
        let a = driver.action();
        seen.push(a);
        let e = match a {
            Action::CheckGate => {
                let g = gate(asked);
                asked += 1;
                Event::Gate(g)
            }
            Action::SetHigh => {
                high = true;
                Event::Written(true)
            }
            Action::SetLow => {
                high = false;
                Event::Written(true)
            }
            Action::Wait(d) => {
                time += d as u32;
                if high {
                    lit += d as u32;
                }
                Event::Elapsed
            }
        };
        driver.advance(e);
    }
    (seen, time, lit)
}

fn pulse(d: u16) -> Vec<Action> {
    vec![
        Action::CheckGate,
        Action::SetHigh,
        Action::CheckGate,
        Action::Wait(d),
        Action::SetLow,
        Action::CheckGate,
        Action::Wait(INTRA_SYMBOL_SPACE),
    ]
}

fn last_pulse(d: u16) -> Vec<Action> {
    let mut v = pulse(d);
    v.pop();
    v
}

/// The actions from the loop top to the post-cycle check, gate inactive.
fn emission() -> Vec<Action> {
    let mut v = vec![Action::CheckGate];
    v.extend(pulses(8));
    v.extend(last_pulse(unit_duration(8)));
    v
}

fn pulses(n: usize) -> Vec<Action> {
    let mut v = Vec::new();
    for k in 0..n {
        v.extend(pulse(unit_duration(k)));
    }
    v
}

#[test]
fn time_units() {
    assert_eq!(DIT, 195);
    assert_eq!(DAH, 585);
    assert_eq!(INTRA_SYMBOL_SPACE, 195);
    assert_eq!(WORD_SPACE, 1365);
    assert_eq!(pulse_plan(), [195, 585, 195]);
    let all: Vec<u16> = (0..9).map(unit_duration).collect();
    assert_eq!(all, vec![195, 195, 195, 585, 585, 585, 195, 195, 195]);
}

#[test]
fn gate_reads() {
    assert!(is_active::<()>(Ok(true)));
    assert!(!is_active::<()>(Ok(false)));
    assert!(!is_active(Err(())));
}

#[test]
fn gate_never_active_gives_canonical_cycle() {
    let mut d = SignalDriver::new();
    let (seen, time, lit) = simulate(&mut d, 65, &|_| false);
    let mut expected = emission();
    expected.push(Action::CheckGate);
    expected.push(Action::Wait(1365));
    assert_eq!(seen, expected);
    assert_eq!(lit, 3 * 195 + 3 * 585 + 3 * 195);
    assert_eq!(time, 5850);
    assert_eq!(d.phase(), Phase::CycleCheck);
}

#[test]
fn high_phases_follow_the_plan() {
    let mut d = SignalDriver::new();
    let (seen, _, _) = simulate(&mut d, 65, &|_| false);
    let mut highs = Vec::new();
    let mut lows = Vec::new();
    let mut raised = false;
    for a in seen {
        match a {
            Action::SetHigh => raised = true,
            Action::SetLow => raised = false,
            Action::Wait(ms) if raised => highs.push(ms),
            Action::Wait(ms) => lows.push(ms),
            Action::CheckGate => {}
        }
    }
    assert_eq!(highs, vec![195, 195, 195, 585, 585, 585, 195, 195, 195]);
    assert_eq!(lows, vec![195, 195, 195, 195, 195, 195, 195, 195, 1365]);
}

#[test]
fn immediate_abort_touches_nothing() {
    let mut d = SignalDriver::new();
    let (seen, time, lit) = simulate(&mut d, 1, &|_| true);
    assert_eq!(seen, vec![Action::CheckGate]);
    assert_eq!((time, lit), (0, 0));
    assert_eq!(d.phase(), Phase::CycleCheck);
    // A gate that stays active keeps the driver at the loop top.
    let (seen, _, _) = simulate(&mut d, 5, &|_| true);
    assert_eq!(seen, vec![Action::CheckGate; 5]);
}

#[test]
fn abort_right_after_raise_forces_low() {
    // Checks: loop top, pulse 0 before raising, pulse 0 after raising.
    let mut d = SignalDriver::new();
    let (seen, time, lit) = simulate(&mut d, 5, &|n| n >= 2);
    assert_eq!(
        seen,
        vec![
            Action::CheckGate,
            Action::CheckGate,
            Action::SetHigh,
            Action::CheckGate,
            Action::SetLow,
        ]
    );
    assert_eq!((time, lit), (0, 0));
    assert_eq!(d.phase(), Phase::WordCheck);
}

#[test]
fn abort_after_raise_in_the_long_symbol() {
    // Pulse 4 is raised after the checks of pulses 0..4 and its own first check.
    let mut d = SignalDriver::new();
    let stop = 2 + 3 * 4;
    let (seen, time, lit) = simulate(&mut d, 1 + 7 * 4 + 4, &|n| n >= stop);
    let mut expected = vec![Action::CheckGate];
    expected.extend(pulses(4));
    expected.extend(vec![
        Action::CheckGate,
        Action::SetHigh,
        Action::CheckGate,
        Action::SetLow,
    ]);
    assert_eq!(seen, expected);
    assert_eq!(lit, 3 * 195 + 585);
    assert_eq!(time, 3 * 195 + 585 + 4 * 195);
    assert_eq!(d.phase(), Phase::WordCheck);
}

#[test]
fn abort_after_first_pulse_lights_one_unit() {
    let mut d = SignalDriver::new();
    let (seen, time, lit) = simulate(&mut d, 7, &|n| n >= 3);
    assert_eq!(
        seen,
        vec![
            Action::CheckGate,
            Action::CheckGate,
            Action::SetHigh,
            Action::CheckGate,
            Action::Wait(195),
            Action::SetLow,
            Action::CheckGate,
        ]
    );
    assert_eq!(lit, 195);
    assert_eq!(time, 195);
    assert_eq!(d.phase(), Phase::WordCheck);
}

#[test]
fn read_errors_fail_open() {
    let mut d = SignalDriver::new();
    let (seen, time, _) = simulate(&mut d, 65, &|_| is_active::<()>(Err(())));
    let mut q = SignalDriver::new();
    let (quiet, quiet_time, _) = simulate(&mut q, 65, &|_| false);
    assert_eq!(seen, quiet);
    assert_eq!(time, quiet_time);
}

#[test]
fn restart_after_abort_begins_at_first_pulse() {
    let mut d = SignalDriver::new();
    // Abort in the middle of the long symbol, skip the word space too.
    let (_, _, _) = simulate(&mut d, 1 + 7 * 4 + 6 + 1, &|n| n >= 3 + 3 * 4);
    assert_eq!(d.phase(), Phase::CycleCheck);
    let (seen, time, _) = simulate(&mut d, 65, &|_| false);
    let mut fresh = SignalDriver::new();
    let (expected, expected_time, _) = simulate(&mut fresh, 65, &|_| false);
    assert_eq!(seen, expected);
    assert_eq!(time, expected_time);
}

#[test]
fn restart_after_full_cycles_is_identical() {
    let mut d = SignalDriver::new();
    let (first, _, _) = simulate(&mut d, 65, &|_| false);
    let (second, _, _) = simulate(&mut d, 65, &|_| false);
    let (third, _, _) = simulate(&mut d, 65, &|_| false);
    assert_eq!(first, second);
    assert_eq!(second, third);
}

#[test]
fn word_space_skipped_when_gate_active_after_cycle() {
    let mut d = SignalDriver::new();
    let (seen, time, lit) = simulate(&mut d, 64, &|n| n == 28);
    let mut expected = emission();
    expected.push(Action::CheckGate);
    assert_eq!(seen, expected);
    assert_eq!(lit, 2925);
    assert_eq!(time, 2925 + 8 * 195);
    assert_eq!(d.phase(), Phase::CycleCheck);
}

#[test]
fn failed_raise_skips_the_hold() {
    let mut d = SignalDriver::new();
    d.advance(Event::Gate(false));
    d.advance(Event::Gate(false));
    assert_eq!(d.action(), Action::SetHigh);
    d.advance(Event::Written(false));
    assert_eq!(d.phase(), Phase::Lower { unit: 0 });
    assert_eq!(d.action(), Action::SetLow);
}

#[test]
fn failed_lower_skips_check_and_silence() {
    let mut d = SignalDriver::new();
    d.advance(Event::Gate(false));
    d.advance(Event::Gate(false));
    d.advance(Event::Written(true));
    d.advance(Event::Gate(false));
    assert_eq!(d.action(), Action::Wait(195));
    d.advance(Event::Elapsed);
    d.advance(Event::Written(false));
    assert_eq!(d.phase(), Phase::UnitCheck { unit: 1 });
}

#[test]
fn last_pulse_leads_to_post_cycle_check() {
    let mut d = SignalDriver::new();
    simulate(&mut d, 1 + 7 * 8, &|_| false);
    assert_eq!(d.phase(), Phase::UnitCheck { unit: 8 });
    d.advance(Event::Gate(false));
    d.advance(Event::Written(true));
    d.advance(Event::Gate(false));
    assert_eq!(d.action(), Action::Wait(195));
    d.advance(Event::Elapsed);
    d.advance(Event::Written(true));
    // No silence between pulses after the last one: straight to the post-cycle check.
    d.advance(Event::Gate(false));
    assert_eq!(d.phase(), Phase::WordCheck);
    assert_eq!(d.action(), Action::CheckGate);
}

#[test]
fn failed_lower_of_last_pulse_ends_emission() {
    let mut d = SignalDriver::new();
    simulate(&mut d, 1 + 7 * 8, &|_| false);
    d.advance(Event::Gate(false));
    d.advance(Event::Written(true));
    d.advance(Event::Gate(false));
    d.advance(Event::Elapsed);
    d.advance(Event::Written(false));
    assert_eq!(d.phase(), Phase::WordCheck);
}

#[test]
fn unexpected_event_repeats_the_action() {
    let mut d = SignalDriver::new();
    d.advance(Event::Elapsed);
    assert_eq!(d.phase(), Phase::CycleCheck);
    d.advance(Event::Gate(false));
    d.advance(Event::Written(true));
    assert_eq!(d.phase(), Phase::UnitCheck { unit: 0 });
    assert_eq!(d.action(), Action::CheckGate);
}
