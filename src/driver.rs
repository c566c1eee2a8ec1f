//! The signal driver: a state machine that emits the pulse plan one step at a
//! time. Each state asks for one action; the outcome of that action is handed
//! back as an event, which selects the next state.
use vstd::prelude::*;
use crate::timing::{duration_of, unit_duration, INTRA_SYMBOL_SPACE, UNITS, WORD_SPACE};

verus! {

/// What the driver asks its caller to do next.
#[derive(Clone, Copy, Debug, PartialEq, Eq, Structural)]
pub enum Action {
    /// Read the sensor gate and report it with `Event::Gate`.
    CheckGate,
    /// Drive the output high and report the outcome with `Event::Written`.
    SetHigh,
    /// Drive the output low and report the outcome with `Event::Written`.
    SetLow,
    /// Block for this many milliseconds, then report `Event::Elapsed`.
    Wait(u16),
}

/// The outcome of an action.
#[derive(Clone, Copy, Debug, PartialEq, Eq, Structural)]
pub enum Event {
    /// The sensor gate was read: `true` when it is active.
    Gate(bool),
    /// A pin write finished: `true` when it succeeded.
    Written(bool),
    /// A wait ran to its end.
    Elapsed,
}

/// Where the driver stands. `unit` counts the pulses of the current cycle.
#[derive(Clone, Copy, Debug, PartialEq, Eq, Structural)]
pub enum Phase {
    /// Top of the outer loop: check the sensor gate before emitting anything.
    CycleCheck,
    /// Check the sensor gate before raising pulse `unit`.
    UnitCheck { unit: usize },
    /// Drive the output high for pulse `unit`.
    Raise { unit: usize },
    /// Check the sensor gate right after raising pulse `unit`.
    RaisedCheck { unit: usize },
    /// The sensor gate became active while the output was high: force it low.
    ForceLow,
    /// Hold the output high for the duration of pulse `unit`.
    Hold { unit: usize },
    /// Drive the output low at the end of pulse `unit`.
    Lower { unit: usize },
    /// Check the sensor gate right after lowering pulse `unit`.
    LoweredCheck { unit: usize },
    /// Wait out the silence after pulse `unit`; the last pulse has none, as
    /// the silence between cycles follows it.
    Gap { unit: usize },
    /// After the cycle, completed or aborted: check the sensor gate once more.
    WordCheck,
    /// Wait out the silence between cycles.
    WordWait,
}

/// The state in which the driver starts, and to which every cycle returns.
pub open spec fn loop_top() -> Phase {
    Phase::CycleCheck
}

/// Where emission goes on after the pulses before `unit`: the sensor gate check of
/// pulse `unit`, or the post-cycle check once every pulse is done.
pub open spec fn entry(unit: nat) -> Phase {
    if unit < UNITS {
        Phase::UnitCheck { unit: unit as usize }
    } else {
        Phase::WordCheck
    }
}

impl Phase {
    /// The pulse that the phase belongs to, if any.
    pub open spec fn unit(self) -> Option<usize> {
        match self {
            Phase::UnitCheck { unit } => Some(unit),
            Phase::Raise { unit } => Some(unit),
            Phase::RaisedCheck { unit } => Some(unit),
            Phase::Hold { unit } => Some(unit),
            Phase::Lower { unit } => Some(unit),
            Phase::LoweredCheck { unit } => Some(unit),
            Phase::Gap { unit } => Some(unit),
            _ => None,
        }
    }

    /// Every pulse index lies within the cycle.
    pub open spec fn wf(self) -> bool {
        self.unit() is Some ==> self.unit()->Some_0 < UNITS
    }

    /// The action that the phase asks for.
    pub open spec fn action(self) -> Action {
        match self {
            Phase::CycleCheck => Action::CheckGate,
            Phase::UnitCheck { .. } => Action::CheckGate,
            Phase::Raise { .. } => Action::SetHigh,
            Phase::RaisedCheck { .. } => Action::CheckGate,
            Phase::ForceLow => Action::SetLow,
            Phase::Hold { unit } => Action::Wait(duration_of(unit as nat)),
            Phase::Lower { .. } => Action::SetLow,
            Phase::LoweredCheck { .. } => Action::CheckGate,
            Phase::Gap { .. } => Action::Wait(INTRA_SYMBOL_SPACE),
            Phase::WordCheck => Action::CheckGate,
            Phase::WordWait => Action::Wait(WORD_SPACE),
        }
    }

    /// Whether `e` is the kind of event that answers the phase's action.
    pub open spec fn answers(self, e: Event) -> bool {
        match self.action() {
            Action::CheckGate => e is Gate,
            Action::SetHigh | Action::SetLow => e is Written,
            Action::Wait(_) => e is Elapsed,
        }
    }

    /// The phase that follows once the action's outcome is `e`. An event
    /// that does not answer the action leaves the phase as it is, so the
    /// action is asked for again.
    pub open spec fn next(self, e: Event) -> Phase {
        if !self.answers(e) {
            self
        } else {
            match (self, e) {
                (Phase::CycleCheck, Event::Gate(active)) =>
                    if active { Phase::CycleCheck } else { entry(0) },
                (Phase::UnitCheck { unit }, Event::Gate(active)) =>
                    if active { Phase::WordCheck } else { Phase::Raise { unit } },
                (Phase::Raise { unit }, Event::Written(ok)) =>
                    if ok { Phase::RaisedCheck { unit } } else { Phase::Lower { unit } },
                (Phase::RaisedCheck { unit }, Event::Gate(active)) =>
                    if active { Phase::ForceLow } else { Phase::Hold { unit } },
                (Phase::ForceLow, _) => Phase::WordCheck,
                (Phase::Hold { unit }, _) => Phase::Lower { unit },
                (Phase::Lower { unit }, Event::Written(ok)) =>
                    if ok { Phase::LoweredCheck { unit } } else { entry((unit + 1) as nat) },
                (Phase::LoweredCheck { unit }, Event::Gate(active)) =>
                    if active || unit + 1 >= UNITS {
                        Phase::WordCheck
                    } else {
                        Phase::Gap { unit }
                    },
                (Phase::Gap { unit }, _) => entry((unit + 1) as nat),
                (Phase::WordCheck, Event::Gate(active)) =>
                    if active { Phase::CycleCheck } else { Phase::WordWait },
                (Phase::WordWait, _) => Phase::CycleCheck,
                _ => self,
            }
        }
    }
}

/// The signal driver: owns the progress through the pulse plan.
pub struct SignalDriver {
    phase: Phase,
}

impl View for SignalDriver {
    type V = Phase;

    closed spec fn view(&self) -> Phase {
        self.phase
    }
}

impl SignalDriver {
    /// The driver's invariant: its phase is well-formed.
    pub open spec fn wf(&self) -> bool {
        self@.wf()
    }

    /// A driver at the top of the outer loop.
    pub fn new() -> (r: SignalDriver)
        ensures
            r@ == loop_top(),
            r.wf(),
    {
        SignalDriver { phase: Phase::CycleCheck }
    }

    /// The phase the driver is in.
    pub fn phase(&self) -> (r: Phase)
        ensures
            r == self@,
    {
        self.phase
    }

    /// The action the driver asks for now.
    pub fn action(&self) -> (r: Action)
        requires
            self.wf(),
        ensures
            r == self@.action(),
    {
        match self.phase {
            Phase::CycleCheck => Action::CheckGate,
            Phase::UnitCheck { .. } => Action::CheckGate,
            Phase::Raise { .. } => Action::SetHigh,
            Phase::RaisedCheck { .. } => Action::CheckGate,
            Phase::ForceLow => Action::SetLow,
            Phase::Hold { unit } => Action::Wait(unit_duration(unit)),
            Phase::Lower { .. } => Action::SetLow,
            Phase::LoweredCheck { .. } => Action::CheckGate,
            Phase::Gap { .. } => Action::Wait(INTRA_SYMBOL_SPACE),
            Phase::WordCheck => Action::CheckGate,
            Phase::WordWait => Action::Wait(WORD_SPACE),
        }
    }

    /// Hands the outcome of the last action to the driver, which moves on.
    pub fn advance(&mut self, e: Event)
        requires
            old(self).wf(),
        ensures
            final(self).wf(),
            final(self)@ == old(self)@.next(e),
    {
        let next = match (self.phase, e) {
            (Phase::CycleCheck, Event::Gate(active)) =>
                if active { Phase::CycleCheck } else { Phase::UnitCheck { unit: 0 } },
            (Phase::UnitCheck { unit }, Event::Gate(active)) =>
                if active { Phase::WordCheck } else { Phase::Raise { unit } },
            (Phase::Raise { unit }, Event::Written(ok)) =>
                if ok { Phase::RaisedCheck { unit } } else { Phase::Lower { unit } },
            (Phase::RaisedCheck { unit }, Event::Gate(active)) =>
                if active { Phase::ForceLow } else { Phase::Hold { unit } },
            (Phase::ForceLow, Event::Written(_)) => Phase::WordCheck,
            (Phase::Hold { unit }, Event::Elapsed) => Phase::Lower { unit },
            (Phase::Lower { unit }, Event::Written(ok)) =>
                if ok { Phase::LoweredCheck { unit } } else { after_unit(unit) },
            (Phase::LoweredCheck { unit }, Event::Gate(active)) =>
                if active || unit + 1 >= UNITS {
                    Phase::WordCheck
                } else {
                    Phase::Gap { unit }
                },
            (Phase::Gap { unit }, Event::Elapsed) => after_unit(unit),
            (Phase::WordCheck, Event::Gate(active)) =>
                if active { Phase::CycleCheck } else { Phase::WordWait },
            (Phase::WordWait, Event::Elapsed) => Phase::CycleCheck,
            (p, _) => p,
        };
        self.phase = next;
    }
}

/// The phase that follows the last step of pulse `unit`.
fn after_unit(unit: usize) -> (r: Phase)
    requires
        unit < UNITS,
    ensures
        r == entry((unit + 1) as nat),
{
    if unit + 1 < UNITS {
        Phase::UnitCheck { unit: unit + 1 }
    } else {
        Phase::WordCheck
    }
}

} // verus!
