use vstd::prelude::*;

verus! {

/// The operating region of a transistor.
#[derive(Debug, Clone, Copy, PartialEq, Eq, Structural)]
pub enum State {
    CutOff,
    Linear,
    Saturated,
}

/// The region that three tests on the terminal voltages select: `off`
/// tells that the control voltage does not exceed the threshold, `triode` that
/// the channel voltage lies between 0 and the overdrive, `pinched` that the
/// overdrive lies between 0 and the channel voltage. The first test that
/// holds decides; none may hold where a voltage is no number.
pub open spec fn region_of(off: bool, triode: bool, pinched: bool) -> Option<State> {
    if off {
        Some(State::CutOff)
    } else if triode {
        Some(State::Linear)
    } else if pinched {
        Some(State::Saturated)
    } else {
        None
    }
}

impl State {
    /// Selects the operating region from the outcome of the three tests.
    pub fn classify(off: bool, triode: bool, pinched: bool) -> (r: Option<State>)
        ensures
            r == region_of(off, triode, pinched),
    {
        if off {
            Some(State::CutOff)
        } else if triode {
            Some(State::Linear)
        } else if pinched {
            Some(State::Saturated)
        } else {
            None
        }
    }
}

} // verus!
