use vstd::prelude::*;

verus! {

/// The shapes of a time-varying excitation.
#[derive(Debug, Clone, Copy, PartialEq, Eq, Structural)]
pub enum Waveform {
    Pulse,
    Sine,
    Exp,
}

impl Waveform {
    /// The number of parameters that describe the shape.
    pub open spec fn param_count(self) -> nat {
        match self {
            Waveform::Sine => 3,
            Waveform::Pulse => 7,
            Waveform::Exp => 6,
        }
    }

    pub fn params(self) -> (n: usize)
        ensures
            n == self.param_count(),
    {
        match self {
            Waveform::Sine => 3,
            Waveform::Pulse => 7,
            Waveform::Exp => 6,
        }
    }
}

/// Where in its period a pulse stands.
#[derive(Debug, Clone, Copy, PartialEq, Eq, Structural)]
pub enum PulsePhase {
    Waiting,
    Rising,
    High,
    Falling,
    Low,
}

/// The phase of a pulse, given which of its four marks the time within the
/// period has not reached yet: the end of the delay, the end of the rise,
/// the start of the fall and the end of the pulse. The first mark not yet
/// reached decides.
pub open spec fn pulse_phase_of(
    before_delay: bool,
    before_top: bool,
    before_fall: bool,
    before_end: bool,
) -> PulsePhase {
    if before_delay {
        PulsePhase::Waiting
    } else if before_top {
        PulsePhase::Rising
    } else if before_fall {
        PulsePhase::High
    } else if before_end {
        PulsePhase::Falling
    } else {
        PulsePhase::Low
    }
}

impl PulsePhase {
    pub fn classify(before_delay: bool, before_top: bool, before_fall: bool, before_end: bool) -> (p:
        PulsePhase)
        ensures
            p == pulse_phase_of(before_delay, before_top, before_fall, before_end),
    {
        if before_delay {
            PulsePhase::Waiting
        } else if before_top {
            PulsePhase::Rising
        } else if before_fall {
            PulsePhase::High
        } else if before_end {
            PulsePhase::Falling
        } else {
            PulsePhase::Low
        }
    }
}

/// Where an exponential excitation stands.
#[derive(Debug, Clone, Copy, PartialEq, Eq, Structural)]
pub enum ExpPhase {
    Waiting,
    Rising,
    Falling,
}

/// The phase of an exponential excitation, given whether the time lies
/// before the start of the rise and before the start of the fall.
pub open spec fn exp_phase_of(before_rise: bool, before_fall: bool) -> ExpPhase {
    if before_rise {
        ExpPhase::Waiting
    } else if before_fall {
        ExpPhase::Rising
    } else {
        ExpPhase::Falling
    }
}

impl ExpPhase {
    pub fn classify(before_rise: bool, before_fall: bool) -> (p: ExpPhase)
        ensures
            p == exp_phase_of(before_rise, before_fall),
    {
        if before_rise {
            ExpPhase::Waiting
        } else if before_fall {
            ExpPhase::Rising
        } else {
            ExpPhase::Falling
        }
    }
}

} // verus!
