//! Stage logic of the DSP building blocks.
//!
//! Signal levels and filter coefficients are real-valued and live with the
//! caller; this module owns the discrete part: which filter tap is selected
//! and which stage the amplitude envelope is in.

use vstd::prelude::*;

verus! {

/// Which tap of the state-variable filter is heard.
#[derive(Clone, Copy, PartialEq, Eq, Debug, Structural)]
pub enum FilterMode {
    Off,
    LP,
    HP,
    BP,
}

/// Stage of the amplitude envelope.
#[derive(Clone, Copy, PartialEq, Eq, Debug, Structural)]
pub enum AdsrState {
    Idle,
    Attack,
    Decay,
    Sustain,
    Release,
}

impl AdsrState {
    /// The stage that follows `self` after one sample.
    ///
    /// `crossed` tells whether the level ramp of the current stage reached its
    /// target on this sample: full level in `Attack`, the sustain level in
    /// `Decay`, silence in `Release`. `Idle` and `Sustain` have no ramp and
    /// never move on their own.
    pub open spec fn step(self, crossed: bool) -> AdsrState {
        match self {
            AdsrState::Idle => AdsrState::Idle,
            AdsrState::Attack => if crossed { AdsrState::Decay } else { AdsrState::Attack },
            AdsrState::Decay => if crossed { AdsrState::Sustain } else { AdsrState::Decay },
            AdsrState::Sustain => AdsrState::Sustain,
            AdsrState::Release => if crossed { AdsrState::Idle } else { AdsrState::Release },
        }
    }

    /// The stage after a note-off: `Idle` stays idle, every other stage
    /// jumps to `Release`.
    pub open spec fn released(self) -> AdsrState {
        if self == AdsrState::Idle { AdsrState::Idle } else { AdsrState::Release }
    }
}

/// ADSR envelope generator, reduced to its stage.
///
/// The level that ramps within a stage is real-valued and kept by the
/// caller, who reports on every sample whether the ramp reached its target.
#[derive(Clone, Copy, Debug, PartialEq, Eq)]
pub struct Adsr {
    pub state: AdsrState,
}

impl Adsr {
    /// An envelope at rest.
    pub fn new() -> (r: Adsr)
        ensures
            r.state == AdsrState::Idle,
    {
        Adsr { state: AdsrState::Idle }
    }

    /// Enters `Attack` from any stage. Nothing else is touched, so a level
    /// kept beside the envelope continues from where it is.
    pub fn note_on(&mut self)
        ensures
            final(self).state == AdsrState::Attack,
    {
        self.state = AdsrState::Attack;
    }

    /// Enters `Release` from any stage but `Idle`.
    pub fn note_off(&mut self)
        ensures
            final(self).state == old(self).state.released(),
    {
        if self.state != AdsrState::Idle {
            self.state = AdsrState::Release;
        }
    }

    /// Brings the envelope to rest at once.
    pub fn reset(&mut self)
        ensures
            final(self).state == AdsrState::Idle,
    {
        self.state = AdsrState::Idle;
    }

    /// Advances the envelope by one sample and returns the new stage.
    pub fn next(&mut self, crossed: bool) -> (r: AdsrState)
        ensures
            final(self).state == old(self).state.step(crossed),
            r == final(self).state,
    {
        let next = match self.state {
            AdsrState::Idle => AdsrState::Idle,
            AdsrState::Attack => if crossed {
                AdsrState::Decay
            } else {
                AdsrState::Attack
            },
            AdsrState::Decay => if crossed {
                AdsrState::Sustain
            } else {
                AdsrState::Decay
            },
            AdsrState::Sustain => AdsrState::Sustain,
            AdsrState::Release => if crossed {
                AdsrState::Idle
            } else {
                AdsrState::Release
            },
        };
        self.state = next;
        next
    }

    /// Whether the envelope is at rest.
    pub fn is_idle(&self) -> (r: bool)
        ensures
            r == (self.state == AdsrState::Idle),
    {
        self.state == AdsrState::Idle
    }
}

} // verus!
