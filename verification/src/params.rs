//! Filter selection as a host parameter.

use crate::dsp::FilterMode;
use vstd::prelude::*;

verus! {

/// The filter choices a host offers, in the order it lists them.
#[derive(Clone, Copy, PartialEq, Eq, Debug, Structural)]
pub enum FilterModeParam {
    Off,
    LowPass,
    HighPass,
    BandPass,
}

impl FilterModeParam {
    /// The filter tap that a choice stands for.
    pub open spec fn dsp_mode(self) -> FilterMode {
        match self {
            FilterModeParam::Off => FilterMode::Off,
            FilterModeParam::LowPass => FilterMode::LP,
            FilterModeParam::HighPass => FilterMode::HP,
            FilterModeParam::BandPass => FilterMode::BP,
        }
    }

    /// The filter tap that this choice stands for.
    pub fn to_dsp(&self) -> (r: FilterMode)
        ensures
            r == self.dsp_mode(),
    {
        match self {
            FilterModeParam::Off => FilterMode::Off,
            FilterModeParam::LowPass => FilterMode::LP,
            FilterModeParam::HighPass => FilterMode::HP,
            FilterModeParam::BandPass => FilterMode::BP,
        }
    }
}

} // verus!
