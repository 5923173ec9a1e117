use vstd::prelude::*;

verus! {

/// Available filter types.
#[derive(Debug, Clone, Copy, PartialEq, Eq, Structural)]
pub enum FilterType {
    LowPass,
    HighPass,
    BandPass,
    BandStop,
    Notch,
}

} // verus!
