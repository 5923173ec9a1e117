//! Index and planning logic of a suite of signal filters for sensor streams.
//!
//! The sample arithmetic of the filters works on `f64` values; what is proved
//! here is the integer side that decides which samples each output reads and
//! how each request is treated: the windows of the moving-average and median
//! filters, median ranks, the Savitzky-Golay request and its edge-replicated
//! taps, finite-difference stencils and the section plan of a cascaded
//! Butterworth design.

pub mod sections;
pub mod stencil;
pub mod types;
pub mod window;

pub use sections::{butterworth_sections, SectionKind};
pub use stencil::{
    difference_stencil, replicate_index, savgol_plan, DifferenceStencil, SavgolParamError,
    SavgolPlan,
};
pub use types::FilterType;
pub use window::{centered_window, median_rank, window_plan, MedianRank};
