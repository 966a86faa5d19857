//! CPU-side frame analysis (histogram, waveform, vectorscope, parade scopes)
//! and effect-pass uniform validation for a colour-grading pipeline.

pub mod color;
pub mod frame;
pub mod histogram;
pub mod waveform;
pub mod vectorscope;
pub mod parade;
pub mod readback;
pub mod pipeline;
pub mod scopes;
pub mod laws;
