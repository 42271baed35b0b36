//! Orchestration core of a solar/lunar frame-stacking run: cooperative
//! cancellation, progress reporting, quality-score statistics, the
//! frame-quality pass and the stage sequencer of a full run.

pub mod analysis;
pub mod cancel;
pub mod process;
pub mod quality;
pub mod sigma;
pub mod taskstatus;
pub mod text;
