//! Pause/stop bookkeeping shared by the worker threads and the render loop.
pub mod halt;
pub mod threads;

pub use halt::{HaltInfo, OutputFrameState};
