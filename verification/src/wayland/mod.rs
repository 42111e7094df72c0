//! Outputs: choosing them, listing them, and their surface geometry.
pub mod layer;
pub mod output;
pub mod state;


pub use state::{list_outputs, select_output, select_outputs, OutputInfo};
