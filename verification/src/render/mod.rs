//! Rendering parameters: HiDPI buffer sizes and GL context versions.
pub mod egl;
pub mod hidpi;

pub use egl::GlApiType;
