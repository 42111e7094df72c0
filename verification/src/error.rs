//! The library's error type.
use vstd::prelude::*;

verus! {

/// Errors raised by the decision logic of the library.
#[derive(Debug)]
pub enum AppError {
    /// The compositor offers no wlr-layer-shell global.
    LayerShellNotSupported,
    /// EGL could not be set up; the text says why.
    EglInit(String),
    /// No output matched the selector given.
    OutputNotFound(String),
    /// A user-supplied setting is malformed.
    Config(String),
}

/// The mathematical value of an [`AppError`]: its variant and its text.
pub enum AppErrorView {
    LayerShellNotSupported,
    EglInit(Seq<char>),
    OutputNotFound(Seq<char>),
    Config(Seq<char>),
}

impl View for AppError {
    type V = AppErrorView;

    open spec fn view(&self) -> AppErrorView {
        match self {
            AppError::LayerShellNotSupported => AppErrorView::LayerShellNotSupported,
            AppError::EglInit(s) => AppErrorView::EglInit(s@),
            AppError::OutputNotFound(s) => AppErrorView::OutputNotFound(s@),
            AppError::Config(s) => AppErrorView::Config(s@),
        }
    }
}

/// Result type of the library.
pub type Result<T> = std::result::Result<T, AppError>;

} // verus!
