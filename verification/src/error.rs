use vstd::prelude::*;

verus! {

/// Errors reported by the library: configuration errors come from command-line
/// input, validation errors from data that breaks a safety rule.
#[derive(Debug, Clone, PartialEq, Eq)]
pub enum AppError {
    Config(String),
    Validation(String),
}

/// The mathematical value of an [`AppError`]: its kind and its message.
pub enum AppErrorView {
    Config(Seq<char>),
    Validation(Seq<char>),
}

impl View for AppError {
    type V = AppErrorView;

    open spec fn view(&self) -> AppErrorView {
        match self {
            AppError::Config(m) => AppErrorView::Config(m@),
            AppError::Validation(m) => AppErrorView::Validation(m@),
        }
    }
}

impl AppErrorView {
    pub open spec fn message(self) -> Seq<char> {
        match self {
            AppErrorView::Config(m) => m,
            AppErrorView::Validation(m) => m,
        }
    }
}

impl AppError {
    /// The human-readable message of the error.
    pub fn to_string(&self) -> (s: String)
        ensures
            s@ == self@.message(),
    {
        match self {
            AppError::Config(m) => m.clone(),
            AppError::Validation(m) => m.clone(),
        }
    }
}

} // verus!
