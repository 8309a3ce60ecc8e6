//! The errors of the knock tool as a whole.
use vstd::prelude::*;
use crate::text::concat;

verus! {

broadcast use vstd::string::group_string_axioms;

/// An error of the knock tool. An I/O failure carries the text of the failure.
#[derive(Debug)]
pub enum AppError {
    Crypto(String),
    Protocol(String),
    Firewall(String),
    Config(String),
    Io(String),
    Timeout,
}

/// The contents of an [`AppError`].
pub enum AppErrorView {
    Crypto(Seq<char>),
    Protocol(Seq<char>),
    Firewall(Seq<char>),
    Config(Seq<char>),
    Io(Seq<char>),
    Timeout,
}

impl View for AppError {
    type V = AppErrorView;

    open spec fn view(&self) -> AppErrorView {
        match self {
            AppError::Crypto(s) => AppErrorView::Crypto(s@),
            AppError::Protocol(s) => AppErrorView::Protocol(s@),
            AppError::Firewall(s) => AppErrorView::Firewall(s@),
            AppError::Config(s) => AppErrorView::Config(s@),
            AppError::Io(s) => AppErrorView::Io(s@),
            AppError::Timeout => AppErrorView::Timeout,
        }
    }
}

/// The text of an error: its kind, then its detail.
pub open spec fn app_error_message(e: AppErrorView) -> Seq<char> {
    match e {
        AppErrorView::Crypto(s) => "Crypto error: "@ + s,
        AppErrorView::Protocol(s) => "Protocol error: "@ + s,
        AppErrorView::Firewall(s) => "Firewall error: "@ + s,
        AppErrorView::Config(s) => "Config error: "@ + s,
        AppErrorView::Io(s) => "IO error: "@ + s,
        AppErrorView::Timeout => "Timeout"@,
    }
}

impl AppError {
    /// The text that describes the error.
    pub fn message(&self) -> (r: String)
        ensures
            r@ == app_error_message(self@),
    {
        match self {
            AppError::Crypto(s) => concat("Crypto error: ", s.as_str()),
            AppError::Protocol(s) => concat("Protocol error: ", s.as_str()),
            AppError::Firewall(s) => concat("Firewall error: ", s.as_str()),
            AppError::Config(s) => concat("Config error: ", s.as_str()),
            AppError::Io(s) => concat("IO error: ", s.as_str()),
            AppError::Timeout => "Timeout".to_string(),
        }
    }

    /// A copy of the error with the same contents.
    pub fn duplicate(&self) -> (r: AppError)
        ensures
            r@ == self@,
    {
        match self {
            AppError::Crypto(s) => AppError::Crypto(s.as_str().to_string()),
            AppError::Protocol(s) => AppError::Protocol(s.as_str().to_string()),
            AppError::Firewall(s) => AppError::Firewall(s.as_str().to_string()),
            AppError::Config(s) => AppError::Config(s.as_str().to_string()),
            AppError::Io(s) => AppError::Io(s.as_str().to_string()),
            AppError::Timeout => AppError::Timeout,
        }
    }
}

} // verus!
