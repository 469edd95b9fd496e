use vstd::prelude::*;

use crate::text::{push_str, string_of};

verus! {

/// Failures of the ingestion pipeline, each carrying a diagnostic message.
#[derive(Debug, Clone)]
pub enum AppError {
    /// Duplicate repository or invalid identifiers.
    Validation(String),
    /// The call budget of a resource is exhausted; carries the resource.
    RateLimited(String),
    /// Transport failure.
    Network(String),
    /// Non-success status; carries the response body.
    Upstream(String),
    /// Malformed response body.
    Parse(String),
    /// Storage read or write failure.
    Persistence(String),
    /// Local file write failure.
    Io(String),
    /// A tree entry names a directory that no earlier entry registered.
    ParentNotFound(String),
    /// Any other failure.
    Custom(String),
}

/// The label that the text of each kind of failure starts with.
pub open spec fn error_label(e: AppError) -> Seq<char> {
    match e {
        AppError::Validation(_) => "Validation: "@,
        AppError::RateLimited(_) => "Rate limit exceeded: "@,
        AppError::Network(_) => "Network: "@,
        AppError::Upstream(_) => "Upstream: "@,
        AppError::Parse(_) => "Parse: "@,
        AppError::Persistence(_) => "Persistence: "@,
        AppError::Io(_) => "IO: "@,
        AppError::ParentNotFound(_) => "Parent not found: "@,
        AppError::Custom(_) => "App: "@,
    }
}

/// The message that a failure carries.
pub open spec fn error_detail(e: AppError) -> Seq<char> {
    match e {
        AppError::Validation(m) => m@,
        AppError::RateLimited(m) => m@,
        AppError::Network(m) => m@,
        AppError::Upstream(m) => m@,
        AppError::Parse(m) => m@,
        AppError::Persistence(m) => m@,
        AppError::Io(m) => m@,
        AppError::ParentNotFound(m) => m@,
        AppError::Custom(m) => m@,
    }
}

impl AppError {
    /// The text of the failure: its kind's label, then its message.
    pub fn message(&self) -> (r: String)
        ensures
            r@ == error_label(*self) + error_detail(*self),
    {
        let (label, detail) = match self {
            AppError::Validation(m) => ("Validation: ", m),
            AppError::RateLimited(m) => ("Rate limit exceeded: ", m),
            AppError::Network(m) => ("Network: ", m),
            AppError::Upstream(m) => ("Upstream: ", m),
            AppError::Parse(m) => ("Parse: ", m),
            AppError::Persistence(m) => ("Persistence: ", m),
            AppError::Io(m) => ("IO: ", m),
            AppError::ParentNotFound(m) => ("Parent not found: ", m),
            AppError::Custom(m) => ("App: ", m),
        };
        let mut v: Vec<char> = Vec::new();
        push_str(&mut v, label);
        push_str(&mut v, detail.as_str());
        string_of(v.as_slice())
    }

    /// A failed result carrying a custom message.
    pub fn new<T>(message: &str) -> (r: Result<T, AppError>)
        ensures
            r matches Err(AppError::Custom(m)) && m@ == message@,
    {
        Err(AppError::Custom(message.to_owned()))
    }
}

} // verus!
