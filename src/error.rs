use vstd::prelude::*;

verus! {

/// Every failure the runtime reports.
#[derive(Debug, PartialEq, Eq)]
pub enum AppError {
    /// No tenant is registered for the (port-stripped) host.
    HostNotFound(String),
    /// No route's path template matches the path.
    NotFound,
    /// A route's path template matches the path, but under another method.
    MethodNotAllowed,
    /// A route list or project configuration is malformed.
    ConfigError,
    /// The scripting engine raised an exception or returned an unusable value.
    EngineFault,
    /// The handler module binds no handler under the requested name.
    HandlerNotFound,
}

impl AppError {
    /// The HTTP status code a failure is answered with: unknown host or path
    /// 404, wrong method 405, a failed handler 502, a bad configuration 500.
    pub fn status_code(&self) -> (r: u16)
        ensures
            r == match self {
                AppError::HostNotFound(_) | AppError::NotFound => 404u16,
                AppError::MethodNotAllowed => 405u16,
                AppError::EngineFault | AppError::HandlerNotFound => 502u16,
                AppError::ConfigError => 500u16,
            },
    {
        match self {
            AppError::HostNotFound(_) | AppError::NotFound => 404,
            AppError::MethodNotAllowed => 405,
            AppError::EngineFault | AppError::HandlerNotFound => 502,
            AppError::ConfigError => 500,
        }
    }
}

} // verus!
