use vstd::prelude::*;

verus! {

/// The log output formats the server can be asked for.
#[derive(Clone, Copy, PartialEq, Eq, Structural, Debug)]
pub enum LogFormat {
    Text,
    TextColor,
    Json,
}

/// How noisy the server should be.
#[derive(Clone, Copy, PartialEq, Eq, Structural, Debug)]
pub enum LogLevel {
    Trace,
    Debug,
    Info,
    Warn,
    Error,
}

/// The level type of the log backend, opaque to the core.
#[verifier::external_type_specification]
#[verifier::external_body]
pub struct ExTracingLevel(tracing::Level);

/// Relies on the `tracing::Level` constants: picks the backend's level
/// for each verbosity setting, one arm per variant.
#[verifier::external_body]
fn to_tracing_level(level: &LogLevel) -> tracing::Level {
    match level {
        LogLevel::Trace => tracing::Level::TRACE,
        LogLevel::Debug => tracing::Level::DEBUG,
        LogLevel::Info => tracing::Level::INFO,
        LogLevel::Warn => tracing::Level::WARN,
        LogLevel::Error => tracing::Level::ERROR,
    }
}

impl LogLevel {
    /// The log backend's level corresponding to this verbosity setting.
    pub fn tracing_level(&self) -> tracing::Level {
        to_tracing_level(self)
    }
}

} // verus!
