//! Shared result, error, request and response types.
use vstd::prelude::*;
use crate::text::{push_str, str_to_string};

verus! {

/// Errors of every layer.
#[derive(Debug, Clone, PartialEq)]
pub enum ReedError {
    NotFound { resource: String, context: Option<String> },
    ParseError { input: String, reason: String },
    IoError { operation: String, path: String, reason: String },
    ValidationError { field: String, value: String, constraint: String },
    InvalidCommand { command: String, reason: String },
    ConfigError { component: String, reason: String },
    FileNotFound { path: String, reason: String },
    DirectoryNotFound { path: String, reason: String },
    WriteError { path: String, reason: String },
    BuildError { component: String, reason: String },
    ServerError { component: String, reason: String },
    WatcherError { reason: String },
}

pub type ReedResult<T> = Result<T, ReedError>;

/// A `ReedError` with its texts as character sequences.
pub enum ErrorView {
    NotFound { resource: Seq<char>, context: Option<Seq<char>> },
    ParseError { input: Seq<char>, reason: Seq<char> },
    IoError { operation: Seq<char>, path: Seq<char>, reason: Seq<char> },
    ValidationError { field: Seq<char>, value: Seq<char>, constraint: Seq<char> },
    InvalidCommand { command: Seq<char>, reason: Seq<char> },
    ConfigError { component: Seq<char>, reason: Seq<char> },
    FileNotFound { path: Seq<char>, reason: Seq<char> },
    DirectoryNotFound { path: Seq<char>, reason: Seq<char> },
    WriteError { path: Seq<char>, reason: Seq<char> },
    BuildError { component: Seq<char>, reason: Seq<char> },
    ServerError { component: Seq<char>, reason: Seq<char> },
    WatcherError { reason: Seq<char> },
}

pub open spec fn opt_str_view(o: Option<String>) -> Option<Seq<char>> {
    match o {
        Some(s) => Some(s@),
        None => None,
    }
}

impl View for ReedError {
    type V = ErrorView;

    open spec fn view(&self) -> ErrorView {
        match self {
            ReedError::NotFound { resource, context } => ErrorView::NotFound {
                resource: resource@,
                context: opt_str_view(*context),
            },
            ReedError::ParseError { input, reason } => ErrorView::ParseError {
                input: input@,
                reason: reason@,
            },
            ReedError::IoError { operation, path, reason } => ErrorView::IoError {
                operation: operation@,
                path: path@,
                reason: reason@,
            },
            ReedError::ValidationError { field, value, constraint } => ErrorView::ValidationError {
                field: field@,
                value: value@,
                constraint: constraint@,
            },
            ReedError::InvalidCommand { command, reason } => ErrorView::InvalidCommand {
                command: command@,
                reason: reason@,
            },
            ReedError::ConfigError { component, reason } => ErrorView::ConfigError {
                component: component@,
                reason: reason@,
            },
            ReedError::FileNotFound { path, reason } => ErrorView::FileNotFound {
                path: path@,
                reason: reason@,
            },
            ReedError::DirectoryNotFound { path, reason } => ErrorView::DirectoryNotFound {
                path: path@,
                reason: reason@,
            },
            ReedError::WriteError { path, reason } => ErrorView::WriteError {
                path: path@,
                reason: reason@,
            },
            ReedError::BuildError { component, reason } => ErrorView::BuildError {
                component: component@,
                reason: reason@,
            },
            ReedError::ServerError { component, reason } => ErrorView::ServerError {
                component: component@,
                reason: reason@,
            },
            ReedError::WatcherError { reason } => ErrorView::WatcherError { reason: reason@ },
        }
    }
}

/// `e` is an `InvalidCommand` error with this command and reason.
pub open spec fn is_invalid_command(e: ReedError, command: Seq<char>, reason: Seq<char>) -> bool {
    e matches ReedError::InvalidCommand { command: c, reason: r } && c@ == command && r@ == reason
}

/// `e` is a `ValidationError` with this field, value and constraint.
pub open spec fn is_validation_error(
    e: ReedError,
    field: Seq<char>,
    value: Seq<char>,
    constraint: Seq<char>,
) -> bool {
    e matches ReedError::ValidationError { field: f, value: v, constraint: c } && f@ == field && v@
        == value && c@ == constraint
}

/// `e` is a `ParseError` with this input and reason.
pub open spec fn is_parse_error(e: ReedError, input: Seq<char>, reason: Seq<char>) -> bool {
    e matches ReedError::ParseError { input: i, reason: r } && i@ == input && r@ == reason
}

/// `e` is a `ConfigError` with this component and reason.
pub open spec fn is_config_error(e: ReedError, component: Seq<char>, reason: Seq<char>) -> bool {
    e matches ReedError::ConfigError { component: c, reason: r } && c@ == component && r@ == reason
}


/// One line describing an error, as reports print it.
pub open spec fn error_text(e: ErrorView) -> Seq<char> {
    match e {
        ErrorView::NotFound { resource, context } => match context {
            Some(c) => "Not found: "@ + resource + " ("@ + c + ")"@,
            None => "Not found: "@ + resource,
        },
        ErrorView::ParseError { input, reason } => "Parse error in "@ + input + ": "@ + reason,
        ErrorView::IoError { operation, path, reason } => "I/O error ("@ + operation + ") on "@
            + path + ": "@ + reason,
        ErrorView::ValidationError { field, value, constraint } => "Validation error: "@ + field
            + " = '"@ + value + "' ("@ + constraint + ")"@,
        ErrorView::InvalidCommand { command, reason } => "Invalid command "@ + command + ": "@
            + reason,
        ErrorView::ConfigError { component, reason } => "Configuration error in "@ + component
            + ": "@ + reason,
        ErrorView::FileNotFound { path, reason } => "File not found: "@ + path + ": "@ + reason,
        ErrorView::DirectoryNotFound { path, reason } => "Directory not found: "@ + path + ": "@
            + reason,
        ErrorView::WriteError { path, reason } => "Write error on "@ + path + ": "@ + reason,
        ErrorView::BuildError { component, reason } => "Build error in "@ + component + ": "@
            + reason,
        ErrorView::ServerError { component, reason } => "Server error in "@ + component + ": "@
            + reason,
        ErrorView::WatcherError { reason } => "Watcher error: "@ + reason,
    }
}

impl ReedError {
    /// The line describing this error.
    pub fn describe(&self) -> (r: String)
        ensures
            r@ == error_text(self@),
    {
        let mut r = String::new();
        match self {
            ReedError::NotFound { resource, context } => {
                push_str(&mut r, "Not found: ");
                push_str(&mut r, resource.as_str());
                match context {
                    Some(c) => {
                        push_str(&mut r, " (");
                        push_str(&mut r, c.as_str());
                        push_str(&mut r, ")");
                    },
                    None => {},
                }
            },
            ReedError::ParseError { input, reason } => {
                push_str(&mut r, "Parse error in ");
                push_str(&mut r, input.as_str());
                push_str(&mut r, ": ");
                push_str(&mut r, reason.as_str());
            },
            ReedError::IoError { operation, path, reason } => {
                push_str(&mut r, "I/O error (");
                push_str(&mut r, operation.as_str());
                push_str(&mut r, ") on ");
                push_str(&mut r, path.as_str());
                push_str(&mut r, ": ");
                push_str(&mut r, reason.as_str());
            },
            ReedError::ValidationError { field, value, constraint } => {
                push_str(&mut r, "Validation error: ");
                push_str(&mut r, field.as_str());
                push_str(&mut r, " = '");
                push_str(&mut r, value.as_str());
                push_str(&mut r, "' (");
                push_str(&mut r, constraint.as_str());
                push_str(&mut r, ")");
            },
            ReedError::InvalidCommand { command, reason } => {
                push_str(&mut r, "Invalid command ");
                push_str(&mut r, command.as_str());
                push_str(&mut r, ": ");
                push_str(&mut r, reason.as_str());
            },
            ReedError::ConfigError { component, reason } => {
                push_str(&mut r, "Configuration error in ");
                push_str(&mut r, component.as_str());
                push_str(&mut r, ": ");
                push_str(&mut r, reason.as_str());
            },
            ReedError::FileNotFound { path, reason } => {
                push_str(&mut r, "File not found: ");
                push_str(&mut r, path.as_str());
                push_str(&mut r, ": ");
                push_str(&mut r, reason.as_str());
            },
            ReedError::DirectoryNotFound { path, reason } => {
                push_str(&mut r, "Directory not found: ");
                push_str(&mut r, path.as_str());
                push_str(&mut r, ": ");
                push_str(&mut r, reason.as_str());
            },
            ReedError::WriteError { path, reason } => {
                push_str(&mut r, "Write error on ");
                push_str(&mut r, path.as_str());
                push_str(&mut r, ": ");
                push_str(&mut r, reason.as_str());
            },
            ReedError::BuildError { component, reason } => {
                push_str(&mut r, "Build error in ");
                push_str(&mut r, component.as_str());
                push_str(&mut r, ": ");
                push_str(&mut r, reason.as_str());
            },
            ReedError::ServerError { component, reason } => {
                push_str(&mut r, "Server error in ");
                push_str(&mut r, component.as_str());
                push_str(&mut r, ": ");
                push_str(&mut r, reason.as_str());
            },
            ReedError::WatcherError { reason } => {
                push_str(&mut r, "Watcher error: ");
                push_str(&mut r, reason.as_str());
            },
        }
        assert(r@ =~= error_text(self@));
        r
    }
}

pub fn invalid_command(command: &str, reason: String) -> (e: ReedError)
    ensures
        is_invalid_command(e, command@, reason@),
{
    ReedError::InvalidCommand { command: str_to_string(command), reason }
}

pub fn validation_error(field: &str, value: String, constraint: String) -> (e: ReedError)
    ensures
        is_validation_error(e, field@, value@, constraint@),
{
    ReedError::ValidationError { field: str_to_string(field), value, constraint }
}

/// Timing and access figures attached to a response.
#[derive(Debug, Clone, PartialEq)]
pub struct ResponseMetrics {
    pub processing_time_us: u64,
    pub memory_allocated: Option<u64>,
    pub csv_files_accessed: u32,
    pub cache_info: Option<String>,
}

/// A response of any layer.
#[derive(Debug, Clone, PartialEq)]
pub struct ReedResponse<T> {
    pub data: T,
    pub source: String,
    pub cached: bool,
    pub timestamp: u64,
    pub metrics: Option<ResponseMetrics>,
}

impl<T> ReedResponse<T> {
    /// A fresh, uncached response without metrics.
    pub fn new(data: T, source: &str) -> (r: ReedResponse<T>)
        ensures
            r.data == data,
            r.source@ == source@,
            !r.cached,
            r.metrics is None,
    {
        ReedResponse {
            data,
            source: str_to_string(source),
            cached: false,
            timestamp: current_timestamp(),
            metrics: None,
        }
    }
}

/// A request to the data layer.
#[derive(Debug, Clone, PartialEq)]
pub struct ReedRequest {
    pub key: String,
    pub language: Option<String>,
    pub environment: Option<String>,
    pub context: Option<String>,
    pub value: Option<String>,
    pub description: Option<String>,
}

/// Seconds since the Unix epoch (`SystemTime::now`).
///
/// Trusted: the clock is read through std; nothing is promised of the
/// value, which depends on the time of the call (0 if the clock reads
/// earlier than the epoch).
#[verifier::external_body]
pub(crate) fn current_timestamp() -> u64 {
    std::time::SystemTime::now().duration_since(std::time::UNIX_EPOCH).map(|d| d.as_secs()).unwrap_or(0)
}

/// Microseconds since the Unix epoch (`SystemTime::now`), for measuring
/// processing time.
///
/// Trusted: nothing is promised of the value, which depends on the time of
/// the call (0 if the clock reads earlier than the epoch).
#[verifier::external_body]
pub(crate) fn current_time_micros() -> u64 {
    std::time::SystemTime::now().duration_since(std::time::UNIX_EPOCH).map(|d| d.as_micros() as u64).unwrap_or(0)
}

} // verus!
