//! Error values produced while running a pipeline.
use vstd::prelude::*;

verus! {

/// An error of the `serde_json` crate.
#[verifier::external_type_specification]
#[verifier::external_body]
pub struct ExJsonError(serde_json::Error);

/// An I/O error of the standard library.
#[verifier::external_type_specification]
#[verifier::external_body]
pub struct ExIoError(std::io::Error);

/// `ToString::to_string` of a `serde_json::Error`: its `Display` text. Nothing is stated of the
/// text.
#[verifier::external_body]
pub(crate) fn json_error_text(e: &serde_json::Error) -> String {
    e.to_string()
}

/// `ToString::to_string` of a `std::io::Error`: its `Display` text. Nothing is stated of the
/// text.
#[verifier::external_body]
fn io_error_text(e: &std::io::Error) -> String {
    e.to_string()
}

/// What went wrong while executing a prompt, a tool or a transport request.
#[derive(Debug, Clone, PartialEq, Eq)]
pub enum ExecutionError {
    ModelExecution(String),
    OutputParsing(String),
    StreamInterrupted(String),
    Timeout(String),
    Serialization(String),
    Io(String),
    ConfigError(String),
    ToolNotFound(String),
    ToolInputParse(String),
    ToolOutputSerialize(String),
    ToolExecutionFailed(String),
}

/// The fixed prefix that the message of each kind of error starts with.
pub open spec fn message_prefix(e: ExecutionError) -> Seq<char> {
    match e {
        ExecutionError::ModelExecution(_) => "Model execution failed: "@,
        ExecutionError::OutputParsing(_) => "Output parsing failed: "@,
        ExecutionError::StreamInterrupted(_) => "Stream interrupted: "@,
        ExecutionError::Timeout(_) => "Timeout exceeded: "@,
        ExecutionError::Serialization(_) => "Serialization error: "@,
        ExecutionError::Io(_) => "IO error: "@,
        ExecutionError::ConfigError(_) => "Configuration error: "@,
        ExecutionError::ToolNotFound(_) => "Tool not found: "@,
        ExecutionError::ToolInputParse(_) => "Failed to parse tool input: "@,
        ExecutionError::ToolOutputSerialize(_) => "Failed to serialize tool output: "@,
        ExecutionError::ToolExecutionFailed(_) => "Tool execution failed: "@,
    }
}

impl ExecutionError {
    /// The detail text that the error carries.
    pub open spec fn detail(self) -> Seq<char> {
        match self {
            ExecutionError::ModelExecution(s) => s@,
            ExecutionError::OutputParsing(s) => s@,
            ExecutionError::StreamInterrupted(s) => s@,
            ExecutionError::Timeout(s) => s@,
            ExecutionError::Serialization(s) => s@,
            ExecutionError::Io(s) => s@,
            ExecutionError::ConfigError(s) => s@,
            ExecutionError::ToolNotFound(s) => s@,
            ExecutionError::ToolInputParse(s) => s@,
            ExecutionError::ToolOutputSerialize(s) => s@,
            ExecutionError::ToolExecutionFailed(s) => s@,
        }
    }

    /// A JSON error becomes a serialization error carrying the JSON error's text.
    pub fn from_json_error(e: serde_json::Error) -> (r: Self)
        ensures
            r is Serialization,
    {
        ExecutionError::Serialization(json_error_text(&e))
    }

    /// An I/O error becomes an `Io` error carrying the I/O error's text.
    pub fn from_io_error(e: std::io::Error) -> (r: Self)
        ensures
            r is Io,
    {
        ExecutionError::Io(io_error_text(&e))
    }

    /// The error for an HTTP response whose status is not a success: a model-execution error
    /// whose detail reads `HTTP <status>: <body>`.
    pub fn http_status(status: &str, body: &str) -> (r: Self)
        ensures
            r matches ExecutionError::ModelExecution(d) && d@ == "HTTP "@ + status@ + ": "@ + body@,
    {
        let mut d = "HTTP ".to_string();
        d.append(status);
        d.append(": ");
        d.append(body);
        ExecutionError::ModelExecution(d)
    }

    /// The human-readable message of the error: its kind's prefix followed by its detail.
    pub fn message(&self) -> (m: String)
        ensures
            m@ == message_prefix(*self) + self.detail(),
    {
        let (prefix, detail) = match self {
            ExecutionError::ModelExecution(s) => ("Model execution failed: ", s),
            ExecutionError::OutputParsing(s) => ("Output parsing failed: ", s),
            ExecutionError::StreamInterrupted(s) => ("Stream interrupted: ", s),
            ExecutionError::Timeout(s) => ("Timeout exceeded: ", s),
            ExecutionError::Serialization(s) => ("Serialization error: ", s),
            ExecutionError::Io(s) => ("IO error: ", s),
            ExecutionError::ConfigError(s) => ("Configuration error: ", s),
            ExecutionError::ToolNotFound(s) => ("Tool not found: ", s),
            ExecutionError::ToolInputParse(s) => ("Failed to parse tool input: ", s),
            ExecutionError::ToolOutputSerialize(s) => ("Failed to serialize tool output: ", s),
            ExecutionError::ToolExecutionFailed(s) => ("Tool execution failed: ", s),
        };
        let mut m = prefix.to_string();
        m.append(detail.as_str());
        m
    }
}

} // verus!
