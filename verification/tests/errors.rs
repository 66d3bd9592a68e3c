//! Error messages and conversions.

use arti_pipes::error::ExecutionError;

#[test]
fn messages_carry_kind_and_detail() {
    let cases = vec![
        (ExecutionError::ModelExecution("x".into()), "Model execution failed: x"),
        (ExecutionError::OutputParsing("x".into()), "Output parsing failed: x"),
        (ExecutionError::StreamInterrupted("x".into()), "Stream interrupted: x"),
        (ExecutionError::Timeout("x".into()), "Timeout exceeded: x"),
        (ExecutionError::Serialization("x".into()), "Serialization error: x"),
        (ExecutionError::Io("x".into()), "IO error: x"),
        (ExecutionError::ConfigError("x".into()), "Configuration error: x"),
        (ExecutionError::ToolNotFound("calculator".into()), "Tool not found: calculator"),
        (ExecutionError::ToolInputParse("x".into()), "Failed to parse tool input: x"),
        (ExecutionError::ToolOutputSerialize("x".into()), "Failed to serialize tool output: x"),
        (ExecutionError::ToolExecutionFailed("x".into()), "Tool execution failed: x"),
    ];
    for (e, m) in cases {
        assert_eq!(e.message(), m);
    }
}

#[test]
fn json_errors_become_serialization_errors() {
    let err = serde_json::from_str::<serde_json::Value>("{").unwrap_err();
    let text = err.to_string();
    let e = ExecutionError::from_json_error(err);
    assert_eq!(e, ExecutionError::Serialization(text));
}

#[test]
fn io_errors_become_io_errors() {
    let err = std::io::Error::new(std::io::ErrorKind::Other, "disk full");
    let e = ExecutionError::from_io_error(err);
    assert_eq!(e, ExecutionError::Io("disk full".to_string()));
}

#[test]
fn unsuccessful_http_status_becomes_model_execution_error() {
    let e = ExecutionError::http_status("404 Not Found", "no such model");
    assert_eq!(e, ExecutionError::ModelExecution("HTTP 404 Not Found: no such model".into()));
    assert_eq!(e.message(), "Model execution failed: HTTP 404 Not Found: no such model");
}
