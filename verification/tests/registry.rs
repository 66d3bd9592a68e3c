//! The tool registry.

use arti_pipes::error::ExecutionError;
use arti_pipes::tool::{ToolCall, ToolDescriptor, ToolResult};
use arti_pipes::tool_registry::ToolRegistry;
use serde_json::Value;
use std::cell::RefCell;

fn descriptor(name: &str, description: &str) -> ToolDescriptor {
    ToolDescriptor::new(name, description, schemars::Schema::default(), schemars::Schema::from(true))
}

fn call(name: &str) -> ToolCall {
    ToolCall { id: "call_1".into(), name: name.into(), arguments: Value::Null }
}

/// A test tool: it knows its own descriptor and carries a value.
type Described<T> = (ToolDescriptor, T);

fn add<T>(r: ToolRegistry<Described<T>>, d: ToolDescriptor, value: T) -> ToolRegistry<Described<T>> {
    let name = d.name.clone();
    r.register(name, (d, value))
}

fn describe<T>(tool: &Described<T>) -> ToolDescriptor {
    tool.0.clone()
}

fn value<T: Copy>(r: &ToolRegistry<Described<T>>, name: &str) -> Option<T> {
    r.get(&name.to_string()).map(|t| t.1)
}

#[test]
fn registered_tools_are_found_by_name() {
    let r = add(add(ToolRegistry::new(), descriptor("calculator", "math"), 1u32), descriptor("weather", "sky"), 2u32);
    assert_eq!(r.len(), 2);
    assert_eq!(value(&r, "calculator"), Some(1));
    assert_eq!(value(&r, "weather"), Some(2));
    assert_eq!(value(&r, "Calculator"), None);
    assert_eq!(r.resolve(&call("weather")).map(|t| t.1), Ok(2));
}

#[test]
fn unknown_tool_is_not_found() {
    let r: ToolRegistry<u32> = ToolRegistry::default().register("calculator".to_string(), 1);
    assert_eq!(r.resolve(&call("database")), Err(ExecutionError::ToolNotFound("database".into())));
    let empty: ToolRegistry<Described<u32>> = ToolRegistry::new();
    assert_eq!(empty.len(), 0);
    assert!(empty.descriptors(describe).is_empty());
}

#[test]
fn registering_a_name_again_replaces_the_tool() {
    let r = ToolRegistry::new();
    let r = add(r, descriptor("calculator", "old"), 1u32);
    let r = add(r, descriptor("weather", "sky"), 2u32);
    let r = add(r, descriptor("calculator", "new"), 3u32);
    assert_eq!(r.len(), 2);
    assert_eq!(value(&r, "calculator"), Some(3));
    let ds = r.descriptors(describe);
    assert_eq!(ds.len(), 2);
    let calc = ds.iter().find(|d| d.name == "calculator").unwrap();
    assert_eq!(calc.description, "new");
}

#[test]
fn descriptors_list_each_tool_once() {
    let r = add(ToolRegistry::new(), descriptor("calculator", "math"), ());
    let ds = r.descriptors(describe);
    assert_eq!(ds.len(), 1);
    assert_eq!(ds[0].name, "calculator");
    assert_eq!(ds[0].description, "math");
    assert_eq!(ds[0].output_schema, schemars::Schema::from(true));
}

#[test]
fn descriptors_are_asked_of_the_tools_when_listed() {
    let r = ToolRegistry::new().register("counter".to_string(), RefCell::new("before".to_string()));
    *r.get(&"counter".to_string()).unwrap().borrow_mut() = "after".to_string();
    let ds = r.descriptors(|tool: &RefCell<String>| descriptor("counter", &tool.borrow()));
    assert_eq!(ds.len(), 1);
    assert_eq!(ds[0].description, "after");
}

#[test]
fn clone_keeps_tools() {
    let r = ToolRegistry::new().register("a".to_string(), "tool".to_string());
    let c = r.clone();
    assert_eq!(c.get(&"a".to_string()).map(|s| s.as_str()), Some("tool"));
    assert_eq!(c.len(), 1);
}

#[test]
fn results_answer_their_call() {
    let c = ToolCall { id: "call_7".into(), name: "calculator".into(), arguments: Value::Null };
    let r = ToolResult::for_call(&c, Value::from(56088.0));
    assert_eq!(r.call_id, "call_7");
    assert_eq!(r.output, Value::from(56088.0));
}

type ToolFn = fn(&Value) -> Result<Value, ExecutionError>;

fn calculator(input: &Value) -> Result<Value, ExecutionError> {
    let expr = input
        .get("expression")
        .and_then(|e| e.as_str())
        .ok_or_else(|| ExecutionError::ToolInputParse("missing field `expression`".into()))?;
    let parts: Vec<&str> = expr.split('*').map(|s| s.trim()).collect();
    if parts.len() != 2 {
        return Err(ExecutionError::ToolExecutionFailed("Only multiplication is supported".into()));
    }
    let a: f64 = parts[0].parse().map_err(|_| ExecutionError::ToolExecutionFailed("a".into()))?;
    let b: f64 = parts[1].parse().map_err(|_| ExecutionError::ToolExecutionFailed("b".into()))?;
    let mut out = serde_json::Map::new();
    out.insert("result".into(), Value::from(a * b));
    Ok(Value::Object(out))
}

#[test]
fn tools_scenario_resolves_calculator_call() {
    let registry: ToolRegistry<Described<ToolFn>> =
        add(ToolRegistry::new(), descriptor("calculator", "Evaluates '123 * 456'"), calculator);
    let descriptors = registry.descriptors(describe);
    assert_eq!(descriptors.len(), 1);
    assert_eq!(descriptors[0].name, "calculator");

    let mut args = serde_json::Map::new();
    args.insert("expression".into(), Value::from("123 * 456"));
    let call = ToolCall { id: "call_1".into(), name: "calculator".into(), arguments: Value::Object(args) };
    let tool = registry.resolve(&call).unwrap();
    let output = (tool.1)(&call.arguments).unwrap();
    let result = ToolResult::for_call(&call, output);
    assert_eq!(result.call_id, "call_1");
    assert_eq!(result.output.get("result").and_then(|v| v.as_f64()), Some(56088.0));
}

#[test]
fn cloned_calls_keep_their_arguments() {
    let call = ToolCall { id: "c".into(), name: "n".into(), arguments: Value::from(vec![1, 2, 3]) };
    let copy = call.clone();
    assert_eq!(copy.id, "c");
    assert_eq!(copy.name, "n");
    assert_eq!(copy.arguments, Value::from(vec![1, 2, 3]));
}

#[test]
fn descriptors_list_every_registered_name() {
    let r = ToolRegistry::new();
    let r = add(r, descriptor("a", "1"), 1u8);
    let r = add(r, descriptor("b", "2"), 2u8);
    let r = add(r, descriptor("a", "3"), 3u8);
    let r = add(r, descriptor("c", "4"), 4u8);
    let mut names: Vec<String> = r.descriptors(describe).into_iter().map(|d| d.name).collect();
    names.sort();
    assert_eq!(names, vec!["a", "b", "c"]);
    let a = r.descriptors(describe).into_iter().find(|d| d.name == "a").unwrap();
    assert_eq!(a.description, "3");
}
