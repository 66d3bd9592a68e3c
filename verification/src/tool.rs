//! Tool calls requested by a model and the results that tools give back.
use vstd::prelude::*;
use crate::json::clone_json;

verus! {

/// A JSON schema, as the `schemars` crate represents it.
#[verifier::external_type_specification]
#[verifier::external_body]
pub struct ExSchema(schemars::Schema);

/// `Clone::clone` of `schemars::Schema`: the derived clone copies the wrapped JSON
/// document, so the copy is the same schema.
#[verifier::external_body]
fn clone_schema(s: &schemars::Schema) -> (r: schemars::Schema)
    ensures
        r == *s,
{
    s.clone()
}

/// Describes a tool to a model: its name, what it does, and the shapes of its input and output.
#[derive(Debug)]
pub struct ToolDescriptor {
    pub name: String,
    pub description: String,
    pub input_schema: schemars::Schema,
    pub output_schema: schemars::Schema,
}

impl ToolDescriptor {
    /// The descriptor of a tool with the given name, description and schemas.
    pub fn new(
        name: &str,
        description: &str,
        input_schema: schemars::Schema,
        output_schema: schemars::Schema,
    ) -> (d: Self)
        ensures
            d.name@ == name@,
            d.description@ == description@,
            d.input_schema == input_schema,
            d.output_schema == output_schema,
    {
        ToolDescriptor {
            name: name.to_string(),
            description: description.to_string(),
            input_schema,
            output_schema,
        }
    }
}

impl Clone for ToolDescriptor {
    fn clone(&self) -> (r: Self)
        ensures
            r == *self,
    {
        ToolDescriptor {
            name: self.name.clone(),
            description: self.description.clone(),
            input_schema: clone_schema(&self.input_schema),
            output_schema: clone_schema(&self.output_schema),
        }
    }
}

/// A tool call from a model's response.
#[derive(Debug)]
pub struct ToolCall {
    pub id: String,
    pub name: String,
    pub arguments: serde_json::Value,
}

impl Clone for ToolCall {
    fn clone(&self) -> (r: Self)
        ensures
            r == *self,
    {
        ToolCall { id: self.id.clone(), name: self.name.clone(), arguments: clone_json(&self.arguments) }
    }
}

/// The result of executing a tool call.
#[derive(Debug)]
pub struct ToolResult {
    pub call_id: String,
    pub output: serde_json::Value,
}

impl Clone for ToolResult {
    fn clone(&self) -> (r: Self)
        ensures
            r == *self,
    {
        ToolResult { call_id: self.call_id.clone(), output: clone_json(&self.output) }
    }
}

impl ToolResult {
    /// The result of `call`: it answers the call's id and carries `output`.
    pub fn for_call(call: &ToolCall, output: serde_json::Value) -> (r: ToolResult)
        ensures
            r.call_id@ == call.id@,
            r.output == output,
    {
        ToolResult { call_id: call.id.clone(), output }
    }
}

} // verus!
