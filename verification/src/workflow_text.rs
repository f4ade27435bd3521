//! The text of a workflow file read as a document: the YAML parse, and the
//! run settings and steps the text gives.

use vstd::prelude::*;
use crate::json::{json_of, Json, JsonNumber, JsonValue};
use crate::text::{chars_to_string, push_str};
use crate::workflow::WorkflowStep;
use crate::workflow_config::{config_outcome, workflow_config_from, NoAgenticWorkflow, WorkflowRunConfig};
use crate::workflow_file::{steps_error_text, steps_from_workflow, steps_outcome, StepsError};

verus! {

#[verifier::external_type_specification]
#[verifier::external_body]
pub struct ExSerdeJsonValue(serde_json::Value);

/// What the text of a workflow file reads as under `serde_saphyr`: the
/// document, or the parser's message.
pub uninterp spec fn workflow_yaml(text: Seq<char>) -> Result<Json, Seq<char>>;

/// The library's JSON model of a `serde_json` value, variant by variant;
/// object members keep their order. It is the result conversion of
/// `parse_workflow_yaml` and is trusted with it.
#[verifier::external_body]
fn json_value_of(v: &serde_json::Value) -> JsonValue {
    match v {
        serde_json::Value::Null => JsonValue::Null,
        serde_json::Value::Bool(b) => JsonValue::Bool(*b),
        serde_json::Value::Number(n) => JsonValue::Number(
            JsonNumber { unsigned: n.as_u64(), signed: n.as_i64(), text: n.to_string() },
        ),
        serde_json::Value::String(s) => JsonValue::Str(s.clone()),
        serde_json::Value::Array(items) => JsonValue::Array(items.iter().map(json_value_of).collect()),
        serde_json::Value::Object(ms) => JsonValue::Object(
            ms.iter().map(|(k, v)| (k.clone(), json_value_of(v))).collect(),
        ),
    }
}

/// Parses YAML text into a document.
///
/// Trusted: calls `serde_saphyr::from_str::<serde_json::Value>` with its
/// default options and converts the value into the library's model (or the
/// error into its message). The contract names the outcome
/// `workflow_yaml`, a function of the text alone.
#[verifier::external_body]
fn parse_workflow_yaml(text: &str) -> (r: Result<JsonValue, String>)
    ensures
        match r {
            Ok(v) => workflow_yaml(text@) == Ok::<Json, Seq<char>>(json_of(v)),
            Err(m) => workflow_yaml(text@) == Err::<Json, Seq<char>>(m@),
        },
{
    match serde_saphyr::from_str::<serde_json::Value>(text) {
        Ok(v) => Ok(json_value_of(&v)),
        Err(e) => Err(e.to_string()),
    }
}

/// The document the text of a workflow file reads as, or the parser's
/// message, as `workflow_yaml` names it.
pub fn workflow_document(text: &str) -> (r: Result<JsonValue, String>)
    ensures
        match r {
            Ok(v) => workflow_yaml(text@) == Ok::<Json, Seq<char>>(json_of(v)),
            Err(m) => workflow_yaml(text@) == Err::<Json, Seq<char>>(m@),
        },
{
    parse_workflow_yaml(text)
}

/// Why the text of a workflow file gave no settings or no steps.
#[derive(Debug)]
pub enum WorkflowTextError {
    /// The text is not YAML, read for the run settings; the parser's message.
    ConfigParse(String),
    /// The text is not YAML, read for the steps; the parser's message.
    StepsParse(String),
    /// The document has no `agentic_workflow` section (run settings).
    NoAgenticWorkflow,
    /// The document's steps could not be read.
    Steps(StepsError),
}

/// What an error says about the workflow file at `path`.
pub open spec fn text_error_message(e: WorkflowTextError, path: Seq<char>) -> Seq<char> {
    match e {
        WorkflowTextError::ConfigParse(m) => "[benchmark] failed to parse workflow YAML for config extraction: "@
            + m@ + " — invalid YAML structure (cycle-3 hardening)"@,
        WorkflowTextError::StepsParse(m) => "[benchmark] failed to parse workflow YAML "@ + path + ": "@ + m@
            + " — refusing to fall back to discovery benchmark (Issue T)"@,
        WorkflowTextError::NoAgenticWorkflow => "[benchmark] no agentic_workflow section in YAML "@ + path
            + " — workflow must have agentic_workflow.steps (cycle-3 hardening)"@,
        WorkflowTextError::Steps(e) => steps_error_text(e, path),
    }
}

impl WorkflowTextError {
    /// The error's text for the workflow file at `path`.
    pub fn message(&self, path: &str) -> (m: String)
        requires
            self matches WorkflowTextError::Steps(StepsError::MissingStepName { index }) ==> index < u64::MAX,
        ensures
            m@ == text_error_message(*self, path@),
    {
        let mut out: Vec<char> = Vec::new();
        match self {
            WorkflowTextError::ConfigParse(m) => {
                push_str(&mut out, "[benchmark] failed to parse workflow YAML for config extraction: ");
                push_str(&mut out, m.as_str());
                push_str(&mut out, " — invalid YAML structure (cycle-3 hardening)");
            },
            WorkflowTextError::StepsParse(m) => {
                push_str(&mut out, "[benchmark] failed to parse workflow YAML ");
                push_str(&mut out, path);
                push_str(&mut out, ": ");
                push_str(&mut out, m.as_str());
                push_str(&mut out, " — refusing to fall back to discovery benchmark (Issue T)");
            },
            WorkflowTextError::NoAgenticWorkflow => {
                push_str(&mut out, "[benchmark] no agentic_workflow section in YAML ");
                push_str(&mut out, path);
                push_str(&mut out, " — workflow must have agentic_workflow.steps (cycle-3 hardening)");
            },
            WorkflowTextError::Steps(e) => {
                return e.message(path);
            },
        }
        chars_to_string(out.as_slice())
    }
}

/// The run settings the text of a workflow file gives, with the document
/// it reads as: text that does not parse gives the parser's message; a
/// document without an `agentic_workflow` section is an error; otherwise
/// the settings are exactly what `workflow_config_from` states of the
/// document.
pub fn workflow_config_from_text(text: &str) -> (r: Result<(JsonValue, Option<WorkflowRunConfig>), WorkflowTextError>)
    ensures
        match workflow_yaml(text@) {
            Err(m) => r matches Err(WorkflowTextError::ConfigParse(e)) && e@ == m,
            Ok(j) => match r {
                Ok((doc, c)) => json_of(doc) == j && config_outcome(doc, Ok(c)),
                Err(WorkflowTextError::NoAgenticWorkflow) => exists|doc: JsonValue|
                    json_of(doc) == j && #[trigger] config_outcome(doc, Err(NoAgenticWorkflow)),
                _ => false,
            },
        },
{
    match parse_workflow_yaml(text) {
        Err(m) => Err(WorkflowTextError::ConfigParse(m)),
        Ok(doc) => match workflow_config_from(&doc) {
            Ok(c) => Ok((doc, c)),
            Err(e) => {
                assert(config_outcome(doc, Err(e)));
                assert(e == NoAgenticWorkflow);
                Err(WorkflowTextError::NoAgenticWorkflow)
            },
        },
    }
}

/// A steps result as `steps_from_workflow` gives it.
pub open spec fn as_steps_result(r: Result<Vec<WorkflowStep>, WorkflowTextError>) -> Result<Vec<WorkflowStep>, StepsError> {
    match r {
        Ok(v) => Ok(v),
        Err(WorkflowTextError::Steps(e)) => Err(e),
        Err(_) => Err(StepsError::NoAgenticWorkflow),
    }
}

/// The steps the text of a workflow file gives: text that does not parse
/// gives the parser's message; otherwise exactly what
/// `steps_from_workflow` states of the document it reads as.
pub fn steps_from_text(text: &str) -> (r: Result<Vec<WorkflowStep>, WorkflowTextError>)
    ensures
        match workflow_yaml(text@) {
            Err(m) => r matches Err(WorkflowTextError::StepsParse(e)) && e@ == m,
            Ok(j) => (r is Ok || r matches Err(WorkflowTextError::Steps(_))) && exists|doc: JsonValue|
                json_of(doc) == j && #[trigger] steps_outcome(doc, as_steps_result(r)),
        },
{
    match parse_workflow_yaml(text) {
        Err(m) => Err(WorkflowTextError::StepsParse(m)),
        Ok(doc) => {
            let s = steps_from_workflow(&doc);
            let r = match s {
                Ok(v) => Ok(v),
                Err(e) => Err(WorkflowTextError::Steps(e)),
            };
            assert(as_steps_result(r) == s);
            assert(steps_outcome(doc, as_steps_result(r)));
            r
        },
    }
}

} // verus!
