//! Which tools an agent may call, and the tool that ends its loop with a
//! final answer.

use vstd::prelude::*;
use crate::backend::{llm_error_text, ChatResponse, LlmError};
use crate::json::{as_str, json_of, lookup, lookup_member, str_of, Json, JsonValue};
use crate::text::{chars_to_string, push_str, str_equal};

verus! {

/// What a tool call produced.
#[derive(Debug)]
pub struct ToolResult {
    pub tool_name: String,
    pub output: String,
    pub success: bool,
    /// Extra facts by name.
    pub metadata: Vec<(String, String)>,
}

/// The names an agent may call tools by: none that is forbidden, and,
/// where an allow list is set, only those on it.
#[derive(Debug)]
pub struct ToolFilter {
    allowed_tools: Option<Vec<String>>,
    forbidden_tools: Vec<String>,
}

/// `name` is on the list.
pub open spec fn listed_name(list: Seq<String>, name: Seq<char>) -> bool {
    exists|i: int| 0 <= i < list.len() && #[trigger] list[i]@ == name
}

/// A tool may be called: it is not forbidden, and it is on the allow list
/// where there is one.
pub open spec fn tool_allowed(allowed: Option<Seq<String>>, forbidden: Seq<String>, name: Seq<char>) -> bool {
    !listed_name(forbidden, name) && match allowed {
        Some(a) => listed_name(a, name),
        None => true,
    }
}

fn on_list(list: &Vec<String>, name: &str) -> (b: bool)
    ensures
        b == listed_name(list@, name@),
{
    let mut i: usize = 0;
    while i < list.len()
        invariant
            i <= list@.len(),
            forall|k: int| 0 <= k < i ==> #[trigger] list@[k]@ != name@,
        decreases list.len() - i,
    {
        if str_equal(list[i].as_str(), name) {
            return true;
        }
        i += 1;
    }
    false
}

impl ToolFilter {
    /// The allow list, where one is set.
    pub closed spec fn allowed(&self) -> Option<Seq<String>> {
        match self.allowed_tools {
            Some(a) => Some(a@),
            None => None,
        }
    }

    /// The forbidden names.
    pub closed spec fn forbidden(&self) -> Seq<String> {
        self.forbidden_tools@
    }

    /// A filter that lets every tool through.
    pub fn new() -> (f: ToolFilter)
        ensures
            f.allowed() is None,
            f.forbidden().len() == 0,
    {
        ToolFilter { allowed_tools: None, forbidden_tools: Vec::new() }
    }

    /// Sets the allow list; an empty list means every tool.
    pub fn with_allowed_tools(self, tools: Vec<String>) -> (f: ToolFilter)
        ensures
            f.allowed() == (if tools@.len() == 0 {
                None
            } else {
                Some(tools@)
            }),
            f.forbidden() == self.forbidden(),
    {
        let allowed_tools = if tools.len() == 0 {
            None
        } else {
            Some(tools)
        };
        ToolFilter { allowed_tools, forbidden_tools: self.forbidden_tools }
    }

    /// Sets the forbidden names.
    pub fn with_forbidden_tools(self, tools: Vec<String>) -> (f: ToolFilter)
        ensures
            f.allowed() == self.allowed(),
            f.forbidden() == tools@,
    {
        ToolFilter { allowed_tools: self.allowed_tools, forbidden_tools: tools }
    }

    /// Whether a tool may be called.
    pub fn is_tool_allowed(&self, name: &str) -> (b: bool)
        ensures
            b == tool_allowed(self.allowed(), self.forbidden(), name@),
    {
        if on_list(&self.forbidden_tools, name) {
            return false;
        }
        match &self.allowed_tools {
            Some(a) => on_list(a, name),
            None => true,
        }
    }

    /// Why a call is refused, or `None` when it may go ahead: a tool that
    /// is not allowed is refused before its registration is looked at.
    pub fn check_call(&self, name: &str, registered: bool) -> (r: Option<ToolCallError>)
        ensures
            !tool_allowed(self.allowed(), self.forbidden(), name@) ==> (r matches Some(
                ToolCallError::NotAllowed(n),
            ) && n@ == name@),
            tool_allowed(self.allowed(), self.forbidden(), name@) && !registered ==> (r matches Some(
                ToolCallError::NotFound(n),
            ) && n@ == name@),
            tool_allowed(self.allowed(), self.forbidden(), name@) && registered ==> r is None,
    {
        if !self.is_tool_allowed(name) {
            Some(ToolCallError::NotAllowed(name.to_string()))
        } else if !registered {
            Some(ToolCallError::NotFound(name.to_string()))
        } else {
            None
        }
    }
}

/// The forbidden list wins over the allow list.
pub proof fn lemma_forbidden_wins(allowed: Option<Seq<String>>, forbidden: Seq<String>, name: Seq<char>)
    requires
        listed_name(forbidden, name),
    ensures
        !tool_allowed(allowed, forbidden, name),
{
}

/// Without an allow list, every tool that is not forbidden may be called.
pub proof fn lemma_no_allow_list_allows_all(forbidden: Seq<String>, name: Seq<char>)
    requires
        !listed_name(forbidden, name),
    ensures
        tool_allowed(None, forbidden, name),
{
}

/// A refused tool call.
#[derive(Debug)]
pub enum ToolCallError {
    /// The filter does not let the tool through.
    NotAllowed(String),
    /// No tool of that name is registered.
    NotFound(String),
}

impl ToolCallError {
    /// The error's text.
    pub fn message(&self) -> (m: String)
        ensures
            m@ == match *self {
                ToolCallError::NotAllowed(n) => "Tool '"@ + n@ + "' is not allowed"@,
                ToolCallError::NotFound(n) => "Tool not found: "@ + n@,
            },
    {
        let mut out: Vec<char> = Vec::new();
        match self {
            ToolCallError::NotAllowed(n) => {
                push_str(&mut out, "Tool '");
                push_str(&mut out, n.as_str());
                push_str(&mut out, "' is not allowed");
            },
            ToolCallError::NotFound(n) => {
                push_str(&mut out, "Tool not found: ");
                push_str(&mut out, n.as_str());
            },
        }
        chars_to_string(out.as_slice())
    }
}

/// A call argument that is missing or not a string.
#[derive(Debug, Clone, Copy, PartialEq, Eq, Structural)]
pub struct InvalidAnswerArgument;

impl InvalidAnswerArgument {
    /// `Missing or invalid answer argument`.
    pub fn message(&self) -> (m: String)
        ensures
            m@ == "Missing or invalid answer argument"@,
    {
        "Missing or invalid answer argument".to_string()
    }
}

/// The tool that ends an agent's loop with its final answer.
#[derive(Debug, Clone, Copy, PartialEq, Eq, Structural)]
pub struct FinalAnswerTool;

impl FinalAnswerTool {
    pub fn new() -> (t: FinalAnswerTool)
        ensures
            t == FinalAnswerTool,
    {
        FinalAnswerTool
    }

    /// `final_answer`.
    pub fn name(&self) -> (s: &'static str)
        ensures
            s@ == "final_answer"@,
    {
        "final_answer"
    }

    /// What the tool is for.
    pub fn description(&self) -> (s: &'static str)
        ensures
            s@ == "Signals completion of the ReAct loop with a final answer"@,
    {
        "Signals completion of the ReAct loop with a final answer"
    }

    /// The schema of the tool's arguments: an object with a required
    /// string `answer`.
    pub fn parameters_schema(&self) -> (v: JsonValue)
        ensures
            json_of(v) == object_schema(
                seq![("answer"@, property_schema("string"@, "The final answer to return"@))],
                seq!["answer"@],
            ),
    {
        let mut properties: Vec<(String, JsonValue)> = Vec::new();
        properties.push(("answer".to_string(), property("string", "The final answer to return")));
        let mut required: Vec<String> = Vec::new();
        required.push("answer".to_string());
        let ghost props = properties@;
        let ghost req = required@;
        let v = object_with(properties, required);
        proof {
            assert(Seq::new(props.len(), |i: int| (props[i].0@, json_of(props[i].1))) =~= seq![
                ("answer"@, property_schema("string"@, "The final answer to return"@)),
            ]);
            assert(req.map_values(|r: String| r@) =~= seq!["answer"@]);
        }
        v
    }

    /// The final answer: the `answer` argument, which must be a string.
    pub fn execute(&self, arguments: &Vec<(String, JsonValue)>) -> (r: Result<ToolResult, InvalidAnswerArgument>)
        ensures
            match lookup(arguments@, "answer"@) {
                Some(v) => match str_of(v) {
                    Some(a) => r matches Ok(res) && res.tool_name@ == "final_answer"@ && res.output@ == a
                        && res.success && res.metadata@.len() == 1 && res.metadata@[0].0@ == "type"@
                        && res.metadata@[0].1@ == "final_answer"@,
                    None => r is Err,
                },
                None => r is Err,
            },
    {
        let answer = match lookup_member(arguments, "answer") {
            Some(v) => match as_str(v) {
                Some(a) => a,
                None => {
                    return Err(InvalidAnswerArgument);
                },
            },
            None => {
                return Err(InvalidAnswerArgument);
            },
        };
        let mut metadata: Vec<(String, String)> = Vec::new();
        metadata.push(("type".to_string(), "final_answer".to_string()));
        Ok(
            ToolResult {
                tool_name: "final_answer".to_string(),
                output: answer.clone(),
                success: true,
                metadata,
            },
        )
    }
}

impl Default for FinalAnswerTool {
    fn default() -> (t: FinalAnswerTool)
        ensures
            t == FinalAnswerTool,
    {
        FinalAnswerTool
    }
}

/// The string argument `name` of a call, where it is there and a string.
pub open spec fn string_arg(arguments: Seq<(String, JsonValue)>, name: Seq<char>) -> Option<Seq<char>> {
    match lookup(arguments, name) {
        Some(v) => str_of(v),
        None => None,
    }
}

/// A call argument that is missing or not a string.
#[derive(Debug)]
pub struct MissingArgument {
    pub argument: String,
}

impl MissingArgument {
    /// `Missing or invalid <argument> argument`.
    pub fn message(&self) -> (m: String)
        ensures
            m@ == "Missing or invalid "@ + self.argument@ + " argument"@,
    {
        let mut out: Vec<char> = Vec::new();
        push_str(&mut out, "Missing or invalid ");
        push_str(&mut out, self.argument.as_str());
        push_str(&mut out, " argument");
        chars_to_string(out.as_slice())
    }
}

/// The string argument `name` of a call, as `string_arg` says.
pub fn string_argument(arguments: &Vec<(String, JsonValue)>, name: &str) -> (r: Result<String, MissingArgument>)
    ensures
        match string_arg(arguments@, name@) {
            Some(a) => r matches Ok(s) && s@ == a,
            None => r matches Err(e) && e.argument@ == name@,
        },
{
    match lookup_member(arguments, name) {
        Some(v) => match as_str(v) {
            Some(a) => Ok(a.clone()),
            None => Err(MissingArgument { argument: name.to_string() }),
        },
        None => Err(MissingArgument { argument: name.to_string() }),
    }
}

/// The arguments of a chat call: the model name, then the message; a
/// missing model name is reported before a missing message.
pub fn chat_arguments(arguments: &Vec<(String, JsonValue)>) -> (r: Result<(String, String), MissingArgument>)
    ensures
        match (string_arg(arguments@, "model_name"@), string_arg(arguments@, "message"@)) {
            (Some(m), Some(t)) => r matches Ok(p) && p.0@ == m && p.1@ == t,
            (None, _) => r matches Err(e) && e.argument@ == "model_name"@,
            (Some(_), None) => r matches Err(e) && e.argument@ == "message"@,
        },
{
    let model_name = string_argument(arguments, "model_name")?;
    let message = string_argument(arguments, "message")?;
    Ok((model_name, message))
}

/// What a chat call reports: the reply's text on success; on failure
/// `Chat failed: ` and the error's text, which is also kept under `error`.
pub fn chat_result(outcome: Result<ChatResponse, LlmError>) -> (r: ToolResult)
    ensures
        r.tool_name@ == "chat"@,
        match outcome {
            Ok(resp) => r.success && r.output@ == resp.content@ && r.metadata@.len() == 0,
            Err(e) => !r.success && r.output@ == "Chat failed: "@ + llm_error_text(e)
                && r.metadata@.len() == 1 && r.metadata@[0].0@ == "error"@
                && r.metadata@[0].1@ == llm_error_text(e),
        },
{
    match outcome {
        Ok(resp) => ToolResult {
            tool_name: "chat".to_string(),
            output: resp.content,
            success: true,
            metadata: Vec::new(),
        },
        Err(e) => {
            let text = e.message();
            let mut out: Vec<char> = Vec::new();
            push_str(&mut out, "Chat failed: ");
            push_str(&mut out, text.as_str());
            let mut metadata: Vec<(String, String)> = Vec::new();
            metadata.push(("error".to_string(), text));
            ToolResult {
                tool_name: "chat".to_string(),
                output: chars_to_string(out.as_slice()),
                success: false,
                metadata,
            }
        },
    }
}

/// The schema of one argument: its type and description.
pub open spec fn property_schema(ty: Seq<char>, description: Seq<char>) -> Json {
    Json::Object(seq![("type"@, Json::Str(ty)), ("description"@, Json::Str(description))])
}

/// The schema of a call's arguments: an object with these properties, of
/// which the named ones are required.
pub open spec fn object_schema(properties: Seq<(Seq<char>, Json)>, required: Seq<Seq<char>>) -> Json {
    Json::Object(
        seq![
            ("type"@, Json::Str("object"@)),
            ("properties"@, Json::Object(properties)),
            ("required"@, Json::Array(required.map_values(|r: Seq<char>| Json::Str(r)))),
        ],
    )
}

fn property(ty: &str, description: &str) -> (v: JsonValue)
    ensures
        json_of(v) == property_schema(ty@, description@),
{
    let t = JsonValue::Str(ty.to_string());
    let d = JsonValue::Str(description.to_string());
    let mut members: Vec<(String, JsonValue)> = Vec::new();
    members.push(("type".to_string(), t));
    members.push(("description".to_string(), d));
    let ghost ms = members@;
    let v = JsonValue::Object(members);
    proof {
        assert(json_of(ms[0].1) == Json::Str(ty@));
        assert(json_of(ms[1].1) == Json::Str(description@));
        let inner = json_of(v)->Object_0;
        assert(inner.len() == 2);
        assert(inner[0] == (ms[0].0@, json_of(ms[0].1)));
        assert(inner[1] == (ms[1].0@, json_of(ms[1].1)));
        assert(inner =~= seq![("type"@, Json::Str(ty@)), ("description"@, Json::Str(description@))]);
    }
    v
}

fn object_with(properties: Vec<(String, JsonValue)>, required: Vec<String>) -> (v: JsonValue)
    ensures
        json_of(v) == object_schema(
            Seq::new(properties@.len(), |i: int| (properties@[i].0@, json_of(properties@[i].1))),
            required@.map_values(|r: String| r@),
        ),
{
    let mut items: Vec<JsonValue> = Vec::new();
    let mut i: usize = 0;
    while i < required.len()
        invariant
            i <= required@.len(),
            items@.len() == i,
            forall|k: int| 0 <= k < i ==> #[trigger] items@[k] == JsonValue::Str(required@[k]),
        decreases required.len() - i,
    {
        items.push(JsonValue::Str(required[i].clone()));
        i += 1;
    }
    let ghost props = properties@;
    let ghost req = required@;
    let ghost its = items@;
    let p = JsonValue::Object(properties);
    let r = JsonValue::Array(items);
    proof {
        let pj = json_of(p)->Object_0;
        assert(pj =~= Seq::new(props.len(), |i: int| (props[i].0@, json_of(props[i].1))));
        let rj = json_of(r)->Array_0;
        assert forall|k: int| 0 <= k < its.len() implies json_of(its[k]) == Json::Str(req[k]@) by {
            assert(its[k] == JsonValue::Str(req[k]));
        }
        assert(rj =~= req.map_values(|x: String| x@).map_values(|x: Seq<char>| Json::Str(x)));
    }
    let mut members: Vec<(String, JsonValue)> = Vec::new();
    members.push(("type".to_string(), JsonValue::Str("object".to_string())));
    members.push(("properties".to_string(), p));
    members.push(("required".to_string(), r));
    let ghost ms = members@;
    let v = JsonValue::Object(members);
    proof {
        assert(json_of(ms[0].1) == Json::Str("object"@));
        let inner = json_of(v)->Object_0;
        assert(inner.len() == 3);
        assert(inner[0] == (ms[0].0@, json_of(ms[0].1)));
        assert(inner[1] == (ms[1].0@, json_of(ms[1].1)));
        assert(inner[2] == (ms[2].0@, json_of(ms[2].1)));
        assert(inner =~= object_schema(
            Seq::new(props.len(), |i: int| (props[i].0@, json_of(props[i].1))),
            req.map_values(|x: String| x@),
        )->Object_0);
    }
    v
}

/// The schema of a chat call's arguments: required string `model_name`
/// and `message`, and an optional number `temperature`.
pub fn chat_parameters_schema() -> (v: JsonValue)
    ensures
        json_of(v) == object_schema(
            seq![
                ("model_name"@, property_schema("string"@, "Name of the model to chat with"@)),
                ("message"@, property_schema("string"@, "The message to send"@)),
                ("temperature"@, property_schema("number"@, "Optional temperature for sampling"@)),
            ],
            seq!["model_name"@, "message"@],
        ),
{
    let mut properties: Vec<(String, JsonValue)> = Vec::new();
    properties.push(("model_name".to_string(), property("string", "Name of the model to chat with")));
    properties.push(("message".to_string(), property("string", "The message to send")));
    properties.push(("temperature".to_string(), property("number", "Optional temperature for sampling")));
    let mut required: Vec<String> = Vec::new();
    required.push("model_name".to_string());
    required.push("message".to_string());
    let ghost props = properties@;
    let ghost req = required@;
    let v = object_with(properties, required);
    proof {
        assert(Seq::new(props.len(), |i: int| (props[i].0@, json_of(props[i].1))) =~= seq![
            ("model_name"@, property_schema("string"@, "Name of the model to chat with"@)),
            ("message"@, property_schema("string"@, "The message to send"@)),
            ("temperature"@, property_schema("number"@, "Optional temperature for sampling"@)),
        ]);
        assert(req.map_values(|r: String| r@) =~= seq!["model_name"@, "message"@]);
    }
    v
}

/// The state a model registry records for a model after a load or unload.
#[derive(Debug)]
pub enum ModelLifecycle {
    Loaded,
    Unloaded,
    /// A failed load, with the error's text.
    Error(String),
}

/// The text of the tool's report: `Model 'm' loaded successfully`, or
/// `Failed to load model 'm': ` and the error's text (`unload` for an unload).
pub open spec fn lifecycle_output(model_name: Seq<char>, unload: bool, error: Option<Seq<char>>) -> Seq<char> {
    let verb = if unload { "unload"@ } else { "load"@ };
    match error {
        None => "Model '"@ + model_name + "' "@ + verb + "ed successfully"@,
        Some(t) => "Failed to "@ + verb + " model '"@ + model_name + "': "@ + t,
    }
}

/// What a load (or, with `unload`, an unload) of `model_name` reports, and
/// the state to record: a successful load records the model as loaded and
/// a successful unload as unloaded; a failed load records the error, and a
/// failed unload records nothing. A failure's text is kept under `error`.
pub fn model_lifecycle_result(model_name: &str, unload: bool, outcome: &Result<(), LlmError>) -> (r: (
    ToolResult,
    Option<ModelLifecycle>,
))
    ensures
        r.0.tool_name@ == (if unload { "model_unload"@ } else { "model_load"@ }),
        match outcome {
            Ok(_) => r.0.success && r.0.output@ == lifecycle_output(model_name@, unload, None)
                && r.0.metadata@.len() == 0 && (if unload {
                r.1 matches Some(ModelLifecycle::Unloaded)
            } else {
                r.1 matches Some(ModelLifecycle::Loaded)
            }),
            Err(e) => !r.0.success && r.0.output@ == lifecycle_output(model_name@, unload, Some(llm_error_text(*e)))
                && r.0.metadata@.len() == 1 && r.0.metadata@[0].0@ == "error"@
                && r.0.metadata@[0].1@ == llm_error_text(*e) && (if unload {
                r.1 is None
            } else {
                r.1 matches Some(ModelLifecycle::Error(t)) && t@ == llm_error_text(*e)
            }),
        },
{
    let verb = if unload { "unload" } else { "load" };
    let tool_name = if unload { "model_unload" } else { "model_load" };
    let mut out: Vec<char> = Vec::new();
    match outcome {
        Ok(_) => {
            push_str(&mut out, "Model '");
            push_str(&mut out, model_name);
            push_str(&mut out, "' ");
            push_str(&mut out, verb);
            push_str(&mut out, "ed successfully");
            let state = if unload { ModelLifecycle::Unloaded } else { ModelLifecycle::Loaded };
            (
                ToolResult {
                    tool_name: tool_name.to_owned(),
                    output: chars_to_string(out.as_slice()),
                    success: true,
                    metadata: Vec::new(),
                },
                Some(state),
            )
        },
        Err(e) => {
            let text = e.message();
            push_str(&mut out, "Failed to ");
            push_str(&mut out, verb);
            push_str(&mut out, " model '");
            push_str(&mut out, model_name);
            push_str(&mut out, "': ");
            push_str(&mut out, text.as_str());
            let state = if unload { None } else { Some(ModelLifecycle::Error(text.clone())) };
            let mut metadata: Vec<(String, String)> = Vec::new();
            metadata.push(("error".to_owned(), text));
            (
                ToolResult {
                    tool_name: tool_name.to_owned(),
                    output: chars_to_string(out.as_slice()),
                    success: false,
                    metadata,
                },
                state,
            )
        },
    }
}

/// The schema of a load's (or an unload's) arguments: a required string
/// `model_name`.
pub fn model_name_parameters_schema(unload: bool) -> (v: JsonValue)
    ensures
        json_of(v) == object_schema(
            seq![
                (
                    "model_name"@,
                    property_schema(
                        "string"@,
                        if unload { "Name of the model to unload"@ } else { "Name of the model to load"@ },
                    ),
                ),
            ],
            seq!["model_name"@],
        ),
{
    let description = if unload { "Name of the model to unload" } else { "Name of the model to load" };
    let mut properties: Vec<(String, JsonValue)> = Vec::new();
    properties.push(("model_name".to_owned(), property("string", description)));
    let mut required: Vec<String> = Vec::new();
    required.push("model_name".to_owned());
    let ghost props = properties@;
    let ghost req = required@;
    let v = object_with(properties, required);
    proof {
        reveal_strlit("Name of the model to unload");
        reveal_strlit("Name of the model to load");
        assert(Seq::new(props.len(), |i: int| (props[i].0@, json_of(props[i].1))) =~= seq![
            ("model_name"@, property_schema("string"@, description@)),
        ]);
        assert(req.map_values(|r: String| r@) =~= seq!["model_name"@]);
    }
    v
}

} // verus!
