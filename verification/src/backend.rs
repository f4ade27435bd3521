//! The types LLM backends exchange, and a mock backend whose answers are
//! set by the test that drives it.

use vstd::prelude::*;
use crate::text::{chars_to_string, push_str, slice_chars, str_to_chars};

verus! {

/// Errors that can occur when talking to an LLM backend.
#[derive(Debug)]
pub enum LlmError {
    Connection(String),
    Timeout(String),
    Parse(String),
    Model(String),
    RateLimited(String),
    Internal(String),
}

/// The text an error displays.
pub open spec fn llm_error_text(e: LlmError) -> Seq<char> {
    match e {
        LlmError::Connection(m) => "Connection error: "@ + m@,
        LlmError::Timeout(m) => "Timeout error: "@ + m@,
        LlmError::Parse(m) => "Parse error: "@ + m@,
        LlmError::Model(m) => "Model error: "@ + m@,
        LlmError::RateLimited(m) => "Rate limited: "@ + m@,
        LlmError::Internal(m) => "Internal error: "@ + m@,
    }
}

impl LlmError {
    /// The error's text, such as `Connection error: refused`.
    pub fn message(&self) -> (s: String)
        ensures
            s@ == llm_error_text(*self),
    {
        let mut out: Vec<char> = Vec::new();
        match self {
            LlmError::Connection(m) => {
                push_str(&mut out, "Connection error: ");
                push_str(&mut out, m.as_str());
            },
            LlmError::Timeout(m) => {
                push_str(&mut out, "Timeout error: ");
                push_str(&mut out, m.as_str());
            },
            LlmError::Parse(m) => {
                push_str(&mut out, "Parse error: ");
                push_str(&mut out, m.as_str());
            },
            LlmError::Model(m) => {
                push_str(&mut out, "Model error: ");
                push_str(&mut out, m.as_str());
            },
            LlmError::RateLimited(m) => {
                push_str(&mut out, "Rate limited: ");
                push_str(&mut out, m.as_str());
            },
            LlmError::Internal(m) => {
                push_str(&mut out, "Internal error: ");
                push_str(&mut out, m.as_str());
            },
        }
        chars_to_string(out.as_slice())
    }
}

/// Health of a backend.
#[derive(Debug, Clone, Copy, PartialEq, Eq, Structural)]
pub enum HealthStatus {
    Healthy,
    Degraded,
    Unhealthy,
}

/// What a backend supports.
#[derive(Debug, Clone, Copy, PartialEq, Eq, Structural)]
pub struct BackendCapabilities {
    /// Streaming responses.
    pub streaming: bool,
    /// Tool calling.
    pub tools: bool,
    /// Function calling (the older form of tool calling).
    pub function_calling: bool,
}

/// A chat message in the OpenAI format.
#[derive(Debug)]
pub struct ChatMessage {
    /// `system`, `user`, `assistant` or `tool`.
    pub role: String,
    pub content: String,
}

/// A chat completion.
#[derive(Debug)]
pub struct ChatResponse {
    /// The generated text.
    pub content: String,
    /// The model that answered.
    pub model: String,
    /// Token counts by name.
    pub usage: Vec<(String, u64)>,
}

/// A model as a backend lists it.
#[derive(Debug)]
pub struct ModelInfo {
    pub id: String,
    /// Object type, usually `model`.
    pub object: String,
    pub owned_by: String,
}

/// An error a mock backend is told to report.
#[derive(Debug)]
pub enum MockError {
    Connection(String),
    Timeout(String),
    Parse(String),
    Model(String),
    RateLimited(String),
    Internal(String),
}

/// The backend error a mock error stands for (same kind, same message).
pub open spec fn mock_error_as_llm(e: MockError) -> LlmError {
    match e {
        MockError::Connection(m) => LlmError::Connection(m),
        MockError::Timeout(m) => LlmError::Timeout(m),
        MockError::Parse(m) => LlmError::Parse(m),
        MockError::Model(m) => LlmError::Model(m),
        MockError::RateLimited(m) => LlmError::RateLimited(m),
        MockError::Internal(m) => LlmError::Internal(m),
    }
}

impl From<MockError> for LlmError {
    fn from(err: MockError) -> (r: LlmError) {
        match err {
            MockError::Connection(msg) => LlmError::Connection(msg),
            MockError::Timeout(msg) => LlmError::Timeout(msg),
            MockError::Parse(msg) => LlmError::Parse(msg),
            MockError::Model(msg) => LlmError::Model(msg),
            MockError::RateLimited(msg) => LlmError::RateLimited(msg),
            MockError::Internal(msg) => LlmError::Internal(msg),
        }
    }
}

impl vstd::std_specs::convert::FromSpecImpl<MockError> for LlmError {
    open spec fn obeys_from_spec() -> bool {
        true
    }

    open spec fn from_spec(err: MockError) -> LlmError {
        mock_error_as_llm(err)
    }
}

/// A copy of a mock error.
pub fn copy_mock_error(e: &MockError) -> (r: MockError)
    ensures
        r == *e,
{
    match e {
        MockError::Connection(m) => MockError::Connection(m.clone()),
        MockError::Timeout(m) => MockError::Timeout(m.clone()),
        MockError::Parse(m) => MockError::Parse(m.clone()),
        MockError::Model(m) => MockError::Model(m.clone()),
        MockError::RateLimited(m) => MockError::RateLimited(m.clone()),
        MockError::Internal(m) => MockError::Internal(m.clone()),
    }
}

/// How many characters a streamed chunk holds.
pub const STREAM_CHUNK_CHARS: usize = 5;

/// A backend that answers with what it was told: a fixed response, or an
/// error, after a delay.
#[derive(Debug)]
pub struct MockLlmBackend {
    model_name: String,
    response_content: String,
    error: Option<MockError>,
    delay_nanos: u64,
}

impl MockLlmBackend {
    /// The model the mock reports.
    pub closed spec fn model(&self) -> Seq<char> {
        self.model_name@
    }

    /// The response the mock gives.
    pub closed spec fn response(&self) -> Seq<char> {
        self.response_content@
    }

    /// The error the mock reports instead, if any.
    pub closed spec fn failure(&self) -> Option<MockError> {
        self.error
    }

    /// The delay before each answer, in nanoseconds.
    pub closed spec fn delay(&self) -> u64 {
        self.delay_nanos
    }

    /// A mock for `model_name` that answers `Mock response` at once.
    pub fn new(model_name: &str) -> (m: MockLlmBackend)
        ensures
            m.model() == model_name@,
            m.response() == "Mock response"@,
            m.failure() is None,
            m.delay() == 0,
    {
        MockLlmBackend {
            model_name: model_name.to_string(),
            response_content: "Mock response".to_string(),
            error: None,
            delay_nanos: 0,
        }
    }

    /// Sets the response.
    pub fn set_response(&mut self, content: String)
        ensures
            final(self).response() == content@,
            final(self).model() == old(self).model(),
            final(self).failure() == old(self).failure(),
            final(self).delay() == old(self).delay(),
    {
        self.response_content = content;
    }

    /// Sets (or clears) the error to report.
    pub fn set_error(&mut self, error: Option<MockError>)
        ensures
            final(self).failure() == error,
            final(self).model() == old(self).model(),
            final(self).response() == old(self).response(),
            final(self).delay() == old(self).delay(),
    {
        self.error = error;
    }

    /// Sets the delay, in nanoseconds.
    pub fn set_delay(&mut self, delay_nanos: u64)
        ensures
            final(self).delay() == delay_nanos,
            final(self).model() == old(self).model(),
            final(self).response() == old(self).response(),
            final(self).failure() == old(self).failure(),
    {
        self.delay_nanos = delay_nanos;
    }

    /// The delay before each answer, in nanoseconds.
    pub fn delay_nanos(&self) -> (d: u64)
        ensures
            d == self.delay(),
    {
        self.delay_nanos
    }

    /// The model the mock reports.
    pub fn model_name(&self) -> (s: String)
        ensures
            s@ == self.model(),
    {
        self.model_name.clone()
    }

    fn failure_as_llm(&self) -> (r: Option<LlmError>)
        ensures
            match self.failure() {
                Some(e) => r == Some(mock_error_as_llm(e)),
                None => r is None,
            },
    {
        match &self.error {
            Some(e) => Some(LlmError::from(copy_mock_error(e))),
            None => None,
        }
    }

    /// The answer to a chat request: the set error, else the response
    /// from the mock's model with 10 prompt, 20 completion and 30 total
    /// tokens.
    pub fn chat(&self) -> (r: Result<ChatResponse, LlmError>)
        ensures
            match self.failure() {
                Some(e) => r == Err::<ChatResponse, LlmError>(mock_error_as_llm(e)),
                None => r matches Ok(resp) && resp.content@ == self.response() && resp.model@
                    == self.model() && resp.usage@.len() == 3 && resp.usage@[0].0@
                    == "prompt_tokens"@ && resp.usage@[0].1 == 10 && resp.usage@[1].0@
                    == "completion_tokens"@ && resp.usage@[1].1 == 20 && resp.usage@[2].0@
                    == "total_tokens"@ && resp.usage@[2].1 == 30,
            },
    {
        if let Some(e) = self.failure_as_llm() {
            return Err(e);
        }
        let mut usage: Vec<(String, u64)> = Vec::new();
        usage.push(("prompt_tokens".to_string(), 10));
        usage.push(("completion_tokens".to_string(), 20));
        usage.push(("total_tokens".to_string(), 30));
        Ok(ChatResponse { content: self.response_content.clone(), model: self.model_name.clone(), usage })
    }

    /// The chunks a streamed answer yields: the response in pieces of
    /// five characters; the set error instead, which the stream repeats.
    pub fn chat_stream(&self) -> (r: Result<Vec<String>, LlmError>)
        ensures
            match self.failure() {
                Some(e) => r == Err::<Vec<String>, LlmError>(mock_error_as_llm(e)),
                None => r matches Ok(chunks) && chunks@.len() == (self.response().len() + 4) / 5
                    && forall|k: int|
                    0 <= k < chunks@.len() ==> #[trigger] chunks@[k]@ == self.response().subrange(
                        5 * k,
                        if 5 * k + 5 <= self.response().len() {
                            5 * k + 5
                        } else {
                            self.response().len() as int
                        },
                    ),
            },
    {
        if let Some(e) = self.failure_as_llm() {
            return Err(e);
        }
        let chars = str_to_chars(self.response_content.as_str());
        let total = chars.len();
        let n: usize = total / 5 + if total % 5 == 0 {
            0
        } else {
            1
        };
        assert(n == (total + 4) / 5);
        let mut chunks: Vec<String> = Vec::new();
        let mut k: usize = 0;
        while k < n
            invariant
                chars@ == self.response(),
                total == chars@.len(),
                n == total / 5 + if total % 5 == 0 {
                    0usize
                } else {
                    1usize
                },
                k <= n,
                chunks@.len() == k,
                forall|q: int|
                    0 <= q < chunks@.len() ==> #[trigger] chunks@[q]@ == chars@.subrange(
                        5 * q,
                        if 5 * q + 5 <= chars@.len() {
                            5 * q + 5
                        } else {
                            chars@.len() as int
                        },
                    ),
            decreases n - k,
        {
            assert(5 * k < total);
            let start = 5 * k;
            let end = if total - start >= STREAM_CHUNK_CHARS {
                start + STREAM_CHUNK_CHARS
            } else {
                total
            };
            let piece = slice_chars(&chars, start, end);
            chunks.push(chars_to_string(piece.as_slice()));
            k += 1;
        }
        Ok(chunks)
    }

    /// The models the mock lists: its own, owned by `mock`; or the set
    /// error.
    pub fn list_models(&self) -> (r: Result<Vec<ModelInfo>, LlmError>)
        ensures
            match self.failure() {
                Some(e) => r == Err::<Vec<ModelInfo>, LlmError>(mock_error_as_llm(e)),
                None => r matches Ok(ms) && ms@.len() == 1 && ms@[0].id@ == self.model()
                    && ms@[0].object@ == "model"@ && ms@[0].owned_by@ == "mock"@,
            },
    {
        if let Some(e) = self.failure_as_llm() {
            return Err(e);
        }
        let mut ms: Vec<ModelInfo> = Vec::new();
        ms.push(
            ModelInfo {
                id: self.model_name.clone(),
                object: "model".to_string(),
                owned_by: "mock".to_string(),
            },
        );
        Ok(ms)
    }

    /// Healthy, or the set error.
    pub fn health_check(&self) -> (r: Result<HealthStatus, LlmError>)
        ensures
            match self.failure() {
                Some(e) => r == Err::<HealthStatus, LlmError>(mock_error_as_llm(e)),
                None => r == Ok::<HealthStatus, LlmError>(HealthStatus::Healthy),
            },
    {
        match self.failure_as_llm() {
            Some(e) => Err(e),
            None => Ok(HealthStatus::Healthy),
        }
    }

    /// Loading succeeds unless an error is set.
    pub fn load_model(&self) -> (r: Result<(), LlmError>)
        ensures
            match self.failure() {
                Some(e) => r == Err::<(), LlmError>(mock_error_as_llm(e)),
                None => r == Ok::<(), LlmError>(()),
            },
    {
        match self.failure_as_llm() {
            Some(e) => Err(e),
            None => Ok(()),
        }
    }

    /// Unloading succeeds unless an error is set.
    pub fn unload_model(&self) -> (r: Result<(), LlmError>)
        ensures
            match self.failure() {
                Some(e) => r == Err::<(), LlmError>(mock_error_as_llm(e)),
                None => r == Ok::<(), LlmError>(()),
            },
    {
        self.load_model()
    }

    /// The mock supports streaming, tools and function calling.
    pub fn capabilities(&self) -> (c: BackendCapabilities)
        ensures
            c == (BackendCapabilities { streaming: true, tools: true, function_calling: true }),
    {
        BackendCapabilities { streaming: true, tools: true, function_calling: true }
    }

    /// `http://mock-backend`.
    pub fn base_url(&self) -> (s: String)
        ensures
            s@ == "http://mock-backend"@,
    {
        "http://mock-backend".to_string()
    }
}

impl Default for MockLlmBackend {
    fn default() -> (m: MockLlmBackend)
        ensures
            m.model() == "mock-model"@,
            m.response() == "Mock response"@,
            m.failure() is None,
            m.delay() == 0,
    {
        MockLlmBackend::new("mock-model")
    }
}

} // verus!
