//! The decisions of the llama.cpp (Vulkan) HTTP backend: how one request
//! attempt's outcome becomes an error or a retry, what a health probe's
//! outcome says, and when a load or unload has really taken effect.

use vstd::prelude::*;
use crate::backend::{HealthStatus, LlmError};
use crate::text::{chars_to_string, push_str, str_equal};

verus! {

/// What one HTTP request attempt came to.
#[derive(Debug)]
pub enum HttpOutcome {
    /// A response with a success status.
    Success,
    /// A response with another status: its code, its text (such as
    /// `404 Not Found`) and its body, `None` when the body could not be read.
    Status { code: u16, status_text: String, body: Option<String> },
    /// The request timed out; the client's message.
    TimedOut(String),
    /// The connection could not be made; the client's message.
    ConnectFailed(String),
    /// The request failed otherwise; the client's message.
    Failed(String),
}

/// Which backend call a request belongs to.
#[derive(Debug, Clone, Copy, PartialEq, Eq, Structural)]
pub enum RequestKind {
    /// A chat completion, streamed or not.
    Chat,
    /// The model list.
    ListModels,
    /// A model load.
    LoadModel,
    /// A model unload.
    UnloadModel,
}

/// A body as the error texts use it: `fallback` when it could not be read.
pub open spec fn body_or(body: Option<String>, fallback: Seq<char>) -> Seq<char> {
    match body {
        Some(b) => b@,
        None => fallback,
    }
}

/// `e` is the error a failed attempt of a `kind` request leaves behind.
pub open spec fn is_attempt_error(kind: RequestKind, outcome: HttpOutcome, e: LlmError) -> bool {
    match outcome {
        HttpOutcome::Success => false,
        HttpOutcome::Status { code, status_text, body } => if code == 429 && kind == RequestKind::Chat {
            e matches LlmError::RateLimited(m) && m@ == body_or(body, "Rate limited"@)
        } else if kind == RequestKind::LoadModel {
            e matches LlmError::Model(m) && m@ == "Failed to load model (HTTP "@ + status_text@ + "): "@
                + body_or(body, "Unknown error"@)
        } else if kind == RequestKind::UnloadModel {
            e matches LlmError::Model(m) && m@ == "Failed to unload model (HTTP "@ + status_text@ + "): "@
                + body_or(body, "Unknown error"@)
        } else {
            e matches LlmError::Connection(m) && m@ == "HTTP "@ + status_text@ + ": "@ + body_or(body, "Unknown error"@)
        },
        HttpOutcome::TimedOut(t) => e matches LlmError::Timeout(m) && m@ == t@,
        HttpOutcome::ConnectFailed(t) => e matches LlmError::Connection(m) && m@ == t@,
        HttpOutcome::Failed(t) => e matches LlmError::Internal(m) && m@ == "Request failed: "@ + t@,
    }
}

fn body_text(body: &Option<String>, fallback: &str) -> (r: String)
    ensures
        r@ == body_or(*body, fallback@),
{
    match body {
        Some(b) => b.clone(),
        None => fallback.to_owned(),
    }
}

/// The error a failed request attempt leaves behind; `None` for a success.
pub fn attempt_error(kind: RequestKind, outcome: &HttpOutcome) -> (r: Option<LlmError>)
    ensures
        match r {
            None => *outcome is Success,
            Some(e) => is_attempt_error(kind, *outcome, e),
        },
{
    match outcome {
        HttpOutcome::Success => None,
        HttpOutcome::Status { code, status_text, body } => {
            if *code == 429 && kind == RequestKind::Chat {
                return Some(LlmError::RateLimited(body_text(body, "Rate limited")));
            }
            let mut out: Vec<char> = Vec::new();
            if kind == RequestKind::LoadModel {
                push_str(&mut out, "Failed to load model (HTTP ");
            } else if kind == RequestKind::UnloadModel {
                push_str(&mut out, "Failed to unload model (HTTP ");
            } else {
                push_str(&mut out, "HTTP ");
            }
            push_str(&mut out, status_text.as_str());
            if kind == RequestKind::LoadModel || kind == RequestKind::UnloadModel {
                push_str(&mut out, "): ");
            } else {
                push_str(&mut out, ": ");
            }
            let b = body_text(body, "Unknown error");
            push_str(&mut out, b.as_str());
            let m = chars_to_string(out.as_slice());
            if kind == RequestKind::LoadModel || kind == RequestKind::UnloadModel {
                Some(LlmError::Model(m))
            } else {
                Some(LlmError::Connection(m))
            }
        },
        HttpOutcome::TimedOut(t) => Some(LlmError::Timeout(t.clone())),
        HttpOutcome::ConnectFailed(t) => Some(LlmError::Connection(t.clone())),
        HttpOutcome::Failed(t) => {
            let mut out: Vec<char> = Vec::new();
            push_str(&mut out, "Request failed: ");
            push_str(&mut out, t.as_str());
            Some(LlmError::Internal(chars_to_string(out.as_slice())))
        },
    }
}

/// What a request loop does next.
#[derive(Debug)]
pub enum RequestAction {
    /// Send attempt `attempt`, counted from one.
    Send { attempt: u32 },
    /// The response came with a success status; the call goes on with it.
    Proceed,
    /// Wait out the backoff after failed attempt `failed`, then send the next.
    Retry { failed: u32 },
    /// The call fails with this error.
    Fail(LlmError),
}

/// The error of a call that may make no attempt at all.
pub open spec fn is_no_attempt_error(e: LlmError) -> bool {
    e matches LlmError::Internal(m) && m@ == "Max retries exceeded"@
}

/// How a request loop of `max_retries` attempts starts.
pub fn first_request(max_retries: u32) -> (a: RequestAction)
    ensures
        max_retries == 0 ==> (a matches RequestAction::Fail(e) && is_no_attempt_error(e)),
        max_retries > 0 ==> (a matches RequestAction::Send { attempt } && attempt == 1),
{
    if max_retries == 0 {
        RequestAction::Fail(LlmError::Internal("Max retries exceeded".to_owned()))
    } else {
        RequestAction::Send { attempt: 1 }
    }
}

/// What follows attempt `attempt` of `max_retries` of a `kind` request: a
/// success goes on; a failure is retried while attempts are left, and
/// otherwise the call fails with the error this attempt left.
pub fn after_attempt(kind: RequestKind, attempt: u32, max_retries: u32, outcome: &HttpOutcome) -> (a: RequestAction)
    requires
        1 <= attempt <= max_retries,
    ensures
        *outcome is Success ==> a is Proceed,
        !(*outcome is Success) && attempt < max_retries ==> (a matches RequestAction::Retry { failed } && failed == attempt),
        !(*outcome is Success) && attempt == max_retries ==> (a matches RequestAction::Fail(e) && is_attempt_error(
            kind,
            *outcome,
            e,
        )),
{
    match attempt_error(kind, outcome) {
        None => RequestAction::Proceed,
        Some(e) => if attempt < max_retries {
            RequestAction::Retry { failed: attempt }
        } else {
            RequestAction::Fail(e)
        },
    }
}

/// What a health probe's outcome says of the server.
pub open spec fn health_of(outcome: HttpOutcome) -> HealthStatus {
    match outcome {
        HttpOutcome::Success => HealthStatus::Healthy,
        HttpOutcome::Status { code, .. } => if 500 <= code <= 599 {
            HealthStatus::Degraded
        } else {
            HealthStatus::Unhealthy
        },
        HttpOutcome::TimedOut(_) => HealthStatus::Unhealthy,
        HttpOutcome::ConnectFailed(_) => HealthStatus::Unhealthy,
        HttpOutcome::Failed(_) => HealthStatus::Degraded,
    }
}

/// The server's health from a probe of its health endpoint: healthy on a
/// success status, degraded on a server error or an unclassified failure,
/// unhealthy otherwise.
pub fn health_verdict(outcome: &HttpOutcome) -> (h: HealthStatus)
    ensures
        h == health_of(*outcome),
{
    match outcome {
        HttpOutcome::Success => HealthStatus::Healthy,
        HttpOutcome::Status { code, .. } => if 500 <= *code && *code <= 599 {
            HealthStatus::Degraded
        } else {
            HealthStatus::Unhealthy
        },
        HttpOutcome::TimedOut(_) => HealthStatus::Unhealthy,
        HttpOutcome::ConnectFailed(_) => HealthStatus::Unhealthy,
        HttpOutcome::Failed(_) => HealthStatus::Degraded,
    }
}

/// One entry of the server's model list: its `id` and its `status.value`,
/// each `None` where the entry has no such string.
#[derive(Debug)]
pub struct ListedModel {
    pub id: Option<String>,
    pub status: Option<String>,
}

/// The status a load waits for, or an unload.
pub open spec fn wanted_status(loaded: bool) -> Seq<char> {
    if loaded {
        "loaded"@
    } else {
        "unloaded"@
    }
}

/// The entry is listed under `id`.
pub open spec fn listed_as(e: ListedModel, id: Seq<char>) -> bool {
    e.id matches Some(x) && x@ == id
}

/// The model list shows the load (or the unload) of `id` done: the first
/// entry listed under `id` has the wanted status, or, for an unload, no
/// entry is.
pub open spec fn status_reached(entries: Seq<ListedModel>, id: Seq<char>, loaded: bool) -> bool
    decreases entries.len(),
{
    if entries.len() == 0 {
        !loaded
    } else if listed_as(entries[0], id) {
        entries[0].status matches Some(s) && s@ == wanted_status(loaded)
    } else {
        status_reached(entries.drop_first(), id, loaded)
    }
}

/// A model missing from the list counts as unloaded and never as loaded.
pub proof fn lemma_absent_model(entries: Seq<ListedModel>, id: Seq<char>)
    requires
        forall|i: int| 0 <= i < entries.len() ==> !listed_as(#[trigger] entries[i], id),
    ensures
        status_reached(entries, id, false),
        !status_reached(entries, id, true),
    decreases entries.len(),
{
    if entries.len() > 0 {
        assert(!listed_as(entries[0], id));
        assert forall|i: int| 0 <= i < entries.drop_first().len() implies !listed_as(
            #[trigger] entries.drop_first()[i],
            id,
        ) by {
            assert(entries.drop_first()[i] == entries[i + 1]);
        }
        lemma_absent_model(entries.drop_first(), id);
    }
}

/// One model list never shows both the load and the unload of a model done.
pub proof fn lemma_load_and_unload_exclusive(entries: Seq<ListedModel>, id: Seq<char>)
    ensures
        !(status_reached(entries, id, true) && status_reached(entries, id, false)),
    decreases entries.len(),
{
    reveal_strlit("loaded");
    reveal_strlit("unloaded");
    assert(wanted_status(true).len() != wanted_status(false).len());
    if entries.len() > 0 && !listed_as(entries[0], id) {
        lemma_load_and_unload_exclusive(entries.drop_first(), id);
    }
}

/// Whether the model list shows the load (or the unload) of `model_id` done.
pub fn model_status_reached(entries: &Vec<ListedModel>, model_id: &str, loaded: bool) -> (b: bool)
    ensures
        b == status_reached(entries@, model_id@, loaded),
{
    let mut i: usize = 0;
    assert(entries@.skip(0) =~= entries@);
    while i < entries.len()
        invariant
            i <= entries@.len(),
            status_reached(entries@.skip(i as int), model_id@, loaded) == status_reached(entries@, model_id@, loaded),
        decreases entries.len() - i,
    {
        let e = &entries[i];
        assert(entries@.skip(i as int)[0] == entries@[i as int]);
        assert(entries@.skip(i as int).drop_first() =~= entries@.skip(i as int + 1));
        let listed = match &e.id {
            Some(x) => str_equal(x.as_str(), model_id),
            None => false,
        };
        if listed {
            let wanted = if loaded { "loaded" } else { "unloaded" };
            proof {
                reveal_strlit("loaded");
                reveal_strlit("unloaded");
            }
            return match &e.status {
                Some(st) => str_equal(st.as_str(), wanted),
                None => false,
            };
        }
        i += 1;
    }
    assert(entries@.skip(i as int) =~= Seq::<ListedModel>::empty());
    !loaded
}

/// What the wait for a load or unload saw.
#[derive(Debug)]
pub enum PollEvent {
    /// The wait's 240 seconds are up.
    DeadlinePassed,
    /// The model list, or `None` when it could not be had or read.
    Listing(Option<Vec<ListedModel>>),
}

/// What the wait does next.
#[derive(Debug)]
pub enum PollAction {
    /// The load or unload has taken effect.
    Done,
    /// Look at the model list again after this many milliseconds.
    PollAgainAfterMillis(u64),
    /// The wait fails with this error.
    Fail(LlmError),
}

/// How long a load or unload is waited for, in seconds.
pub const STATUS_WAIT_SECS: u64 = 240;

/// The error of a wait that ran out of time.
pub open spec fn status_timeout_text(id: Seq<char>, loaded: bool) -> Seq<char> {
    "model "@ + id + " did not reach status '"@ + wanted_status(loaded) + "' within 240s (async load/unload verification)"@
}

/// The next step of waiting for `model_id` to be loaded (`loaded`) or
/// unloaded: done once the list shows it, otherwise a new look after 250
/// ms, and a timeout error once the deadline has passed.
pub fn status_poll_transition(model_id: &str, loaded: bool, event: &PollEvent) -> (a: PollAction)
    ensures
        *event is DeadlinePassed ==> (a matches PollAction::Fail(e) && e matches LlmError::Timeout(m)
            && m@ == status_timeout_text(model_id@, loaded)),
        *event matches PollEvent::Listing(l) ==> (if l matches Some(entries) && status_reached(
            entries@,
            model_id@,
            loaded,
        ) {
            a is Done
        } else {
            a matches PollAction::PollAgainAfterMillis(ms) && ms == 250
        }),
{
    match event {
        PollEvent::DeadlinePassed => {
            let mut out: Vec<char> = Vec::new();
            push_str(&mut out, "model ");
            push_str(&mut out, model_id);
            push_str(&mut out, " did not reach status '");
            if loaded {
                push_str(&mut out, "loaded");
            } else {
                push_str(&mut out, "unloaded");
            }
            push_str(&mut out, "' within 240s (async load/unload verification)");
            PollAction::Fail(LlmError::Timeout(chars_to_string(out.as_slice())))
        },
        PollEvent::Listing(None) => PollAction::PollAgainAfterMillis(250),
        PollEvent::Listing(Some(entries)) => if model_status_reached(entries, model_id, loaded) {
            PollAction::Done
        } else {
            PollAction::PollAgainAfterMillis(250)
        },
    }
}

} // verus!
