//! Resource admission for workflow model loads: a workflow declares how
//! much RAM, swap and VRAM must be available and what a loaded model
//! costs; before a model is loaded (or an inference runs, or the preflight
//! check passes) the sampled sensors are held against that declaration.

use vstd::prelude::*;
use crate::resource_size::{parse_resource_bytes, resource_bytes};

verus! {

/// `minimum_available` of a workflow's resource admission block.
#[derive(Debug)]
pub struct MinimumAvailable {
    pub ram: String,
    pub vram: String,
    pub swap_free: String,
}

/// `model_estimate` of a workflow's resource admission block.
#[derive(Debug)]
pub struct ModelEstimate {
    pub kv_cache: String,
    pub compute_buffer: String,
    pub host_runtime: String,
    pub expected_runtime_secs: u64,
}

/// `telemetry` of a workflow's resource admission block.
#[derive(Debug)]
pub struct TelemetryConfig {
    pub write_profile: bool,
}

/// A workflow's `resource_admission` block, sizes as written.
#[derive(Debug)]
pub struct ResourceAdmissionConfig {
    pub enforcement_policy: String,
    pub minimum_available: MinimumAvailable,
    pub model_estimate: ModelEstimate,
    pub telemetry: TelemetryConfig,
}

/// A copy of a resource admission block.
pub fn copy_admission_config(c: &ResourceAdmissionConfig) -> (r: ResourceAdmissionConfig)
    ensures
        r == *c,
{
    ResourceAdmissionConfig {
        enforcement_policy: c.enforcement_policy.clone(),
        minimum_available: MinimumAvailable {
            ram: c.minimum_available.ram.clone(),
            vram: c.minimum_available.vram.clone(),
            swap_free: c.minimum_available.swap_free.clone(),
        },
        model_estimate: ModelEstimate {
            kv_cache: c.model_estimate.kv_cache.clone(),
            compute_buffer: c.model_estimate.compute_buffer.clone(),
            host_runtime: c.model_estimate.host_runtime.clone(),
            expected_runtime_secs: c.model_estimate.expected_runtime_secs,
        },
        telemetry: TelemetryConfig { write_profile: c.telemetry.write_profile },
    }
}

/// What a model load asks of the machine, in bytes.
#[derive(Debug)]
pub struct WorkflowLoadRequest {
    pub model_name: String,
    pub weights_bytes: u64,
    pub minimum_ram_bytes: u64,
    pub minimum_vram_bytes: u64,
    pub minimum_swap_free_bytes: u64,
    pub kv_cache_bytes: u64,
    pub compute_buffer_bytes: u64,
    pub host_runtime_bytes: u64,
}

/// A VRAM sample, in bytes.
#[derive(Debug, Clone, Copy, PartialEq, Eq, Structural)]
pub struct VramSensors {
    pub total_bytes: u64,
    pub free_bytes: u64,
}

/// A RAM sample, in KiB as `/proc/meminfo` reports it.
#[derive(Debug, Clone, Copy, PartialEq, Eq, Structural)]
pub struct RamSensors {
    pub mem_available_kb: u64,
    pub swap_free_kb: u64,
    pub mem_total_kb: u64,
}

/// Why a load was refused.
#[derive(Debug, Clone, Copy, PartialEq, Eq, Structural)]
pub enum RejectCode {
    WorkflowRam,
    WorkflowSwap,
    WorkflowVram,
    WorkflowSensors,
    WorkflowConfig,
}

/// Available RAM below what the workflow requires.
pub const REJECT_WORKFLOW_RAM: RejectCode = RejectCode::WorkflowRam;

/// Free swap below what the workflow requires.
pub const REJECT_WORKFLOW_SWAP: RejectCode = RejectCode::WorkflowSwap;

/// VRAM below what the workflow requires.
pub const REJECT_WORKFLOW_VRAM: RejectCode = RejectCode::WorkflowVram;

/// A sensor could not be read.
pub const REJECT_WORKFLOW_SENSORS: RejectCode = RejectCode::WorkflowSensors;

/// The workflow's resource admission block could not be read.
pub const REJECT_WORKFLOW_CONFIG: RejectCode = RejectCode::WorkflowConfig;

impl RejectCode {
    /// The code's name, as telemetry records it.
    pub fn as_str(&self) -> (s: &'static str)
        ensures
            s@ == reject_code_name(*self),
    {
        match self {
            RejectCode::WorkflowRam => "RESOURCE_REJECT_WORKFLOW_RAM",
            RejectCode::WorkflowSwap => "RESOURCE_REJECT_WORKFLOW_SWAP",
            RejectCode::WorkflowVram => "RESOURCE_REJECT_WORKFLOW_VRAM",
            RejectCode::WorkflowSensors => "RESOURCE_REJECT_WORKFLOW_SENSORS",
            RejectCode::WorkflowConfig => "RESOURCE_REJECT_WORKFLOW_CONFIG",
        }
    }
}

/// The name of a code.
pub open spec fn reject_code_name(c: RejectCode) -> Seq<char> {
    match c {
        RejectCode::WorkflowRam => "RESOURCE_REJECT_WORKFLOW_RAM"@,
        RejectCode::WorkflowSwap => "RESOURCE_REJECT_WORKFLOW_SWAP"@,
        RejectCode::WorkflowVram => "RESOURCE_REJECT_WORKFLOW_VRAM"@,
        RejectCode::WorkflowSensors => "RESOURCE_REJECT_WORKFLOW_SENSORS"@,
        RejectCode::WorkflowConfig => "RESOURCE_REJECT_WORKFLOW_CONFIG"@,
    }
}

/// The explanation that goes with a code.
pub open spec fn reject_detail(c: RejectCode) -> Seq<char> {
    match c {
        RejectCode::WorkflowRam => "available RAM is below the workflow's minimum"@,
        RejectCode::WorkflowSwap => "free swap is below the workflow's minimum"@,
        RejectCode::WorkflowVram => "VRAM is below what the workflow's model needs"@,
        RejectCode::WorkflowSensors => "workflow resource admission requires readable RAM and VRAM sensors"@,
        RejectCode::WorkflowConfig => "workflow resource admission block is invalid"@,
    }
}

/// The outcome of an admission check.
#[derive(Debug)]
pub enum Admission {
    Admitted,
    Rejected { code: RejectCode, detail: String },
}

/// `a` is the admission that `verdict` describes (`None`: admitted).
pub open spec fn admission_is(a: Admission, verdict: Option<RejectCode>) -> bool {
    match verdict {
        None => a is Admitted,
        Some(c) => a matches Admission::Rejected { code, detail } && code == c && detail@
            == reject_detail(c),
    }
}

fn reject(c: RejectCode) -> (a: Admission)
    ensures
        admission_is(a, Some(c)),
{
    let detail = match c {
        RejectCode::WorkflowRam => "available RAM is below the workflow's minimum",
        RejectCode::WorkflowSwap => "free swap is below the workflow's minimum",
        RejectCode::WorkflowVram => "VRAM is below what the workflow's model needs",
        RejectCode::WorkflowSensors => "workflow resource admission requires readable RAM and VRAM sensors",
        RejectCode::WorkflowConfig => "workflow resource admission block is invalid",
    };
    Admission::Rejected { code: c, detail: detail.to_string() }
}

/// The text a refused admission is reported with: its code's name, `: `
/// and its detail; `None` for an admission.
pub fn rejection_message(a: &Admission) -> (m: Option<String>)
    ensures
        match *a {
            Admission::Admitted => m is None,
            Admission::Rejected { code, detail } => m matches Some(t) && t@ == reject_code_name(code)
                + ": "@ + detail@,
        },
{
    match a {
        Admission::Admitted => None,
        Admission::Rejected { code, detail } => {
            let mut out: Vec<char> = Vec::new();
            crate::text::push_str(&mut out, code.as_str());
            crate::text::push_str(&mut out, ": ");
            crate::text::push_str(&mut out, detail.as_str());
            Some(crate::text::chars_to_string(out.as_slice()))
        },
    }
}

/// The byte counts of a load request.
pub struct LoadNeeds {
    pub weights: int,
    pub min_ram: int,
    pub min_vram: int,
    pub min_swap_free: int,
    pub kv_cache: int,
    pub compute_buffer: int,
    pub host_runtime: int,
}

/// The byte counts of a request.
pub open spec fn needs_of(req: WorkflowLoadRequest) -> LoadNeeds {
    LoadNeeds {
        weights: req.weights_bytes as int,
        min_ram: req.minimum_ram_bytes as int,
        min_vram: req.minimum_vram_bytes as int,
        min_swap_free: req.minimum_swap_free_bytes as int,
        kv_cache: req.kv_cache_bytes as int,
        compute_buffer: req.compute_buffer_bytes as int,
        host_runtime: req.host_runtime_bytes as int,
    }
}

/// RAM the workflow needs available: its minimum, and at least the host
/// runtime's share.
pub open spec fn ram_needed(req: LoadNeeds) -> int {
    if req.min_ram >= req.host_runtime {
        req.min_ram
    } else {
        req.host_runtime
    }
}

/// VRAM a load needs: the weights, KV cache and compute buffer, and at
/// least the workflow's minimum.
pub open spec fn vram_for_load(req: LoadNeeds) -> int {
    let model = req.weights + req.kv_cache + req.compute_buffer;
    if model >= req.min_vram {
        model
    } else {
        req.min_vram
    }
}

/// The host checks shared by every admission: available RAM, then free
/// swap.
pub open spec fn host_verdict(req: LoadNeeds, ram: RamSensors) -> Option<RejectCode> {
    if ram.mem_available_kb * 1024 < ram_needed(req) {
        Some(RejectCode::WorkflowRam)
    } else if ram.swap_free_kb * 1024 < req.min_swap_free {
        Some(RejectCode::WorkflowSwap)
    } else {
        None
    }
}

/// Before a model is loaded: host checks, then free VRAM against what the
/// load needs.
pub open spec fn load_verdict(req: LoadNeeds, vram: VramSensors, ram: RamSensors) -> Option<RejectCode> {
    match host_verdict(req, ram) {
        Some(c) => Some(c),
        None => if vram.free_bytes < vram_for_load(req) {
            Some(RejectCode::WorkflowVram)
        } else {
            None
        },
    }
}

/// With the model loaded, before an inference: host checks, then free VRAM
/// against the compute buffer an inference needs.
pub open spec fn inference_verdict(req: LoadNeeds, vram: VramSensors, ram: RamSensors) -> Option<RejectCode> {
    match host_verdict(req, ram) {
        Some(c) => Some(c),
        None => if vram.free_bytes < req.compute_buffer {
            Some(RejectCode::WorkflowVram)
        } else {
            None
        },
    }
}

/// At preflight, when models may already be loaded: host checks, then the
/// VRAM capacity against what the load needs.
pub open spec fn preflight_verdict(req: LoadNeeds, vram: VramSensors, ram: RamSensors) -> Option<RejectCode> {
    match host_verdict(req, ram) {
        Some(c) => Some(c),
        None => if vram.total_bytes < vram_for_load(req) {
            Some(RejectCode::WorkflowVram)
        } else {
            None
        },
    }
}

/// A load is the strictest admission: whatever admits loading a model
/// also admits an inference on it once loaded, and admits the preflight
/// check when the sample's free VRAM is within its total; and every
/// admission refuses first for the host, with the same code, when RAM or
/// swap falls short.
pub proof fn lemma_load_admission_is_strictest(req: WorkflowLoadRequest, vram: VramSensors, ram: RamSensors)
    ensures
        load_verdict(needs_of(req), vram, ram) is None ==> inference_verdict(needs_of(req), vram, ram) is None,
        load_verdict(needs_of(req), vram, ram) is None && vram.free_bytes <= vram.total_bytes
            ==> preflight_verdict(needs_of(req), vram, ram) is None,
        host_verdict(needs_of(req), ram) is Some ==> load_verdict(needs_of(req), vram, ram) == host_verdict(
            needs_of(req),
            ram,
        ) && inference_verdict(needs_of(req), vram, ram) == host_verdict(needs_of(req), ram)
            && preflight_verdict(needs_of(req), vram, ram) == host_verdict(needs_of(req), ram),
{
}

fn admit_host(req: &WorkflowLoadRequest, ram: &RamSensors) -> (r: Option<RejectCode>)
    ensures
        r == host_verdict(needs_of(*req), *ram),
{
    let need: u64 = if req.minimum_ram_bytes >= req.host_runtime_bytes {
        req.minimum_ram_bytes
    } else {
        req.host_runtime_bytes
    };
    if (ram.mem_available_kb as u128) * 1024 < need as u128 {
        Some(RejectCode::WorkflowRam)
    } else if (ram.swap_free_kb as u128) * 1024 < req.minimum_swap_free_bytes as u128 {
        Some(RejectCode::WorkflowSwap)
    } else {
        None
    }
}

fn vram_needed_for_load(req: &WorkflowLoadRequest) -> (v: u128)
    ensures
        v == vram_for_load(needs_of(*req)),
{
    let model: u128 = req.weights_bytes as u128 + req.kv_cache_bytes as u128
        + req.compute_buffer_bytes as u128;
    if model >= req.minimum_vram_bytes as u128 {
        model
    } else {
        req.minimum_vram_bytes as u128
    }
}

/// Admission before a model load.
pub fn admit_workflow_load(req: &WorkflowLoadRequest, vram: &VramSensors, ram: &RamSensors) -> (a: Admission)
    ensures
        admission_is(a, load_verdict(needs_of(*req), *vram, *ram)),
{
    match admit_host(req, ram) {
        Some(c) => reject(c),
        None => if (vram.free_bytes as u128) < vram_needed_for_load(req) {
            reject(RejectCode::WorkflowVram)
        } else {
            Admission::Admitted
        },
    }
}

/// Admission before an inference on a loaded model.
pub fn admit_workflow_inference(req: &WorkflowLoadRequest, vram: &VramSensors, ram: &RamSensors) -> (a: Admission)
    ensures
        admission_is(a, inference_verdict(needs_of(*req), *vram, *ram)),
{
    match admit_host(req, ram) {
        Some(c) => reject(c),
        None => if vram.free_bytes < req.compute_buffer_bytes {
            reject(RejectCode::WorkflowVram)
        } else {
            Admission::Admitted
        },
    }
}

/// Admission at preflight.
pub fn admit_workflow_preflight(req: &WorkflowLoadRequest, vram: &VramSensors, ram: &RamSensors) -> (a: Admission)
    ensures
        admission_is(a, preflight_verdict(needs_of(*req), *vram, *ram)),
{
    match admit_host(req, ram) {
        Some(c) => reject(c),
        None => if (vram.total_bytes as u128) < vram_needed_for_load(req) {
            reject(RejectCode::WorkflowVram)
        } else {
            Admission::Admitted
        },
    }
}

/// A size in the admission block that does not read as a byte size.
#[derive(Debug)]
pub struct AdmissionConfigError {
    /// Where in the block, such as `minimum_available.ram`.
    pub field: String,
    /// The text that was written there.
    pub value: String,
}

impl AdmissionConfigError {
    /// `invalid workflow resource admission <field>: <value>`.
    pub fn message(&self) -> (m: String)
        ensures
            m@ == "invalid workflow resource admission "@ + self.field@ + ": "@ + self.value@,
    {
        let mut out: Vec<char> = Vec::new();
        crate::text::push_str(&mut out, "invalid workflow resource admission ");
        crate::text::push_str(&mut out, self.field.as_str());
        crate::text::push_str(&mut out, ": ");
        crate::text::push_str(&mut out, self.value.as_str());
        crate::text::chars_to_string(&out)
    }
}

/// The sizes of an admission block in the order they are read, with the
/// name of each.
pub open spec fn admission_sizes(config: ResourceAdmissionConfig) -> Seq<(Seq<char>, Seq<char>)> {
    seq![
        ("minimum_available.ram"@, config.minimum_available.ram@),
        ("minimum_available.vram"@, config.minimum_available.vram@),
        ("minimum_available.swap_free"@, config.minimum_available.swap_free@),
        ("model_estimate.kv_cache"@, config.model_estimate.kv_cache@),
        ("model_estimate.compute_buffer"@, config.model_estimate.compute_buffer@),
        ("model_estimate.host_runtime"@, config.model_estimate.host_runtime@),
    ]
}

/// Every size of the block reads as a byte size.
pub open spec fn admission_sizes_valid(config: ResourceAdmissionConfig) -> bool {
    forall|i: int| 0 <= i < 6 ==> #[trigger] resource_bytes(admission_sizes(config)[i].1) is Some
}

fn size_field(field: &str, value: &String) -> (r: Result<u64, AdmissionConfigError>)
    ensures
        match r {
            Ok(v) => resource_bytes(value@) == Some(v),
            Err(e) => resource_bytes(value@) is None && e.field@ == field@ && e.value@ == value@,
        },
{
    match parse_resource_bytes(value.as_str()) {
        Some(v) => Ok(v),
        None => Err(AdmissionConfigError { field: field.to_string(), value: value.clone() }),
    }
}

/// The load request an admission block makes for a model of
/// `weights_bytes`: each size read as a byte size; the first that does
/// not read is the error.
pub fn workflow_resource_request(config: &ResourceAdmissionConfig, model_name: &str, weights_bytes: u64) -> (r: Result<WorkflowLoadRequest, AdmissionConfigError>)
    ensures
        match r {
            Ok(req) => {
                &&& admission_sizes_valid(*config)
                &&& req.model_name@ == model_name@
                &&& req.weights_bytes == weights_bytes
                &&& Some(req.minimum_ram_bytes) == resource_bytes(config.minimum_available.ram@)
                &&& Some(req.minimum_vram_bytes) == resource_bytes(config.minimum_available.vram@)
                &&& Some(req.minimum_swap_free_bytes) == resource_bytes(config.minimum_available.swap_free@)
                &&& Some(req.kv_cache_bytes) == resource_bytes(config.model_estimate.kv_cache@)
                &&& Some(req.compute_buffer_bytes) == resource_bytes(config.model_estimate.compute_buffer@)
                &&& Some(req.host_runtime_bytes) == resource_bytes(config.model_estimate.host_runtime@)
            },
            Err(e) => exists|i: int|
                0 <= i < 6 && resource_bytes(#[trigger] admission_sizes(*config)[i].1) is None
                    && (forall|k: int| 0 <= k < i ==> resource_bytes(#[trigger] admission_sizes(*config)[k].1) is Some)
                    && e.field@ == admission_sizes(*config)[i].0 && e.value@ == admission_sizes(*config)[i].1,
        },
{
    let ghost sizes = admission_sizes(*config);
    let minimum_ram_bytes = match size_field("minimum_available.ram", &config.minimum_available.ram) {
        Ok(v) => v,
        Err(e) => {
            assert(sizes[0].1 == config.minimum_available.ram@);
            return Err(e);
        },
    };
    let minimum_vram_bytes = match size_field("minimum_available.vram", &config.minimum_available.vram) {
        Ok(v) => v,
        Err(e) => {
            assert(sizes[1].1 == config.minimum_available.vram@);
            assert(resource_bytes(sizes[0].1) is Some);
            return Err(e);
        },
    };
    let minimum_swap_free_bytes = match size_field("minimum_available.swap_free", &config.minimum_available.swap_free) {
        Ok(v) => v,
        Err(e) => {
            assert(resource_bytes(sizes[0].1) is Some);
            assert(resource_bytes(sizes[1].1) is Some);
            assert(resource_bytes(sizes[2].1) is None);
            return Err(e);
        },
    };
    let kv_cache_bytes = match size_field("model_estimate.kv_cache", &config.model_estimate.kv_cache) {
        Ok(v) => v,
        Err(e) => {
            assert(resource_bytes(sizes[0].1) is Some);
            assert(resource_bytes(sizes[1].1) is Some);
            assert(resource_bytes(sizes[2].1) is Some);
            assert(resource_bytes(sizes[3].1) is None);
            return Err(e);
        },
    };
    let compute_buffer_bytes = match size_field("model_estimate.compute_buffer", &config.model_estimate.compute_buffer) {
        Ok(v) => v,
        Err(e) => {
            assert(resource_bytes(sizes[0].1) is Some);
            assert(resource_bytes(sizes[1].1) is Some);
            assert(resource_bytes(sizes[2].1) is Some);
            assert(resource_bytes(sizes[3].1) is Some);
            assert(resource_bytes(sizes[4].1) is None);
            return Err(e);
        },
    };
    let host_runtime_bytes = match size_field("model_estimate.host_runtime", &config.model_estimate.host_runtime) {
        Ok(v) => v,
        Err(e) => {
            assert(resource_bytes(sizes[0].1) is Some);
            assert(resource_bytes(sizes[1].1) is Some);
            assert(resource_bytes(sizes[2].1) is Some);
            assert(resource_bytes(sizes[3].1) is Some);
            assert(resource_bytes(sizes[4].1) is Some);
            assert(resource_bytes(sizes[5].1) is None);
            return Err(e);
        },
    };
    assert(resource_bytes(sizes[0].1) is Some);
    assert(resource_bytes(sizes[1].1) is Some);
    assert(resource_bytes(sizes[2].1) is Some);
    assert(resource_bytes(sizes[3].1) is Some);
    assert(resource_bytes(sizes[4].1) is Some);
    assert(resource_bytes(sizes[5].1) is Some);
    Ok(
        WorkflowLoadRequest {
            model_name: model_name.to_string(),
            weights_bytes,
            minimum_ram_bytes,
            minimum_vram_bytes,
            minimum_swap_free_bytes,
            kv_cache_bytes,
            compute_buffer_bytes,
            host_runtime_bytes,
        },
    )
}

/// The request's byte counts for a model of `weights` under an admission
/// block whose sizes all read.
pub open spec fn config_needs(config: ResourceAdmissionConfig, weights: u64) -> LoadNeeds {
    LoadNeeds {
        weights: weights as int,
        min_ram: resource_bytes(config.minimum_available.ram@)->Some_0 as int,
        min_vram: resource_bytes(config.minimum_available.vram@)->Some_0 as int,
        min_swap_free: resource_bytes(config.minimum_available.swap_free@)->Some_0 as int,
        kv_cache: resource_bytes(config.model_estimate.kv_cache@)->Some_0 as int,
        compute_buffer: resource_bytes(config.model_estimate.compute_buffer@)->Some_0 as int,
        host_runtime: resource_bytes(config.model_estimate.host_runtime@)->Some_0 as int,
    }
}

/// `e` names the first size of the block that does not read.
pub open spec fn first_invalid_size(config: ResourceAdmissionConfig, e: AdmissionConfigError) -> bool {
    exists|i: int|
        0 <= i < 6 && resource_bytes(#[trigger] admission_sizes(config)[i].1) is None && (forall|k: int|
            0 <= k < i ==> resource_bytes(#[trigger] admission_sizes(config)[k].1) is Some) && e.field@
            == admission_sizes(config)[i].0 && e.value@ == admission_sizes(config)[i].1
}

/// The outcome of a check against an admission block: the block's error
/// if a size does not read, else the admission `verdict` describes.
pub open spec fn checked_admission(
    config: ResourceAdmissionConfig,
    r: Result<Admission, AdmissionConfigError>,
    verdict: Option<RejectCode>,
) -> bool {
    match r {
        Ok(a) => admission_sizes_valid(config) && admission_is(a, verdict),
        Err(e) => !admission_sizes_valid(config) && first_invalid_size(config, e),
    }
}

proof fn lemma_request_needs(config: ResourceAdmissionConfig, model_name: Seq<char>, weights: u64, req: WorkflowLoadRequest)
    requires
        req.weights_bytes == weights,
        Some(req.minimum_ram_bytes) == resource_bytes(config.minimum_available.ram@),
        Some(req.minimum_vram_bytes) == resource_bytes(config.minimum_available.vram@),
        Some(req.minimum_swap_free_bytes) == resource_bytes(config.minimum_available.swap_free@),
        Some(req.kv_cache_bytes) == resource_bytes(config.model_estimate.kv_cache@),
        Some(req.compute_buffer_bytes) == resource_bytes(config.model_estimate.compute_buffer@),
        Some(req.host_runtime_bytes) == resource_bytes(config.model_estimate.host_runtime@),
    ensures
        needs_of(req) == config_needs(config, weights),
{
}

proof fn lemma_request_error(config: ResourceAdmissionConfig, e: AdmissionConfigError)
    requires
        first_invalid_size(config, e),
    ensures
        !admission_sizes_valid(config),
{
    let i = choose|i: int|
        0 <= i < 6 && resource_bytes(#[trigger] admission_sizes(config)[i].1) is None && (forall|k: int|
            0 <= k < i ==> resource_bytes(#[trigger] admission_sizes(config)[k].1) is Some) && e.field@
            == admission_sizes(config)[i].0 && e.value@ == admission_sizes(config)[i].1;
    assert(resource_bytes(admission_sizes(config)[i].1) is None);
}

/// Admission of a model load under a workflow's admission block.
pub fn workflow_resource_admission(
    config: &ResourceAdmissionConfig,
    model_name: &str,
    weights_bytes: u64,
    vram: &VramSensors,
    ram: &RamSensors,
) -> (r: Result<Admission, AdmissionConfigError>)
    ensures
        checked_admission(*config, r, load_verdict(config_needs(*config, weights_bytes), *vram, *ram)),
{
    match workflow_resource_request(config, model_name, weights_bytes) {
        Ok(req) => {
            proof {
                lemma_request_needs(*config, model_name@, weights_bytes, req);
            }
            Ok(admit_workflow_load(&req, vram, ram))
        },
        Err(e) => {
            proof {
                lemma_request_error(*config, e);
            }
            Err(e)
        },
    }
}

/// Admission at preflight under a workflow's admission block (no weights
/// counted).
pub fn workflow_preflight_resource_admission(
    config: &ResourceAdmissionConfig,
    model_name: &str,
    vram: &VramSensors,
    ram: &RamSensors,
) -> (r: Result<Admission, AdmissionConfigError>)
    ensures
        checked_admission(*config, r, preflight_verdict(config_needs(*config, 0), *vram, *ram)),
{
    match workflow_resource_request(config, model_name, 0) {
        Ok(req) => {
            proof {
                lemma_request_needs(*config, model_name@, 0, req);
            }
            Ok(admit_workflow_preflight(&req, vram, ram))
        },
        Err(e) => {
            proof {
                lemma_request_error(*config, e);
            }
            Err(e)
        },
    }
}

/// Admission of an inference on a loaded model under a workflow's
/// admission block.
pub fn workflow_inference_resource_admission(
    config: &ResourceAdmissionConfig,
    model_name: &str,
    weights_bytes: u64,
    vram: &VramSensors,
    ram: &RamSensors,
) -> (r: Result<Admission, AdmissionConfigError>)
    ensures
        checked_admission(*config, r, inference_verdict(config_needs(*config, weights_bytes), *vram, *ram)),
{
    match workflow_resource_request(config, model_name, weights_bytes) {
        Ok(req) => {
            proof {
                lemma_request_needs(*config, model_name@, weights_bytes, req);
            }
            Ok(admit_workflow_inference(&req, vram, ram))
        },
        Err(e) => {
            proof {
                lemma_request_error(*config, e);
            }
            Err(e)
        },
    }
}

/// Admission of a model load from possibly missing sensor samples: a
/// missing sample rejects the load (block sizes are read only when both
/// samples are there).
pub fn workflow_resource_admission_from_samples(
    config: &ResourceAdmissionConfig,
    model_name: &str,
    weights_bytes: u64,
    vram: Option<&VramSensors>,
    ram: Option<&RamSensors>,
) -> (r: Result<Admission, AdmissionConfigError>)
    ensures
        vram is Some && ram is Some ==> checked_admission(
            *config,
            r,
            load_verdict(config_needs(*config, weights_bytes), *vram->Some_0, *ram->Some_0),
        ),
        !(vram is Some && ram is Some) ==> (r matches Ok(a) && admission_is(a, Some(RejectCode::WorkflowSensors))),
{
    match (vram, ram) {
        (Some(v), Some(m)) => workflow_resource_admission(config, model_name, weights_bytes, v, m),
        _ => Ok(reject(RejectCode::WorkflowSensors)),
    }
}

/// Admission at preflight from possibly missing sensor samples.
pub fn workflow_preflight_resource_admission_from_samples(
    config: &ResourceAdmissionConfig,
    model_name: &str,
    vram: Option<&VramSensors>,
    ram: Option<&RamSensors>,
) -> (r: Result<Admission, AdmissionConfigError>)
    ensures
        vram is Some && ram is Some ==> checked_admission(
            *config,
            r,
            preflight_verdict(config_needs(*config, 0), *vram->Some_0, *ram->Some_0),
        ),
        !(vram is Some && ram is Some) ==> (r matches Ok(a) && admission_is(a, Some(RejectCode::WorkflowSensors))),
{
    match (vram, ram) {
        (Some(v), Some(m)) => workflow_preflight_resource_admission(config, model_name, v, m),
        _ => Ok(reject(RejectCode::WorkflowSensors)),
    }
}

/// Admission of an inference from possibly missing sensor samples.
pub fn workflow_inference_resource_admission_from_samples(
    config: &ResourceAdmissionConfig,
    model_name: &str,
    weights_bytes: u64,
    vram: Option<&VramSensors>,
    ram: Option<&RamSensors>,
) -> (r: Result<Admission, AdmissionConfigError>)
    ensures
        vram is Some && ram is Some ==> checked_admission(
            *config,
            r,
            inference_verdict(config_needs(*config, weights_bytes), *vram->Some_0, *ram->Some_0),
        ),
        !(vram is Some && ram is Some) ==> (r matches Ok(a) && admission_is(a, Some(RejectCode::WorkflowSensors))),
{
    match (vram, ram) {
        (Some(v), Some(m)) => workflow_inference_resource_admission(config, model_name, weights_bytes, v, m),
        _ => Ok(reject(RejectCode::WorkflowSensors)),
    }
}

/// Admission for a model that may already be loaded: the inference check
/// when it is, the load check when it is not.
pub fn workflow_model_state_resource_admission_from_samples(
    config: &ResourceAdmissionConfig,
    model_name: &str,
    weights_bytes: u64,
    model_is_loaded: bool,
    vram: Option<&VramSensors>,
    ram: Option<&RamSensors>,
) -> (r: Result<Admission, AdmissionConfigError>)
    ensures
        vram is Some && ram is Some ==> checked_admission(
            *config,
            r,
            if model_is_loaded {
                inference_verdict(config_needs(*config, weights_bytes), *vram->Some_0, *ram->Some_0)
            } else {
                load_verdict(config_needs(*config, weights_bytes), *vram->Some_0, *ram->Some_0)
            },
        ),
        !(vram is Some && ram is Some) ==> (r matches Ok(a) && admission_is(a, Some(RejectCode::WorkflowSensors))),
{
    if model_is_loaded {
        workflow_inference_resource_admission_from_samples(config, model_name, weights_bytes, vram, ram)
    } else {
        workflow_resource_admission_from_samples(config, model_name, weights_bytes, vram, ram)
    }
}

/// The smaller of an earlier observation and the current one.
pub fn minimum_observation(previous: Option<u64>, current: u64) -> (r: Option<u64>)
    ensures
        r == Some(
            match previous {
                Some(p) => if p <= current {
                    p
                } else {
                    current
                },
                None => current,
            },
        ),
{
    match previous {
        Some(p) => Some(if p <= current {
            p
        } else {
            current
        }),
        None => Some(current),
    }
}

/// Route targets may run in parallel only without an admission block
/// (with one, loads are admitted one at a time).
pub fn resource_admission_allows_parallel(resource_admission: Option<&ResourceAdmissionConfig>) -> (b: bool)
    ensures
        b == (resource_admission is None),
{
    resource_admission.is_none()
}

/// The default load estimate applies only without an admission block.
pub fn requires_default_load_admission(resource_admission: Option<&ResourceAdmissionConfig>) -> (b: bool)
    ensures
        b == (resource_admission is None),
{
    resource_admission.is_none()
}

/// Memory pressure between workflow steps.
#[derive(Debug, Clone, Copy, PartialEq, Eq, Structural)]
pub enum Pressure {
    Green,
    Yellow,
    Red,
}

/// Tracks memory pressure between steps; a new tracker reports green.
#[derive(Debug)]
pub struct PressureTracker {
    state: Pressure,
}

impl PressureTracker {
    /// A tracker that has seen no pressure.
    pub fn new() -> (t: PressureTracker)
        ensures
            t.current() == Pressure::Green,
    {
        PressureTracker { state: Pressure::Green }
    }

    /// The pressure last reported.
    pub closed spec fn current(&self) -> Pressure {
        self.state
    }

    /// The pressure last reported.
    pub fn state(&self) -> (p: Pressure)
        ensures
            p == self.current(),
    {
        self.state
    }
}

} // verus!
