//! Per-model resource admission telemetry: every admission check of a
//! model is counted, the smallest free RAM, swap and VRAM seen so far are
//! kept, and the latest decision is recorded.

use vstd::prelude::*;
use crate::admission::{Admission, RamSensors, ResourceAdmissionConfig, VramSensors, reject_code_name};

verus! {

/// An admission decision as telemetry records it.
#[derive(Debug)]
pub struct TelemetryDecision {
    pub admitted: bool,
    pub code: Option<String>,
    pub detail: Option<String>,
}

/// Views of an optional string.
pub open spec fn opt_view(s: Option<String>) -> Option<Seq<char>> {
    match s {
        Some(t) => Some(t@),
        None => None,
    }
}

/// `d` records the admission `a`: admitted with no code or detail, or
/// refused with the code's name and the detail.
pub open spec fn decision_of(d: TelemetryDecision, a: Admission) -> bool {
    match a {
        Admission::Admitted => d.admitted && d.code is None && d.detail is None,
        Admission::Rejected { code, detail } => !d.admitted && opt_view(d.code) == Some(
            reject_code_name(code),
        ) && opt_view(d.detail) == Some(detail@),
    }
}

impl TelemetryDecision {
    /// The empty decision: not admitted, no code, no detail.
    pub fn empty() -> (d: TelemetryDecision)
        ensures
            !d.admitted,
            d.code is None,
            d.detail is None,
    {
        TelemetryDecision { admitted: false, code: None, detail: None }
    }

    /// The record of an admission decision.
    pub fn from_admission(admission: &Admission) -> (d: TelemetryDecision)
        ensures
            decision_of(d, *admission),
    {
        match admission {
            Admission::Admitted => TelemetryDecision { admitted: true, code: None, detail: None },
            Admission::Rejected { code, detail } => TelemetryDecision {
                admitted: false,
                code: Some(code.as_str().to_string()),
                detail: Some(detail.clone()),
            },
        }
    }
}

/// What telemetry holds for one model.
#[derive(Debug)]
pub struct TelemetryRecord {
    pub check_count: u64,
    pub weights_bytes: u64,
    pub minimum_available_ram_bytes: Option<u64>,
    pub minimum_available_vram_bytes: Option<u64>,
    pub minimum_available_swap_free_bytes: Option<u64>,
    pub latest_admission: TelemetryDecision,
}

/// `current` folded into the smallest observation so far.
pub open spec fn fold_minimum(previous: Option<u64>, current: u64) -> Option<u64> {
    match previous {
        Some(p) => Some(if p <= current { p } else { current }),
        None => Some(current),
    }
}

/// A KiB count in bytes, saturating at `u64::MAX`.
pub open spec fn kib_to_bytes(kb: u64) -> u64 {
    if kb * 1024 > u64::MAX { u64::MAX } else { (kb * 1024) as u64 }
}

/// The record after one more admission check of the model.
pub open spec fn observed(
    r: TelemetryRecord,
    weights_bytes: u64,
    vram: Option<VramSensors>,
    ram: Option<RamSensors>,
) -> (u64, u64, Option<u64>, Option<u64>, Option<u64>) {
    (
        if r.check_count == u64::MAX { u64::MAX } else { (r.check_count + 1) as u64 },
        weights_bytes,
        match ram {
            Some(s) => fold_minimum(r.minimum_available_ram_bytes, kib_to_bytes(s.mem_available_kb)),
            None => r.minimum_available_ram_bytes,
        },
        match vram {
            Some(s) => fold_minimum(r.minimum_available_vram_bytes, s.free_bytes),
            None => r.minimum_available_vram_bytes,
        },
        match ram {
            Some(s) => fold_minimum(r.minimum_available_swap_free_bytes, kib_to_bytes(s.swap_free_kb)),
            None => r.minimum_available_swap_free_bytes,
        },
    )
}

/// The numeric fields of a record.
pub open spec fn counters(r: TelemetryRecord) -> (u64, u64, Option<u64>, Option<u64>, Option<u64>) {
    (
        r.check_count,
        r.weights_bytes,
        r.minimum_available_ram_bytes,
        r.minimum_available_vram_bytes,
        r.minimum_available_swap_free_bytes,
    )
}

fn kib_in_bytes(kb: u64) -> (b: u64)
    ensures
        b == kib_to_bytes(kb),
{
    if kb > u64::MAX / 1024 {
        u64::MAX
    } else {
        kb * 1024
    }
}

fn fold_min(previous: Option<u64>, current: u64) -> (r: Option<u64>)
    ensures
        r == fold_minimum(previous, current),
{
    match previous {
        Some(p) => Some(if p <= current { p } else { current }),
        None => Some(current),
    }
}

impl TelemetryRecord {
    /// A record of a model not yet checked.
    pub fn new() -> (r: TelemetryRecord)
        ensures
            counters(r) == (0u64, 0u64, None::<u64>, None::<u64>, None::<u64>),
            !r.latest_admission.admitted,
            r.latest_admission.code is None,
            r.latest_admission.detail is None,
    {
        TelemetryRecord {
            check_count: 0,
            weights_bytes: 0,
            minimum_available_ram_bytes: None,
            minimum_available_vram_bytes: None,
            minimum_available_swap_free_bytes: None,
            latest_admission: TelemetryDecision::empty(),
        }
    }

    /// Count one more admission check: the weights are replaced, each
    /// sampled sensor lowers its minimum, and the decision becomes the
    /// latest one.
    pub fn observe(
        &mut self,
        weights_bytes: u64,
        vram: Option<&VramSensors>,
        ram: Option<&RamSensors>,
        admission: &Admission,
    )
        ensures
            counters(*final(self)) == observed(
                *old(self),
                weights_bytes,
                match vram {
                    Some(v) => Some(*v),
                    None => None,
                },
                match ram {
                    Some(m) => Some(*m),
                    None => None,
                },
            ),
            decision_of(final(self).latest_admission, *admission),
    {
        self.check_count = self.check_count.saturating_add(1);
        self.weights_bytes = weights_bytes;
        if let Some(ram) = ram {
            self.minimum_available_ram_bytes = fold_min(
                self.minimum_available_ram_bytes,
                kib_in_bytes(ram.mem_available_kb),
            );
            self.minimum_available_swap_free_bytes = fold_min(
                self.minimum_available_swap_free_bytes,
                kib_in_bytes(ram.swap_free_kb),
            );
        }
        if let Some(vram) = vram {
            self.minimum_available_vram_bytes = fold_min(
                self.minimum_available_vram_bytes,
                vram.free_bytes,
            );
        }
        self.latest_admission = TelemetryDecision::from_admission(admission);
    }
}

/// Telemetry is written when the workflow declares resource admission
/// with `telemetry.write_profile` and an output directory is configured.
pub fn telemetry_enabled(
    resource_admission: Option<&ResourceAdmissionConfig>,
    output_dir: Option<&str>,
) -> (b: bool)
    ensures
        b == (resource_admission matches Some(c) && c.telemetry.write_profile && output_dir is Some),
{
    match resource_admission {
        Some(c) => c.telemetry.write_profile && output_dir.is_some(),
        None => false,
    }
}

/// An observation never raises a recorded minimum, and once a sensor has
/// been sampled its minimum stays recorded.
pub proof fn lemma_minimum_never_grows(previous: Option<u64>, current: u64)
    ensures
        fold_minimum(previous, current) is Some,
        fold_minimum(previous, current)->0 <= current,
        previous matches Some(p) ==> fold_minimum(previous, current)->0 <= p,
        fold_minimum(fold_minimum(previous, current), current) == fold_minimum(previous, current),
{
}

/// The smaller of two samples.
pub open spec fn smaller(a: u64, b: u64) -> u64 {
    if a <= b { a } else { b }
}

/// Two admission checks of one model with every sensor sampled: the count
/// grows by two, the weights are those of the second check, each minimum
/// is the smallest of what was recorded before and both samples. (The
/// latest decision is the second one: `observe` replaces it on each call.)
pub proof fn lemma_two_observations(
    r0: TelemetryRecord,
    r1: TelemetryRecord,
    r2: TelemetryRecord,
    w1: u64,
    v1: VramSensors,
    m1: RamSensors,
    w2: u64,
    v2: VramSensors,
    m2: RamSensors,
)
    requires
        r0.check_count < u64::MAX - 1,
        counters(r1) == observed(r0, w1, Some(v1), Some(m1)),
        counters(r2) == observed(r1, w2, Some(v2), Some(m2)),
    ensures
        r2.check_count == r0.check_count + 2,
        r2.weights_bytes == w2,
        r2.minimum_available_ram_bytes == fold_minimum(
            r0.minimum_available_ram_bytes,
            smaller(kib_to_bytes(m1.mem_available_kb), kib_to_bytes(m2.mem_available_kb)),
        ),
        r2.minimum_available_vram_bytes == fold_minimum(
            r0.minimum_available_vram_bytes,
            smaller(v1.free_bytes, v2.free_bytes),
        ),
        r2.minimum_available_swap_free_bytes == fold_minimum(
            r0.minimum_available_swap_free_bytes,
            smaller(kib_to_bytes(m1.swap_free_kb), kib_to_bytes(m2.swap_free_kb)),
        ),
{
}

} // verus!
