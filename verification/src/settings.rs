//! The run settings of a benchmark runner and how a workflow file
//! overrides them: the file's values replace the command-line ones before
//! preflight reads them.

use vstd::prelude::*;
use crate::admission::{ResourceAdmissionConfig, copy_admission_config};

verus! {

/// Refusal phrases used when neither the caller nor the workflow gives any.
pub open spec fn default_refusal_patterns() -> Seq<Seq<char>> {
    seq![
        "I cannot help"@, "I can't help"@, "I am unable to"@,
        "I'm unable to"@, "As an AI"@, "I'm not able to"@,
        "I am not able to"@, "I will not help"@,
        "I cannot directly"@, "I can't directly"@,
        "I cannot read"@, "I can't read"@,
        "I cannot access"@, "I can't access"@,
        "do not have access"@, "don't have access"@,
        "cannot access your local"@, "can't access your local"@,
        "I do not have"@, "I don't have"@,
        "I'm not able to read"@, "I am not able to read"@,
    ]
}

/// Views of a list of strings.
pub open spec fn strings_view(v: Seq<String>) -> Seq<Seq<char>> {
    v.map_values(|s: String| s@)
}

/// Views of an optional string.
pub open spec fn opt_string_view(s: Option<String>) -> Option<Seq<char>> {
    match s {
        Some(t) => Some(t@),
        None => None,
    }
}

/// Nanoseconds in a whole number of seconds.
pub open spec fn secs_to_nanos(secs: u64) -> u128 {
    (secs * 1_000_000_000) as u128
}

/// The pause after unloading a model when nothing else is configured:
/// three seconds, in nanoseconds.
pub fn default_cooldown_after_unload() -> (n: u128)
    ensures
        n == secs_to_nanos(3),
{
    3_000_000_000
}

/// How long a model load may take when nothing else is configured: 300
/// seconds, in nanoseconds.
pub fn default_model_load_timeout() -> (n: u128)
    ensures
        n == secs_to_nanos(300),
{
    300_000_000_000
}

/// The scratch space a run needs when nothing else is configured: 100 MiB.
pub fn default_min_tmp_space_mb() -> (n: u64)
    ensures
        n == 100,
{
    100
}

/// The settings that a workflow file may override, durations in
/// nanoseconds.
#[derive(Debug)]
pub struct RunnerSettings {
    pub inference_max_attempts: u32,
    pub refusal_patterns: Vec<String>,
    pub streaming_enabled: bool,
    pub resume: bool,
    pub detail_template: Option<String>,
    pub resource_admission: Option<ResourceAdmissionConfig>,
    pub output_dir: Option<String>,
    pub cooldown_after_unload_nanos: u128,
    pub model_load_timeout_nanos: u128,
    pub min_tmp_space_mb: u64,
    pub filter_name: Option<String>,
}

/// What a workflow file says about the run.
#[derive(Debug)]
pub struct WorkflowOverrides {
    pub inference_max_attempts: u32,
    pub refusal_patterns: Vec<String>,
    pub output_root: Option<String>,
    pub cooldown_after_unload_secs: Option<u64>,
    pub model_load_timeout_secs: Option<u64>,
    pub min_tmp_space_mb: Option<u64>,
    pub streaming_enabled: Option<bool>,
    pub detail_template: Option<String>,
    pub model_filter: Option<String>,
    pub resource_admission: Option<ResourceAdmissionConfig>,
}

/// The settings as plain values.
pub struct SettingsView {
    pub inference_max_attempts: u32,
    pub refusal_patterns: Seq<Seq<char>>,
    pub streaming_enabled: bool,
    pub resume: bool,
    pub detail_template: Option<Seq<char>>,
    pub resource_admission: Option<ResourceAdmissionConfig>,
    pub output_dir: Option<Seq<char>>,
    pub cooldown_after_unload_nanos: u128,
    pub model_load_timeout_nanos: u128,
    pub min_tmp_space_mb: u64,
    pub filter_name: Option<Seq<char>>,
}

impl View for RunnerSettings {
    type V = SettingsView;

    open spec fn view(&self) -> SettingsView {
        SettingsView {
            inference_max_attempts: self.inference_max_attempts,
            refusal_patterns: strings_view(self.refusal_patterns@),
            streaming_enabled: self.streaming_enabled,
            resume: self.resume,
            detail_template: opt_string_view(self.detail_template),
            resource_admission: self.resource_admission,
            output_dir: opt_string_view(self.output_dir),
            cooldown_after_unload_nanos: self.cooldown_after_unload_nanos,
            model_load_timeout_nanos: self.model_load_timeout_nanos,
            min_tmp_space_mb: self.min_tmp_space_mb,
            filter_name: opt_string_view(self.filter_name),
        }
    }
}

/// The settings after a workflow's overrides: the workflow's resource
/// admission block and attempt count always win; its refusal patterns win
/// when it lists any; its output root fills an unset output directory;
/// each timing, streaming, template and filter value it gives wins.
pub open spec fn overridden(s: SettingsView, o: WorkflowOverrides) -> SettingsView {
    SettingsView {
        inference_max_attempts: o.inference_max_attempts,
        refusal_patterns: if o.refusal_patterns@.len() == 0 {
            s.refusal_patterns
        } else {
            strings_view(o.refusal_patterns@)
        },
        streaming_enabled: match o.streaming_enabled {
            Some(e) => e,
            None => s.streaming_enabled,
        },
        resume: s.resume,
        detail_template: match o.detail_template {
            Some(t) => Some(t@),
            None => s.detail_template,
        },
        resource_admission: o.resource_admission,
        output_dir: match (s.output_dir, o.output_root) {
            (None, Some(r)) => Some(r@),
            _ => s.output_dir,
        },
        cooldown_after_unload_nanos: match o.cooldown_after_unload_secs {
            Some(secs) => secs_to_nanos(secs),
            None => s.cooldown_after_unload_nanos,
        },
        model_load_timeout_nanos: match o.model_load_timeout_secs {
            Some(secs) => secs_to_nanos(secs),
            None => s.model_load_timeout_nanos,
        },
        min_tmp_space_mb: match o.min_tmp_space_mb {
            Some(mb) => mb,
            None => s.min_tmp_space_mb,
        },
        filter_name: match o.model_filter {
            Some(f) => Some(f@),
            None => s.filter_name,
        },
    }
}

fn copy_strings(v: &Vec<String>) -> (r: Vec<String>)
    ensures
        strings_view(r@) == strings_view(v@),
{
    let mut r: Vec<String> = Vec::new();
    let mut i: usize = 0;
    while i < v.len()
        invariant
            i <= v.len(),
            r@ == v@.subrange(0, i as int),
        decreases v.len() - i,
    {
        let t = v[i].clone();
        r.push(t);
        i += 1;
        assert(r@ =~= v@.subrange(0, i as int));
    }
    assert(v@.subrange(0, v.len() as int) =~= v@);
    r
}

fn copy_opt_string(s: &Option<String>) -> (r: Option<String>)
    ensures
        opt_string_view(r) == opt_string_view(*s),
{
    match s {
        Some(t) => Some(t.clone()),
        None => None,
    }
}

fn copy_opt_config(c: &Option<ResourceAdmissionConfig>) -> (r: Option<ResourceAdmissionConfig>)
    ensures
        r == *c,
{
    match c {
        Some(x) => Some(copy_admission_config(x)),
        None => None,
    }
}

/// The default refusal phrases as owned strings.
pub fn default_refusal_pattern_list() -> (r: Vec<String>)
    ensures
        strings_view(r@) == default_refusal_patterns(),
{
    let r: Vec<String> = vec![
        "I cannot help".to_string(), "I can't help".to_string(), "I am unable to".to_string(),
        "I'm unable to".to_string(), "As an AI".to_string(), "I'm not able to".to_string(),
        "I am not able to".to_string(), "I will not help".to_string(),
        "I cannot directly".to_string(), "I can't directly".to_string(),
        "I cannot read".to_string(), "I can't read".to_string(),
        "I cannot access".to_string(), "I can't access".to_string(),
        "do not have access".to_string(), "don't have access".to_string(),
        "cannot access your local".to_string(), "can't access your local".to_string(),
        "I do not have".to_string(), "I don't have".to_string(),
        "I'm not able to read".to_string(), "I am not able to read".to_string(),
    ];
    assert(strings_view(r@) =~= default_refusal_patterns());
    r
}

impl RunnerSettings {
    /// Settings taken from the command line: three inference attempts,
    /// the default refusal phrases, streaming and resuming off, no detail
    /// template and no resource admission block.
    pub fn new(
        output_dir: Option<String>,
        cooldown_after_unload_nanos: u128,
        model_load_timeout_nanos: u128,
        min_tmp_space_mb: u64,
        filter_name: Option<String>,
    ) -> (s: RunnerSettings)
        ensures
            s@ == (SettingsView {
                inference_max_attempts: 3,
                refusal_patterns: default_refusal_patterns(),
                streaming_enabled: false,
                resume: false,
                detail_template: None,
                resource_admission: None,
                output_dir: opt_string_view(output_dir),
                cooldown_after_unload_nanos,
                model_load_timeout_nanos,
                min_tmp_space_mb,
                filter_name: opt_string_view(filter_name),
            }),
    {
        RunnerSettings {
            inference_max_attempts: 3,
            refusal_patterns: default_refusal_pattern_list(),
            streaming_enabled: false,
            resume: false,
            detail_template: None,
            resource_admission: None,
            output_dir,
            cooldown_after_unload_nanos,
            model_load_timeout_nanos,
            min_tmp_space_mb,
            filter_name,
        }
    }

    /// Resume from a checkpoint or not.
    pub fn with_resume(self, resume: bool) -> (s: RunnerSettings)
        ensures
            s@ == (SettingsView { resume, ..self@ }),
    {
        RunnerSettings { resume, ..self }
    }

    /// Stream responses or not.
    pub fn with_streaming_enabled(self, enabled: bool) -> (s: RunnerSettings)
        ensures
            s@ == (SettingsView { streaming_enabled: enabled, ..self@ }),
    {
        RunnerSettings { streaming_enabled: enabled, ..self }
    }

    /// Whether responses are streamed.
    pub fn streaming_enabled(&self) -> (b: bool)
        ensures
            b == self.streaming_enabled,
    {
        self.streaming_enabled
    }

    /// Attempts per inference; zero is raised to one.
    pub fn with_inference_max_attempts(self, max_attempts: u32) -> (s: RunnerSettings)
        ensures
            s@ == (SettingsView {
                inference_max_attempts: if max_attempts >= 1 { max_attempts } else { 1 },
                ..self@
            }),
    {
        let n = if max_attempts >= 1 { max_attempts } else { 1 };
        RunnerSettings { inference_max_attempts: n, ..self }
    }

    /// Attempts per inference.
    pub fn inference_max_attempts(&self) -> (n: u32)
        ensures
            n == self.inference_max_attempts,
    {
        self.inference_max_attempts
    }

    /// Replaces the refusal phrases, unless `patterns` is empty.
    pub fn with_refusal_patterns(self, patterns: Vec<String>) -> (s: RunnerSettings)
        ensures
            s@ == (SettingsView {
                refusal_patterns: if patterns@.len() == 0 {
                    self@.refusal_patterns
                } else {
                    strings_view(patterns@)
                },
                ..self@
            }),
    {
        if patterns.len() == 0 {
            self
        } else {
            RunnerSettings { refusal_patterns: patterns, ..self }
        }
    }

    /// The refusal phrases.
    pub fn refusal_patterns(&self) -> (p: &Vec<String>)
        ensures
            p@ == self.refusal_patterns@,
    {
        &self.refusal_patterns
    }

    /// Applies a workflow file's overrides.
    pub fn apply_workflow_timing_overrides(&mut self, ctx: &WorkflowOverrides)
        ensures
            final(self)@ == overridden(old(self)@, *ctx),
    {
        self.resource_admission = copy_opt_config(&ctx.resource_admission);
        self.inference_max_attempts = ctx.inference_max_attempts;
        if ctx.refusal_patterns.len() > 0 {
            self.refusal_patterns = copy_strings(&ctx.refusal_patterns);
        }
        if self.output_dir.is_none() {
            if ctx.output_root.is_some() {
                self.output_dir = copy_opt_string(&ctx.output_root);
            }
        }
        if let Some(secs) = ctx.cooldown_after_unload_secs {
            self.cooldown_after_unload_nanos = secs as u128 * 1_000_000_000;
        }
        if let Some(secs) = ctx.model_load_timeout_secs {
            self.model_load_timeout_nanos = secs as u128 * 1_000_000_000;
        }
        if let Some(mb) = ctx.min_tmp_space_mb {
            self.min_tmp_space_mb = mb;
        }
        if let Some(enabled) = ctx.streaming_enabled {
            self.streaming_enabled = enabled;
        }
        if ctx.detail_template.is_some() {
            self.detail_template = copy_opt_string(&ctx.detail_template);
        }
        if ctx.model_filter.is_some() {
            self.filter_name = copy_opt_string(&ctx.model_filter);
        }
    }
}

/// Applying a workflow's overrides a second time changes nothing.
pub proof fn lemma_overrides_idempotent(s: SettingsView, o: WorkflowOverrides)
    ensures
        overridden(overridden(s, o), o) == overridden(s, o),
{
}

/// A value that the workflow gives always ends up in the settings,
/// whatever the command line said, except the output root, which only
/// fills an output directory that the command line left unset.
pub proof fn lemma_workflow_values_win(s: SettingsView, o: WorkflowOverrides)
    ensures
        overridden(s, o).inference_max_attempts == o.inference_max_attempts,
        overridden(s, o).resource_admission == o.resource_admission,
        o.min_tmp_space_mb matches Some(mb) ==> overridden(s, o).min_tmp_space_mb == mb,
        o.model_load_timeout_secs matches Some(t) ==> overridden(s, o).model_load_timeout_nanos
            == secs_to_nanos(t),
        o.cooldown_after_unload_secs matches Some(t) ==> overridden(s, o).cooldown_after_unload_nanos
            == secs_to_nanos(t),
        s.output_dir is Some ==> overridden(s, o).output_dir == s.output_dir,
{
}

} // verus!
