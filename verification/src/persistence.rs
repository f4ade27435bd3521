//! Workflow state that survives a restart: where it is stored, the state
//! itself (steps done, variables, checkpoints, status) and the timestamps
//! it carries.

use vstd::prelude::*;
use crate::decimal::{decimal, u64_to_padded_chars, zero_pad};
use crate::json::{clone_json, json_of, lookup, lookup_member, same_opt, Json, JsonValue};
use crate::text::{chars_to_string, push_all, push_str, str_equal, str_to_chars};

verus! {

/// Where a workflow is in its life.
#[derive(Debug, Clone, Copy, PartialEq, Eq, Structural)]
pub enum WorkflowStatus {
    Running,
    Paused,
    Completed,
    Failed,
}

/// A Gregorian leap year.
pub open spec fn is_leap(y: int) -> bool {
    (y % 4 == 0 && y % 100 != 0) || y % 400 == 0
}

/// Days in year `y`.
pub open spec fn year_len(y: int) -> int {
    if is_leap(y) {
        366
    } else {
        365
    }
}

/// Days in month `m` (1 to 12) of year `y`.
pub open spec fn month_len(y: int, m: int) -> int {
    if m == 2 {
        if is_leap(y) {
            29
        } else {
            28
        }
    } else if m == 4 || m == 6 || m == 9 || m == 11 {
        30
    } else {
        31
    }
}

/// The month and day of the `n`-th day (from 0) of year `y`, counted from
/// month `m` on.
pub open spec fn month_and_day(y: int, m: int, n: int) -> (int, int)
    decreases 12 - m,
{
    if m >= 12 || n < month_len(y, m) {
        (m, n + 1)
    } else {
        month_and_day(y, m + 1, n - month_len(y, m))
    }
}

/// The date `n` days after the first of January of year `y`, as
/// (year, month, day).
pub open spec fn date_after(y: int, n: int) -> (int, int, int)
    decreases n,
{
    if n >= year_len(y) && n >= 0 {
        date_after(y + 1, n - year_len(y))
    } else {
        let (m, d) = month_and_day(y, 1, n);
        (y, m, d)
    }
}

/// The ISO 8601 UTC timestamp `YYYY-MM-DDTHH:MM:SSZ` of `secs` seconds
/// after the Unix epoch, on the Gregorian calendar.
pub open spec fn timestamp_text(secs: u64) -> Seq<char> {
    let days = secs / 86400;
    let rem = secs % 86400;
    let (y, m, d) = date_after(1970, days as int);
    zero_pad(decimal(y as nat), 4) + "-"@ + zero_pad(decimal(m as nat), 2) + "-"@ + zero_pad(
        decimal(d as nat),
        2,
    ) + "T"@ + zero_pad(decimal((rem / 3600) as nat), 2) + ":"@ + zero_pad(
        decimal(((rem % 3600) / 60) as nat),
        2,
    ) + ":"@ + zero_pad(decimal((rem % 60) as nat), 2) + "Z"@
}

/// Days from the first of month `m` of year `y` to the end of the year.
pub open spec fn days_from_month(y: int, m: int) -> int
    decreases 13 - m,
{
    if m > 12 || m < 1 {
        0
    } else {
        month_len(y, m) + days_from_month(y, m + 1)
    }
}

proof fn lemma_months_make_the_year(y: int)
    ensures
        days_from_month(y, 1) == year_len(y),
{
    reveal_with_fuel(days_from_month, 13);
}

proof fn lemma_month_and_day_valid(y: int, m: int, n: int)
    requires
        1 <= m <= 12,
        0 <= n < days_from_month(y, m),
    ensures
        m <= month_and_day(y, m, n).0 <= 12,
        1 <= month_and_day(y, m, n).1 <= month_len(y, month_and_day(y, m, n).0),
    decreases 12 - m,
{
    if n >= month_len(y, m) {
        assert(days_from_month(y, m) == month_len(y, m) + days_from_month(y, m + 1));
        if m == 12 {
            assert(days_from_month(y, 13) == 0);
        }
        lemma_month_and_day_valid(y, m + 1, n - month_len(y, m));
    }
}

proof fn lemma_date_after_valid(y: int, n: int)
    requires
        n >= 0,
    ensures
        date_after(y, n).0 >= y,
        1 <= date_after(y, n).1 <= 12,
        1 <= date_after(y, n).2 <= month_len(date_after(y, n).0, date_after(y, n).1),
    decreases n,
{
    if n >= year_len(y) {
        lemma_date_after_valid(y + 1, n - year_len(y));
    } else {
        lemma_months_make_the_year(y);
        lemma_month_and_day_valid(y, 1, n);
    }
}

/// Every timestamp names a real calendar date and time: a year from 1970
/// on, a month from 1 to 12, a day that exists in that month of that year
/// (leap years counted), an hour below 24 and minutes and seconds below 60.
pub proof fn lemma_timestamp_is_a_real_date(secs: u64)
    ensures
        date_after(1970, (secs / 86400) as int).0 >= 1970,
        1 <= date_after(1970, (secs / 86400) as int).1 <= 12,
        1 <= date_after(1970, (secs / 86400) as int).2 <= month_len(
            date_after(1970, (secs / 86400) as int).0,
            date_after(1970, (secs / 86400) as int).1,
        ),
        (secs % 86400) / 3600 < 24,
        ((secs % 86400) % 3600) / 60 < 60,
        (secs % 86400) % 60 < 60,
{
    lemma_date_after_valid(1970, (secs / 86400) as int);
}

fn leap(y: u64) -> (b: bool)
    ensures
        b == is_leap(y as int),
{
    (y % 4 == 0 && y % 100 != 0) || y % 400 == 0
}

fn days_in_month(y: u64, m: u64) -> (n: u64)
    ensures
        n == month_len(y as int, m as int),
{
    if m == 2 {
        if leap(y) {
            29
        } else {
            28
        }
    } else if m == 4 || m == 6 || m == 9 || m == 11 {
        30
    } else {
        31
    }
}

fn days_in_year(y: u64) -> (n: u64)
    ensures
        n == year_len(y as int),
{
    if leap(y) {
        366
    } else {
        365
    }
}

/// Formats seconds since the Unix epoch as `timestamp_text` says.
pub fn format_timestamp(secs: u64) -> (s: String)
    ensures
        s@ == timestamp_text(secs),
{
    let days = secs / 86400;
    let rem = secs % 86400;
    let mut y: u64 = 1970;
    let mut n: u64 = days;
    while n >= days_in_year(y)
        invariant
            1970 <= y,
            n <= days,
            days <= u64::MAX / 86400,
            (y - 1970) * 365 + n <= days,
            date_after(1970, days as int) == date_after(y as int, n as int),
        decreases n,
    {
        let len: u64 = days_in_year(y);
        n = n - len;
        y = y + 1;
    }
    let mut m: u64 = 1;
    let mut left: u64 = n;
    while m < 12 && left >= days_in_month(y, m)
        invariant
            1 <= m <= 12,
            left <= n,
            month_and_day(y as int, 1, n as int) == month_and_day(y as int, m as int, left as int),
        decreases 12 - m,
    {
        left = left - days_in_month(y, m);
        m = m + 1;
    }
    assert(date_after(y as int, n as int) == (y as int, m as int, left + 1));
    let mut out: Vec<char> = Vec::new();
    push_all(&mut out, &u64_to_padded_chars(y, 4));
    push_str(&mut out, "-");
    push_all(&mut out, &u64_to_padded_chars(m, 2));
    push_str(&mut out, "-");
    push_all(&mut out, &u64_to_padded_chars(left + 1, 2));
    push_str(&mut out, "T");
    push_all(&mut out, &u64_to_padded_chars(rem / 3600, 2));
    push_str(&mut out, ":");
    push_all(&mut out, &u64_to_padded_chars((rem % 3600) / 60, 2));
    push_str(&mut out, ":");
    push_all(&mut out, &u64_to_padded_chars(rem % 60, 2));
    push_str(&mut out, "Z");
    chars_to_string(out.as_slice())
}

/// A path joined onto a directory as a Unix `Path::join` does: an
/// absolute `name` replaces the base; otherwise a `/` separates them unless
/// the base is empty or already ends with one.
pub open spec fn joined(base: Seq<char>, name: Seq<char>) -> Seq<char> {
    if name.len() > 0 && name[0] == '/' {
        name
    } else if base.len() == 0 || base.last() == '/' {
        base + name
    } else {
        base + seq!['/'] + name
    }
}

fn join_path(base: &str, name: &str) -> (r: String)
    ensures
        r@ == joined(base@, name@),
{
    let b = str_to_chars(base);
    let n = str_to_chars(name);
    if n.len() > 0 && n[0] == '/' {
        return name.to_string();
    }
    let mut out: Vec<char> = Vec::new();
    push_all(&mut out, &b);
    if b.len() > 0 && b[b.len() - 1] != '/' {
        out.push('/');
    }
    push_all(&mut out, &n);
    chars_to_string(out.as_slice())
}

/// Whether a path exists.
///
/// Trusted: calls `Path::exists`; the answer depends on the file system, so
/// the contract says nothing of it.
#[verifier::external_body]
fn path_exists(path: &str) -> (b: bool) {
    std::path::Path::new(path).exists()
}

/// Where workflow states are stored: one `<id>.json` file per workflow in
/// a directory.
#[derive(Debug)]
pub struct WorkflowPersistence {
    storage_path: String,
}

impl WorkflowPersistence {
    /// The storage directory.
    pub closed spec fn storage(&self) -> Seq<char> {
        self.storage_path@
    }

    /// Storage in the given directory (which the caller has created).
    pub fn in_directory(storage_path: String) -> (p: WorkflowPersistence)
        ensures
            p.storage() == storage_path@,
    {
        WorkflowPersistence { storage_path }
    }

    /// The storage directory.
    pub fn storage_path(&self) -> (s: &String)
        ensures
            s@ == self.storage(),
    {
        &self.storage_path
    }

    /// The file a workflow's state is kept in: `<id>.json` in the storage
    /// directory.
    pub fn get_workflow_path(&self, workflow_id: &str) -> (p: String)
        ensures
            p@ == joined(self.storage(), workflow_id@ + ".json"@),
    {
        let mut name: Vec<char> = Vec::new();
        push_str(&mut name, workflow_id);
        push_str(&mut name, ".json");
        let file = chars_to_string(name.as_slice());
        join_path(self.storage_path.as_str(), file.as_str())
    }

    /// Whether a workflow's state file exists.
    pub fn sync_exists(&self, workflow_id: &str) -> bool {
        let path = self.get_workflow_path(workflow_id);
        path_exists(path.as_str())
    }
}

/// A snapshot of a workflow's variables, taken after a step.
#[derive(Debug)]
pub struct Checkpoint {
    pub step_name: String,
    pub timestamp: String,
    pub state: Vec<(String, JsonValue)>,
}

/// A workflow's persisted state.
#[derive(Debug)]
pub struct WorkflowState {
    pub workflow_id: String,
    pub current_step: String,
    pub completed_steps: Vec<String>,
    /// Variables by name; no name occurs twice.
    pub variables: Vec<(String, JsonValue)>,
    pub checkpoints: Vec<Checkpoint>,
    pub status: WorkflowStatus,
    pub created_at: String,
    pub updated_at: String,
}

/// No variable name occurs twice.
pub open spec fn names_distinct(vars: Seq<(String, JsonValue)>) -> bool {
    forall|i: int, j: int| 0 <= i < j < vars.len() ==> #[trigger] vars[i].0@ != #[trigger] vars[j].0@
}

/// Variables with `key` set to `value`: in place where the name is there,
/// else at the end.
pub open spec fn with_variable(vars: Seq<(String, JsonValue)>, key: String, value: JsonValue) -> Seq<(String, JsonValue)> {
    if exists|j: int| 0 <= j < vars.len() && #[trigger] vars[j].0@ == key@ {
        let j = choose|j: int| 0 <= j < vars.len() && #[trigger] vars[j].0@ == key@;
        vars.update(j, (key, value))
    } else {
        vars.push((key, value))
    }
}

proof fn lemma_lookup_first(vars: Seq<(String, JsonValue)>, k: Seq<char>, j: int)
    requires
        0 <= j < vars.len(),
        vars[j].0@ == k,
        forall|q: int| 0 <= q < j ==> #[trigger] vars[q].0@ != k,
    ensures
        lookup(vars, k) == Some(vars[j].1),
    decreases j,
{
    if j > 0 {
        lemma_lookup_first(vars.drop_first(), k, j - 1);
    }
}

proof fn lemma_lookup_absent(vars: Seq<(String, JsonValue)>, k: Seq<char>)
    requires
        forall|q: int| 0 <= q < vars.len() ==> #[trigger] vars[q].0@ != k,
    ensures
        lookup(vars, k) is None,
    decreases vars.len(),
{
    if vars.len() > 0 {
        lemma_lookup_absent(vars.drop_first(), k);
    }
}

/// With distinct names, a lookup finds the one entry of that name.
proof fn lemma_lookup_distinct(vars: Seq<(String, JsonValue)>, k: Seq<char>)
    requires
        names_distinct(vars),
    ensures
        (exists|j: int| 0 <= j < vars.len() && #[trigger] vars[j].0@ == k) ==> lookup(vars, k) == Some(
            vars[choose|j: int| 0 <= j < vars.len() && #[trigger] vars[j].0@ == k].1,
        ),
        !(exists|j: int| 0 <= j < vars.len() && #[trigger] vars[j].0@ == k) ==> lookup(vars, k) is None,
{
    if exists|j: int| 0 <= j < vars.len() && #[trigger] vars[j].0@ == k {
        let j = choose|j: int| 0 <= j < vars.len() && #[trigger] vars[j].0@ == k;
        lemma_lookup_first(vars, k, j);
    } else {
        lemma_lookup_absent(vars, k);
    }
}

/// What a variable lookup gives back after a write: the value written
/// under its name, and under any other name what was there before.
pub proof fn lemma_variable_read_after_write(vars: Seq<(String, JsonValue)>, key: String, value: JsonValue, other: Seq<char>)
    requires
        names_distinct(vars),
    ensures
        names_distinct(with_variable(vars, key, value)),
        lookup(with_variable(vars, key, value), key@) == Some(value),
        other != key@ ==> lookup(with_variable(vars, key, value), other) == lookup(vars, other),
{
    let w = with_variable(vars, key, value);
    if exists|j: int| 0 <= j < vars.len() && #[trigger] vars[j].0@ == key@ {
        let j = choose|j: int| 0 <= j < vars.len() && #[trigger] vars[j].0@ == key@;
        assert(names_distinct(w)) by {
            assert forall|a: int, b: int| 0 <= a < b < w.len() implies #[trigger] w[a].0@ != #[trigger] w[b].0@ by {
                if a == j {
                    assert(vars[b].0@ != vars[j].0@);
                } else if b == j {
                    assert(vars[a].0@ != vars[j].0@);
                }
            }
        }
    } else {
        assert(names_distinct(w)) by {
            assert forall|a: int, b: int| 0 <= a < b < w.len() implies #[trigger] w[a].0@ != #[trigger] w[b].0@ by {
                if b == vars.len() {
                    assert(w[a].0@ == vars[a].0@);
                }
            }
        }
    }
    lemma_lookup_distinct(w, key@);
    lemma_lookup_distinct(w, other);
    lemma_lookup_distinct(vars, other);
    if exists|j: int| 0 <= j < w.len() && #[trigger] w[j].0@ == key@ {
        let c = choose|j: int| 0 <= j < w.len() && #[trigger] w[j].0@ == key@;
        if exists|j: int| 0 <= j < vars.len() && #[trigger] vars[j].0@ == key@ {
            let j = choose|j: int| 0 <= j < vars.len() && #[trigger] vars[j].0@ == key@;
            if c != j {
                assert(w[c].0@ == vars[c].0@);
            }
        } else {
            if c != vars.len() {
                assert(w[c].0@ == vars[c].0@);
            }
        }
    } else {
        if exists|j: int| 0 <= j < vars.len() && #[trigger] vars[j].0@ == key@ {
            let j = choose|j: int| 0 <= j < vars.len() && #[trigger] vars[j].0@ == key@;
            assert(w[j].0@ == key@);
        } else {
            assert(w[vars.len() as int].0@ == key@);
        }
    }
    if other != key@ {
        if exists|j: int| 0 <= j < vars.len() && #[trigger] vars[j].0@ == other {
            let j = choose|j: int| 0 <= j < vars.len() && #[trigger] vars[j].0@ == other;
            assert(w[j].0@ == other);
            let c = choose|q: int| 0 <= q < w.len() && #[trigger] w[q].0@ == other;
            if c != j {
                assert(w[c].0@ != w[j].0@);
            }
        } else {
            assert forall|q: int| 0 <= q < w.len() implies #[trigger] w[q].0@ != other by {
                if q < vars.len() {
                    if exists|j: int| 0 <= j < vars.len() && #[trigger] vars[j].0@ == key@ {
                        let j = choose|j: int| 0 <= j < vars.len() && #[trigger] vars[j].0@ == key@;
                        if q != j {
                            assert(w[q] == vars[q]);
                        }
                    } else {
                        assert(w[q] == vars[q]);
                    }
                }
            }
        }
    }
}

impl WorkflowState {
    /// A running workflow at its first step, created and updated `now`.
    pub fn new(workflow_id: String, initial_step: String, now: String) -> (s: WorkflowState)
        ensures
            s.workflow_id == workflow_id,
            s.current_step == initial_step,
            s.completed_steps@.len() == 0,
            s.variables@.len() == 0,
            s.checkpoints@.len() == 0,
            s.status == WorkflowStatus::Running,
            s.created_at@ == now@,
            s.updated_at@ == now@,
    {
        WorkflowState {
            workflow_id,
            current_step: initial_step,
            completed_steps: Vec::new(),
            variables: Vec::new(),
            checkpoints: Vec::new(),
            status: WorkflowStatus::Running,
            created_at: now.clone(),
            updated_at: now,
        }
    }

    /// Records a step as done.
    pub fn complete_step(&mut self, step_name: String, now: String)
        ensures
            final(self).completed_steps@ == old(self).completed_steps@.push(step_name),
            final(self).updated_at == now,
            final(self).current_step == old(self).current_step,
            final(self).variables == old(self).variables,
            final(self).status == old(self).status,
    {
        self.completed_steps.push(step_name);
        self.updated_at = now;
    }

    /// Moves to another step.
    pub fn set_current_step(&mut self, step_name: String, now: String)
        ensures
            final(self).current_step == step_name,
            final(self).updated_at == now,
            final(self).completed_steps == old(self).completed_steps,
            final(self).variables == old(self).variables,
            final(self).status == old(self).status,
    {
        self.current_step = step_name;
        self.updated_at = now;
    }

    /// Sets a variable (replacing its value where it is set already).
    pub fn set_variable(&mut self, key: String, value: JsonValue, now: String)
        requires
            names_distinct(old(self).variables@),
        ensures
            final(self).variables@ == with_variable(old(self).variables@, key, value),
            names_distinct(final(self).variables@),
            final(self).updated_at == now,
            final(self).current_step == old(self).current_step,
            final(self).completed_steps == old(self).completed_steps,
            final(self).status == old(self).status,
    {
        let ghost vars = self.variables@;
        let mut j: usize = 0;
        while j < self.variables.len() && !str_equal(self.variables[j].0.as_str(), key.as_str())
            invariant
                vars == self.variables@,
                j <= vars.len(),
                forall|q: int| 0 <= q < j ==> #[trigger] vars[q].0@ != key@,
            decreases self.variables.len() - j,
        {
            j += 1;
        }
        proof {
            lemma_variable_read_after_write(vars, key, value, key@);
        }
        if j < self.variables.len() {
            assert(vars[j as int].0@ == key@);
            let ghost c = choose|q: int| 0 <= q < vars.len() && #[trigger] vars[q].0@ == key@;
            proof {
                lemma_first_match_unique(vars, key@, j as int, c);
            }
            self.variables.set(j, (key, value));
        } else {
            self.variables.push((key, value));
        }
        self.updated_at = now;
    }

    /// The value of a variable.
    pub fn get_variable(&self, key: &str) -> (r: Option<&JsonValue>)
        ensures
            same_opt(r, lookup(self.variables@, key@)),
    {
        lookup_member(&self.variables, key)
    }

    /// Changes the workflow's status.
    pub fn set_status(&mut self, status: WorkflowStatus, now: String)
        ensures
            final(self).status == status,
            final(self).updated_at == now,
            final(self).current_step == old(self).current_step,
            final(self).completed_steps == old(self).completed_steps,
            final(self).variables == old(self).variables,
    {
        self.status = status;
        self.updated_at = now;
    }

    /// Takes a checkpoint after `step_name`: a copy of the variables, taken
    /// `now`.
    pub fn record_checkpoint(&mut self, step_name: &str, now: String)
        ensures
            final(self).checkpoints@.len() == old(self).checkpoints@.len() + 1,
            forall|k: int|
                0 <= k < old(self).checkpoints@.len() ==> #[trigger] final(self).checkpoints@[k]
                    == old(self).checkpoints@[k],
            final(self).checkpoints@.last().step_name@ == step_name@,
            final(self).checkpoints@.last().timestamp@ == now@,
            final(self).checkpoints@.last().state@.len() == old(self).variables@.len(),
            forall|k: int|
                0 <= k < old(self).variables@.len() ==> (#[trigger] final(self).checkpoints@.last().state@[k]).0@
                    == old(self).variables@[k].0@ && json_of(final(self).checkpoints@.last().state@[k].1)
                    == json_of(old(self).variables@[k].1),
            final(self).updated_at@ == now@,
            final(self).variables == old(self).variables,
    {
        let mut copy: Vec<(String, JsonValue)> = Vec::new();
        let mut i: usize = 0;
        while i < self.variables.len()
            invariant
                i <= self.variables@.len(),
                copy@.len() == i,
                forall|k: int|
                    0 <= k < i ==> (#[trigger] copy@[k]).0@ == self.variables@[k].0@ && json_of(copy@[k].1)
                        == json_of(self.variables@[k].1),
            decreases self.variables.len() - i,
        {
            copy.push((self.variables[i].0.clone(), clone_json(&self.variables[i].1)));
            i += 1;
        }
        self.checkpoints.push(
            Checkpoint { step_name: step_name.to_string(), timestamp: now.clone(), state: copy },
        );
        self.updated_at = now;
    }
}

proof fn lemma_first_match_unique(vars: Seq<(String, JsonValue)>, k: Seq<char>, j: int, c: int)
    requires
        0 <= j < vars.len(),
        vars[j].0@ == k,
        forall|q: int| 0 <= q < j ==> #[trigger] vars[q].0@ != k,
        0 <= c < vars.len(),
        vars[c].0@ == k,
        names_distinct(vars),
    ensures
        c == j,
{
    if c != j {
        if c < j {
            assert(vars[c].0@ != k);
        } else {
            assert(vars[j].0@ != vars[c].0@);
        }
    }
}

} // verus!
