//! Facts about the inference server a run talks to: its port, the shell
//! pipeline that counts stray server processes, and the settings read from
//! the environment (given here as the values read).

use vstd::prelude::*;
use crate::decimal::{decimal, i32_to_chars, parse_i32_chars, parse_i32_spec, parse_unsigned, parse_unsigned_chars, signed_decimal, u64_to_chars};
use crate::text::{chars_to_string, push_all, push_str, rfind, rfind_chars, slice_chars, str_equal, str_to_chars, trim, trim_chars, lemma_find_bounds};

verus! {

/// The part of a URL after its last `:` (all of it when there is none).
pub open spec fn after_last_colon(s: Seq<char>) -> Seq<char> {
    let k = rfind(s, seq![':']);
    if k < 0 {
        s
    } else {
        s.subrange(k + 1, s.len() as int)
    }
}

/// `s` without leading `/`.
pub open spec fn trim_leading_slashes(s: Seq<char>) -> Seq<char>
    decreases s.len(),
{
    if s.len() > 0 && s[0] == '/' {
        trim_leading_slashes(s.drop_first())
    } else {
        s
    }
}

/// `s` without trailing `/`.
pub open spec fn trim_trailing_slashes(s: Seq<char>) -> Seq<char>
    decreases s.len(),
{
    if s.len() > 0 && s.last() == '/' {
        trim_trailing_slashes(s.drop_last())
    } else {
        s
    }
}

/// The port a server URL names: the text after the last `:`, stripped of
/// `/` on both ends, read as a port number; 8080 when that fails.
pub open spec fn port_of_url(url: Seq<char>) -> u16 {
    match parse_unsigned(trim_trailing_slashes(trim_leading_slashes(after_last_colon(url))), 65535) {
        Some(p) => p as u16,
        None => 8080,
    }
}

fn trim_slashes(s: &Vec<char>) -> (r: Vec<char>)
    ensures
        r@ == trim_trailing_slashes(trim_leading_slashes(s@)),
{
    let mut a: usize = 0;
    assert(s@.skip(0) =~= s@);
    while a < s.len() && s[a] == '/'
        invariant
            a <= s@.len(),
            trim_leading_slashes(s@) == trim_leading_slashes(s@.skip(a as int)),
        decreases s.len() - a,
    {
        assert(s@.skip(a as int).drop_first() =~= s@.skip(a + 1));
        a += 1;
    }
    let ghost lead = s@.skip(a as int);
    assert(trim_leading_slashes(s@) == lead);
    let mut b: usize = s.len();
    assert(lead =~= s@.subrange(a as int, b as int));
    while b > a && s[b - 1] == '/'
        invariant
            a <= b <= s@.len(),
            trim_trailing_slashes(lead) == trim_trailing_slashes(s@.subrange(a as int, b as int)),
        decreases b - a,
    {
        assert(s@.subrange(a as int, b as int).drop_last() =~= s@.subrange(a as int, b - 1));
        b -= 1;
    }
    slice_chars(s, a, b)
}

/// The port of the server this run talks to, as `port_of_url` says.
pub fn own_server_port(server_url: &str) -> (port: u16)
    ensures
        port == port_of_url(server_url@),
{
    let s = str_to_chars(server_url);
    let colon = vec![':'];
    assert(colon@ =~= seq![':']);
    proof {
        lemma_find_bounds(s@, seq![':'], 0);
    }
    let seg = match rfind_chars(&s, &colon) {
        Some(k) => {
            assert(crate::text::occurs_at(s@, seq![':'], k as int));
            assert(k + 1 <= s.len());
            slice_chars(&s, k + 1, s.len())
        },
        None => slice_chars(&s, 0, s.len()),
    };
    assert(seg@ =~= after_last_colon(s@));
    let t = trim_slashes(&seg);
    match parse_unsigned_chars(&t, 65535) {
        Some(p) => p as u16,
        None => 8080,
    }
}

/// The pipeline that counts stray `llama-server` processes: zombies, the
/// router (`--models-dir`) and the live server on `port` are not counted.
pub open spec fn zombie_command(port: u16) -> Seq<char> {
    "ps -eo stat,args | grep -v 'Z' | grep llama-server | grep -v -- --models-dir | grep -v -- --port "@
        + decimal(port as nat) + " | grep -c llama-server"@
}

/// The stray-process count command for a server on `own_port`.
pub fn zombie_check_command(own_port: u16) -> (cmd: String)
    ensures
        cmd@ == zombie_command(own_port),
{
    let mut out: Vec<char> = Vec::new();
    push_str(
        &mut out,
        "ps -eo stat,args | grep -v 'Z' | grep llama-server | grep -v -- --models-dir | grep -v -- --port ",
    );
    push_all(&mut out, &u64_to_chars(own_port as u64));
    push_str(&mut out, " | grep -c llama-server");
    chars_to_string(out.as_slice())
}

/// How many stray server processes are tolerated: the configured value
/// where it reads as an `i32`, else 2.
pub fn zombie_threshold(configured: Option<&str>) -> (n: i32)
    ensures
        n == match configured {
            Some(v) => match parse_i32_spec(v@) {
                Some(k) => k,
                None => 2,
            },
            None => 2,
        },
{
    match configured {
        Some(v) => match parse_i32_chars(&str_to_chars(v)) {
            Some(k) => k,
            None => 2,
        },
        None => 2,
    }
}

/// The directory for scratch-space checks: the configured temporary
/// directory where it is set and not empty, else `/tmp`.
pub fn tmp_root(configured: Option<&str>) -> (dir: String)
    ensures
        dir@ == match configured {
            Some(v) => if v@.len() > 0 {
                v@
            } else {
                "/tmp"@
            },
            None => "/tmp"@,
        },
{
    match configured {
        Some(v) => if str_to_chars(v).len() > 0 {
            v.to_string()
        } else {
            "/tmp".to_string()
        },
        None => "/tmp".to_string(),
    }
}

/// The container the server runs in: the configured name, else
/// `whitt-llama-server`.
pub fn server_container_name(configured: Option<&str>) -> (name: String)
    ensures
        name@ == match configured {
            Some(v) => v@,
            None => "whitt-llama-server"@,
        },
{
    match configured {
        Some(v) => v.to_string(),
        None => "whitt-llama-server".to_string(),
    }
}

/// The stray-process count that the pipeline printed: its trimmed output
/// read as an `i32`, 0 when it does not read.
pub open spec fn printed_count(out: Seq<char>) -> i32 {
    match parse_i32_spec(trim(out)) {
        Some(k) => k,
        None => 0,
    }
}

/// The count of stray server processes from the pipeline's output.
pub fn zombie_count(stdout: &str) -> (n: i32)
    ensures
        n == printed_count(stdout@),
{
    let t = trim_chars(&str_to_chars(stdout));
    match parse_i32_chars(&t) {
        Some(k) => k,
        None => 0,
    }
}

/// The refusal when more stray server processes run than tolerated.
pub open spec fn too_many_processes(count: i32, threshold: i32) -> Seq<char> {
    "Found "@ + signed_decimal(count as int) + " llama-server processes (threshold "@
        + signed_decimal(threshold as int) + ")"@
}

/// The stray-process check passes when the count is at most the
/// threshold; otherwise it fails with `too_many_processes`.
pub fn zombie_verdict(count: i32, threshold: i32) -> (r: Result<(), String>)
    ensures
        r is Ok <==> count <= threshold,
        r matches Err(m) ==> m@ == too_many_processes(count, threshold),
{
    if count <= threshold {
        Ok(())
    } else {
        let mut out: Vec<char> = Vec::new();
        push_str(&mut out, "Found ");
        push_all(&mut out, &i32_to_chars(count));
        push_str(&mut out, " llama-server processes (threshold ");
        push_all(&mut out, &i32_to_chars(threshold));
        push_str(&mut out, ")");
        Err(chars_to_string(out.as_slice()))
    }
}

/// The refusal when the scratch directory has too little free space.
pub open spec fn insufficient_space(tmp: Seq<char>, available_bytes: u64, min_mb: u64) -> Seq<char> {
    "Insufficient "@ + tmp + " space: "@ + decimal(available_bytes as nat / 1048576) + " MB available, "@
        + decimal(min_mb as nat) + " MB required"@
}

/// The scratch-space check passes when at least `min_tmp_space_mb` MiB
/// are free in `tmp`; otherwise it fails with `insufficient_space`.
pub fn disk_space_verdict(tmp: &str, available_bytes: u64, min_tmp_space_mb: u64) -> (r: Result<(), String>)
    requires
        min_tmp_space_mb * 1048576 <= u64::MAX,
    ensures
        r is Ok <==> available_bytes >= min_tmp_space_mb * 1048576,
        r matches Err(m) ==> m@ == insufficient_space(tmp@, available_bytes, min_tmp_space_mb),
{
    let min_bytes = min_tmp_space_mb * 1024 * 1024;
    if available_bytes >= min_bytes {
        Ok(())
    } else {
        let mut out: Vec<char> = Vec::new();
        push_str(&mut out, "Insufficient ");
        push_str(&mut out, tmp);
        push_str(&mut out, " space: ");
        push_all(&mut out, &u64_to_chars(available_bytes / (1024 * 1024)));
        push_str(&mut out, " MB available, ");
        push_all(&mut out, &u64_to_chars(min_tmp_space_mb));
        push_str(&mut out, " MB required");
        Err(chars_to_string(out.as_slice()))
    }
}

/// A listed model is the target and is loaded.
pub open spec fn is_loaded_target(m: (String, String), target: Seq<char>) -> bool {
    m.0@ == target && m.1@ == "loaded"@
}

/// The target is among the loaded models that the server lists as
/// `(id, status)` pairs.
pub open spec fn target_loaded(models: Seq<(String, String)>, target: Seq<char>) -> bool {
    exists|i: int| 0 <= i < models.len() && #[trigger] is_loaded_target(models[i], target)
}

/// The loaded models other than the target, in listed order.
pub open spec fn loaded_others(models: Seq<(String, String)>, target: Seq<char>) -> Seq<Seq<char>>
    decreases models.len(),
{
    if models.len() == 0 {
        Seq::empty()
    } else {
        let m = models.last();
        let rest = loaded_others(models.drop_last(), target);
        if m.1@ == "loaded"@ && m.0@ != target {
            rest.push(m.0@)
        } else {
            rest
        }
    }
}

/// Before a serial model load: whether the target is already loaded, and
/// otherwise which models to unload first (every other loaded one, in
/// listed order; none when the target is already loaded).
pub fn serial_load_plan(models: &Vec<(String, String)>, target_model_id: &str) -> (r: (bool, Vec<String>))
    ensures
        r.0 == target_loaded(models@, target_model_id@),
        r.1@.map_values(|s: String| s@) == if r.0 {
            Seq::<Seq<char>>::empty()
        } else {
            loaded_others(models@, target_model_id@)
        },
{
    let mut i: usize = 0;
    while i < models.len()
        invariant
            i <= models@.len(),
            forall|k: int| 0 <= k < i ==> !is_loaded_target(#[trigger] models@[k], target_model_id@),
        decreases models.len() - i,
    {
        if str_equal(models[i].0.as_str(), target_model_id) && str_equal(models[i].1.as_str(), "loaded") {
            assert(is_loaded_target(models@[i as int], target_model_id@));
            let empty: Vec<String> = Vec::new();
            assert(empty@.map_values(|s: String| s@) =~= Seq::<Seq<char>>::empty());
            return (true, empty);
        }
        i += 1;
    }
    let mut out: Vec<String> = Vec::new();
    let mut j: usize = 0;
    assert(models@.subrange(0, 0) =~= Seq::<(String, String)>::empty());
    while j < models.len()
        invariant
            j <= models@.len(),
            out@.map_values(|s: String| s@) == loaded_others(models@.subrange(0, j as int), target_model_id@),
        decreases models.len() - j,
    {
        let ghost before = out@.map_values(|s: String| s@);
        assert(models@.subrange(0, j + 1).drop_last() =~= models@.subrange(0, j as int));
        if str_equal(models[j].1.as_str(), "loaded") && !str_equal(models[j].0.as_str(), target_model_id) {
            out.push(models[j].0.clone());
            assert(out@.map_values(|s: String| s@) =~= before.push(models@[j as int].0@));
        }
        j += 1;
    }
    assert(models@.subrange(0, models@.len() as int) =~= models@);
    (false, out)
}

} // verus!
