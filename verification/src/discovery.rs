//! Which model files a benchmark run covers: the files a workflow names
//! with their source paths, or the `.gguf` files found under a models
//! directory together with those of a model list, kept when they pass the
//! size and name filters.

use vstd::prelude::*;
use crate::settings::strings_view;
use crate::text::{
    chars_to_string, has_suffix, non_empty, non_empty_pieces, pieces, push_str, split_pieces,
    str_equal, str_to_chars, trim, trim_chars,
};

verus! {

/// What compiling `pattern` as a regular expression and matching it
/// against `text` gives: `None` when the pattern does not compile, else
/// whether it matches somewhere in `text`.
pub uninterp spec fn regex_verdict(pattern: Seq<char>, text: Seq<char>) -> Option<bool>;

/// Compiles a name filter and tests a model id against it.
///
/// Trusted: calls `regex::Regex::new` on the pattern and, when that
/// succeeds, `Regex::is_match` on the text. The contract names the outcome
/// `regex_verdict(pattern, text)`, a function of the two strings alone: the
/// crate's default size limit is fixed, and its matching is
/// deterministic. What the regular-expression language accepts is not
/// restated.
#[verifier::external_body]
fn name_filter_verdict(pattern: &str, text: &str) -> (r: Option<bool>)
    ensures
        r == regex_verdict(pattern@, text@),
{
    regex::Regex::new(pattern).ok().map(|re| re.is_match(text))
}

/// A model file as the caller found it: its id (the file name), its path
/// as text, and its size in bytes where it could be read.
#[derive(Debug)]
pub struct FoundModel {
    pub model_id: String,
    pub path: String,
    pub size: Option<u64>,
}

/// Size limits and a name pattern for the models a run covers.
#[derive(Debug)]
pub struct DiscoveryFilter {
    pub size_max: Option<u64>,
    pub size_min: Option<u64>,
    pub name_pattern: Option<String>,
}

/// A model passes when its known size is within the limits and, where a
/// name pattern compiles, the pattern matches its id. An unknown size, or
/// a pattern that does not compile, filters nothing.
pub open spec fn passes(f: DiscoveryFilter, model_id: Seq<char>, size: Option<u64>) -> bool {
    &&& match (f.size_max, size) {
        (Some(mx), Some(s)) => s <= mx,
        _ => true,
    }
    &&& match (f.size_min, size) {
        (Some(mn), Some(s)) => s >= mn,
        _ => true,
    }
    &&& match f.name_pattern {
        Some(p) => regex_verdict(p@, model_id) != Some(false),
        None => true,
    }
}

/// A file name has the `.gguf` extension: it ends in `.gguf` and something
/// comes before the dot.
pub open spec fn has_gguf_extension(name: Seq<char>) -> bool {
    has_suffix(name, ".gguf"@) && name.len() > 5
}

/// `(id, path)` of the found models that pass, in order; with `gguf_only`
/// only those whose id has the `.gguf` extension.
pub open spec fn kept(found: Seq<FoundModel>, f: DiscoveryFilter, gguf_only: bool) -> Seq<(Seq<char>, Seq<char>)>
    decreases found.len(),
{
    if found.len() == 0 {
        Seq::empty()
    } else {
        let m = found.last();
        let rest = kept(found.drop_last(), f, gguf_only);
        if (!gguf_only || has_gguf_extension(m.model_id@)) && passes(f, m.model_id@, m.size) {
            rest.push((m.model_id@, m.path@))
        } else {
            rest
        }
    }
}

/// Views of `(id, path)` pairs.
pub open spec fn pair_views(v: Seq<(String, String)>) -> Seq<(Seq<char>, Seq<char>)> {
    v.map_values(|p: (String, String)| (p.0@, p.1@))
}

/// Whether a model passes the filter, as `passes` says.
pub fn passes_filter(f: &DiscoveryFilter, model_id: &str, size: Option<u64>) -> (b: bool)
    ensures
        b == passes(*f, model_id@, size),
{
    match (f.size_max, size) {
        (Some(mx), Some(s)) => if s > mx {
            return false;
        },
        _ => {},
    }
    match (f.size_min, size) {
        (Some(mn), Some(s)) => if s < mn {
            return false;
        },
        _ => {},
    }
    match &f.name_pattern {
        Some(p) => {
            let v = name_filter_verdict(p.as_str(), model_id);
            assert(v == regex_verdict(p@, model_id@));
            match v {
                Some(m) => m,
                None => true,
            }
        },
        None => true,
    }
}

fn gguf_extension(name: &str) -> (b: bool)
    ensures
        b == has_gguf_extension(name@),
{
    let v = str_to_chars(name);
    let ext = str_to_chars(".gguf");
    crate::text::ends_with_chars(&v, &ext) && v.len() > 5
}

fn keep_found(found: &Vec<FoundModel>, f: &DiscoveryFilter, gguf_only: bool) -> (r: Vec<(String, String)>)
    ensures
        pair_views(r@) == kept(found@, *f, gguf_only),
{
    let mut out: Vec<(String, String)> = Vec::new();
    let mut i: usize = 0;
    assert(found@.subrange(0, 0) =~= Seq::<FoundModel>::empty());
    while i < found.len()
        invariant
            i <= found@.len(),
            pair_views(out@) == kept(found@.subrange(0, i as int), *f, gguf_only),
        decreases found.len() - i,
    {
        let ghost before = pair_views(out@);
        assert(found@.subrange(0, i + 1).drop_last() =~= found@.subrange(0, i as int));
        assert(found@.subrange(0, i + 1).last() == found@[i as int]);
        let m = &found[i];
        let ext_ok = !gguf_only || gguf_extension(m.model_id.as_str());
        if ext_ok && passes_filter(f, m.model_id.as_str(), m.size) {
            out.push((m.model_id.clone(), m.path.clone()));
            assert(pair_views(out@) =~= before.push((m.model_id@, m.path@)));
        }
        i += 1;
    }
    assert(found@.subrange(0, found@.len() as int) =~= found@);
    out
}

/// The `.gguf` files found under a models directory that pass the filter,
/// as `(id, path)` in the order given.
pub fn discovered_in_directory(files: &Vec<FoundModel>, filter: &DiscoveryFilter) -> (r: Vec<(String, String)>)
    ensures
        pair_views(r@) == kept(files@, *filter, true),
{
    keep_found(files, filter, true)
}

/// The models of a model list (or of a workflow's model list) that pass
/// the filter, as `(id, path)` in the order given.
pub fn listed_models(entries: &Vec<FoundModel>, filter: &DiscoveryFilter) -> (r: Vec<(String, String)>)
    ensures
        pair_views(r@) == kept(entries@, *filter, false),
{
    keep_found(entries, filter, false)
}

/// The entries of a model list file: each line trimmed, without empty
/// lines and lines that start with `#`.
pub open spec fn list_entries(lines: Seq<Seq<char>>) -> Seq<Seq<char>>
    decreases lines.len(),
{
    if lines.len() == 0 {
        Seq::empty()
    } else {
        let t = trim(lines.last());
        let rest = list_entries(lines.drop_last());
        if t.len() == 0 || t[0] == '#' {
            rest
        } else {
            rest.push(t)
        }
    }
}

/// The entries of a model list file, as `list_entries` says of its lines
/// (a carriage return before a newline is trimmed with the line).
pub fn model_list_entries(content: &str) -> (r: Vec<String>)
    ensures
        strings_view(r@) == list_entries(pieces(content@, true)),
{
    let lines = split_pieces(&str_to_chars(content), true);
    let ghost all = lines@.map_values(|x: Vec<char>| x@);
    let mut out: Vec<String> = Vec::new();
    let mut i: usize = 0;
    assert(all.subrange(0, 0) =~= Seq::<Seq<char>>::empty());
    while i < lines.len()
        invariant
            i <= lines@.len(),
            all == lines@.map_values(|x: Vec<char>| x@),
            strings_view(out@) == list_entries(all.subrange(0, i as int)),
        decreases lines.len() - i,
    {
        let ghost before = strings_view(out@);
        assert(all.subrange(0, i + 1).drop_last() =~= all.subrange(0, i as int));
        assert(all.subrange(0, i + 1).last() == lines@[i as int]@);
        let t = trim_chars(&lines[i]);
        if t.len() > 0 && t[0] != '#' {
            let s = chars_to_string(t.as_slice());
            out.push(s);
            assert(strings_view(out@) =~= before.push(t@));
        }
        i += 1;
    }
    assert(all.subrange(0, lines@.len() as int) =~= all);
    out
}

/// The path components that name something: the pieces between `/`
/// without empty ones and `.`.
pub open spec fn named_components(ps: Seq<Seq<char>>) -> Seq<Seq<char>>
    decreases ps.len(),
{
    if ps.len() == 0 {
        Seq::empty()
    } else {
        let rest = named_components(ps.drop_last());
        if ps.last().len() == 0 || ps.last() == "."@ {
            rest
        } else {
            rest.push(ps.last())
        }
    }
}

/// The pieces of a path between `/`.
pub open spec fn slash_pieces(s: Seq<char>) -> Seq<Seq<char>>
    decreases s.len(),
{
    if s.len() == 0 {
        seq![Seq::<char>::empty()]
    } else {
        let p = slash_pieces(s.drop_last());
        if s.last() == '/' {
            p.push(Seq::<char>::empty())
        } else {
            p.update(p.len() - 1, p.last().push(s.last()))
        }
    }
}

/// The final component of a Unix path, as `Path::file_name` gives it:
/// none for an empty path, the root, `.` alone, or a path ending in `..`.
pub open spec fn file_name_of(path: Seq<char>) -> Option<Seq<char>> {
    let cs = named_components(slash_pieces(path));
    if cs.len() == 0 || cs.last() == ".."@ {
        None
    } else {
        Some(cs.last())
    }
}

/// A model's id from its path: the file name, else the whole text.
pub open spec fn model_id_for(path: Seq<char>) -> Seq<char> {
    match file_name_of(path) {
        Some(n) => n,
        None => path,
    }
}

fn slash_split(s: &Vec<char>) -> (out: Vec<Vec<char>>)
    ensures
        out@.map_values(|x: Vec<char>| x@) == slash_pieces(s@),
{
    let mut done: Vec<Vec<char>> = Vec::new();
    let mut cur: Vec<char> = Vec::new();
    let mut i: usize = 0;
    assert(s@.subrange(0, 0) =~= Seq::<char>::empty());
    assert(done@.map_values(|x: Vec<char>| x@).push(cur@) =~= slash_pieces(s@.subrange(0, 0)));
    while i < s.len()
        invariant
            i <= s@.len(),
            done@.map_values(|x: Vec<char>| x@).push(cur@) == slash_pieces(s@.subrange(0, i as int)),
        decreases s.len() - i,
    {
        let c = s[i];
        let ghost before = done@.map_values(|x: Vec<char>| x@);
        let ghost cur_before = cur@;
        assert(s@.subrange(0, i + 1).drop_last() =~= s@.subrange(0, i as int));
        assert(s@.subrange(0, i + 1).last() == c);
        if c == '/' {
            let finished = cur;
            done.push(finished);
            cur = Vec::new();
            assert(done@.map_values(|x: Vec<char>| x@) =~= before.push(cur_before));
            assert(done@.map_values(|x: Vec<char>| x@).push(cur@) =~= before.push(cur_before).push(
                Seq::<char>::empty(),
            ));
        } else {
            cur.push(c);
            assert(done@.map_values(|x: Vec<char>| x@).push(cur@) =~= before.push(cur_before).update(
                before.len() as int,
                cur_before.push(c),
            ));
        }
        i += 1;
    }
    assert(s@.subrange(0, s@.len() as int) =~= s@);
    let ghost before = done@.map_values(|x: Vec<char>| x@);
    done.push(cur);
    assert(done@.map_values(|x: Vec<char>| x@) =~= before.push(cur@));
    done
}

/// The final component of a Unix path, as `file_name_of` says.
pub fn file_name(path: &str) -> (r: Option<String>)
    ensures
        match r {
            Some(n) => file_name_of(path@) == Some(n@),
            None => file_name_of(path@) is None,
        },
{
    let ps = slash_split(&str_to_chars(path));
    let ghost all = ps@.map_values(|x: Vec<char>| x@);
    let mut last: Option<usize> = None;
    let mut i: usize = 0;
    assert(all.subrange(0, 0) =~= Seq::<Seq<char>>::empty());
    while i < ps.len()
        invariant
            i <= ps@.len(),
            all == ps@.map_values(|x: Vec<char>| x@),
            all == slash_pieces(path@),
            match last {
                Some(k) => k < i && named_components(all.subrange(0, i as int)).len() > 0
                    && named_components(all.subrange(0, i as int)).last() == all[k as int],
                None => named_components(all.subrange(0, i as int)).len() == 0,
            },
        decreases ps.len() - i,
    {
        assert(all.subrange(0, i + 1).drop_last() =~= all.subrange(0, i as int));
        assert(all.subrange(0, i + 1).last() == ps@[i as int]@);
        let named = ps[i].len() > 0 && !(ps[i].len() == 1 && ps[i][0] == '.');
        proof {
            if ps@[i as int]@ == "."@ {
                reveal_strlit(".");
                assert(ps@[i as int]@.len() == 1);
            }
            if ps@[i as int]@.len() == 1 && ps@[i as int]@[0] == '.' {
                reveal_strlit(".");
                assert(ps@[i as int]@ =~= "."@);
            }
        }
        if named {
            last = Some(i);
        }
        i += 1;
    }
    assert(all.subrange(0, ps@.len() as int) =~= all);
    match last {
        None => None,
        Some(k) => {
            let c = &ps[k];
            let dotdot = c.len() == 2 && c[0] == '.' && c[1] == '.';
            proof {
                reveal_strlit("..");
                if c@ == ".."@ {
                    assert(c@.len() == 2);
                }
                if dotdot {
                    assert(c@ =~= ".."@);
                }
            }
            if dotdot {
                None
            } else {
                Some(chars_to_string(c.as_slice()))
            }
        },
    }
}

/// A model's id from its path, as `model_id_for` says.
pub fn model_id_of(path: &str) -> (id: String)
    ensures
        id@ == model_id_for(path@),
{
    match file_name(path) {
        Some(n) => n,
        None => path.to_string(),
    }
}

/// Why a workflow's own model list cannot be used.
#[derive(Debug)]
pub enum DiscoveryError {
    /// The model has no `source_path`.
    NoSourcePath(String),
    /// The model's source path is not a regular file.
    NotRegularFile(String, String),
    /// The source path's file name is not the model's name.
    NameMismatch(String, String),
}

impl DiscoveryError {
    /// The error's text.
    pub fn message(&self) -> (m: String)
        ensures
            m@ == match *self {
                DiscoveryError::NoSourcePath(id) => "[benchmark] workflow model "@ + id@
                    + " has no source_path; resource admission requires a host-stattable model file"@,
                DiscoveryError::NotRegularFile(id, p) => "[benchmark] workflow model "@ + id@
                    + " source_path is not a regular file: "@ + p@,
                DiscoveryError::NameMismatch(id, p) => "[benchmark] workflow model "@ + id@
                    + " source_path filename does not match model name: "@ + p@,
            },
    {
        let mut out: Vec<char> = Vec::new();
        push_str(&mut out, "[benchmark] workflow model ");
        match self {
            DiscoveryError::NoSourcePath(id) => {
                push_str(&mut out, id.as_str());
                push_str(
                    &mut out,
                    " has no source_path; resource admission requires a host-stattable model file",
                );
            },
            DiscoveryError::NotRegularFile(id, p) => {
                push_str(&mut out, id.as_str());
                push_str(&mut out, " source_path is not a regular file: ");
                push_str(&mut out, p.as_str());
            },
            DiscoveryError::NameMismatch(id, p) => {
                push_str(&mut out, id.as_str());
                push_str(&mut out, " source_path filename does not match model name: ");
                push_str(&mut out, p.as_str());
            },
        }
        chars_to_string(out.as_slice())
    }
}

/// The source path recorded for a model (the first entry of that name).
pub open spec fn source_of(sources: Seq<(String, String)>, id: Seq<char>) -> Option<Seq<char>>
    decreases sources.len(),
{
    if sources.len() == 0 {
        None
    } else if sources[0].0@ == id {
        Some(sources[0].1@)
    } else {
        source_of(sources.drop_first(), id)
    }
}

/// `p` is one of the paths known to be regular files.
pub open spec fn is_regular(regular: Seq<String>, p: Seq<char>) -> bool {
    exists|k: int| 0 <= k < regular.len() && #[trigger] regular[k]@ == p
}

/// A listed model is usable: it has a source path, that path is a regular
/// file, and its file name is the model's name.
pub open spec fn usable(sources: Seq<(String, String)>, regular: Seq<String>, id: Seq<char>) -> bool {
    source_of(sources, id) matches Some(p) && is_regular(regular, p) && file_name_of(p) == Some(id)
}

/// The error for the first unusable model: no source path, then not a
/// regular file, then a file name that differs.
pub open spec fn unusable_error(sources: Seq<(String, String)>, regular: Seq<String>, id: Seq<char>, e: DiscoveryError) -> bool {
    match source_of(sources, id) {
        None => e matches DiscoveryError::NoSourcePath(m) && m@ == id,
        Some(p) => if !is_regular(regular, p) {
            e matches DiscoveryError::NotRegularFile(m, q) && m@ == id && q@ == p
        } else {
            e matches DiscoveryError::NameMismatch(m, q) && m@ == id && q@ == p
        },
    }
}

fn find_source(sources: &Vec<(String, String)>, id: &str) -> (r: Option<String>)
    ensures
        match r {
            Some(p) => source_of(sources@, id@) == Some(p@),
            None => source_of(sources@, id@) is None,
        },
{
    let mut i: usize = 0;
    assert(sources@.skip(0) =~= sources@);
    while i < sources.len()
        invariant
            i <= sources@.len(),
            source_of(sources@, id@) == source_of(sources@.skip(i as int), id@),
        decreases sources.len() - i,
    {
        assert(sources@.skip(i as int).drop_first() =~= sources@.skip(i + 1));
        assert(sources@.skip(i as int)[0] == sources@[i as int]);
        if str_equal(sources[i].0.as_str(), id) {
            return Some(sources[i].1.clone());
        }
        i += 1;
    }
    None
}

fn regular_file(regular: &Vec<String>, p: &str) -> (b: bool)
    ensures
        b == is_regular(regular@, p@),
{
    let mut i: usize = 0;
    while i < regular.len()
        invariant
            i <= regular@.len(),
            forall|k: int| 0 <= k < i ==> #[trigger] regular@[k]@ != p@,
        decreases regular.len() - i,
    {
        if str_equal(regular[i].as_str(), p) {
            return true;
        }
        i += 1;
    }
    false
}

/// The models a workflow names with their source paths, as `(id, path)`
/// in list order: each must have a source path that is one of the
/// `regular` files and whose file name is the model's id; the first model
/// that fails gives the error.
pub fn workflow_source_models(
    model_list: &Vec<String>,
    sources: &Vec<(String, String)>,
    regular: &Vec<String>,
) -> (r: Result<Vec<(String, String)>, DiscoveryError>)
    ensures
        match r {
            Ok(out) => (forall|i: int| 0 <= i < model_list@.len() ==> usable(sources@, regular@, #[trigger] model_list@[i]@))
                && out@.len() == model_list@.len()
                && forall|i: int| 0 <= i < out@.len() ==> (#[trigger] out@[i]).0@ == model_list@[i]@
                    && source_of(sources@, model_list@[i]@) == Some(out@[i].1@),
            Err(e) => exists|j: int| 0 <= j < model_list@.len() && (forall|i: int| 0 <= i < j ==> usable(sources@, regular@, #[trigger] model_list@[i]@))
                && !usable(sources@, regular@, #[trigger] model_list@[j]@)
                && unusable_error(sources@, regular@, model_list@[j]@, e),
        },
{
    let mut out: Vec<(String, String)> = Vec::new();
    let mut i: usize = 0;
    while i < model_list.len()
        invariant
            i <= model_list@.len(),
            out@.len() == i,
            forall|k: int| 0 <= k < i ==> usable(sources@, regular@, #[trigger] model_list@[k]@),
            forall|k: int| 0 <= k < i ==> (#[trigger] out@[k]).0@ == model_list@[k]@
                && source_of(sources@, model_list@[k]@) == Some(out@[k].1@),
        decreases model_list.len() - i,
    {
        let id = model_list[i].as_str();
        let p = match find_source(sources, id) {
            Some(p) => p,
            None => {
                let e = DiscoveryError::NoSourcePath(id.to_string());
                assert(!usable(sources@, regular@, model_list@[i as int]@));
                return Err(e);
            },
        };
        if !regular_file(regular, p.as_str()) {
            let e = DiscoveryError::NotRegularFile(id.to_string(), p);
            assert(!usable(sources@, regular@, model_list@[i as int]@));
            return Err(e);
        }
        let matches_name = match file_name(p.as_str()) {
            Some(n) => str_equal(n.as_str(), id),
            None => false,
        };
        if !matches_name {
            let e = DiscoveryError::NameMismatch(id.to_string(), p);
            assert(!usable(sources@, regular@, model_list@[i as int]@));
            return Err(e);
        }
        assert(usable(sources@, regular@, model_list@[i as int]@));
        out.push((model_list[i].clone(), p));
        i += 1;
    }
    Ok(out)
}

/// Where the model list of a directory scan comes from.
#[derive(Debug, Clone, Copy, PartialEq, Eq, Structural)]
pub enum ListSource {
    /// The model list file.
    File,
    /// The workflow's model list.
    Workflow,
    /// No list.
    Nothing,
}

/// Where a run's models come from.
#[derive(Debug, Clone, Copy, PartialEq, Eq, Structural)]
pub enum DiscoveryPlan {
    /// The workflow's own models, by their source paths.
    WorkflowSources,
    /// The `.gguf` files under the models directory (when there is one),
    /// followed by the entries of a list.
    Scan { directory: bool, list: ListSource },
}

/// A workflow that lists its models and gives source paths supplies the
/// models itself; otherwise the models directory is scanned and a list
/// added: the model list file when there is one, else the workflow's list.
pub open spec fn discovery_plan_spec(
    has_workflow_list: bool,
    workflow_sources: nat,
    has_models_dir: bool,
    has_list_file: bool,
) -> DiscoveryPlan {
    if has_workflow_list && workflow_sources > 0 {
        DiscoveryPlan::WorkflowSources
    } else {
        DiscoveryPlan::Scan {
            directory: has_models_dir,
            list: if has_list_file {
                ListSource::File
            } else if has_workflow_list {
                ListSource::Workflow
            } else {
                ListSource::Nothing
            },
        }
    }
}

/// Where a run's models come from, as `discovery_plan_spec` says.
pub fn discovery_plan(
    has_workflow_list: bool,
    workflow_sources: usize,
    has_models_dir: bool,
    has_list_file: bool,
) -> (p: DiscoveryPlan)
    ensures
        p == discovery_plan_spec(has_workflow_list, workflow_sources as nat, has_models_dir, has_list_file),
{
    if has_workflow_list && workflow_sources > 0 {
        DiscoveryPlan::WorkflowSources
    } else {
        let list = if has_list_file {
            ListSource::File
        } else if has_workflow_list {
            ListSource::Workflow
        } else {
            ListSource::Nothing
        };
        DiscoveryPlan::Scan { directory: has_models_dir, list }
    }
}

} // verus!
