//! What a detail page says of the latency figures: each percentile
//! placeholder is filled with its own figure.

use vstd::prelude::*;
use crate::detail::{each_close, each_open, rendered, DetailFigures};
use crate::text::{find_from, lemma_replace_without_marker, occurs_at, replace_all, seq_contains};

verus! {

proof fn lemma_replace_absent(s: Seq<char>, p: Seq<char>, r: Seq<char>)
    requires
        p.len() > 0,
        forall|i: int| !occurs_at(s, p, i),
    ensures
        replace_all(s, p, r) == s,
    decreases s.len(),
{
    if s.len() >= p.len() {
        assert(!occurs_at(s, p, 0));
        assert forall|i: int| !occurs_at(s.skip(1), p, i) by {
            if occurs_at(s.skip(1), p, i) {
                assert(s.subrange(i + 1, i + 1 + p.len()) =~= s.skip(1).subrange(i, i + p.len()));
                assert(occurs_at(s, p, i + 1));
            }
        }
        lemma_replace_absent(s.skip(1), p, r);
        assert(seq![s[0]] + s.skip(1) =~= s);
    }
}

proof fn lemma_replace_whole(p: Seq<char>, r: Seq<char>)
    requires
        p.len() > 0,
    ensures
        replace_all(p, p, r) == r,
{
    assert(p.subrange(0, p.len() as int) =~= p);
    assert(p.skip(p.len() as int) =~= Seq::<char>::empty());
    assert(replace_all(Seq::<char>::empty(), p, r) == Seq::<char>::empty());
    assert(r + Seq::<char>::empty() =~= r);
}

/// A figure free of `{{` is left alone by the replacement of a placeholder.
proof fn lemma_figure_untouched(v: Seq<char>, p: Seq<char>, r: Seq<char>)
    requires
        !seq_contains(v, "{{"@),
        p.len() >= 2,
        p[0] == '{' && p[1] == '{',
    ensures
        replace_all(v, p, r) == v,
{
    reveal_strlit("{{");
    assert(p.subrange(0, 2) =~= "{{"@);
    lemma_replace_without_marker(v, "{{"@, p, r);
}

/// A placeholder: `{{`, a name free of braces, `}}`.
pub open spec fn placeholder_shape(s: Seq<char>) -> bool {
    &&& s.len() >= 4
    &&& s[0] == '{' && s[1] == '{' && s[s.len() - 2] == '}' && s[s.len() - 1] == '}'
    &&& forall|k: int| 2 <= k < s.len() - 2 ==> #[trigger] s[k] != '{' && s[k] != '}'
}

/// One placeholder never occurs inside another.
proof fn lemma_distinct_placeholders_untouched(t: Seq<char>, p: Seq<char>, r: Seq<char>)
    requires
        placeholder_shape(t),
        placeholder_shape(p),
        t != p,
    ensures
        replace_all(t, p, r) == t,
{
    assert forall|i: int| !occurs_at(t, p, i) by {
        if occurs_at(t, p, i) {
            let w = t.subrange(i, i + p.len());
            assert(w[1] == p[1] && w[1] == t[i + 1]);
            assert(i == 0);
            assert(w[p.len() - 1] == p[p.len() - 1] && w[p.len() - 1] == t[p.len() - 1]);
            assert(w[p.len() - 2] == p[p.len() - 2] && w[p.len() - 2] == t[p.len() - 2]);
            assert(p.len() == t.len());
            assert(w =~= t);
        }
    }
    lemma_replace_absent(t, p, r);
}

proof fn lemma_find_absent(s: Seq<char>, p: Seq<char>, from: int)
    requires
        forall|i: int| !occurs_at(s, p, i),
    ensures
        find_from(s, p, from) == -1,
    decreases s.len() + 1 - from,
{
    if !(from < 0 || from + p.len() > s.len()) {
        lemma_find_absent(s, p, from + 1);
    }
}

/// A placeholder holds no loop marker.
proof fn lemma_no_loop_markers(t: Seq<char>)
    requires
        placeholder_shape(t),
        t[2] != '#' && t[2] != '/',
    ensures
        each_open(t) == -1,
        each_close(t) == -1,
{
    reveal_strlit("{{#each inference}}");
    reveal_strlit("{{/each}}");
    let m1 = "{{#each inference}}"@;
    let m2 = "{{/each}}"@;
    assert forall|i: int| !occurs_at(t, m1, i) && !occurs_at(t, m2, i) by {
        if occurs_at(t, m1, i) {
            let w = t.subrange(i, i + m1.len());
            assert(w[1] == m1[1] && w[1] == t[i + 1]);
            assert(i == 0);
            assert(w[2] == m1[2] && w[2] == t[2]);
        }
        if occurs_at(t, m2, i) {
            let w = t.subrange(i, i + m2.len());
            assert(w[1] == m2[1] && w[1] == t[i + 1]);
            assert(i == 0);
            assert(w[2] == m2[2] && w[2] == t[2]);
        }
    }
    lemma_find_absent(t, m1, 0);
    lemma_find_absent(t, m2, 0);
}

proof fn lemma_placeholder_shapes()
    ensures
        placeholder_shape("{{model_id}}"@),
        placeholder_shape("{{model_path}}"@),
        placeholder_shape("{{file_size_bytes}}"@),
        placeholder_shape("{{file_size_mb}}"@),
        placeholder_shape("{{load_duration_secs}}"@),
        placeholder_shape("{{unload_duration_secs}}"@),
        placeholder_shape("{{total_duration_secs}}"@),
        placeholder_shape("{{tokens_per_second}}"@),
        placeholder_shape("{{avg_latency_ms}}"@),
        placeholder_shape("{{p50_latency_ms}}"@),
        placeholder_shape("{{p95_latency_ms}}"@),
        placeholder_shape("{{p99_latency_ms}}"@),
        placeholder_shape("{{gpu_mode}}"@),
        placeholder_shape("{{inference_count}}"@),
        placeholder_shape("{{speedup_factor}}"@),
        placeholder_shape("{{error}}"@),
        placeholder_shape("{{speedup_row}}"@),
        placeholder_shape("{{error_row}}"@),
{
    assert(placeholder_shape("{{model_id}}"@)) by {
        reveal_strlit("{{model_id}}");
        assert forall|k: int| 2 <= k < 10 implies #[trigger] "{{model_id}}"@[k] != '{' && "{{model_id}}"@[k] != '}' by {
            assert(k == 2 || k == 3 || k == 4 || k == 5 || k == 6 || k == 7 || k == 8 || k == 9);
        }
    }
    assert(placeholder_shape("{{model_path}}"@)) by {
        reveal_strlit("{{model_path}}");
        assert forall|k: int| 2 <= k < 12 implies #[trigger] "{{model_path}}"@[k] != '{' && "{{model_path}}"@[k] != '}' by {
            assert(k == 2 || k == 3 || k == 4 || k == 5 || k == 6 || k == 7 || k == 8 || k == 9 || k == 10 || k == 11);
        }
    }
    assert(placeholder_shape("{{file_size_bytes}}"@)) by {
        reveal_strlit("{{file_size_bytes}}");
        assert forall|k: int| 2 <= k < 17 implies #[trigger] "{{file_size_bytes}}"@[k] != '{' && "{{file_size_bytes}}"@[k] != '}' by {
            assert(k == 2 || k == 3 || k == 4 || k == 5 || k == 6 || k == 7 || k == 8 || k == 9 || k == 10 || k == 11 || k == 12 || k == 13 || k == 14 || k == 15 || k == 16);
        }
    }
    assert(placeholder_shape("{{file_size_mb}}"@)) by {
        reveal_strlit("{{file_size_mb}}");
        assert forall|k: int| 2 <= k < 14 implies #[trigger] "{{file_size_mb}}"@[k] != '{' && "{{file_size_mb}}"@[k] != '}' by {
            assert(k == 2 || k == 3 || k == 4 || k == 5 || k == 6 || k == 7 || k == 8 || k == 9 || k == 10 || k == 11 || k == 12 || k == 13);
        }
    }
    assert(placeholder_shape("{{load_duration_secs}}"@)) by {
        reveal_strlit("{{load_duration_secs}}");
        assert forall|k: int| 2 <= k < 20 implies #[trigger] "{{load_duration_secs}}"@[k] != '{' && "{{load_duration_secs}}"@[k] != '}' by {
            assert(k == 2 || k == 3 || k == 4 || k == 5 || k == 6 || k == 7 || k == 8 || k == 9 || k == 10 || k == 11 || k == 12 || k == 13 || k == 14 || k == 15 || k == 16 || k == 17 || k == 18 || k == 19);
        }
    }
    assert(placeholder_shape("{{unload_duration_secs}}"@)) by {
        reveal_strlit("{{unload_duration_secs}}");
        assert forall|k: int| 2 <= k < 22 implies #[trigger] "{{unload_duration_secs}}"@[k] != '{' && "{{unload_duration_secs}}"@[k] != '}' by {
            assert(k == 2 || k == 3 || k == 4 || k == 5 || k == 6 || k == 7 || k == 8 || k == 9 || k == 10 || k == 11 || k == 12 || k == 13 || k == 14 || k == 15 || k == 16 || k == 17 || k == 18 || k == 19 || k == 20 || k == 21);
        }
    }
    assert(placeholder_shape("{{total_duration_secs}}"@)) by {
        reveal_strlit("{{total_duration_secs}}");
        assert forall|k: int| 2 <= k < 21 implies #[trigger] "{{total_duration_secs}}"@[k] != '{' && "{{total_duration_secs}}"@[k] != '}' by {
            assert(k == 2 || k == 3 || k == 4 || k == 5 || k == 6 || k == 7 || k == 8 || k == 9 || k == 10 || k == 11 || k == 12 || k == 13 || k == 14 || k == 15 || k == 16 || k == 17 || k == 18 || k == 19 || k == 20);
        }
    }
    assert(placeholder_shape("{{tokens_per_second}}"@)) by {
        reveal_strlit("{{tokens_per_second}}");
        assert forall|k: int| 2 <= k < 19 implies #[trigger] "{{tokens_per_second}}"@[k] != '{' && "{{tokens_per_second}}"@[k] != '}' by {
            assert(k == 2 || k == 3 || k == 4 || k == 5 || k == 6 || k == 7 || k == 8 || k == 9 || k == 10 || k == 11 || k == 12 || k == 13 || k == 14 || k == 15 || k == 16 || k == 17 || k == 18);
        }
    }
    assert(placeholder_shape("{{avg_latency_ms}}"@)) by {
        reveal_strlit("{{avg_latency_ms}}");
        assert forall|k: int| 2 <= k < 16 implies #[trigger] "{{avg_latency_ms}}"@[k] != '{' && "{{avg_latency_ms}}"@[k] != '}' by {
            assert(k == 2 || k == 3 || k == 4 || k == 5 || k == 6 || k == 7 || k == 8 || k == 9 || k == 10 || k == 11 || k == 12 || k == 13 || k == 14 || k == 15);
        }
    }
    assert(placeholder_shape("{{p50_latency_ms}}"@)) by {
        reveal_strlit("{{p50_latency_ms}}");
        assert forall|k: int| 2 <= k < 16 implies #[trigger] "{{p50_latency_ms}}"@[k] != '{' && "{{p50_latency_ms}}"@[k] != '}' by {
            assert(k == 2 || k == 3 || k == 4 || k == 5 || k == 6 || k == 7 || k == 8 || k == 9 || k == 10 || k == 11 || k == 12 || k == 13 || k == 14 || k == 15);
        }
    }
    assert(placeholder_shape("{{p95_latency_ms}}"@)) by {
        reveal_strlit("{{p95_latency_ms}}");
        assert forall|k: int| 2 <= k < 16 implies #[trigger] "{{p95_latency_ms}}"@[k] != '{' && "{{p95_latency_ms}}"@[k] != '}' by {
            assert(k == 2 || k == 3 || k == 4 || k == 5 || k == 6 || k == 7 || k == 8 || k == 9 || k == 10 || k == 11 || k == 12 || k == 13 || k == 14 || k == 15);
        }
    }
    assert(placeholder_shape("{{p99_latency_ms}}"@)) by {
        reveal_strlit("{{p99_latency_ms}}");
        assert forall|k: int| 2 <= k < 16 implies #[trigger] "{{p99_latency_ms}}"@[k] != '{' && "{{p99_latency_ms}}"@[k] != '}' by {
            assert(k == 2 || k == 3 || k == 4 || k == 5 || k == 6 || k == 7 || k == 8 || k == 9 || k == 10 || k == 11 || k == 12 || k == 13 || k == 14 || k == 15);
        }
    }
    assert(placeholder_shape("{{gpu_mode}}"@)) by {
        reveal_strlit("{{gpu_mode}}");
        assert forall|k: int| 2 <= k < 10 implies #[trigger] "{{gpu_mode}}"@[k] != '{' && "{{gpu_mode}}"@[k] != '}' by {
            assert(k == 2 || k == 3 || k == 4 || k == 5 || k == 6 || k == 7 || k == 8 || k == 9);
        }
    }
    assert(placeholder_shape("{{inference_count}}"@)) by {
        reveal_strlit("{{inference_count}}");
        assert forall|k: int| 2 <= k < 17 implies #[trigger] "{{inference_count}}"@[k] != '{' && "{{inference_count}}"@[k] != '}' by {
            assert(k == 2 || k == 3 || k == 4 || k == 5 || k == 6 || k == 7 || k == 8 || k == 9 || k == 10 || k == 11 || k == 12 || k == 13 || k == 14 || k == 15 || k == 16);
        }
    }
    assert(placeholder_shape("{{speedup_factor}}"@)) by {
        reveal_strlit("{{speedup_factor}}");
        assert forall|k: int| 2 <= k < 16 implies #[trigger] "{{speedup_factor}}"@[k] != '{' && "{{speedup_factor}}"@[k] != '}' by {
            assert(k == 2 || k == 3 || k == 4 || k == 5 || k == 6 || k == 7 || k == 8 || k == 9 || k == 10 || k == 11 || k == 12 || k == 13 || k == 14 || k == 15);
        }
    }
    assert(placeholder_shape("{{error}}"@)) by {
        reveal_strlit("{{error}}");
        assert forall|k: int| 2 <= k < 7 implies #[trigger] "{{error}}"@[k] != '{' && "{{error}}"@[k] != '}' by {
            assert(k == 2 || k == 3 || k == 4 || k == 5 || k == 6);
        }
    }
    assert(placeholder_shape("{{speedup_row}}"@)) by {
        reveal_strlit("{{speedup_row}}");
        assert forall|k: int| 2 <= k < 13 implies #[trigger] "{{speedup_row}}"@[k] != '{' && "{{speedup_row}}"@[k] != '}' by {
            assert(k == 2 || k == 3 || k == 4 || k == 5 || k == 6 || k == 7 || k == 8 || k == 9 || k == 10 || k == 11 || k == 12);
        }
    }
    assert(placeholder_shape("{{error_row}}"@)) by {
        reveal_strlit("{{error_row}}");
        assert forall|k: int| 2 <= k < 11 implies #[trigger] "{{error_row}}"@[k] != '{' && "{{error_row}}"@[k] != '}' by {
            assert(k == 2 || k == 3 || k == 4 || k == 5 || k == 6 || k == 7 || k == 8 || k == 9 || k == 10);
        }
    }
}

proof fn lemma_replacement_facts()
    ensures
        forall|t: Seq<char>, p: Seq<char>, r: Seq<char>|
            placeholder_shape(t) && placeholder_shape(p) && t != p ==> #[trigger] replace_all(t, p, r) == t,
        forall|p: Seq<char>, r: Seq<char>| placeholder_shape(p) ==> #[trigger] replace_all(p, p, r) == r,
        forall|v: Seq<char>, p: Seq<char>, r: Seq<char>|
            !seq_contains(v, "{{"@) && placeholder_shape(p) ==> #[trigger] replace_all(v, p, r) == v,
{
    assert forall|t: Seq<char>, p: Seq<char>, r: Seq<char>|
        placeholder_shape(t) && placeholder_shape(p) && t != p implies #[trigger] replace_all(t, p, r) == t by {
        lemma_distinct_placeholders_untouched(t, p, r);
    }
    assert forall|p: Seq<char>, r: Seq<char>| placeholder_shape(p) implies #[trigger] replace_all(p, p, r) == r by {
        lemma_replace_whole(p, r);
    }
    assert forall|v: Seq<char>, p: Seq<char>, r: Seq<char>|
        !seq_contains(v, "{{"@) && placeholder_shape(p) implies #[trigger] replace_all(v, p, r) == v by {
        lemma_figure_untouched(v, p, r);
    }
}

proof fn lemma_fills_model_id(f: DetailFigures)
    requires
        !seq_contains(f.model_id@, "{{"@),
    ensures
        rendered("{{model_id}}"@, f) == f.model_id@,
{
    lemma_placeholder_shapes();
    reveal_strlit("{{model_id}}");
    lemma_no_loop_markers("{{model_id}}"@);
    reveal_strlit("{{model_id}}");
    reveal_strlit("{{model_path}}");
    reveal_strlit("{{file_size_bytes}}");
    reveal_strlit("{{file_size_mb}}");
    reveal_strlit("{{load_duration_secs}}");
    reveal_strlit("{{unload_duration_secs}}");
    reveal_strlit("{{total_duration_secs}}");
    reveal_strlit("{{tokens_per_second}}");
    reveal_strlit("{{avg_latency_ms}}");
    reveal_strlit("{{p50_latency_ms}}");
    reveal_strlit("{{p95_latency_ms}}");
    reveal_strlit("{{p99_latency_ms}}");
    reveal_strlit("{{gpu_mode}}");
    reveal_strlit("{{inference_count}}");
    reveal_strlit("{{speedup_factor}}");
    reveal_strlit("{{error}}");
    reveal_strlit("{{speedup_row}}");
    reveal_strlit("{{error_row}}");
    reveal_strlit("{{#each inference}}");
    reveal_strlit("{{/each}}");
    lemma_placeholder_shapes();
    lemma_replacement_facts();
    assert("{{model_id}}"@[2] != "{{gpu_mode}}"@[2]);
}

proof fn lemma_fills_model_path(f: DetailFigures)
    requires
        !seq_contains(f.model_path@, "{{"@),
    ensures
        rendered("{{model_path}}"@, f) == f.model_path@,
{
    lemma_placeholder_shapes();
    reveal_strlit("{{model_path}}");
    lemma_no_loop_markers("{{model_path}}"@);
    reveal_strlit("{{model_id}}");
    reveal_strlit("{{model_path}}");
    reveal_strlit("{{file_size_bytes}}");
    reveal_strlit("{{file_size_mb}}");
    reveal_strlit("{{load_duration_secs}}");
    reveal_strlit("{{unload_duration_secs}}");
    reveal_strlit("{{total_duration_secs}}");
    reveal_strlit("{{tokens_per_second}}");
    reveal_strlit("{{avg_latency_ms}}");
    reveal_strlit("{{p50_latency_ms}}");
    reveal_strlit("{{p95_latency_ms}}");
    reveal_strlit("{{p99_latency_ms}}");
    reveal_strlit("{{gpu_mode}}");
    reveal_strlit("{{inference_count}}");
    reveal_strlit("{{speedup_factor}}");
    reveal_strlit("{{error}}");
    reveal_strlit("{{speedup_row}}");
    reveal_strlit("{{error_row}}");
    reveal_strlit("{{#each inference}}");
    reveal_strlit("{{/each}}");
    lemma_placeholder_shapes();
    lemma_replacement_facts();
}

proof fn lemma_fills_file_size_mb(f: DetailFigures)
    requires
        !seq_contains(f.file_size_mb@, "{{"@),
    ensures
        rendered("{{file_size_mb}}"@, f) == f.file_size_mb@,
{
    lemma_placeholder_shapes();
    reveal_strlit("{{file_size_mb}}");
    lemma_no_loop_markers("{{file_size_mb}}"@);
    reveal_strlit("{{model_id}}");
    reveal_strlit("{{model_path}}");
    reveal_strlit("{{file_size_bytes}}");
    reveal_strlit("{{file_size_mb}}");
    reveal_strlit("{{load_duration_secs}}");
    reveal_strlit("{{unload_duration_secs}}");
    reveal_strlit("{{total_duration_secs}}");
    reveal_strlit("{{tokens_per_second}}");
    reveal_strlit("{{avg_latency_ms}}");
    reveal_strlit("{{p50_latency_ms}}");
    reveal_strlit("{{p95_latency_ms}}");
    reveal_strlit("{{p99_latency_ms}}");
    reveal_strlit("{{gpu_mode}}");
    reveal_strlit("{{inference_count}}");
    reveal_strlit("{{speedup_factor}}");
    reveal_strlit("{{error}}");
    reveal_strlit("{{speedup_row}}");
    reveal_strlit("{{error_row}}");
    reveal_strlit("{{#each inference}}");
    reveal_strlit("{{/each}}");
    lemma_placeholder_shapes();
    lemma_replacement_facts();
}

proof fn lemma_fills_load_duration_secs(f: DetailFigures)
    requires
        !seq_contains(f.load_duration_secs@, "{{"@),
    ensures
        rendered("{{load_duration_secs}}"@, f) == f.load_duration_secs@,
{
    lemma_placeholder_shapes();
    reveal_strlit("{{load_duration_secs}}");
    lemma_no_loop_markers("{{load_duration_secs}}"@);
    reveal_strlit("{{model_id}}");
    reveal_strlit("{{model_path}}");
    reveal_strlit("{{file_size_bytes}}");
    reveal_strlit("{{file_size_mb}}");
    reveal_strlit("{{load_duration_secs}}");
    reveal_strlit("{{unload_duration_secs}}");
    reveal_strlit("{{total_duration_secs}}");
    reveal_strlit("{{tokens_per_second}}");
    reveal_strlit("{{avg_latency_ms}}");
    reveal_strlit("{{p50_latency_ms}}");
    reveal_strlit("{{p95_latency_ms}}");
    reveal_strlit("{{p99_latency_ms}}");
    reveal_strlit("{{gpu_mode}}");
    reveal_strlit("{{inference_count}}");
    reveal_strlit("{{speedup_factor}}");
    reveal_strlit("{{error}}");
    reveal_strlit("{{speedup_row}}");
    reveal_strlit("{{error_row}}");
    reveal_strlit("{{#each inference}}");
    reveal_strlit("{{/each}}");
    lemma_placeholder_shapes();
    lemma_replacement_facts();
}

proof fn lemma_fills_unload_duration_secs(f: DetailFigures)
    requires
        !seq_contains(f.unload_duration_secs@, "{{"@),
    ensures
        rendered("{{unload_duration_secs}}"@, f) == f.unload_duration_secs@,
{
    lemma_placeholder_shapes();
    reveal_strlit("{{unload_duration_secs}}");
    lemma_no_loop_markers("{{unload_duration_secs}}"@);
    reveal_strlit("{{model_id}}");
    reveal_strlit("{{model_path}}");
    reveal_strlit("{{file_size_bytes}}");
    reveal_strlit("{{file_size_mb}}");
    reveal_strlit("{{load_duration_secs}}");
    reveal_strlit("{{unload_duration_secs}}");
    reveal_strlit("{{total_duration_secs}}");
    reveal_strlit("{{tokens_per_second}}");
    reveal_strlit("{{avg_latency_ms}}");
    reveal_strlit("{{p50_latency_ms}}");
    reveal_strlit("{{p95_latency_ms}}");
    reveal_strlit("{{p99_latency_ms}}");
    reveal_strlit("{{gpu_mode}}");
    reveal_strlit("{{inference_count}}");
    reveal_strlit("{{speedup_factor}}");
    reveal_strlit("{{error}}");
    reveal_strlit("{{speedup_row}}");
    reveal_strlit("{{error_row}}");
    reveal_strlit("{{#each inference}}");
    reveal_strlit("{{/each}}");
    lemma_placeholder_shapes();
    lemma_replacement_facts();
}

proof fn lemma_fills_total_duration_secs(f: DetailFigures)
    requires
        !seq_contains(f.total_duration_secs@, "{{"@),
    ensures
        rendered("{{total_duration_secs}}"@, f) == f.total_duration_secs@,
{
    lemma_placeholder_shapes();
    reveal_strlit("{{total_duration_secs}}");
    lemma_no_loop_markers("{{total_duration_secs}}"@);
    reveal_strlit("{{model_id}}");
    reveal_strlit("{{model_path}}");
    reveal_strlit("{{file_size_bytes}}");
    reveal_strlit("{{file_size_mb}}");
    reveal_strlit("{{load_duration_secs}}");
    reveal_strlit("{{unload_duration_secs}}");
    reveal_strlit("{{total_duration_secs}}");
    reveal_strlit("{{tokens_per_second}}");
    reveal_strlit("{{avg_latency_ms}}");
    reveal_strlit("{{p50_latency_ms}}");
    reveal_strlit("{{p95_latency_ms}}");
    reveal_strlit("{{p99_latency_ms}}");
    reveal_strlit("{{gpu_mode}}");
    reveal_strlit("{{inference_count}}");
    reveal_strlit("{{speedup_factor}}");
    reveal_strlit("{{error}}");
    reveal_strlit("{{speedup_row}}");
    reveal_strlit("{{error_row}}");
    reveal_strlit("{{#each inference}}");
    reveal_strlit("{{/each}}");
    lemma_placeholder_shapes();
    lemma_replacement_facts();
}

proof fn lemma_fills_tokens_per_second(f: DetailFigures)
    requires
        !seq_contains(f.tokens_per_second@, "{{"@),
    ensures
        rendered("{{tokens_per_second}}"@, f) == f.tokens_per_second@,
{
    lemma_placeholder_shapes();
    reveal_strlit("{{tokens_per_second}}");
    lemma_no_loop_markers("{{tokens_per_second}}"@);
    reveal_strlit("{{model_id}}");
    reveal_strlit("{{model_path}}");
    reveal_strlit("{{file_size_bytes}}");
    reveal_strlit("{{file_size_mb}}");
    reveal_strlit("{{load_duration_secs}}");
    reveal_strlit("{{unload_duration_secs}}");
    reveal_strlit("{{total_duration_secs}}");
    reveal_strlit("{{tokens_per_second}}");
    reveal_strlit("{{avg_latency_ms}}");
    reveal_strlit("{{p50_latency_ms}}");
    reveal_strlit("{{p95_latency_ms}}");
    reveal_strlit("{{p99_latency_ms}}");
    reveal_strlit("{{gpu_mode}}");
    reveal_strlit("{{inference_count}}");
    reveal_strlit("{{speedup_factor}}");
    reveal_strlit("{{error}}");
    reveal_strlit("{{speedup_row}}");
    reveal_strlit("{{error_row}}");
    reveal_strlit("{{#each inference}}");
    reveal_strlit("{{/each}}");
    lemma_placeholder_shapes();
    lemma_replacement_facts();
}

proof fn lemma_fills_avg_latency_ms(f: DetailFigures)
    requires
        !seq_contains(f.avg_latency_ms@, "{{"@),
    ensures
        rendered("{{avg_latency_ms}}"@, f) == f.avg_latency_ms@,
{
    lemma_placeholder_shapes();
    reveal_strlit("{{avg_latency_ms}}");
    lemma_no_loop_markers("{{avg_latency_ms}}"@);
    reveal_strlit("{{model_id}}");
    reveal_strlit("{{model_path}}");
    reveal_strlit("{{file_size_bytes}}");
    reveal_strlit("{{file_size_mb}}");
    reveal_strlit("{{load_duration_secs}}");
    reveal_strlit("{{unload_duration_secs}}");
    reveal_strlit("{{total_duration_secs}}");
    reveal_strlit("{{tokens_per_second}}");
    reveal_strlit("{{avg_latency_ms}}");
    reveal_strlit("{{p50_latency_ms}}");
    reveal_strlit("{{p95_latency_ms}}");
    reveal_strlit("{{p99_latency_ms}}");
    reveal_strlit("{{gpu_mode}}");
    reveal_strlit("{{inference_count}}");
    reveal_strlit("{{speedup_factor}}");
    reveal_strlit("{{error}}");
    reveal_strlit("{{speedup_row}}");
    reveal_strlit("{{error_row}}");
    reveal_strlit("{{#each inference}}");
    reveal_strlit("{{/each}}");
    lemma_placeholder_shapes();
    lemma_replacement_facts();
    assert("{{avg_latency_ms}}"@[2] != "{{p50_latency_ms}}"@[2]);
    assert("{{avg_latency_ms}}"@[2] != "{{speedup_factor}}"@[2]);
    assert("{{avg_latency_ms}}"@[2] != "{{p95_latency_ms}}"@[2]);
    assert("{{avg_latency_ms}}"@[2] != "{{p99_latency_ms}}"@[2]);
}

proof fn lemma_fills_p50_latency_ms(f: DetailFigures)
    requires
        !seq_contains(f.p50_latency_ms@, "{{"@),
    ensures
        rendered("{{p50_latency_ms}}"@, f) == f.p50_latency_ms@,
{
    lemma_placeholder_shapes();
    reveal_strlit("{{p50_latency_ms}}");
    lemma_no_loop_markers("{{p50_latency_ms}}"@);
    reveal_strlit("{{model_id}}");
    reveal_strlit("{{model_path}}");
    reveal_strlit("{{file_size_bytes}}");
    reveal_strlit("{{file_size_mb}}");
    reveal_strlit("{{load_duration_secs}}");
    reveal_strlit("{{unload_duration_secs}}");
    reveal_strlit("{{total_duration_secs}}");
    reveal_strlit("{{tokens_per_second}}");
    reveal_strlit("{{avg_latency_ms}}");
    reveal_strlit("{{p50_latency_ms}}");
    reveal_strlit("{{p95_latency_ms}}");
    reveal_strlit("{{p99_latency_ms}}");
    reveal_strlit("{{gpu_mode}}");
    reveal_strlit("{{inference_count}}");
    reveal_strlit("{{speedup_factor}}");
    reveal_strlit("{{error}}");
    reveal_strlit("{{speedup_row}}");
    reveal_strlit("{{error_row}}");
    reveal_strlit("{{#each inference}}");
    reveal_strlit("{{/each}}");
    lemma_placeholder_shapes();
    lemma_replacement_facts();
    assert("{{avg_latency_ms}}"@[2] != "{{p50_latency_ms}}"@[2]);
    assert("{{p50_latency_ms}}"@[2] != "{{speedup_factor}}"@[2]);
    assert("{{p50_latency_ms}}"@[3] != "{{p95_latency_ms}}"@[3]);
    assert("{{p50_latency_ms}}"@[3] != "{{p99_latency_ms}}"@[3]);
}

proof fn lemma_fills_p95_latency_ms(f: DetailFigures)
    requires
        !seq_contains(f.p95_latency_ms@, "{{"@),
    ensures
        rendered("{{p95_latency_ms}}"@, f) == f.p95_latency_ms@,
{
    lemma_placeholder_shapes();
    reveal_strlit("{{p95_latency_ms}}");
    lemma_no_loop_markers("{{p95_latency_ms}}"@);
    reveal_strlit("{{model_id}}");
    reveal_strlit("{{model_path}}");
    reveal_strlit("{{file_size_bytes}}");
    reveal_strlit("{{file_size_mb}}");
    reveal_strlit("{{load_duration_secs}}");
    reveal_strlit("{{unload_duration_secs}}");
    reveal_strlit("{{total_duration_secs}}");
    reveal_strlit("{{tokens_per_second}}");
    reveal_strlit("{{avg_latency_ms}}");
    reveal_strlit("{{p50_latency_ms}}");
    reveal_strlit("{{p95_latency_ms}}");
    reveal_strlit("{{p99_latency_ms}}");
    reveal_strlit("{{gpu_mode}}");
    reveal_strlit("{{inference_count}}");
    reveal_strlit("{{speedup_factor}}");
    reveal_strlit("{{error}}");
    reveal_strlit("{{speedup_row}}");
    reveal_strlit("{{error_row}}");
    reveal_strlit("{{#each inference}}");
    reveal_strlit("{{/each}}");
    lemma_placeholder_shapes();
    lemma_replacement_facts();
    assert("{{p95_latency_ms}}"@[2] != "{{speedup_factor}}"@[2]);
    assert("{{avg_latency_ms}}"@[2] != "{{p95_latency_ms}}"@[2]);
    assert("{{p50_latency_ms}}"@[3] != "{{p95_latency_ms}}"@[3]);
    assert("{{p95_latency_ms}}"@[4] != "{{p99_latency_ms}}"@[4]);
}

proof fn lemma_fills_p99_latency_ms(f: DetailFigures)
    requires
        !seq_contains(f.p99_latency_ms@, "{{"@),
    ensures
        rendered("{{p99_latency_ms}}"@, f) == f.p99_latency_ms@,
{
    lemma_placeholder_shapes();
    reveal_strlit("{{p99_latency_ms}}");
    lemma_no_loop_markers("{{p99_latency_ms}}"@);
    reveal_strlit("{{model_id}}");
    reveal_strlit("{{model_path}}");
    reveal_strlit("{{file_size_bytes}}");
    reveal_strlit("{{file_size_mb}}");
    reveal_strlit("{{load_duration_secs}}");
    reveal_strlit("{{unload_duration_secs}}");
    reveal_strlit("{{total_duration_secs}}");
    reveal_strlit("{{tokens_per_second}}");
    reveal_strlit("{{avg_latency_ms}}");
    reveal_strlit("{{p50_latency_ms}}");
    reveal_strlit("{{p95_latency_ms}}");
    reveal_strlit("{{p99_latency_ms}}");
    reveal_strlit("{{gpu_mode}}");
    reveal_strlit("{{inference_count}}");
    reveal_strlit("{{speedup_factor}}");
    reveal_strlit("{{error}}");
    reveal_strlit("{{speedup_row}}");
    reveal_strlit("{{error_row}}");
    reveal_strlit("{{#each inference}}");
    reveal_strlit("{{/each}}");
    lemma_placeholder_shapes();
    lemma_replacement_facts();
    assert("{{p99_latency_ms}}"@[2] != "{{speedup_factor}}"@[2]);
    assert("{{avg_latency_ms}}"@[2] != "{{p99_latency_ms}}"@[2]);
    assert("{{p50_latency_ms}}"@[3] != "{{p99_latency_ms}}"@[3]);
    assert("{{p95_latency_ms}}"@[4] != "{{p99_latency_ms}}"@[4]);
}

proof fn lemma_fills_gpu_mode(f: DetailFigures)
    requires
        !seq_contains(f.gpu_mode@, "{{"@),
    ensures
        rendered("{{gpu_mode}}"@, f) == f.gpu_mode@,
{
    lemma_placeholder_shapes();
    reveal_strlit("{{gpu_mode}}");
    lemma_no_loop_markers("{{gpu_mode}}"@);
    reveal_strlit("{{model_id}}");
    reveal_strlit("{{model_path}}");
    reveal_strlit("{{file_size_bytes}}");
    reveal_strlit("{{file_size_mb}}");
    reveal_strlit("{{load_duration_secs}}");
    reveal_strlit("{{unload_duration_secs}}");
    reveal_strlit("{{total_duration_secs}}");
    reveal_strlit("{{tokens_per_second}}");
    reveal_strlit("{{avg_latency_ms}}");
    reveal_strlit("{{p50_latency_ms}}");
    reveal_strlit("{{p95_latency_ms}}");
    reveal_strlit("{{p99_latency_ms}}");
    reveal_strlit("{{gpu_mode}}");
    reveal_strlit("{{inference_count}}");
    reveal_strlit("{{speedup_factor}}");
    reveal_strlit("{{error}}");
    reveal_strlit("{{speedup_row}}");
    reveal_strlit("{{error_row}}");
    reveal_strlit("{{#each inference}}");
    reveal_strlit("{{/each}}");
    lemma_placeholder_shapes();
    lemma_replacement_facts();
    assert("{{model_id}}"@[2] != "{{gpu_mode}}"@[2]);
}

/// Every figure written as text fills its own placeholder: a template that
/// is just one such placeholder renders to exactly that figure (figures
/// that hold no `{{`).
pub proof fn lemma_figures_fill_their_own_placeholders(f: DetailFigures)
    requires
        !seq_contains(f.model_id@, "{{"@),
        !seq_contains(f.model_path@, "{{"@),
        !seq_contains(f.file_size_mb@, "{{"@),
        !seq_contains(f.load_duration_secs@, "{{"@),
        !seq_contains(f.unload_duration_secs@, "{{"@),
        !seq_contains(f.total_duration_secs@, "{{"@),
        !seq_contains(f.tokens_per_second@, "{{"@),
        !seq_contains(f.avg_latency_ms@, "{{"@),
        !seq_contains(f.p50_latency_ms@, "{{"@),
        !seq_contains(f.p95_latency_ms@, "{{"@),
        !seq_contains(f.p99_latency_ms@, "{{"@),
        !seq_contains(f.gpu_mode@, "{{"@),
    ensures
        rendered("{{model_id}}"@, f) == f.model_id@,
        rendered("{{model_path}}"@, f) == f.model_path@,
        rendered("{{file_size_mb}}"@, f) == f.file_size_mb@,
        rendered("{{load_duration_secs}}"@, f) == f.load_duration_secs@,
        rendered("{{unload_duration_secs}}"@, f) == f.unload_duration_secs@,
        rendered("{{total_duration_secs}}"@, f) == f.total_duration_secs@,
        rendered("{{tokens_per_second}}"@, f) == f.tokens_per_second@,
        rendered("{{avg_latency_ms}}"@, f) == f.avg_latency_ms@,
        rendered("{{p50_latency_ms}}"@, f) == f.p50_latency_ms@,
        rendered("{{p95_latency_ms}}"@, f) == f.p95_latency_ms@,
        rendered("{{p99_latency_ms}}"@, f) == f.p99_latency_ms@,
        rendered("{{gpu_mode}}"@, f) == f.gpu_mode@,
{
    lemma_fills_model_id(f);
    lemma_fills_model_path(f);
    lemma_fills_file_size_mb(f);
    lemma_fills_load_duration_secs(f);
    lemma_fills_unload_duration_secs(f);
    lemma_fills_total_duration_secs(f);
    lemma_fills_tokens_per_second(f);
    lemma_fills_avg_latency_ms(f);
    lemma_fills_p50_latency_ms(f);
    lemma_fills_p95_latency_ms(f);
    lemma_fills_p99_latency_ms(f);
    lemma_fills_gpu_mode(f);
}

} // verus!
