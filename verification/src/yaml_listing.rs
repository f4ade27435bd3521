//! What the generated benchmark YAML says of each embedded model.

use vstd::prelude::*;
use crate::decimal::decimal;
use crate::model_selector::ModelCandidate;
use crate::text::{occurs_at, seq_contains};
use crate::yaml_generator::{
    benchmark_yaml_with_models, model_entries, plain_prompt_lines, MODELS_YAML_MID, MODELS_YAML_SETTINGS,
    MODELS_YAML_TAIL,
};

verus! {

/// The three lines that list a model: its path, its id and its file size.
pub open spec fn listed_model_lines(m: ModelCandidate) -> Seq<char> {
    "    - path: \""@ + m.path@ + "\"\n"@ + "      model_id: \""@ + m.model_id@ + "\"\n"@
        + "      file_size_bytes: "@ + decimal(m.file_size_bytes as nat) + "\n"@
}

proof fn lemma_entries_step(models: Seq<ModelCandidate>)
    requires
        models.len() > 0,
    ensures
        model_entries(models) == model_entries(models.drop_last()) + listed_model_lines(models.last()),
{
    reveal_strlit("\"\n      model_id: \"");
    reveal_strlit("\"\n      file_size_bytes: ");
    reveal_strlit("\"\n");
    reveal_strlit("      model_id: \"");
    reveal_strlit("      file_size_bytes: ");
    assert(model_entries(models) =~= model_entries(models.drop_last()) + listed_model_lines(models.last()));
}

proof fn lemma_occurs_within(a: Seq<char>, s: Seq<char>, b: Seq<char>, p: Seq<char>, i: int)
    requires
        occurs_at(s, p, i),
    ensures
        occurs_at(a + s + b, p, a.len() + i),
{
    assert((a + s + b).subrange(a.len() + i, a.len() + i + p.len()) =~= s.subrange(i, i + p.len()));
}

proof fn lemma_entries_list_model(models: Seq<ModelCandidate>, k: int)
    requires
        0 <= k < models.len(),
    ensures
        seq_contains(
            model_entries(models),
            listed_model_lines(models[k]),
        ),
    decreases models.len(),
{
    let m = models[k];
    let p = listed_model_lines(m);
    let d = models.drop_last();
    lemma_entries_step(models);
    if k == models.len() - 1 {
        assert(model_entries(models) =~= model_entries(d) + p);
        assert(p.subrange(0, p.len() as int) =~= p);
        lemma_occurs_within(model_entries(d), p, Seq::empty(), p, 0);
        assert(model_entries(d) + p + Seq::<char>::empty() =~= model_entries(models));
        assert(occurs_at(model_entries(models), p, model_entries(d).len() as int));
    } else {
        assert(d[k] == m);
        lemma_entries_list_model(d, k);
        let i = choose|i: int| occurs_at(model_entries(d), p, i);
        let last = models.last();
        let tail = listed_model_lines(last);
        assert(model_entries(models) =~= Seq::<char>::empty() + model_entries(d) + tail);
        lemma_occurs_within(Seq::empty(), model_entries(d), tail, p, i);
        assert(occurs_at(model_entries(models), p, i));
    }
}

/// Every embedded model is listed with its own fields: its path line, then
/// its id line, then its file size line.
pub proof fn lemma_models_listed_with_ids(
    models: Seq<ModelCandidate>,
    prompts: Seq<Seq<char>>,
    max_tokens: nat,
    k: int,
)
    requires
        0 <= k < models.len(),
    ensures
        seq_contains(
            benchmark_yaml_with_models(models, prompts, max_tokens),
            listed_model_lines(models[k]),
        ),
{
    let m = models[k];
    let p = listed_model_lines(m);
    lemma_entries_list_model(models, k);
    let i = choose|i: int| occurs_at(model_entries(models), p, i);
    let pre = "workflow_id: benchmark_"@ + decimal(models.len()) + "_models\nname: \""@ + decimal(models.len())
        + "-Model Benchmark Suite\"\ndescription: \"Sequential benchmark of "@ + decimal(models.len())
        + " diverse models"@ + MODELS_YAML_MID@;
    let post = "\n  prompts:\n"@ + plain_prompt_lines(prompts) + "  max_tokens: "@ + decimal(max_tokens)
        + MODELS_YAML_SETTINGS@ + decimal(models.len()) + MODELS_YAML_TAIL@;
    let y = benchmark_yaml_with_models(models, prompts, max_tokens);
    assert(y =~= pre + model_entries(models) + post);
    lemma_occurs_within(pre, model_entries(models), post, p, i);
    assert(occurs_at(y, p, pre.len() + i));
}

} // verus!
