//! When inference over batches succeeds, with and without a configured model.
use crate::model::batch::{lens_of, padded_rows};
use crate::model::dispatch_laws::in_vocabulary;
use crate::model::forward_chunks::{chunk_row, chunk_rows};
use crate::model::forward_inner::{forward_inner_run, LogitsPath};
use crate::model::forward_success::{law_padded_pass_succeeds, lemma_even};
use crate::model::forward_task::{
    chunk_run, first_task, forward_error, joined_lists, padded_run, padded_task, TaskSpec,
};
use crate::model::load_laws::law_configuring_succeeds;
use crate::model::pass::{lemma_longest, longest};
use crate::model::ready::law_padded_pass_is_ready;
use crate::model::state::{law_new_state_is_sized, state_fits, zero_state, StateData};
use crate::model::Rwkv7Model;
use crate::run::Run;
use crate::runtime::{default_config, infer_memory, infer_ready, infer_run, memory_run};
use crate::scratch::{scratch_at, scratch_fits, ScratchSpec};
use crate::stream::StreamSpec;
use vstd::prelude::*;

verus! {

/// Whether a model can run in a runtime: it has working memory, or working memory for the default
/// configuration can be made.
pub open spec fn runs_in(
    s: StreamSpec,
    model: Rwkv7Model,
    scratch: Option<ScratchSpec>,
    num_batch: usize,
) -> bool {
    match scratch {
        Some(sc) => sc.made_for(model.info) && sc.config.max_prefill_chunk > 0,
        None => {
            &&& model.layers@.len() > 0
            &&& scratch_fits(model.info, model.spec_lora_dims(), default_config(num_batch))
            &&& s.next + 3 * model.info.n_layer + 60 <= usize::MAX
        },
    }
}

/// The working memory of a runtime is made for its model.
proof fn lemma_memory(
    s: StreamSpec,
    model: Rwkv7Model,
    scratch: Option<ScratchSpec>,
    num_batch: usize,
)
    requires
        runs_in(s, model, scratch, num_batch),
    ensures
        ({
            let sc = infer_memory(s.next, model, scratch, num_batch);
            let made = memory_run(Run::start(s), model, scratch, num_batch);
            &&& sc.made_for(model.info)
            &&& sc.config.max_prefill_chunk > 0
            &&& made.error is None
            &&& scratch is Some ==> made.stream == s
            &&& scratch is None ==> {
                &&& sc.config == default_config(num_batch)
                &&& sc.lora_dims == model.spec_lora_dims()
                &&& made.stream.next == s.next + 3 * model.info.n_layer + 60
            }
        }),
{
    reveal(infer_memory);
    reveal(memory_run);
    if scratch is None {
        let lora = model.spec_lora_dims();
        let config = default_config(num_batch);
        law_configuring_succeeds(s, model.info, lora, config);
        let sc = scratch_at(s.next, model.info, lora, config);
        reveal(ScratchSpec::placed_at);
        assert(sc.placed_at(s.next, model.info));
    }
}

/// A pass of a runtime over known sequences meets everything that it asks for, refused or not,
/// whether its model was configured or not.
pub proof fn law_infer_is_ready(
    s: StreamSpec,
    model: Rwkv7Model,
    scratch: Option<ScratchSpec>,
    num_batch: usize,
    rows: Seq<Seq<u32>>,
    data: StateData,
)
    requires
        model.sound(),
        runs_in(s, model, scratch, num_batch),
        in_vocabulary(model, rows),
        data.covers(model.info.n_layer as nat),
        longest(lens_of(rows)) * rows.len() <= usize::MAX,
        model.info.n_vocab * (longest(lens_of(rows)) * rows.len()) <= usize::MAX,
        longest(lens_of(rows)) + infer_memory(
            s.next,
            model,
            scratch,
            num_batch,
        ).config.max_prefill_chunk <= usize::MAX,
    ensures
        infer_ready(s, model, scratch, num_batch, rows, data),
{
    lemma_memory(s, model, scratch, num_batch);
    let sc = infer_memory(s.next, model, scratch, num_batch);
    law_padded_pass_is_ready(model, sc, rows, data);
}

/// A pass of a runtime over sequences of any length that is not refused succeeds with its first
/// chunk, from a state of the right sizes, where the weights have the right shapes.
pub proof fn law_infer_succeeds(
    s: StreamSpec,
    model: Rwkv7Model,
    scratch: Option<ScratchSpec>,
    num_batch: usize,
    rows: Seq<Seq<u32>>,
    data: StateData,
)
    requires
        runs_in(s, model, scratch, num_batch),
        s.next + 9 * model.info.n_layer + 60 <= usize::MAX,
        ({
            let sc = infer_memory(s.next, model, scratch, num_batch);
            &&& model.shaped(sc.lora_dims)
            &&& forward_error(Some(sc.config), lens_of(rows), Some(data)) is None
        }),
        data.sized(model.info),
    ensures
        infer_run(Run::start(s), model, scratch, num_batch, rows, data).error is None,
{
    lemma_memory(s, model, scratch, num_batch);
    let sc = infer_memory(s.next, model, scratch, num_batch);
    let made = memory_run(Run::start(s), model, scratch, num_batch);
    law_padded_pass_succeeds(made.stream, model, sc, rows, data);
    assert(made == Run::start(made.stream));
}

/// A new runtime over a model that was only loaded runs every batch of as many sequences as it
/// was made for, as long as not all of them are empty.
pub proof fn law_unconfigured_model_infers(
    s: StreamSpec,
    model: Rwkv7Model,
    num_batch: usize,
    rows: Seq<Seq<u32>>,
)
    requires
        s.next + 9 * model.info.n_layer + 60 <= usize::MAX,
        model.layers@.len() > 0,
        model.shaped(model.spec_lora_dims()),
        scratch_fits(model.info, model.spec_lora_dims(), default_config(num_batch)),
        state_fits(model.info, num_batch as int),
        rows.len() == num_batch,
        longest(lens_of(rows)) > 0,
    ensures
        infer_run(
            Run::start(s),
            model,
            None,
            num_batch,
            rows,
            zero_state(model.info, num_batch),
        ).error is None,
{
    lemma_memory(s, model, None, num_batch);
    let data = zero_state(model.info, num_batch);
    law_new_state_is_sized(model.info, num_batch);
    assert(rows.len() > 0) by {
        if rows.len() == 0 {
            assert(longest(lens_of(rows)) == 0);
        }
    }
    law_infer_succeeds(s, model, None, num_batch, rows, data);
}

/// A chunk of a pass over a batch is a chunk of the padded batch, as wide as the padded batch
/// reaches.
pub proof fn law_chunk_of_padded_batch(task: TaskSpec)
    requires
        task.padded,
        task.start < longest(lens_of(task.rows)),
    ensures
        ({
            let max_len = longest(lens_of(task.rows));
            &&& task.start + task.width() <= max_len
            &&& task.chunk_rows() == chunk_rows(
                padded_rows(task.rows, max_len),
                task.start as int,
                task.width() as int,
            )
        }),
{
    let max_len = longest(lens_of(task.rows));
    let even = padded_rows(task.rows, max_len);
    let w = task.width() as int;
    assert forall|b: int| 0 <= b < task.rows.len() implies #[trigger] task.chunk_rows()[b]
        == chunk_rows(even, task.start as int, w)[b] by {
        assert(task.chunk_rows()[b] =~= chunk_row(even[b], task.start as int, w));
    }
    assert(task.chunk_rows() =~= chunk_rows(even, task.start as int, w));
}

/// A batch whose longest sequence fits in one chunk takes one pass over the padded batch, masked
/// by the real lengths.
pub proof fn law_short_batch_takes_one_pass(
    s: Run,
    model: Rwkv7Model,
    sc: ScratchSpec,
    rows: Seq<Seq<u32>>,
    data: StateData,
)
    requires
        s.error is None,
        forall|i: int| 0 <= i < rows.len() ==> (#[trigger] rows[i]).len() <= usize::MAX,
        forward_error(Some(sc.config), lens_of(rows), Some(data)) is None,
        longest(lens_of(rows)) <= sc.config.max_prefill_chunk,
    ensures
        !padded_task(model.info, sc, rows, data).more(),
        padded_run(s, model, Some(sc), rows, data) == forward_inner_run(
            s,
            model,
            sc,
            padded_rows(rows, longest(lens_of(rows))),
            lens_of(rows),
            data,
            LogitsPath::Widened,
        ),
{
    reveal(first_task);
    reveal(chunk_run);
    let lens = lens_of(rows);
    let max_len = longest(lens);
    let even = padded_rows(rows, max_len);
    let task = padded_task(model.info, sc, rows, data);
    lemma_longest(lens);
    assert forall|b: int| 0 <= b < rows.len() implies #[trigger] task.chunk_rows()[b]
        == even[b] by {
        assert(task.chunk_rows()[b] =~= even[b]);
    }
    assert(task.chunk_rows() =~= even);
    assert(task.lens() =~= lens);
    assert forall|k: int| 0 <= k < even.len() implies (#[trigger] even[k]).len()
        == even[0].len() by {}
    lemma_even(even, lens, max_len as nat, 0);
}

/// The logits of a pass over a batch lie sequence by sequence: those of each sequence are a part
/// of their own, as long as the padded sequence.
pub proof fn law_logits_lie_by_sequence<T>(v: Seq<Seq<T>>, len: int, b: int)
    requires
        forall|i: int| 0 <= i < v.len() ==> (#[trigger] v[i]).len() == len,
        0 <= b < v.len(),
    ensures
        joined_lists(v).len() == v.len() * len,
        0 <= b * len,
        b * len + len <= v.len() * len,
        joined_lists(v).subrange(b * len, b * len + len) == v[b],
    decreases v.len(),
{
    let front = v.drop_last();
    let n = v.len() - 1;
    assert(v[n].len() == len);
    assert forall|i: int| 0 <= i < front.len() implies (#[trigger] front[i]).len() == len by {
        assert(front[i] == v[i]);
    }
    assert(0 <= b * len && b * len <= n * len && n * len + len == v.len() * len)
        by (nonlinear_arith)
        requires
            0 <= b <= n,
            v.len() == n + 1,
            0 <= len,
    ;
    if n > 0 {
        law_logits_lie_by_sequence(front, len, 0);
    } else {
        assert(front =~= Seq::<Seq<T>>::empty());
        assert(n * len == 0) by (nonlinear_arith)
            requires
                n == 0,
        ;
    }
    assert(joined_lists(front).len() == n * len);
    assert(joined_lists(v) == joined_lists(front) + v.last());
    if b < n {
        law_logits_lie_by_sequence(front, len, b);
        assert(front[b] == v[b]);
        assert(joined_lists(v).subrange(b * len, b * len + len) =~= joined_lists(front).subrange(
            b * len,
            b * len + len,
        ));
    } else {
        assert(joined_lists(v).subrange(b * len, b * len + len) =~= v[b]);
    }
}

} // verus!
