//! What a caller tests before a pass, and what then holds of every pass.
use crate::model::batch::{lens_of, padded_rows};
use crate::model::dispatch::DispatchMode;
use crate::model::dispatch_helpers::token_rows;
use crate::model::dispatch_laws::{in_vocabulary, law_configured_pass_has_room};
use crate::model::forward_async::{async_error, async_ready};
use crate::model::forward_chunks::chunk_rows;
use crate::model::forward_inner::{forward_ready, forward_scratch, LogitsPath};
use crate::model::forward_task::{
    chunk_ready, first_task, forward_error, forward_fits, padded_fits, padded_task, start_data,
    TaskSpec,
};
use crate::model::pass::longest;
use crate::model::state::{state_fits, StateData};
use crate::model::step::scratch_after;
use crate::model::{Rwkv7Model, Rwkv7ModelInfo};
use crate::scratch::{
    full_shapes, lemma_made_for_states, scratch_fits, HipRuntimeConfig, LoraDims, ScratchSpec,
};
use crate::shapes::{FlaShapes, PassShapes};
use crate::tensor::{lemma_fits_bounds, lemma_product_grows};
use vstd::prelude::*;

verus! {

impl PassShapes {
    /// Whether every shape has a machine integer of elements.
    pub fn is_sized(&self) -> (b: bool)
        ensures
            b == self.fits(),
    {
        self.std.is_sized() && self.ffn.is_sized() && self.out.is_sized() && self.state.is_sized()
            && self.wkv_data.is_sized() && self.wkv_state.is_sized() && self.lora_w.is_sized()
            && self.lora_a.is_sized() && self.lora_g.is_sized() && self.lora_v.is_sized()
            && self.lens.is_sized()
    }
}

/// Whether the sizes of a state of `batch_size` sequences are machine integers.
pub fn states_fit(info: &Rwkv7ModelInfo, batch_size: usize) -> (b: bool)
    ensures
        b == state_fits(*info, batch_size as int),
{
    let square: usize = match info.head_size.checked_mul(info.head_size) {
        Some(n) => n,
        None => return false,
    };
    match square.checked_mul(info.n_head) {
        Some(n) => n.checked_mul(batch_size).is_some() && info.n_embd.checked_mul(
            batch_size,
        ).is_some(),
        None => false,
    }
}

/// Whether the sizes of the working memory of a model are machine integers.
pub fn config_fits(info: &Rwkv7ModelInfo, lora: &LoraDims, config: &HipRuntimeConfig) -> (b: bool)
    ensures
        b == scratch_fits(*info, *lora, *config),
{
    let t: usize = config.max_prefill_chunk;
    let b: usize = config.batch_size;
    let c: usize = config.fla_chunk_size;
    if c == 0 || t.checked_add(c).is_none() || t.checked_mul(b).is_none() {
        return false;
    }
    let chunks: usize = (t + c - 1) / c;
    let total: usize = match b.checked_mul(chunks) {
        Some(n) => n,
        None => return false,
    };
    let sh = PassShapes::new(info, lora, t, b);
    let fla = FlaShapes::new(info.head_size, info.n_head, c, total, t, b);
    sh.is_sized() && fla.token.is_sized() && fla.matrix.is_sized() && fla.state.is_sized()
}

impl Rwkv7Model {
    /// Whether there are weights for every layer, heads to divide by, and nothing empty to
    /// repeat.
    pub fn is_sound(&self) -> (b: bool)
        ensures
            b == self.sound(),
    {
        let info = &self.info;
        if info.n_layer > self.layers.len() || info.n_head == 0 || info.head_size == 0 {
            return false;
        }
        if info.head_size.checked_mul(info.n_head).is_none() || info.n_embd.checked_mul(
            6,
        ).is_none() {
            return false;
        }
        let mut i: usize = 0;
        while i < info.n_layer
            invariant
                info == self.info,
                i <= info.n_layer <= self.layers@.len(),
                forall|k: int| 0 <= k < i ==> (#[trigger] self.layers@[k]).repeatable(),
            decreases info.n_layer - i,
        {
            let att = &self.layers[i].att;
            let residual = match &att.v0 {
                Some(v0) => !v0.is_empty(),
                None => true,
            };
            if att.w0.is_empty() || att.a0.is_empty() || att.k_k.is_empty() || !residual {
                assert(!self.layers@[i as int].repeatable());
                return false;
            }
            i += 1;
        }
        true
    }

    /// Whether every token can be looked up: the embedding table has a row for each.
    pub fn knows(&self, x: &[&[u32]]) -> (b: bool)
        ensures
            b == in_vocabulary(*self, token_rows(x@)),
    {
        let n: usize = self.info.n_vocab;
        if self.embed.n_embd != self.info.n_embd || n == 0 {
            return false;
        }
        let size: usize = self.embed.w.len();
        match n.checked_mul(self.info.n_embd) {
            Some(product) => {
                if size != product {
                    return false;
                }
            },
            None => {
                return false;
            },
        }
        let ghost rows = token_rows(x@);
        let mut i: usize = 0;
        while i < x.len()
            invariant
                i <= x@.len(),
                n == self.info.n_vocab,
                rows == token_rows(x@),
                forall|j: int| 0 <= j < i ==> (#[trigger] rows[j]).len() <= usize::MAX,
                forall|j: int, k: int|
                    0 <= j < i && 0 <= k < rows[j].len() ==> (#[trigger] rows[j][k]) < n,
            decreases x@.len() - i,
        {
            let row = x[i];
            let len: usize = row.len();
            assert(rows[i as int] == row@);
            let mut k: usize = 0;
            while k < len
                invariant
                    k <= len == row@.len(),
                    i < x@.len(),
                    rows == token_rows(x@),
                    rows[i as int] == row@,
                    n == self.info.n_vocab,
                    forall|l: int| 0 <= l < k ==> (#[trigger] row@[l]) < n,
                decreases len - k,
            {
                if row[k] as usize >= n {
                    assert(rows[i as int][k as int] >= n);
                    return false;
                }
                k += 1;
            }
            i += 1;
        }
        true
    }
}

/// Where the working memory lies does not depend on the staging memory of embeddings.
proof fn lemma_placed_with_staging(
    sc: ScratchSpec,
    after: ScratchSpec,
    info: Rwkv7ModelInfo,
    next: usize,
)
    requires
        sc.placed_at(next, info),
        after == (ScratchSpec { emb_staging: after.emb_staging, ..sc }),
    ensures
        after.placed_at(next, info),
{
    reveal(ScratchSpec::placed_at);
}

/// A pass leaves the working memory as it was made: only the staging memory of embeddings
/// changes, and keeps its size.
pub proof fn law_pass_keeps_working_memory(
    model: Rwkv7Model,
    mode: DispatchMode,
    sc: ScratchSpec,
    rows: Seq<Seq<u32>>,
)
    requires
        sc.made_for(model.info),
    ensures
        scratch_after(model, mode, sc, rows).made_for(model.info),
        scratch_after(model, mode, sc, rows).config == sc.config,
{
    let next = choose|next: usize| #[trigger] sc.placed_at(next, model.info);
    lemma_placed_with_staging(sc, scratch_after(model, mode, sc, rows), model.info, next);
}

/// A forward pass leaves the working memory as it was made: the states stay in their places,
/// also where they stay on the device.
pub proof fn law_forward_keeps_working_memory(
    model: Rwkv7Model,
    sc: ScratchSpec,
    rows: Seq<Seq<u32>>,
    lens: Seq<usize>,
    path: LogitsPath,
)
    requires
        sc.made_for(model.info),
    ensures
        forward_scratch(model, sc, rows, lens, path).made_for(model.info),
        forward_scratch(model, sc, rows, lens, path).config == sc.config,
{
    let next = choose|next: usize| #[trigger] sc.placed_at(next, model.info);
    lemma_placed_with_staging(sc, forward_scratch(model, sc, rows, lens, path), model.info, next);
}

/// Rows of one length within the configuration meet what a forward pass asks for.
proof fn lemma_forward_ready(
    model: Rwkv7Model,
    sc: ScratchSpec,
    rows: Seq<Seq<u32>>,
    lens: Seq<usize>,
    data: StateData,
    path: LogitsPath,
)
    requires
        model.sound(),
        sc.made_for(model.info),
        model.embed.n_embd == model.info.n_embd,
        model.embed.w@.len() == model.info.n_vocab * model.info.n_embd,
        rows.len() > 0,
        rows.len() <= sc.config.batch_size,
        rows[0].len() <= sc.config.max_prefill_chunk,
        lens.len() == rows.len(),
        forall|i: int| 0 <= i < rows.len() ==> (#[trigger] rows[i]).len() == rows[0].len(),
        forall|i: int, k: int|
            0 <= i < rows.len() && 0 <= k < rows[i].len() ==> (#[trigger] rows[i][k])
                < model.info.n_vocab,
        data.covers(model.info.n_layer as nat),
    ensures
        forward_ready(model, sc, rows, lens, data, path),
{
    reveal(forward_ready);
    let info = model.info;
    let t = rows[0].len() as usize;
    let b = rows.len() as usize;
    law_configured_pass_has_room(sc, info, DispatchMode::ByLength, lens, t, b);
    lemma_made_for_states(sc, info);
    let e = info.n_embd as int;
    let most = sc.config.max_prefill_chunk as int;
    let wide = sc.config.batch_size as int;
    assert(b * t * e <= sc.emb_staging.len()) by {
        assert(sc.emb_staging.len() == e * most * wide * 1);
        lemma_product_grows(t as int, b as int, most, wide);
        lemma_product_grows(e, t * b, e, most * wide);
        assert(b * t * e == e * (t * b) && e * most * wide * 1 == e * (most * wide))
            by (nonlinear_arith);
    }
    assert forall|i: int, k: int| 0 <= i < rows.len() && 0 <= k < t implies k < rows[i].len() && (
    #[trigger] rows[i][k]) * e + e <= info.n_vocab * e by {
        let x = rows[i][k] as int;
        let v = info.n_vocab as int;
        assert(rows[i].len() == t);
        assert(x * e + e <= v * e) by (nonlinear_arith)
            requires
                0 <= x < v,
                0 <= e,
        ;
    }
}

/// Sizes of the logits and of the states of a batch within the configuration.
pub proof fn lemma_batch_sizes(sc: ScratchSpec, info: Rwkv7ModelInfo, b: int)
    requires
        sc.made_for(info),
        0 < b <= sc.config.batch_size,
    ensures
        b * sc.config.max_prefill_chunk <= usize::MAX,
        b * sc.config.max_prefill_chunk * info.n_vocab <= usize::MAX,
        state_fits(info, b),
{
    let c = sc.config.max_prefill_chunk as int;
    let wide = sc.config.batch_size as int;
    let v = info.n_vocab as int;
    let sh = full_shapes(info, sc.lora_dims, sc.config);
    lemma_fits_bounds(sh.out);
    lemma_fits_bounds(sh.wkv_state);
    lemma_fits_bounds(sh.state);
    lemma_product_grows(b, c, wide, c);
    lemma_product_grows(b * c, v, wide * c, v);
    assert(wide * c * v == v * c * wide * 1 && wide * c == c * wide) by (nonlinear_arith);
    let e = info.n_embd as int;
    let w = info.head_size * info.head_size * info.n_head;
    assert(0 <= w) by (nonlinear_arith)
        requires
            w == info.head_size * info.head_size * info.n_head,
            info.head_size >= 0,
            info.n_head >= 0,
    ;
    lemma_product_grows(w, b, w, wide);
    lemma_product_grows(e, b, e, wide);
}

/// A chunk of known sequences within the configuration meets what its pass asks for.
pub proof fn law_chunk_is_ready(model: Rwkv7Model, sc: ScratchSpec, task: TaskSpec)
    requires
        model.sound(),
        sc.made_for(model.info),
        in_vocabulary(model, task.rows),
        0 < task.rows.len() <= sc.config.batch_size,
        task.chunk == sc.config.max_prefill_chunk,
        task.chunk > 0,
        task.start + task.chunk <= usize::MAX,
        task.data.covers(model.info.n_layer as nat),
    ensures
        chunk_ready(model, sc, task),
{
    let b = task.rows.len() as int;
    let c = task.chunk as int;
    let w = task.width() as int;
    lemma_batch_sizes(sc, model.info, b);
    lemma_made_for_states(sc, model.info);
    lemma_product_grows(b, w, b, c);
    let rows = task.chunk_rows();
    assert forall|i: int, k: int| 0 <= i < rows.len() && 0 <= k < rows[i].len() implies (
    #[trigger] rows[i][k]) < model.info.n_vocab by {
        let row = task.rows[i];
        if task.start + k < row.len() {
            assert(row[task.start + k] < model.info.n_vocab);
        }
    }
    assert forall|i: int| 0 <= i < rows.len() implies (#[trigger] rows[i]).len() == rows[0].len() by {
    }
    lemma_forward_ready(
        model,
        sc,
        rows,
        task.lens(),
        task.data,
        LogitsPath::Widened,
    );
    reveal(chunk_ready);
}

/// A forward pass over known sequences that is not refused meets everything that its first
/// chunk asks for.
pub proof fn law_forward_is_ready(
    model: Rwkv7Model,
    sc: ScratchSpec,
    rows: Seq<Seq<u32>>,
    data: Option<StateData>,
)
    requires
        model.sound(),
        sc.made_for(model.info),
        in_vocabulary(model, rows),
        sc.config.max_prefill_chunk > 0,
        longest(lens_of(rows)) + sc.config.max_prefill_chunk <= usize::MAX,
        data is Some ==> data->0.covers(model.info.n_layer as nat),
    ensures
        forward_fits(model, Some(sc), rows, data),
{
    if forward_error(Some(sc.config), lens_of(rows), data) is None {
        reveal(first_task);
        let task = first_task(model.info, sc, rows, data);
        lemma_batch_sizes(sc, model.info, rows.len() as int);
        law_chunk_is_ready(model, sc, task);
    }
}

/// A pass over one chunk of known sequences that is not refused meets everything that it asks
/// for.
pub proof fn law_async_pass_is_ready(
    model: Rwkv7Model,
    sc: ScratchSpec,
    rows: Seq<Seq<u32>>,
    data: Option<StateData>,
)
    requires
        model.sound(),
        sc.made_for(model.info),
        in_vocabulary(model, rows),
        data is Some ==> data->0.covers(model.info.n_layer as nat),
    ensures
        async_ready(model, Some(sc), rows, data),
{
    if async_error(Some(sc.config), lens_of(rows), data) is None {
        let c = sc.config.max_prefill_chunk;
        let padded = padded_rows(rows, c);
        lemma_batch_sizes(sc, model.info, rows.len() as int);
        assert forall|i: int, k: int| 0 <= i < padded.len() && 0 <= k < padded[i].len() implies (
        #[trigger] padded[i][k]) < model.info.n_vocab by {
            if k < rows[i].len() {
                assert(rows[i][k] < model.info.n_vocab);
            }
        }
        assert forall|i: int| 0 <= i < padded.len() implies (#[trigger] padded[i]).len()
            == padded[0].len() by {}
        lemma_forward_ready(
            model,
            sc,
            padded,
            lens_of(rows),
            start_data(model.info, rows.len() as usize, data),
            LogitsPath::Half,
        );
    }
}

/// A pass over known sequences padded to the longest that is not refused meets everything that
/// its first chunk asks for.
pub proof fn law_padded_pass_is_ready(
    model: Rwkv7Model,
    sc: ScratchSpec,
    rows: Seq<Seq<u32>>,
    data: StateData,
)
    requires
        model.sound(),
        sc.made_for(model.info),
        in_vocabulary(model, rows),
        sc.config.max_prefill_chunk > 0,
        longest(lens_of(rows)) + sc.config.max_prefill_chunk <= usize::MAX,
        data.covers(model.info.n_layer as nat),
    ensures
        padded_fits(model, Some(sc), rows, data),
{
    if forward_error(Some(sc.config), lens_of(rows), Some(data)) is None {
        reveal(first_task);
        lemma_batch_sizes(sc, model.info, rows.len() as int);
        law_chunk_is_ready(model, sc, padded_task(model.info, sc, rows, data));
    }
}

} // verus!
