//! What a configured model takes: every batch within its configuration has room, and with
//! weights of the right shapes its pass succeeds.
use crate::buffers::{
    att_at, att_view, att_view_error, fla_at, fla_view, fla_view_error, inner_at, inner_view,
    inner_view_error, shift_at, shift_view, shift_view_error, temp_at, temp_view, temp_view_error,
    wkv_at, wkv_view, wkv_view_error, work_at, work_view, work_view_error,
};
use crate::model::batch::{batch_error, lens_of, pass_rows, total};
use crate::model::chunks::{lemma_ceil_div, lemma_chunks_before};
use crate::model::dispatch::{
    choice_of, dispatch_ready, dispatch_run, lemma_open_error, open_error, open_run, pass_of, staging_after,
    DispatchMode,
};
use crate::model::dispatch_helpers::embed_upload;
use crate::model::fla::{cu_seqlens, fla_pass_fits, fla_pass_shapes, fla_sizes_fit, FlaWkvSpec};
use crate::model::layer::PassSpec;
use crate::model::pass::{layers_run, lemma_longest, longest, views_run};
use crate::model::pass_laws::{choice_fits, goes_on, lemma_layers, lemma_output_head, lists_made};
use crate::model::pending::law_logits_for_every_token;
use crate::model::replies::is_f32;
use crate::model::ready::lemma_batch_sizes;
use crate::model::state::StateData;
use crate::model::step::{
    asked_logits, load_state_run, logits_plan, request_ready, resident_run, state_error,
    step_ready, step_run,
};
use crate::model::{Rwkv7Model, Rwkv7ModelInfo};
use crate::probe::HipHook;
use crate::run::Run;
use crate::scratch::{
    full_fla_shapes, full_shapes, lemma_made_for_states, spec_ceil_div, HipRuntimeConfig,
    ScratchSpec,
};
use crate::shapes::{FlaShapes, PassShapes};
use crate::stream::{DataSpec, StreamSpec};
use crate::tensor::{
    fill_error, lemma_fits_bounds, lemma_product_grows, lemma_smaller_fits, resize_error,
    TensorShape,
};
use vstd::prelude::*;

verus! {

/// Whether a shape is nowhere larger than another.
pub open spec fn within(small: TensorShape, large: TensorShape) -> bool {
    small.d0 <= large.d0 && small.d1 <= large.d1 && small.d2 <= large.d2 && small.d3 <= large.d3
}

/// Shapes of a smaller pass are nowhere larger.
pub open spec fn pass_within(small: PassShapes, large: PassShapes) -> bool {
    &&& within(small.std, large.std)
    &&& within(small.ffn, large.ffn)
    &&& within(small.out, large.out)
    &&& within(small.state, large.state)
    &&& within(small.wkv_data, large.wkv_data)
    &&& within(small.wkv_state, large.wkv_state)
    &&& within(small.lora_w, large.lora_w)
    &&& within(small.lora_a, large.lora_a)
    &&& within(small.lora_g, large.lora_g)
    &&& within(small.lora_v, large.lora_v)
    &&& within(small.lens, large.lens)
}

/// The views of a smaller pass are machine-sized and within what was allocated.
proof fn lemma_pass_within(small: PassShapes, large: PassShapes)
    requires
        large.fits(),
        pass_within(small, large),
    ensures
        small.fits(),
        small.std.spec_len() <= large.std.spec_len(),
        small.ffn.spec_len() <= large.ffn.spec_len(),
        small.out.spec_len() <= large.out.spec_len(),
        small.state.spec_len() <= large.state.spec_len(),
        small.lora_w.spec_len() <= large.lora_w.spec_len(),
        small.lora_a.spec_len() <= large.lora_a.spec_len(),
        small.lora_g.spec_len() <= large.lora_g.spec_len(),
        small.lora_v.spec_len() <= large.lora_v.spec_len(),
        small.lens.spec_len() <= large.lens.spec_len(),
{
    lemma_smaller_fits(small.std, large.std);
    lemma_smaller_fits(small.ffn, large.ffn);
    lemma_smaller_fits(small.out, large.out);
    lemma_smaller_fits(small.state, large.state);
    lemma_smaller_fits(small.wkv_data, large.wkv_data);
    lemma_smaller_fits(small.wkv_state, large.wkv_state);
    lemma_smaller_fits(small.lora_w, large.lora_w);
    lemma_smaller_fits(small.lora_a, large.lora_a);
    lemma_smaller_fits(small.lora_g, large.lora_g);
    lemma_smaller_fits(small.lora_v, large.lora_v);
    lemma_smaller_fits(small.lens, large.lens);
}

/// Working memory that was allocated for a pass has room for a smaller one.
proof fn lemma_work_room(next: usize, small: PassShapes, large: PassShapes)
    requires
        large.fits(),
        pass_within(small, large),
    ensures
        work_view_error(work_at(next, large), small) is None,
        temp_view_error(temp_at(next, large), small) is None,
{
    lemma_pass_within(small, large);
    reveal(resize_error);
    reveal(work_at);
    reveal(work_view_error);
    assert(forall|n: usize| shift_view_error(#[trigger] shift_at(n, large), small) is None) by {
        reveal(shift_at);
        reveal(shift_view_error);
    }
    assert(forall|n: usize| att_view_error(#[trigger] att_at(n, large), small) is None) by {
        reveal(att_at);
        reveal(att_view_error);
    }
    assert(forall|n: usize| wkv_view_error(#[trigger] wkv_at(n, large), small) is None) by {
        reveal(wkv_at);
        reveal(wkv_view_error);
    }
    assert(forall|n: usize| inner_view_error(#[trigger] inner_at(n, large), small) is None) by {
        reveal(inner_at);
        reveal(inner_view_error);
    }
    reveal(temp_at);
    reveal(temp_view_error);
}

/// Working memory of the chunked attention has room for a smaller pass.
proof fn lemma_fla_room(next: usize, small: FlaShapes, large: FlaShapes)
    requires
        large.fits(),
        within(small.token, large.token),
        within(small.matrix, large.matrix),
        within(small.state, large.state),
    ensures
        small.fits(),
        fla_view_error(fla_at(next, large), small) is None,
{
    lemma_smaller_fits(small.token, large.token);
    lemma_smaller_fits(small.matrix, large.matrix);
    lemma_smaller_fits(small.state, large.state);
    reveal(resize_error);
    reveal(fla_at);
    reveal(fla_view_error);
}

/// Fewer tokens make no more chunks.
proof fn lemma_fewer_chunks(t: int, max: int, c: int)
    requires
        0 <= t <= max,
        c > 0,
    ensures
        0 <= spec_ceil_div(t, c) <= spec_ceil_div(max, c),
{
    lemma_ceil_div(t, c);
    vstd::arithmetic::div_mod::lemma_div_is_ordered(t + c - 1, max + c - 1, c);
}

/// A pass within the configuration of the working memory finds its views: nothing there is
/// refused.
pub proof fn law_configured_pass_has_room(
    sc: ScratchSpec,
    info: Rwkv7ModelInfo,
    mode: DispatchMode,
    lens: Seq<usize>,
    t: usize,
    b: usize,
)
    requires
        sc.made_for(info),
        t <= sc.config.max_prefill_chunk,
        b <= sc.config.batch_size,
        lens.len() == b,
    ensures
        open_error(info, mode, sc, lens, t, b) is None,
        temp_view_error(sc.temp, PassShapes::of(info, sc.lora_dims, t, b)) is None,
        PassShapes::of(info, sc.lora_dims, t, b).fits(),
        fla_pass_fits(info.head_size, info.n_head, sc.config.fla_chunk_size, t, b),
{
    reveal(ScratchSpec::placed_at);
    let next = choose|next: usize| #[trigger] sc.placed_at(next, info);
    let base = next + 3 * info.n_layer;
    let c = sc.config.fla_chunk_size;
    let large = full_shapes(info, sc.lora_dims, sc.config);
    let small = PassShapes::of(info, sc.lora_dims, t, b);
    lemma_pass_within(small, large);
    lemma_work_room(base as usize, small, large);
    lemma_work_room((base + 36) as usize, small, large);
    lemma_fewer_chunks(t as int, sc.config.max_prefill_chunk as int, c as int);
    lemma_product_grows(
        b as int,
        spec_ceil_div(t as int, c as int),
        sc.config.batch_size as int,
        spec_ceil_div(sc.config.max_prefill_chunk as int, c as int),
    );
    let fla_large = full_fla_shapes(info, sc.config);
    let fla_small = fla_pass_shapes(info.head_size, info.n_head, c, t, b);
    lemma_fla_room((base + 41) as usize, fla_small, fla_large);
    reveal(open_error);
    reveal(resize_error);
    reveal(fill_error);
    assert(b * 1 * 1 * 1 == b);
}

/// A sum of lengths is at least the longest, and at most as if all were as long as `most`.
proof fn lemma_total_between(lens: Seq<usize>, most: int)
    requires
        0 <= most,
        forall|i: int| 0 <= i < lens.len() ==> #[trigger] lens[i] <= most,
    ensures
        longest(lens) <= total(lens) <= lens.len() * most,
    decreases lens.len(),
{
    if lens.len() > 0 {
        let rest = lens.drop_last();
        assert forall|i: int| 0 <= i < rest.len() implies #[trigger] rest[i] <= most by {
            assert(rest[i] == lens[i]);
        }
        lemma_total_between(rest, most);
        assert(lens[lens.len() - 1] <= most);
        let n = rest.len() as int;
        assert(n * most + most == (n + 1) * most) by (nonlinear_arith);
    } else {
        assert(0 * most == 0);
    }
}

/// Whether the sequences of a batch are such that a model can look up every token: the
/// embedding table has a row for each.
pub open spec fn in_vocabulary(model: Rwkv7Model, rows: Seq<Seq<u32>>) -> bool {
    &&& model.embed.n_embd == model.info.n_embd
    &&& model.embed.w@.len() == model.info.n_vocab * model.info.n_embd
    &&& model.info.n_vocab > 0
    &&& forall|i: int| 0 <= i < rows.len() ==> (#[trigger] rows[i]).len() <= usize::MAX
    &&& forall|i: int, k: int|
        0 <= i < rows.len() && 0 <= k < rows[i].len() ==> (#[trigger] rows[i][k])
            < model.info.n_vocab
}

/// The rows that a pass takes from a batch that is not refused: of one length, within the
/// configuration.
proof fn lemma_rows_of_a_pass(
    name: Seq<char>,
    model: Rwkv7Model,
    config: HipRuntimeConfig,
    rows: Seq<Seq<u32>>,
)
    requires
        batch_error(name, Some(config), lens_of(rows)) is None,
        in_vocabulary(model, rows),
    ensures
        ({
            let taken = pass_rows(rows);
            let t = taken[0].len() as int;
            &&& 0 < taken.len() == rows.len() <= config.batch_size
            &&& 1 <= t <= config.max_prefill_chunk
            &&& t == longest(lens_of(rows))
            &&& t > 1 ==> rows.len() * t <= config.max_prefill_chunk
            &&& rows.len() * t <= usize::MAX
            &&& total(lens_of(rows)) <= rows.len() * t
            &&& forall|i: int| 0 <= i < taken.len() ==> (#[trigger] taken[i]).len() == t
            &&& forall|i: int, k: int|
                0 <= i < taken.len() && 0 <= k < t ==> (#[trigger] taken[i][k])
                    < model.info.n_vocab
            &&& forall|i: int| 0 <= i < rows.len() ==> #[trigger] lens_of(rows)[i] <= t
        }),
{
    reveal(batch_error);
    let lens = lens_of(rows);
    let m = longest(lens) as int;
    lemma_longest(lens);
    lemma_total_between(lens, m);
    let taken = pass_rows(rows);
    let n = rows.len() as int;
    assert forall|i: int, k: int| 0 <= i < taken.len() && 0 <= k < m implies (
    #[trigger] taken[i][k]) < model.info.n_vocab by {
        if k < rows[i].len() {
            assert(rows[i][k] < model.info.n_vocab);
        }
    }
    assert(m <= n * m) by (nonlinear_arith)
        requires
            n >= 1,
            m >= 0,
    ;
    if n == 1 {
        assert(1 * m == m);
        assert(lens.drop_last() =~= Seq::<usize>::empty());
        assert(total(lens.drop_last()) == 0);
        assert(total(lens) == lens[0]);
    } else if m == 1 {
        assert(n * 1 == n);
    }
}

/// Cumulative lengths of a pass: they do not fall, and end within the tokens of the pass.
proof fn lemma_sizes_fit(c: usize, t: usize, b: usize, lens: Seq<usize>)
    requires
        c > 0,
        1 <= b < usize::MAX,
        b * t <= i32::MAX,
        t <= i32::MAX,
        lens.len() == b,
        forall|i: int| 0 <= i < lens.len() ==> #[trigger] lens[i] <= t,
    ensures
        fla_sizes_fit(c, t, b, lens),
{
    let cu = cu_seqlens(lens, t, b);
    assert(lens[0] <= t);
    let n = (cu.len() - 1) as nat;
    if b == 1 {
        assert(cu[1] == lens[0]);
        assert(cu.len() == 2);
    } else {
        assert forall|i: int| 0 <= i < cu.len() implies #[trigger] cu[i] == i * t by {
            assert(0 <= i * t <= b * t) by (nonlinear_arith)
                requires
                    0 <= i <= b,
                    0 <= t,
            ;
        }
        assert forall|i: int, j: int| 0 <= i <= j < cu.len() implies #[trigger] cu[i]
            <= #[trigger] cu[j] by {
            assert(i * t <= j * t) by (nonlinear_arith)
                requires
                    0 <= i <= j,
                    0 <= t,
            ;
        }
    }
    lemma_chunks_before(cu, c as int, n);
}

/// A batch that is not refused meets everything that a pass asks for.
pub proof fn law_configured_batch_is_ready(
    name: Seq<char>,
    model: Rwkv7Model,
    mode: DispatchMode,
    sc: ScratchSpec,
    rows: Seq<Seq<u32>>,
)
    requires
        model.sound(),
        sc.made_for(model.info),
        sc.config.max_prefill_chunk <= i32::MAX,
        sc.config.batch_size <= i32::MAX,
        in_vocabulary(model, rows),
        batch_error(name, Some(sc.config), lens_of(rows)) is None,
    ensures
        request_ready(name, model, mode, Some(sc), rows),
{
    reveal(batch_error);
    reveal(dispatch_ready);
    let info = model.info;
    let lens = lens_of(rows);
    let taken = pass_rows(rows);
    let t = taken[0].len() as usize;
    let b = rows.len() as usize;
    lemma_rows_of_a_pass(name, model, sc.config, rows);
    law_configured_pass_has_room(sc, info, mode, lens, t, b);
    lemma_made_for_states(sc, info);
    if t == 1 {
        assert(b * 1 == b);
    }
    lemma_sizes_fit(sc.config.fla_chunk_size, t, b, lens);
    let e = info.n_embd as int;
    let most = sc.config.max_prefill_chunk as int;
    let wide = sc.config.batch_size as int;
    assert(taken.len() * t * e <= sc.emb_staging.len()) by {
        assert(sc.emb_staging.len() == e * most * wide * 1);
        lemma_product_grows(t as int, b as int, most, wide);
        lemma_product_grows(e, t * b, e, most * wide);
        assert(b * t * e == e * (t * b) && e * most * wide * 1 == e * (most * wide))
            by (nonlinear_arith);
    }
    assert forall|i: int, k: int| 0 <= i < taken.len() && 0 <= k < t implies k < taken[i].len()
        && (#[trigger] taken[i][k]) * e + e <= info.n_vocab * e by {
        let x = taken[i][k] as int;
        let v = info.n_vocab as int;
        assert(taken[i].len() == t);
        assert(x * e + e <= v * e) by (nonlinear_arith)
            requires
                0 <= x < v,
                0 <= e,
        ;
    }
}

/// The views of a pass have its shapes.
pub proof fn lemma_pass_of(
    info: Rwkv7ModelInfo,
    map: Map<HipHook, usize>,
    sc: ScratchSpec,
    lens: Seq<usize>,
    t: usize,
    b: usize,
)
    ensures
        pass_of(info, map, sc, lens, t, b).laid_out(sc.lora_dims, t, b),
{
    reveal(PassSpec::laid_out);
    reveal(work_view);
    reveal(shift_view);
    reveal(att_view);
    reveal(wkv_view);
    reveal(inner_view);
    reveal(temp_view);
}

/// The states in the working memory have room for those of a pass within its configuration.
pub proof fn lemma_states_roomy(sc: ScratchSpec, info: Rwkv7ModelInfo, t: usize, b: usize)
    requires
        sc.made_for(info),
        t <= sc.config.max_prefill_chunk,
        b <= sc.config.batch_size,
    ensures
        sc.state.roomy(PassShapes::of(info, sc.lora_dims, t, b), info.n_layer as int),
{
    let small = PassShapes::of(info, sc.lora_dims, t, b);
    let large = full_shapes(info, sc.lora_dims, sc.config);
    lemma_made_for_states(sc, info);
    lemma_smaller_fits(small.state, large.state);
    lemma_smaller_fits(small.wkv_state, large.wkv_state);
}

/// A pass over no more sequences than the working memory was made for, each of the same number
/// of tokens and within the configuration, succeeds where the weights have the right shapes. It
/// makes no buffers but the lists of indices of the chunked attention.
pub proof fn law_pass_succeeds(
    s: Run,
    model: Rwkv7Model,
    map: Map<HipHook, usize>,
    mode: DispatchMode,
    sc: ScratchSpec,
    rows: Seq<Seq<u32>>,
    lens: Seq<usize>,
)
    requires
        s.error is None,
        s.stream.next + 3 * model.info.n_layer <= usize::MAX,
        model.shaped(sc.lora_dims),
        sc.made_for(model.info),
        0 < rows.len() <= sc.config.batch_size,
        1 <= rows[0].len() <= sc.config.max_prefill_chunk,
        rows.len() * rows[0].len() <= i32::MAX,
        lens.len() == rows.len(),
        forall|i: int| 0 <= i < lens.len() ==> #[trigger] lens[i] <= rows[0].len(),
    ensures
        ({
            let t = rows[0].len() as usize;
            let choice = choice_of(model.info, mode, sc, lens, t, rows.len() as usize);
            goes_on(
                s,
                dispatch_run(s, model, map, mode, sc, rows, lens),
                model.info.n_layer * lists_made(choice),
            )
        }),
{
    let info = model.info;
    let lora = sc.lora_dims;
    let t = rows[0].len() as usize;
    let b = rows.len() as usize;
    let n = info.n_layer as nat;
    let p = pass_of(info, map, sc, lens, t, b);
    let choice = choice_of(info, mode, sc, lens, t, b);
    law_configured_pass_has_room(sc, info, mode, lens, t, b);
    lemma_open_error(s, info, mode, sc, lens, t, b);
    lemma_pass_of(info, map, sc, lens, t, b);
    assert(b <= b * t && t <= b * t) by (nonlinear_arith)
        requires
            b >= 1,
            t >= 1,
    ;
    lemma_sizes_fit(sc.config.fla_chunk_size, t, b, lens);
    let s0 = open_run(s, info, mode, sc, lens, t, b);
    assert(goes_on(s, s0, 0)) by {
        reveal(open_run);
        reveal(views_run);
    }
    assert(choice_fits(choice, info, t, b)) by {
        reveal(FlaWkvSpec::laid_out);
        reveal(fla_view);
    }
    let staging = staging_after(model, mode, sc, rows, lens);
    let s1 = embed_upload(s0, staging, p.w.shift.x).check(temp_view_error(sc.temp, p.sh));
    let s2 = p.prober.channels(s1, HipHook::PostEmbed, p.w.shift.x, info.n_embd);
    assert(goes_on(s0, s2, 0));
    lemma_states_roomy(sc, info, t, b);
    lemma_layers(s2, p, model, n, mode.forms(), choice, sc.state, lora, t, b);
    let s3 = layers_run(s2, p, model, n, mode.forms(), choice, sc.state);
    let logits = sc.logits.with_shape(p.sh.out);
    let logits_f32 = sc.logits_f32.with_shape(p.sh.out);
    lemma_output_head(s3, p, model.head, logits, logits_f32, lora, t, b);
    reveal(dispatch_run);
}

/// Loading a state, or resetting it, always goes on.
proof fn lemma_load_state(s: Run, sc: ScratchSpec, data: Option<StateData>, n: nat)
    requires
        s.error is None,
    ensures
        goes_on(s, load_state_run(s, sc.state, data, n), 0),
{
}

/// A pass over a batch within the configuration has a 32-bit number of tokens.
proof fn lemma_batch_tokens(config: HipRuntimeConfig, rows: Seq<Seq<u32>>)
    requires
        config.max_prefill_chunk <= i32::MAX,
        config.batch_size <= i32::MAX,
        rows.len() <= config.batch_size,
        longest(lens_of(rows)) > 1 ==> rows.len() * longest(lens_of(rows))
            <= config.max_prefill_chunk,
        longest(lens_of(rows)) >= 1,
    ensures
        rows.len() * longest(lens_of(rows)) <= i32::MAX,
{
    if longest(lens_of(rows)) == 1 {
        assert(rows.len() * 1 == rows.len());
    }
}

/// A step over a batch that is not refused succeeds where the weights have the right shapes.
pub proof fn law_step_succeeds(
    s: StreamSpec,
    model: Rwkv7Model,
    map: Map<HipHook, usize>,
    sc: ScratchSpec,
    rows: Seq<Seq<u32>>,
    data: Option<StateData>,
)
    requires
        s.next + 3 * model.info.n_layer <= usize::MAX,
        model.sound(),
        model.shaped(sc.lora_dims),
        sc.made_for(model.info),
        sc.config.max_prefill_chunk <= i32::MAX,
        sc.config.batch_size <= i32::MAX,
        in_vocabulary(model, rows),
        batch_error("step"@, Some(sc.config), lens_of(rows)) is None,
        state_error(data, rows.len()) is None,
        data is Some ==> data->0.covers(model.info.n_layer as nat),
    ensures
        step_ready(model, Some(sc), rows, data),
        step_run(Run::start(s), model, map, Some(sc), rows, data).error is None,
{
    reveal(batch_error);
    let lens = lens_of(rows);
    let n = model.info.n_layer as nat;
    let mode = DispatchMode::ByLength;
    lemma_rows_of_a_pass("step"@, model, sc.config, rows);
    law_configured_batch_is_ready("step"@, model, mode, sc, rows);
    lemma_batch_sizes(sc, model.info, rows.len() as int);
    lemma_batch_tokens(sc.config, rows);
    lemma_load_state(Run::start(s), sc, data, n);
    let loaded = load_state_run(Run::start(s), sc.state, data, n);
    law_pass_succeeds(loaded, model, map, mode, sc, pass_rows(rows), lens);
}

/// A pass that leaves the state on the device succeeds over a batch that is not refused,
/// where the weights have the right shapes.
pub proof fn law_resident_pass_succeeds(
    s: StreamSpec,
    name: Seq<char>,
    model: Rwkv7Model,
    map: Map<HipHook, usize>,
    mode: DispatchMode,
    sc: ScratchSpec,
    rows: Seq<Seq<u32>>,
)
    requires
        s.next + 3 * model.info.n_layer <= usize::MAX,
        model.sound(),
        model.shaped(sc.lora_dims),
        sc.made_for(model.info),
        sc.config.max_prefill_chunk <= i32::MAX,
        sc.config.batch_size <= i32::MAX,
        in_vocabulary(model, rows),
        batch_error(name, Some(sc.config), lens_of(rows)) is None,
    ensures
        request_ready(name, model, mode, Some(sc), rows),
        resident_run(Run::start(s), name, model, map, mode, Some(sc), rows).error is None,
{
    reveal(batch_error);
    lemma_rows_of_a_pass(name, model, sc.config, rows);
    lemma_batch_tokens(sc.config, rows);
    law_configured_batch_is_ready(name, model, mode, sc, rows);
    law_pass_succeeds(Run::start(s), model, map, mode, sc, pass_rows(rows), lens_of(rows));
}

/// One token per sequence takes the fused attention, more tokens the chunked one.
pub proof fn law_two_tiers(
    info: Rwkv7ModelInfo,
    sc: ScratchSpec,
    lens: Seq<usize>,
    t: usize,
    b: usize,
)
    requires
        t >= 1,
    ensures
        t == 1 <==> choice_of(info, DispatchMode::ByLength, sc, lens, t, b) is FusedT1,
        t > 1 <==> choice_of(info, DispatchMode::ByLength, sc, lens, t, b) is Fla,
{
}

/// Prefill on its own always takes the chunked attention.
pub proof fn law_prefill_is_chunked(
    info: Rwkv7ModelInfo,
    sc: ScratchSpec,
    lens: Seq<usize>,
    t: usize,
    b: usize,
)
    ensures
        choice_of(info, DispatchMode::AlwaysFla, sc, lens, t, b) is Fla,
{
}

/// The logits that a pass asks for are just those that its batch needs: a reply of that many
/// single precision values always gives the logits of every real token.
pub proof fn law_asked_logits_suffice(
    name: Seq<char>,
    model: Rwkv7Model,
    sc: ScratchSpec,
    rows: Seq<Seq<u32>>,
    reply: DataSpec,
)
    requires
        sc.made_for(model.info),
        in_vocabulary(model, rows),
        batch_error(name, Some(sc.config), lens_of(rows)) is None,
        is_f32(reply, asked_logits(model.info, rows) as int),
    ensures
        logits_plan(model.info, rows).answered_by(reply),
        logits_plan(model.info, rows).read(reply).len() == total(lens_of(rows))
            * model.info.n_vocab,
{
    reveal(batch_error);
    let info = model.info;
    let lens = lens_of(rows);
    let t = pass_rows(rows)[0].len() as usize;
    let b = rows.len() as usize;
    lemma_rows_of_a_pass(name, model, sc.config, rows);
    law_configured_pass_has_room(sc, info, DispatchMode::ByLength, lens, t, b);
    lemma_fits_bounds(PassShapes::of(info, sc.lora_dims, t, b).out);
    let v = info.n_vocab as int;
    assert(v * t * b * 1 == (b * t) * v) by (nonlinear_arith);
    law_logits_for_every_token(logits_plan(info, rows), reply);
}

} // verus!
