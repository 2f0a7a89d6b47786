//! When a forward pass in chunks succeeds.
use crate::buffers::{temp_at, work_view};
use crate::memory::{
    bits_of, lemma_after_both, lemma_data_at, lemma_one_more, lemma_untouched, recorded, touches,
    Memory,
};
use crate::model::batch::lens_of;
use crate::model::dispatch::{pass_of, DispatchMode};
use crate::model::dispatch_helpers::embed_upload;
use crate::model::dispatch_laws::{
    law_configured_pass_has_room, lemma_pass_of, lemma_states_roomy,
};
use crate::model::forward::{
    f16_data, f32_data, masked_forms, place_run, place_state_run, state_placed,
};
use crate::model::forward_chunks::{
    chunk_row, real_part, stage_tokens_run, staged_tokens, token_uploads, too_long_at, uneven_at,
};
use crate::model::forward_inner::{
    forward_inner_run, forward_head, forward_open_error, forward_open_run, forward_rest, forward_staging,
    lemma_forward_open_error, masked_choice, spare_view_error, LogitsPath,
};
use crate::model::forward_task::{
    chunk_run, chunk_start, first_task, forward_error, forward_run, padded_run, padded_task,
    TaskSpec,
};
use crate::model::pass::{layers_run, views_run};
use crate::model::pass_laws::{choice_fits, goes_on, lemma_layers, lemma_output_head, lists_made};
use crate::model::ready::lemma_batch_sizes;
use crate::model::state::{law_new_state_is_sized, StateData};
use crate::model::{Rwkv7Model, Rwkv7ModelInfo};
use crate::run::Run;
use crate::scratch::{full_shapes, ScratchSpec};
use crate::shapes::PassShapes;
use crate::stream::{CommandOf, CommandSpec, DataSpec, Elem, StreamSpec};
use crate::tensor::{
    lemma_smaller_fits, resize_error, zero_command, DevicePtr, TensorShape, TensorSpec, U32,
};
use vstd::prelude::*;

verus! {

proof fn lemma_place(s: Run, shape: TensorShape, elem: Elem, data: Seq<DataSpec>, n: nat)
    requires
        s.error is None,
        s.stream.next + n <= usize::MAX,
    ensures
        goes_on(s, place_run(s, shape, elem, data, n), n as int),
    decreases n,
{
    reveal(Run::allocated);
    if n > 0 {
        lemma_place(s, shape, elem, data, (n - 1) as nat);
    }
}

/// A forward pass over rows of one length within the configuration succeeds where the weights
/// have the right shapes, from a state that has a part for every layer or from the one that
/// stays on the device.
pub proof fn law_forward_pass_succeeds(
    s: Run,
    model: Rwkv7Model,
    sc: ScratchSpec,
    rows: Seq<Seq<u32>>,
    lens: Seq<usize>,
    data: StateData,
    path: LogitsPath,
)
    requires
        s.error is None,
        s.stream.next + 6 * model.info.n_layer <= usize::MAX,
        model.shaped(sc.lora_dims),
        sc.made_for(model.info),
        0 < rows.len() <= sc.config.batch_size,
        rows[0].len() <= sc.config.max_prefill_chunk,
        lens.len() == rows.len(),
        data.sized(model.info),
    ensures
        forward_inner_run(s, model, sc, rows, lens, data, path).error is None,
{
    let info = model.info;
    let lora = sc.lora_dims;
    let n = info.n_layer as nat;
    let t = rows[0].len() as usize;
    let b = rows.len() as usize;
    let sh = PassShapes::of(info, lora, t, b);
    let p = pass_of(info, Map::empty(), sc, lens, t, b);
    let large = full_shapes(info, lora, sc.config);
    law_configured_pass_has_room(sc, info, DispatchMode::ByLength, lens, t, b);
    lemma_forward_open_room(sc, info, lens, t, b, path);
    lemma_forward_open_error(s, info, sc, lens, t, b, path);
    lemma_pass_of(info, Map::empty(), sc, lens, t, b);
    let s0 = forward_open_run(s, info, sc, lens, t, b, path);
    assert(goes_on(s, s0, 0)) by {
        reveal(forward_open_run);
        reveal(views_run);
    }
    let s1 = embed_upload(
        s0,
        forward_staging(model, sc, rows, lens, path),
        work_view(sc.work, sh).shift.x,
    );
    assert(goes_on(s0, s1, 0));
    let resident = sc.config.resident_state;
    let a_data = f16_data(data.att_shift_states);
    let f_data = f16_data(data.ffn_states);
    let w_data = f32_data(data.att_states);
    lemma_place(s1, sh.state, Elem::F16, a_data, n);
    let s2 = place_run(s1, sh.state, Elem::F16, a_data, n);
    lemma_place(s2, sh.state, Elem::F16, f_data, n);
    let s3 = place_run(s2, sh.state, Elem::F16, f_data, n);
    lemma_place(s3, sh.wkv_state, Elem::F32, w_data, n);
    let s4 = if resident {
        s1
    } else {
        place_state_run(s1, sh, data)
    };
    assert(s4.error is None);
    assert(s4.stream.next + 3 * n <= usize::MAX);
    let state = if resident {
        sc.state
    } else {
        state_placed(s1.stream.next, sh, data)
    };
    lemma_states_roomy(sc, info, t, b);
    assert(state.roomy(p.sh, n as int));
    lemma_spare_room(sc, info, t, b);
    let choice = masked_choice(sc, p.sh);
    assert(choice_fits(choice, info, t, b));
    let s5 = s4.check(spare_view_error(sc, p.sh));
    lemma_layers(s5, p, model, n, masked_forms(), choice, state, lora, t, b);
    assert(lists_made(choice) == 0 && n * 0 == 0);
    let s6 = layers_run(s5, p, model, n, masked_forms(), choice, state);
    let logits = sc.logits.with_shape(p.sh.out);
    let wide = sc.logits_f32.with_shape(p.sh.out);
    lemma_output_head(s6, p, model.head, logits, wide, lora, t, b);
    assert(forward_rest(s4, model, sc, lens, t, b, state, path).error is None) by {
        reveal(forward_head);
    }
    reveal(forward_inner_run);
}

/// A pass within the configuration of the working memory finds its views.
proof fn lemma_forward_open_room(
    sc: ScratchSpec,
    info: Rwkv7ModelInfo,
    lens: Seq<usize>,
    t: usize,
    b: usize,
    path: LogitsPath,
)
    requires
        sc.made_for(info),
        t <= sc.config.max_prefill_chunk,
        b <= sc.config.batch_size,
        lens.len() == b,
    ensures
        forward_open_error(info, sc, lens, t, b, path) is None,
{
    law_configured_pass_has_room(sc, info, DispatchMode::ByLength, lens, t, b);
    reveal(crate::model::dispatch::open_error);
    reveal(forward_open_error);
}

/// The tensors that the new states are written to have room.
proof fn lemma_spare_room(sc: ScratchSpec, info: Rwkv7ModelInfo, t: usize, b: usize)
    requires
        sc.made_for(info),
        t <= sc.config.max_prefill_chunk,
        b <= sc.config.batch_size,
    ensures
        spare_view_error(sc, PassShapes::of(info, sc.lora_dims, t, b)) is None,
{
    let small = PassShapes::of(info, sc.lora_dims, t, b);
    let large = full_shapes(info, sc.lora_dims, sc.config);
    lemma_smaller_fits(small.state, large.state);
    lemma_smaller_fits(small.wkv_state, large.wkv_state);
    lemma_smaller_fits(small.std, large.std);
    reveal(ScratchSpec::placed_at);
    reveal(spare_view_error);
    reveal(resize_error);
    reveal(temp_at);
}

/// Rows of one length are even, and lengths within it are not too long.
pub proof fn lemma_even(rows: Seq<Seq<u32>>, lens: Seq<usize>, t: nat, i: nat)
    requires
        i <= rows.len() == lens.len(),
        forall|k: int| 0 <= k < rows.len() ==> (#[trigger] rows[k]).len() == rows[0].len(),
        forall|k: int| 0 <= k < lens.len() ==> #[trigger] lens[k] <= t,
    ensures
        uneven_at(rows, i) == rows.len(),
        too_long_at(lens, t, i) == lens.len(),
    decreases rows.len() - i,
{
    if i < rows.len() {
        assert(rows[i as int].len() == rows[0].len());
        assert(lens[i as int] <= t);
        lemma_even(rows, lens, t, i + 1);
    }
}

/// Every chunk of a forward pass succeeds where the weights have the right shapes.
pub proof fn law_chunk_succeeds(s: Run, model: Rwkv7Model, sc: ScratchSpec, task: TaskSpec)
    requires
        s.error is None,
        s.stream.next + 6 * model.info.n_layer <= usize::MAX,
        model.shaped(sc.lora_dims),
        sc.made_for(model.info),
        0 < task.rows.len() <= sc.config.batch_size,
        task.chunk == sc.config.max_prefill_chunk,
        task.chunk > 0,
        task.data.sized(model.info),
    ensures
        chunk_run(s, model, sc, task).error is None,
{
    let rows = task.chunk_rows();
    let lens = task.lens();
    assert forall|k: int| 0 <= k < rows.len() implies (#[trigger] rows[k]).len()
        == rows[0].len() by {}
    lemma_even(rows, lens, task.width() as nat, 0);
    let s1 = chunk_start(s, sc, task);
    assert(goes_on(s, s1, 0));
    law_forward_pass_succeeds(s1, model, sc, rows, lens, task.data, LogitsPath::Widened);
    reveal(chunk_run);
}

/// A forward pass that is not refused succeeds with its first chunk, from zero or from a state
/// of the right sizes, where the weights have the right shapes.
pub proof fn law_forward_succeeds(
    s: StreamSpec,
    model: Rwkv7Model,
    sc: ScratchSpec,
    rows: Seq<Seq<u32>>,
    data: Option<StateData>,
)
    requires
        s.next + 6 * model.info.n_layer <= usize::MAX,
        model.shaped(sc.lora_dims),
        sc.made_for(model.info),
        sc.config.max_prefill_chunk > 0,
        forward_error(Some(sc.config), lens_of(rows), data) is None,
        data is Some ==> data->0.sized(model.info),
    ensures
        forward_run(Run::start(s), model, Some(sc), rows, data).error is None,
{
    reveal(first_task);
    let task = first_task(model.info, sc, rows, data);
    lemma_batch_sizes(sc, model.info, rows.len() as int);
    law_new_state_is_sized(model.info, rows.len() as usize);
    law_chunk_succeeds(Run::start(s), model, sc, task);
}

/// So does one over sequences padded to the longest, of any length.
pub proof fn law_padded_pass_succeeds(
    s: StreamSpec,
    model: Rwkv7Model,
    sc: ScratchSpec,
    rows: Seq<Seq<u32>>,
    data: StateData,
)
    requires
        s.next + 6 * model.info.n_layer <= usize::MAX,
        model.shaped(sc.lora_dims),
        sc.made_for(model.info),
        sc.config.max_prefill_chunk > 0,
        forward_error(Some(sc.config), lens_of(rows), Some(data)) is None,
        data.sized(model.info),
    ensures
        padded_run(Run::start(s), model, Some(sc), rows, data).error is None,
{
    reveal(first_task);
    law_chunk_succeeds(Run::start(s), model, sc, padded_task(model.info, sc, rows, data));
}

/// What staging leaves in the token memory after the first `n` sequences.
proof fn lemma_staged_cells(
    m: Memory,
    tokens: TensorSpec,
    rows: Seq<Seq<u32>>,
    start: int,
    c: int,
    n: nat,
    i: int,
)
    requires
        0 < c,
        0 <= start,
        n <= rows.len(),
        tokens.view.offset == 0,
        rows.len() * c <= usize::MAX,
        0 <= i < rows.len() * c,
        (m.cells)(tokens.buffer, i) == 0,
    ensures
        (m.after_all(token_uploads(tokens, rows, start, c, n)).cells)(tokens.buffer, i) == (
        if i / c < n {
            chunk_row(rows[i / c], start, c)[i % c]
        } else {
            0u32
        }),
    decreases n,
{
    lemma_one_more(m, Seq::empty(), CommandOf::Synchronize);
    if n > 0 {
        let b = n - 1;
        lemma_staged_cells(m, tokens, rows, start, c, b as nat, i);
        let before = token_uploads(tokens, rows, start, c, b as nat);
        let part = real_part(rows[b], start, c);
        assert(0 <= b * c && b * c + c <= rows.len() * c) by (nonlinear_arith)
            requires
                0 <= b < rows.len(),
                0 < c,
        ;
        let dst = DevicePtr { buffer: tokens.buffer, offset: (tokens.view.offset + b * c) as usize };
        let up: CommandSpec = CommandOf::Upload { dst, data: DataSpec::U32(part) };
        lemma_one_more(m, before, up);
        lemma_place_of(i, c, b);
        if i / c == b {
            assert(i - b * c == i % c);
            if i % c < part.len() {
                assert(part[i % c] == chunk_row(rows[b], start, c)[i % c]);
            } else {
                assert(chunk_row(rows[b], start, c)[i % c] == 0);
            }
        }
    } else {
        assert(i / c >= 0) by (nonlinear_arith)
            requires
                i >= 0,
                c > 0,
        ;
    }
}

/// Which sequence a place in the token memory belongs to.
proof fn lemma_place_of(i: int, c: int, b: int)
    requires
        0 <= i,
        0 < c,
        0 <= b,
    ensures
        i / c == b <==> b * c <= i < b * c + c,
        i / c == b ==> i % c == i - b * c,
        i / c < b <==> i < b * c,
        0 <= i % c < c,
{
    let q = i / c;
    let r = i % c;
    assert(i == c * q + r && 0 <= r < c) by {
        vstd::arithmetic::div_mod::lemma_fundamental_div_mod(i, c);
    }
    assert(c * q == q * c) by (nonlinear_arith);
    if q < b {
        assert(q * c + c <= b * c) by (nonlinear_arith)
            requires
                q < b,
                0 < c,
        ;
    } else if q > b {
        assert(b * c + c <= q * c) by (nonlinear_arith)
            requires
                b < q,
                0 < c,
        ;
    }
}

/// The tokens that a chunk stages come back from the device as they were staged: behind every
/// sequence, and behind the batch, there are zeros.
pub proof fn law_staged_tokens_come_back(
    s: StreamSpec,
    m: Memory,
    tokens: TensorSpec,
    rows: Seq<Seq<u32>>,
    start: int,
    c: int,
)
    requires
        0 < c,
        0 <= start,
        tokens.view.offset == 0,
        rows.len() * c <= tokens.len() <= usize::MAX,
    ensures
        ({
            let staged = stage_tokens_run(Run::start(s), tokens, rows, start, c);
            m.replies(recorded(s, staged.stream)) == seq![
                DataSpec::U32(staged_tokens(rows, start, c, tokens.len())),
            ]
        }),
{
    let none = Seq::<CommandSpec>::empty();
    let zero = zero_command::<U32>(tokens);
    let ups = token_uploads(tokens, rows, start, c, rows.len());
    let down: CommandSpec = CommandOf::Download {
        src: tokens.ptr(),
        elem: Elem::U32,
        len: tokens.len() as usize,
    };
    let staged = stage_tokens_run(Run::start(s), tokens, rows, start, c);
    let front = none.push(zero) + ups;
    assert(recorded(s, staged.stream) =~= front.push(down));
    lemma_one_more(m, none, zero);
    lemma_one_more(m, front, down);
    lemma_after_both(m, none.push(zero), ups);
    lemma_no_replies(m, none.push(zero), tokens, rows, start, c, rows.len());
    let cleared = m.after_all(none.push(zero));
    let after = cleared.after_all(ups);
    let want = staged_tokens(rows, start, c, tokens.len());
    assert forall|i: int| 0 <= i < tokens.len() implies #[trigger] (after.cells)(
        tokens.ptr().buffer,
        tokens.ptr().offset + i,
    ) == bits_of(DataSpec::U32(want), i) by {
        lemma_place_of(i, c, rows.len() as int);
        if i < rows.len() * c {
            lemma_staged_cells(cleared, tokens, rows, start, c, rows.len(), i);
        } else {
            lemma_uploads_within(tokens, rows, start, c, rows.len(), i);
            lemma_untouched(cleared, ups, tokens.buffer, i);
        }
    }
    lemma_data_at(after, tokens.ptr(), DataSpec::U32(want));
    assert(m.replies(front.push(down)) =~= seq![DataSpec::U32(want)]);
}

/// Uploads of tokens send nothing back.
proof fn lemma_no_replies(
    m: Memory,
    front: Seq<CommandSpec>,
    tokens: TensorSpec,
    rows: Seq<Seq<u32>>,
    start: int,
    c: int,
    n: nat,
)
    ensures
        m.replies(front + token_uploads(tokens, rows, start, c, n)) == m.replies(front),
    decreases n,
{
    let ups = token_uploads(tokens, rows, start, c, n);
    if n == 0 {
        assert(front + ups =~= front);
    } else {
        let b = n - 1;
        lemma_no_replies(m, front, tokens, rows, start, c, b as nat);
        let before = token_uploads(tokens, rows, start, c, b as nat);
        if ups.len() > before.len() {
            lemma_one_more(m, front + before, ups.last());
            assert((front + before).push(ups.last()) =~= front + ups);
        }
    }
}

/// Uploads of tokens stay within the memory of the batch.
proof fn lemma_uploads_within(
    tokens: TensorSpec,
    rows: Seq<Seq<u32>>,
    start: int,
    c: int,
    n: nat,
    i: int,
)
    requires
        0 < c,
        0 <= start,
        n <= rows.len(),
        tokens.view.offset == 0,
        rows.len() * c <= usize::MAX,
        rows.len() * c <= i,
    ensures
        forall|k: int|
            0 <= k < token_uploads(tokens, rows, start, c, n).len() ==> !touches(
                #[trigger] token_uploads(tokens, rows, start, c, n)[k],
                tokens.buffer,
                i,
            ),
    decreases n,
{
    if n > 0 {
        let b = n - 1;
        lemma_uploads_within(tokens, rows, start, c, b as nat, i);
        assert(0 <= b * c && b * c + c <= rows.len() * c) by (nonlinear_arith)
            requires
                0 <= b < rows.len(),
                0 < c,
        ;
        let all = token_uploads(tokens, rows, start, c, n);
        let before = token_uploads(tokens, rows, start, c, b as nat);
        assert forall|k: int| 0 <= k < all.len() implies !touches(
            #[trigger] all[k],
            tokens.buffer,
            i,
        ) by {
            if k < before.len() {
                assert(all[k] == before[k]);
            }
        }
    }
}

} // verus!
