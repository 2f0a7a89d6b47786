//! What reading the states on the device gives back after they were written or reset.
use crate::memory::{
    asks_back, bits_of, lemma_all_zero, lemma_downloads, lemma_one_more, lemma_round_trip,
    lemma_same_data, lemma_untouched, lemma_write_back, recorded, touches, Memory,
};
use crate::model::hip::{
    item_downloads, item_plan, item_uploads_f16, item_uploads_f32, read_state_run,
    write_state_run,
};
use crate::model::state::{shift_len, wkv_len, zero_state, StateData, StateLayout};
use crate::model::ready::lemma_batch_sizes;
use crate::model::step::{load_state_run, state_downloads, state_uploads, step_plan};
use crate::model::replies::{is_f16, is_f32, reply};
use crate::model::Rwkv7ModelInfo;
use crate::run::Run;
use crate::scratch::{
    full_shapes, lemma_made_for_states, reset_run, state_at, zero_list, ScratchSpec, StateSpec,
};
use crate::stream::{CommandOf, CommandSpec, DataSpec, Elem, StreamSpec};
use crate::tensor::{lemma_fits_bounds, zero_command, F16, F32};
use vstd::prelude::*;

verus! {

/// Every state lies in a buffer of its own, without gaps and from its start on.
pub open spec fn apart(state: StateSpec, n: int) -> bool {
    &&& state.att_shift.len() == n
    &&& state.ffn.len() == n
    &&& state.wkv.len() == n
    &&& forall|i: int, j: int|
        0 <= i < n && 0 <= j < n ==> (#[trigger] state.att_shift[i]).buffer != (
        #[trigger] state.ffn[j]).buffer
    &&& forall|i: int, j: int|
        0 <= i < n && 0 <= j < n ==> (#[trigger] state.att_shift[i]).buffer != (
        #[trigger] state.wkv[j]).buffer
    &&& forall|i: int, j: int|
        0 <= i < n && 0 <= j < n ==> (#[trigger] state.ffn[i]).buffer != (
        #[trigger] state.wkv[j]).buffer
    &&& forall|i: int, j: int|
        0 <= i < j < n ==> (#[trigger] state.att_shift[i]).buffer != (
        #[trigger] state.att_shift[j]).buffer
    &&& forall|i: int, j: int|
        0 <= i < j < n ==> (#[trigger] state.ffn[i]).buffer != (#[trigger] state.ffn[j]).buffer
    &&& forall|i: int, j: int|
        0 <= i < j < n ==> (#[trigger] state.wkv[i]).buffer != (#[trigger] state.wkv[j]).buffer
}

/// The states in a model's working memory lie in buffers of their own.
pub proof fn law_states_apart(sc: ScratchSpec, info: Rwkv7ModelInfo)
    requires
        sc.made_for(info),
    ensures
        apart(sc.state, info.n_layer as int),
        3 * info.n_layer <= usize::MAX,
{
    reveal(ScratchSpec::placed_at);
    reveal(state_at);
}

/// The addresses of the states of one sequence are machine integers.
proof fn lemma_item_ptrs(sc: ScratchSpec, info: Rwkv7ModelInfo, batch_idx: int)
    requires
        sc.made_for(info),
        0 <= batch_idx < sc.config.batch_size,
    ensures
        apart(sc.state, info.n_layer as int),
        3 * info.n_layer <= usize::MAX,
        0 <= wkv_len(info, 1) <= usize::MAX,
        0 <= batch_idx * wkv_len(info, 1),
        batch_idx * wkv_len(info, 1) + wkv_len(info, 1) <= full_shapes(
            info,
            sc.lora_dims,
            sc.config,
        ).wkv_state.spec_len() <= usize::MAX,
        0 <= batch_idx * info.n_embd,
        batch_idx * info.n_embd + info.n_embd <= full_shapes(
            info,
            sc.lora_dims,
            sc.config,
        ).state.spec_len() <= usize::MAX,
{
    law_states_apart(sc, info);
    let sh = full_shapes(info, sc.lora_dims, sc.config);
    lemma_fits_bounds(sh.wkv_state);
    lemma_fits_bounds(sh.state);
    let b = sc.config.batch_size as int;
    let hs = info.head_size as int;
    let nh = info.n_head as int;
    let w = hs * hs * nh;
    let c = info.n_embd as int;
    assert(wkv_len(info, 1) == w);
    assert(0 <= hs * hs) by (nonlinear_arith);
    assert(0 <= w) by (nonlinear_arith)
        requires
            0 <= hs * hs,
            0 <= nh,
            w == hs * hs * nh,
    ;
    assert(w * b == sh.wkv_state.spec_len());
    assert(0 <= batch_idx * w && batch_idx * w + w <= w * b) by (nonlinear_arith)
        requires
            0 <= w,
            0 <= batch_idx < b,
    ;
    assert(c * b == sh.state.spec_len());
    assert(0 <= batch_idx * c && batch_idx * c + c <= c * b) by (nonlinear_arith)
        requires
            0 <= c,
            0 <= batch_idx < b,
    ;
}

/// The commands that bring the state of one sequence to the device.
pub open spec fn item_uploads(
    state: StateSpec,
    info: Rwkv7ModelInfo,
    batch_idx: int,
    data: StateData,
) -> Seq<CommandSpec> {
    item_uploads_f32(state.wkv, batch_idx, wkv_len(info, 1) as usize, data.att_states)
        + item_uploads_f16(state.att_shift, batch_idx, info.n_embd, data.att_shift_states)
        + item_uploads_f16(state.ffn, batch_idx, info.n_embd, data.ffn_states)
}

/// The commands that ask for the state of one sequence.
pub open spec fn item_asks(state: StateSpec, info: Rwkv7ModelInfo, batch_idx: int) -> Seq<
    CommandSpec,
> {
    item_downloads(state.wkv, Elem::F32, batch_idx, wkv_len(info, 1) as usize) + item_downloads(
        state.att_shift,
        Elem::F16,
        batch_idx,
        info.n_embd,
    ) + item_downloads(state.ffn, Elem::F16, batch_idx, info.n_embd)
}

/// What writing and reading the state of a sequence record.
pub proof fn lemma_item_commands(
    s: StreamSpec,
    sc: ScratchSpec,
    info: Rwkv7ModelInfo,
    batch_idx: usize,
    data: StateData,
)
    requires
        batch_idx < sc.config.batch_size,
    ensures
        ({
            let w = write_state_run(Run::start(s), info, Some(sc), batch_idx, data);
            let r = read_state_run(Run::start(s), info, Some(sc), batch_idx);
            &&& w.error is None
            &&& r.error is None
            &&& recorded(s, w.stream) == item_uploads(sc.state, info, batch_idx as int, data).push(
                CommandOf::Synchronize,
            )
            &&& recorded(s, r.stream) == item_asks(sc.state, info, batch_idx as int).push(
                CommandOf::Synchronize,
            )
        }),
{
    let w = write_state_run(Run::start(s), info, Some(sc), batch_idx, data);
    let r = read_state_run(Run::start(s), info, Some(sc), batch_idx);
    assert(recorded(s, w.stream) =~= item_uploads(sc.state, info, batch_idx as int, data).push(
        CommandOf::Synchronize,
    ));
    assert(recorded(s, r.stream) =~= item_asks(sc.state, info, batch_idx as int).push(
        CommandOf::Synchronize,
    ));
}

/// The state of a sequence that was written comes back when it is read: all that a host state
/// of one sequence holds for the layers.
pub proof fn law_write_then_read(
    s: StreamSpec,
    m: Memory,
    sc: ScratchSpec,
    info: Rwkv7ModelInfo,
    batch_idx: usize,
    data: StateData,
)
    requires
        sc.made_for(info),
        batch_idx < sc.config.batch_size,
        data.batch_size == 1,
        data.sized(info),
    ensures
        ({
            let w = write_state_run(Run::start(s), info, Some(sc), batch_idx, data);
            let r = read_state_run(Run::start(w.stream), info, Some(sc), batch_idx);
            let replies = m.after_all(recorded(s, w.stream)).replies(recorded(w.stream, r.stream));
            &&& w.error is None
            &&& r.error is None
            &&& item_plan(info).answered_by(replies)
            &&& item_plan(info).spec_read(replies) == (StateData {
                v_first: None,
                layout: StateLayout::Decode,
                ..data
            })
        }),
{
    let n = info.n_layer as int;
    let b = batch_idx as int;
    let w = write_state_run(Run::start(s), info, Some(sc), batch_idx, data);
    let r = read_state_run(Run::start(w.stream), info, Some(sc), batch_idx);
    lemma_item_commands(s, sc, info, batch_idx, data);
    lemma_item_commands(w.stream, sc, info, batch_idx, data);
    lemma_item_ptrs(sc, info, b);
    let ups = item_uploads(sc.state, info, b, data);
    let downs = item_asks(sc.state, info, b);
    assert forall|k: int| 0 <= k < ups.len() implies asks_back(#[trigger] ups[k], downs[k]) by {
        if k < n {
            assert(data.att_states[k].len() == wkv_len(info, 1));
        } else if k < 2 * n {
            assert(data.att_shift_states[k - n].len() == shift_len(info, 1));
        } else {
            assert(data.ffn_states[k - 2 * n].len() == shift_len(info, 1));
        }
    }
    assert forall|j: int, k: int| 0 <= j < k < ups.len() implies (
    #[trigger] ups[j])->Upload_dst.buffer != (#[trigger] ups[k])->Upload_dst.buffer by {
        let x = sc.state.wkv;
        let y = sc.state.att_shift;
        let z = sc.state.ffn;
        if j < n {
            assert(ups[j]->Upload_dst.buffer == x[j].buffer);
        } else if j < 2 * n {
            assert(ups[j]->Upload_dst.buffer == y[j - n].buffer);
        } else {
            assert(ups[j]->Upload_dst.buffer == z[j - 2 * n].buffer);
        }
        if k < n {
            assert(ups[k]->Upload_dst.buffer == x[k].buffer);
        } else if k < 2 * n {
            assert(ups[k]->Upload_dst.buffer == y[k - n].buffer);
        } else {
            assert(ups[k]->Upload_dst.buffer == z[k - 2 * n].buffer);
        }
    }
    lemma_round_trip(m, ups, downs);
    lemma_one_more(m, ups, CommandOf::Synchronize);
    lemma_one_more(m.after_all(ups), downs, CommandOf::Synchronize);
    let replies = m.after_all(ups).replies(downs);
    let plan = item_plan(info);
    assert forall|i: int| 0 <= i < n implies #[trigger] reply(replies, 0, 1, i) == DataSpec::F32(
        data.att_states[i],
    ) by {
        assert(replies[i] == ups[i]->data);
    }
    assert forall|i: int| 0 <= i < n implies #[trigger] reply(replies, n, 1, i) == DataSpec::F16(
        data.att_shift_states[i],
    ) by {
        assert(replies[n + i] == ups[n + i]->data);
    }
    assert forall|i: int| 0 <= i < n implies #[trigger] reply(replies, 2 * n, 1, i)
        == DataSpec::F16(data.ffn_states[i]) by {
        assert(replies[2 * n + i] == ups[2 * n + i]->data);
    }
    let got = plan.spec_read(replies);
    assert(got.att_states =~= data.att_states);
    assert(got.att_shift_states =~= data.att_shift_states);
    assert(got.ffn_states =~= data.ffn_states);
}

/// Writing the state of one sequence leaves those of the others as they were: they read the
/// same before and after.
pub proof fn law_write_keeps_others(
    s: StreamSpec,
    m: Memory,
    sc: ScratchSpec,
    info: Rwkv7ModelInfo,
    written: usize,
    other: usize,
    data: StateData,
)
    requires
        sc.made_for(info),
        written < sc.config.batch_size,
        other < sc.config.batch_size,
        written != other,
        data.batch_size == 1,
        data.sized(info),
    ensures
        ({
            let w = write_state_run(Run::start(s), info, Some(sc), written, data);
            let before = read_state_run(Run::start(s), info, Some(sc), other);
            let after = read_state_run(Run::start(w.stream), info, Some(sc), other);
            m.after_all(recorded(s, w.stream)).replies(recorded(w.stream, after.stream))
                == m.replies(recorded(s, before.stream))
        }),
{
    let n = info.n_layer as int;
    let b = written as int;
    let o = other as int;
    let w = write_state_run(Run::start(s), info, Some(sc), written, data);
    lemma_item_commands(s, sc, info, written, data);
    lemma_item_commands(s, sc, info, other, data);
    lemma_item_commands(w.stream, sc, info, other, data);
    lemma_item_ptrs(sc, info, b);
    lemma_item_ptrs(sc, info, o);
    lemma_made_for_states(sc, info);
    let ups = item_uploads(sc.state, info, b, data);
    let downs = item_asks(sc.state, info, o);
    let after = m.after_all(ups);
    lemma_one_more(m, ups, CommandOf::Synchronize);
    lemma_one_more(m, downs, CommandOf::Synchronize);
    lemma_one_more(after, downs, CommandOf::Synchronize);
    lemma_downloads(m, downs);
    lemma_downloads(after, downs);
    let x = sc.state.wkv;
    let y = sc.state.att_shift;
    let z = sc.state.ffn;
    let wkv = wkv_len(info, 1);
    lemma_parts_apart(b, o, wkv);
    lemma_parts_apart(b, o, info.n_embd as int);
    assert forall|k: int| 0 <= k < downs.len() implies #[trigger] after.replies(downs)[k]
        == m.replies(downs)[k] by {
        let src = downs[k]->src;
        let len = downs[k]->Download_len as int;
        assert forall|i: int| 0 <= i < len implies #[trigger] (after.cells)(
            src.buffer,
            src.offset + i,
        ) == (m.cells)(src.buffer, src.offset + i) by {
            assert forall|j: int| 0 <= j < ups.len() implies !touches(
                #[trigger] ups[j],
                src.buffer,
                src.offset + i,
            ) by {
                if j < n {
                    assert(data.att_states[j].len() == wkv);
                    assert(ups[j]->Upload_dst.buffer == x[j].buffer);
                } else if j < 2 * n {
                    assert(data.att_shift_states[j - n].len() == shift_len(info, 1));
                    assert(ups[j]->Upload_dst.buffer == y[j - n].buffer);
                } else {
                    assert(data.ffn_states[j - 2 * n].len() == shift_len(info, 1));
                    assert(ups[j]->Upload_dst.buffer == z[j - 2 * n].buffer);
                }
                if k < n {
                    assert(src.buffer == x[k].buffer);
                } else if k < 2 * n {
                    assert(src.buffer == y[k - n].buffer);
                } else {
                    assert(src.buffer == z[k - 2 * n].buffer);
                }
            }
            lemma_untouched(m, ups, src.buffer, src.offset + i);
        }
        lemma_same_data(after, m, src, downs[k]->Download_elem, len as nat);
    }
    assert(after.replies(downs) =~= m.replies(downs));
}

/// The parts of two sequences do not overlap.
proof fn lemma_parts_apart(a: int, b: int, size: int)
    requires
        a != b,
        0 <= size,
    ensures
        a * size + size <= b * size || b * size + size <= a * size,
{
    assert(a * size + size <= b * size || b * size + size <= a * size) by (nonlinear_arith)
        requires
            a != b,
            0 <= size,
    ;
}

/// After a reset, the state of every sequence reads as a fresh one.
pub proof fn law_reset_then_read(
    s: StreamSpec,
    m: Memory,
    sc: ScratchSpec,
    info: Rwkv7ModelInfo,
    batch_idx: usize,
)
    requires
        sc.made_for(info),
        batch_idx < sc.config.batch_size,
    ensures
        ({
            let z = reset_run(Run::start(s), sc.state);
            let r = read_state_run(Run::start(z.stream), info, Some(sc), batch_idx);
            let replies = m.after_all(recorded(s, z.stream)).replies(recorded(z.stream, r.stream));
            &&& item_plan(info).answered_by(replies)
            &&& item_plan(info).spec_read(replies) == zero_state(info, 1)
        }),
{
    let n = info.n_layer as int;
    let b = batch_idx as int;
    let z = reset_run(Run::start(s), sc.state);
    let fresh = zero_state(info, 1);
    lemma_item_commands(z.stream, sc, info, batch_idx, fresh);
    lemma_item_ptrs(sc, info, b);
    lemma_made_for_states(sc, info);
    let zeros = zero_list::<F16>(sc.state.att_shift) + zero_list::<F16>(sc.state.ffn) + zero_list::<
        F32,
    >(sc.state.wkv);
    assert(recorded(s, z.stream) =~= zeros);
    let after = m.after_all(zeros);
    let downs = item_asks(sc.state, info, b);
    lemma_one_more(after, downs, CommandOf::Synchronize);
    lemma_downloads(after, downs);
    let replies = after.replies(downs);
    assert forall|i: int| 0 <= i < n implies #[trigger] reply(replies, 0, 1, i) == DataSpec::F32(
        fresh.att_states[i],
    ) by {
        let src = downs[i]->src;
        assert(replies[i] == after.data_at(src, Elem::F32, wkv_len(info, 1) as nat));
        assert forall|k: int| 0 <= k < wkv_len(info, 1) implies #[trigger] (after.cells)(
            src.buffer,
            src.offset + k,
        ) == 0 by {
            assert(zeros[2 * n + i] == zero_command::<F32>(sc.state.wkv[i]));
            lemma_all_zero(m, zeros, 2 * n + i, src.buffer, src.offset + k);
        }
        assert(replies[i]->F32_0 =~= fresh.att_states[i]);
    }
    assert forall|i: int| 0 <= i < n implies #[trigger] reply(replies, n, 1, i) == DataSpec::F16(
        fresh.att_shift_states[i],
    ) by {
        let src = downs[n + i]->src;
        assert(replies[n + i] == after.data_at(src, Elem::F16, info.n_embd as nat));
        assert forall|k: int| 0 <= k < info.n_embd implies #[trigger] (after.cells)(
            src.buffer,
            src.offset + k,
        ) == 0 by {
            assert(zeros[i] == zero_command::<F16>(sc.state.att_shift[i]));
            lemma_all_zero(m, zeros, i, src.buffer, src.offset + k);
        }
        assert(replies[n + i]->F16_0 =~= fresh.att_shift_states[i]);
    }
    assert forall|i: int| 0 <= i < n implies #[trigger] reply(replies, 2 * n, 1, i)
        == DataSpec::F16(fresh.ffn_states[i]) by {
        let src = downs[2 * n + i]->src;
        assert(replies[2 * n + i] == after.data_at(src, Elem::F16, info.n_embd as nat));
        assert forall|k: int| 0 <= k < info.n_embd implies #[trigger] (after.cells)(
            src.buffer,
            src.offset + k,
        ) == 0 by {
            assert(zeros[n + i] == zero_command::<F16>(sc.state.ffn[i]));
            lemma_all_zero(m, zeros, n + i, src.buffer, src.offset + k);
        }
        assert(replies[2 * n + i]->F16_0 =~= fresh.ffn_states[i]);
    }
    let got = item_plan(info).spec_read(replies);
    assert(got.att_states =~= fresh.att_states);
    assert(got.att_shift_states =~= fresh.att_shift_states);
    assert(got.ffn_states =~= fresh.ffn_states);
}

/// The upload at place `k` among those of a state.
pub open spec fn upload_at(state: StateSpec, data: StateData, k: int) -> CommandSpec {
    let i = k / 3;
    if k % 3 == 0 {
        CommandOf::Upload {
            dst: state.att_shift[i].ptr(),
            data: DataSpec::F16(data.att_shift_states[i]),
        }
    } else if k % 3 == 1 {
        CommandOf::Upload { dst: state.ffn[i].ptr(), data: DataSpec::F16(data.ffn_states[i]) }
    } else {
        CommandOf::Upload { dst: state.wkv[i].ptr(), data: DataSpec::F32(data.att_states[i]) }
    }
}

/// The download at place `k` among those that ask for a state.
pub open spec fn ask_at(state: StateSpec, shift: usize, wkv: usize, k: int) -> CommandSpec {
    let i = k / 3;
    if k % 3 == 0 {
        CommandOf::Download { src: state.att_shift[i].ptr(), elem: Elem::F16, len: shift }
    } else if k % 3 == 1 {
        CommandOf::Download { src: state.ffn[i].ptr(), elem: Elem::F16, len: shift }
    } else {
        CommandOf::Download { src: state.wkv[i].ptr(), elem: Elem::F32, len: wkv }
    }
}

/// The uploads of a state, and the downloads that ask for it back, one by one.
proof fn lemma_state_commands(
    state: StateSpec,
    data: StateData,
    shift: usize,
    wkv: usize,
    n: nat,
)
    ensures
        state_uploads(state, data, n).len() == 3 * n,
        state_downloads(state, shift, wkv, n).len() == 3 * n,
        forall|k: int|
            0 <= k < 3 * n ==> #[trigger] state_uploads(state, data, n)[k] == upload_at(
                state,
                data,
                k,
            ),
        forall|k: int|
            0 <= k < 3 * n ==> #[trigger] state_downloads(state, shift, wkv, n)[k] == ask_at(
                state,
                shift,
                wkv,
                k,
            ),
    decreases n,
{
    if n > 0 {
        let before = (n - 1) as nat;
        lemma_state_commands(state, data, shift, wkv, before);
        assert forall|k: int| 0 <= k < 3 * n implies #[trigger] state_uploads(state, data, n)[k]
            == upload_at(state, data, k) by {
            if k < 3 * before {
                assert(state_uploads(state, data, before)[k] == state_uploads(state, data, n)[k]);
            }
        }
        assert forall|k: int| 0 <= k < 3 * n implies #[trigger] state_downloads(
            state,
            shift,
            wkv,
            n,
        )[k] == ask_at(state, shift, wkv, k) by {
            if k < 3 * before {
                assert(state_downloads(state, shift, wkv, before)[k] == state_downloads(
                    state,
                    shift,
                    wkv,
                    n,
                )[k]);
            }
        }
    }
}

/// What a step uploads of a state, the downloads of a step ask back, place by place: were
/// nothing to happen in between, the state would come back as it was.
pub proof fn law_step_state_round_trip(
    m: Memory,
    sc: ScratchSpec,
    info: Rwkv7ModelInfo,
    data: StateData,
    logits: DataSpec,
)
    requires
        sc.made_for(info),
        0 < data.batch_size <= sc.config.batch_size,
        data.sized(info),
    ensures
        ({
            let n = info.n_layer as nat;
            let plan = step_plan(info, data.batch_size);
            let up = m.after_all(state_uploads(sc.state, data, n));
            let replies = seq![logits] + up.replies(
                state_downloads(sc.state, plan.shift, plan.wkv, n),
            );
            &&& plan.answered_by(replies)
            &&& plan.spec_read(replies) == (StateData {
                v_first: None,
                layout: StateLayout::Decode,
                ..data
            })
        }),
{
    let n = info.n_layer as nat;
    let plan = step_plan(info, data.batch_size);
    let ups = state_uploads(sc.state, data, n);
    let downs = state_downloads(sc.state, plan.shift, plan.wkv, n);
    law_states_apart(sc, info);
    lemma_made_for_states(sc, info);
    lemma_state_commands(sc.state, data, plan.shift, plan.wkv, n);
    let b = data.batch_size as int;
    lemma_batch_sizes(sc, info, b);
    let x = sc.state.wkv;
    let y = sc.state.att_shift;
    let z = sc.state.ffn;
    assert forall|k: int| 0 <= k < ups.len() implies asks_back(#[trigger] ups[k], downs[k]) by {
        let i = k / 3;
        assert(ups[k] == upload_at(sc.state, data, k));
        assert(downs[k] == ask_at(sc.state, plan.shift, plan.wkv, k));
        assert(data.att_shift_states[i].len() == shift_len(info, b));
        assert(data.ffn_states[i].len() == shift_len(info, b));
        assert(data.att_states[i].len() == wkv_len(info, b));
    }
    assert forall|j: int, k: int| 0 <= j < k < ups.len() implies (
    #[trigger] ups[j])->Upload_dst.buffer != (#[trigger] ups[k])->Upload_dst.buffer by {
        assert(ups[j] == upload_at(sc.state, data, j));
        assert(ups[k] == upload_at(sc.state, data, k));
        assert(x[j / 3].buffer != y[k / 3].buffer);
        assert(z[j / 3].buffer != y[k / 3].buffer);
        assert(x[j / 3].buffer != z[k / 3].buffer);
        assert(y[j / 3].buffer != x[k / 3].buffer);
        assert(y[j / 3].buffer != z[k / 3].buffer);
        assert(z[j / 3].buffer != x[k / 3].buffer);
    }
    lemma_round_trip(m, ups, downs);
    let sent = m.after_all(ups).replies(downs);
    let replies = seq![logits] + sent;
    assert forall|i: int| 0 <= i < n implies #[trigger] reply(replies, 1, 3, i) == DataSpec::F16(
        data.att_shift_states[i],
    ) by {
        assert(replies[1 + 3 * i] == sent[3 * i]);
        assert(sent[3 * i] == ups[3 * i]->data);
    }
    assert forall|i: int| 0 <= i < n implies #[trigger] reply(replies, 2, 3, i) == DataSpec::F16(
        data.ffn_states[i],
    ) by {
        assert(replies[2 + 3 * i] == sent[3 * i + 1]);
        assert(sent[3 * i + 1] == ups[3 * i + 1]->data);
    }
    assert forall|i: int| 0 <= i < n implies #[trigger] reply(replies, 3, 3, i) == DataSpec::F32(
        data.att_states[i],
    ) by {
        assert(replies[3 + 3 * i] == sent[3 * i + 2]);
        assert(sent[3 * i + 2] == ups[3 * i + 2]->data);
    }
    let got = plan.spec_read(replies);
    assert(got.att_states =~= data.att_states);
    assert(got.att_shift_states =~= data.att_shift_states);
    assert(got.ffn_states =~= data.ffn_states);
}

/// Whether the token-shift states in a memory are half precision numbers.
pub open spec fn half_states(m: Memory, state: StateSpec, n: int) -> bool {
    &&& forall|i: int, k: int|
        0 <= i < n ==> #[trigger] (m.cells)(state.att_shift[i].buffer, k) <= u16::MAX
    &&& forall|i: int, k: int|
        0 <= i < n ==> #[trigger] (m.cells)(state.ffn[i].buffer, k) <= u16::MAX
}

/// What a step reads of the state and the next step brings back leaves the device as it was: the
/// next pass starts from the same memory as if the state had never left it.
pub proof fn law_state_brought_back_changes_nothing(
    s: StreamSpec,
    m: Memory,
    sc: ScratchSpec,
    info: Rwkv7ModelInfo,
    batch_size: usize,
    logits: DataSpec,
)
    requires
        sc.made_for(info),
        0 < batch_size <= sc.config.batch_size,
        half_states(m, sc.state, info.n_layer as int),
    ensures
        ({
            let n = info.n_layer as nat;
            let plan = step_plan(info, batch_size);
            let replies = seq![logits] + m.replies(
                state_downloads(sc.state, plan.shift, plan.wkv, n),
            );
            let data = plan.spec_read(replies);
            let loaded = load_state_run(Run::start(s), sc.state, Some(data), n);
            &&& plan.answered_by(replies)
            &&& data.sized(info)
            &&& m.after_all(recorded(s, loaded.stream)) == m
        }),
{
    let n = info.n_layer as nat;
    let plan = step_plan(info, batch_size);
    let downs = state_downloads(sc.state, plan.shift, plan.wkv, n);
    let sent = m.replies(downs);
    let replies = seq![logits] + sent;
    let data = plan.spec_read(replies);
    let ups = state_uploads(sc.state, data, n);
    let b = batch_size as int;
    lemma_batch_sizes(sc, info, b);
    lemma_made_for_states(sc, info);
    lemma_state_commands(sc.state, data, plan.shift, plan.wkv, n);
    assert(0 <= wkv_len(info, b) && 0 <= shift_len(info, b)) by (nonlinear_arith)
        requires
            wkv_len(info, b) == info.head_size * info.head_size * info.n_head * b,
            shift_len(info, b) == info.n_embd * b,
            b >= 0,
            info.head_size >= 0,
            info.n_head >= 0,
            info.n_embd >= 0,
    ;
    assert forall|k: int| 0 <= k < downs.len() implies (#[trigger] downs[k]) is Download by {
        assert(downs[k] == ask_at(sc.state, plan.shift, plan.wkv, k));
    }
    lemma_downloads(m, downs);
    assert forall|i: int| 0 <= i < n implies {
        &&& #[trigger] reply(replies, 1, 3, i) == m.data_at(
            sc.state.att_shift[i].ptr(),
            Elem::F16,
            plan.shift as nat,
        )
        &&& reply(replies, 2, 3, i) == m.data_at(
            sc.state.ffn[i].ptr(),
            Elem::F16,
            plan.shift as nat,
        )
        &&& reply(replies, 3, 3, i) == m.data_at(sc.state.wkv[i].ptr(), Elem::F32, plan.wkv as nat)
    } by {
        assert(replies[1 + 3 * i] == sent[3 * i]);
        assert(replies[2 + 3 * i] == sent[3 * i + 1]);
        assert(replies[3 + 3 * i] == sent[3 * i + 2]);
        assert(downs[3 * i] == ask_at(sc.state, plan.shift, plan.wkv, 3 * i));
        assert(downs[3 * i + 1] == ask_at(sc.state, plan.shift, plan.wkv, 3 * i + 1));
        assert(downs[3 * i + 2] == ask_at(sc.state, plan.shift, plan.wkv, 3 * i + 2));
    }
    assert forall|i: int| 0 <= i < n implies is_f16(
        #[trigger] reply(replies, 2, 3, i),
        plan.shift as int,
    ) && is_f32(reply(replies, 3, 3, i), plan.wkv as int) by {
        assert(reply(replies, 1, 3, i) is F16);
    }
    assert forall|i: int| 0 <= i < n implies is_f32(
        #[trigger] reply(replies, 3, 3, i),
        plan.wkv as int,
    ) by {
        assert(reply(replies, 2, 3, i) is F16);
    }
    assert forall|k: int| 0 <= k < ups.len() implies (#[trigger] ups[k]) is Upload by {
        assert(ups[k] == upload_at(sc.state, data, k));
    }
    assert forall|k: int, i: int| 0 <= k < ups.len() && 0 <= i < ups[k]->data.len() implies
    #[trigger] bits_of(ups[k]->data, i) == (m.cells)(
        ups[k]->Upload_dst.buffer,
        ups[k]->Upload_dst.offset + i,
    ) by {
        assert(ups[k] == upload_at(sc.state, data, k));
        let l = k / 3;
        assert(reply(replies, 1, 3, l) is F16);
        assert(data.att_shift_states[l] == reply(replies, 1, 3, l)->F16_0);
        assert(data.ffn_states[l] == reply(replies, 2, 3, l)->F16_0);
        assert(data.att_states[l] == reply(replies, 3, 3, l)->F32_0);
        assert((m.cells)(sc.state.att_shift[l].buffer, sc.state.att_shift[l].ptr().offset + i)
            <= u16::MAX);
        assert((m.cells)(sc.state.ffn[l].buffer, sc.state.ffn[l].ptr().offset + i) <= u16::MAX);
    }
    lemma_write_back(m, ups);
    let loaded = load_state_run(Run::start(s), sc.state, Some(data), n);
    assert(recorded(s, loaded.stream) =~= ups);
}

} // verus!
