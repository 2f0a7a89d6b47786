//! Probes only watch: which hooks are answered changes nothing of what a pass computes.
use crate::buffer::MemoryType;
use crate::model::dispatch::{
    choice_of, dispatch_run, open_run, pass_of, staging_after, DispatchMode,
};
use crate::model::dispatch_helpers::{
    attention_run, bonus_part, embed_upload, ffn_mix_part, ffn_run, ffn_shift_part, fla_args,
    gated_part, head_part, output_head_run, recurrent_part, reshape_part, wkv_kernel_run, wkv_part,
    DecayForms, WkvChoiceSpec,
};
use crate::buffers::temp_view_error;
use crate::kernels::elementwise::copy_tensor_f16_call;
use crate::model::fla::{
    chunk_plan, cu_seqlens, fla_compute_run, fla_stages_run, FlaArgs, FlaWkvSpec,
};
use crate::model::layer::{
    adapt_part, decay_part, embed_norm, gate_part, key_part, mix_part, project_part, shift_part,
    value_part, wkv_input_part, PassSpec,
};
use crate::model::pass::{layer_run, layers_run};
use crate::model::weights::{HeadHip, LayerHip, LayerNormHip};
use crate::model::Rwkv7Model;
use crate::probe::{HipHook, ProbeFrame, ProbeSource, ProberSpec};
use crate::run::{Outcome, Run};
use crate::scratch::{ScratchSpec, StateSpec};
use crate::stream::{CommandOf, CommandSpec, DataSpec};
use crate::error::ErrorSpec;
use crate::tensor::{resize_error, Element, TensorShape, TensorSpec};
use vstd::prelude::*;

verus! {

/// The commands of a log that are no probes, in order.
pub open spec fn work_of(log: Seq<CommandSpec>) -> Seq<CommandSpec>
    decreases log.len(),
{
    if log.len() == 0 {
        Seq::empty()
    } else if log.last() is Probe {
        work_of(log.drop_last())
    } else {
        work_of(log.drop_last()).push(log.last())
    }
}

/// Whether two runs come to the same but for probes.
#[verifier::opaque]
pub open spec fn same_work(a: Run, b: Run) -> bool {
    &&& a.error == b.error
    &&& a.stream.next == b.stream.next
    &&& work_of(a.stream.log) == work_of(b.stream.log)
}

proof fn lemma_work_push(log: Seq<CommandSpec>, c: CommandSpec)
    ensures
        work_of(log.push(c)) == if c is Probe {
            work_of(log)
        } else {
            work_of(log).push(c)
        },
{
    assert(log.push(c).drop_last() =~= log);
}

broadcast proof fn lemma_same_parts(a: Run, b: Run)
    requires
        #[trigger] same_work(a, b),
    ensures
        a.error == b.error,
        a.stream.next == b.stream.next,
{
    reveal(same_work);
}

broadcast proof fn lemma_same_emit(a: Run, b: Run, c: CommandSpec)
    requires
        same_work(a, b),
    ensures
        #[trigger] same_work(a.emit(c), b.emit(c)),
{
    reveal(same_work);
    lemma_work_push(a.stream.log, c);
    lemma_work_push(b.stream.log, c);
}

broadcast proof fn lemma_same_check(a: Run, b: Run, e: Option<ErrorSpec>)
    requires
        same_work(a, b),
    ensures
        #[trigger] same_work(a.check(e), b.check(e)),
{
    reveal(same_work);
}

broadcast proof fn lemma_same_call(a: Run, b: Run, o: Outcome)
    requires
        same_work(a, b),
    ensures
        #[trigger] same_work(a.call(o), b.call(o)),
{
    match o {
        Ok(c) => {
            lemma_same_emit(a, b, c);
        },
        Err(e) => {
            lemma_same_check(a, b, Some(e));
        },
    }
}

broadcast proof fn lemma_same_probe(
    a: Run,
    b: Run,
    m: Map<HipHook, usize>,
    n: Map<HipHook, usize>,
    hook: HipHook,
    frame: ProbeFrame,
    source: ProbeSource,
    shape: TensorShape,
    rank: usize,
)
    requires
        same_work(a, b),
    ensures
        #[trigger] same_work(
            a.probe(m, hook, frame, source, shape, rank),
            b.probe(n, hook, frame, source, shape, rank),
        ),
{
    reveal(same_work);
    let pa = a.probe(m, hook, frame, source, shape, rank);
    let pb = b.probe(n, hook, frame, source, shape, rank);
    if a.error is None && m.dom().contains(hook) {
        lemma_work_push(a.stream.log, pa.stream.log.last());
    }
    if b.error is None && n.dom().contains(hook) {
        lemma_work_push(b.stream.log, pb.stream.log.last());
    }
}

broadcast proof fn lemma_same_filled(
    a: Run,
    b: Run,
    data: DataSpec,
    shape: TensorShape,
    memory: MemoryType,
)
    requires
        same_work(a, b),
    ensures
        #[trigger] same_work(a.filled(data, shape, memory), b.filled(data, shape, memory)),
{
    let e = crate::tensor::fill_error(data.len(), shape);
    lemma_same_check(a, b, e);
    let a1 = a.check(e);
    let b1 = b.check(e);
    let a2 = a1.allocated(data.kind(), shape, memory, false);
    let b2 = b1.allocated(data.kind(), shape, memory, false);
    assert(same_work(a2, b2)) by {
        reveal(Run::allocated);
        reveal(same_work);
        if a1.error is None && a1.stream.next < usize::MAX {
            lemma_work_push(a1.stream.log, a2.stream.log.last());
            lemma_work_push(b1.stream.log, b2.stream.log.last());
        }
    }
    reveal(same_work);
    lemma_same_emit(a2, b2, CommandOf::Upload { dst: a.fresh(shape).ptr(), data });
}

broadcast group group_same_work {
    lemma_same_parts,
    lemma_same_emit,
    lemma_same_check,
    lemma_same_call,
    lemma_same_probe,
    lemma_same_filled,
}

impl PassSpec {
    /// The pass with other hooks answered.
    pub open spec fn answering(self, map: Map<HipHook, usize>) -> PassSpec {
        PassSpec { prober: ProberSpec { map, ..self.prober }, ..self }
    }
}

proof fn lemma_norm_and_shift(
    a: Run,
    b: Run,
    p: PassSpec,
    map: Map<HipHook, usize>,
    layer: LayerHip,
    ln: LayerNormHip,
    shift: TensorSpec,
    new_shift: TensorSpec,
)
    requires
        same_work(a, b),
    ensures
        same_work(embed_norm(a, p, ln), embed_norm(b, p.answering(map), ln)),
        same_work(
            shift_part(a, p, layer, shift, new_shift),
            shift_part(b, p.answering(map), layer, shift, new_shift),
        ),
        same_work(
            ffn_shift_part(a, p, layer, shift, new_shift),
            ffn_shift_part(b, p.answering(map), layer, shift, new_shift),
        ),
{
    broadcast use group_same_work;

    reveal(embed_norm);
    reveal(shift_part);
    reveal(ffn_shift_part);
}

proof fn lemma_mixes(
    a: Run,
    b: Run,
    p: PassSpec,
    map: Map<HipHook, usize>,
    idx: usize,
    layer: LayerHip,
    decay: bool,
)
    requires
        same_work(a, b),
    ensures
        same_work(project_part(a, p, layer), project_part(b, p.answering(map), layer)),
        same_work(decay_part(a, p, layer), decay_part(b, p.answering(map), layer)),
        same_work(adapt_part(a, p, layer), adapt_part(b, p.answering(map), layer)),
        same_work(gate_part(a, p, layer), gate_part(b, p.answering(map), layer)),
        same_work(value_part(a, p, idx, layer), value_part(b, p.answering(map), idx, layer)),
        same_work(key_part(a, p, layer), key_part(b, p.answering(map), layer)),
        same_work(wkv_input_part(a, p, decay), wkv_input_part(b, p.answering(map), decay)),
{
    broadcast use group_same_work;

    reveal(project_part);
    reveal(decay_part);
    reveal(adapt_part);
    reveal(gate_part);
    reveal(value_part);
    reveal(key_part);
    reveal(wkv_input_part);
}

proof fn lemma_mix(
    a: Run,
    b: Run,
    p: PassSpec,
    map: Map<HipHook, usize>,
    idx: usize,
    layer: LayerHip,
    decay: bool,
)
    requires
        same_work(a, b),
    ensures
        same_work(
            mix_part(a, p, idx, layer, decay),
            mix_part(b, p.answering(map), idx, layer, decay),
        ),
{
    broadcast use lemma_same_parts;

    let q = p.answering(map);
    lemma_mixes(a, b, p, map, idx, layer, decay);
    let a1 = a.step(|s: Run| project_part(s, p, layer));
    let b1 = b.step(|s: Run| project_part(s, q, layer));
    assert(same_work(a1, b1));
    lemma_mixes(a1, b1, p, map, idx, layer, decay);
    let a2 = a1.step(|s: Run| decay_part(s, p, layer));
    let b2 = b1.step(|s: Run| decay_part(s, q, layer));
    assert(same_work(a2, b2));
    lemma_mixes(a2, b2, p, map, idx, layer, decay);
    let a3 = a2.step(|s: Run| adapt_part(s, p, layer));
    let b3 = b2.step(|s: Run| adapt_part(s, q, layer));
    assert(same_work(a3, b3));
    lemma_mixes(a3, b3, p, map, idx, layer, decay);
    let a4 = a3.step(|s: Run| gate_part(s, p, layer));
    let b4 = b3.step(|s: Run| gate_part(s, q, layer));
    assert(same_work(a4, b4));
    lemma_mixes(a4, b4, p, map, idx, layer, decay);
    let a5 = a4.step(|s: Run| value_part(s, p, idx, layer));
    let b5 = b4.step(|s: Run| value_part(s, q, idx, layer));
    assert(same_work(a5, b5));
    lemma_mixes(a5, b5, p, map, idx, layer, decay);
    let a6 = a5.step(|s: Run| key_part(s, p, layer));
    let b6 = b5.step(|s: Run| key_part(s, q, layer));
    assert(same_work(a6, b6));
    lemma_mixes(a6, b6, p, map, idx, layer, decay);
    let a7 = a6.step(|s: Run| wkv_input_part(s, p, decay));
    let b7 = b6.step(|s: Run| wkv_input_part(s, q, decay));
    assert(same_work(a7, b7));
    reveal(mix_part);
}

proof fn lemma_same_fla(a: Run, b: Run, f: FlaWkvSpec, x: FlaArgs, lengths: Seq<usize>)
    requires
        same_work(a, b),
    ensures
        same_work(fla_compute_run(a, f, x, lengths), fla_compute_run(b, f, x, lengths)),
{
    broadcast use group_same_work;

    reveal(fla_compute_run);
    let plan = chunk_plan(cu_seqlens(lengths, f.seq_len, f.batch_size), f.chunk_size as int);
    if plan.total != 0 {
        let ci_shape = TensorShape::of((plan.total * 2) as usize, 1, 1, 1);
        let list_shape = TensorShape::of((f.batch_size + 1) as usize, 1, 1, 1);
        let a1 = a.filled(DataSpec::I32(plan.indices), ci_shape, MemoryType::Device);
        let b1 = b.filled(DataSpec::I32(plan.indices), ci_shape, MemoryType::Device);
        let a2 = a1.filled(DataSpec::I32(plan.offsets), list_shape, MemoryType::Device);
        let b2 = b1.filled(DataSpec::I32(plan.offsets), list_shape, MemoryType::Device);
        let a3 = a2.filled(DataSpec::I32(plan.bounds), list_shape, MemoryType::Device);
        let b3 = b2.filled(DataSpec::I32(plan.bounds), list_shape, MemoryType::Device);
        assert(same_work(a1, b1));
        assert(same_work(a2, b2));
        assert(same_work(a3, b3));
        let i = a.fresh(ci_shape);
        let o = a1.fresh(list_shape);
        let c = a2.fresh(list_shape);
        let total = plan.total as usize;
        assert(same_work(
            fla_stages_run(a3, f, x, total, i, o, c),
            fla_stages_run(b3, f, x, total, i, o, c),
        ));
    }
}

proof fn lemma_recurrence(
    a: Run,
    b: Run,
    p: PassSpec,
    map: Map<HipHook, usize>,
    layer: LayerHip,
    forms: DecayForms,
    choice: WkvChoiceSpec,
    state: TensorSpec,
)
    requires
        same_work(a, b),
    ensures
        same_work(reshape_part(a, p, forms), reshape_part(b, p.answering(map), forms)),
        same_work(wkv_part(a, p, choice, state), wkv_part(b, p.answering(map), choice, state)),
        same_work(bonus_part(a, p, layer), bonus_part(b, p.answering(map), layer)),
        same_work(gated_part(a, p, layer), gated_part(b, p.answering(map), layer)),
        same_work(ffn_mix_part(a, p, layer), ffn_mix_part(b, p.answering(map), layer)),
{
    broadcast use group_same_work;

    let q = p.answering(map);
    assert(same_work(reshape_part(a, p, forms), reshape_part(b, q, forms))) by {
        reveal(crate::model::dispatch_helpers::head_view_error);
    }
    assert(same_work(wkv_part(a, p, choice, state), wkv_part(b, q, choice, state))) by {
        let t = p.w.att;
        let k = p.w.wkv;
        let six = crate::probe::stack6(
            t.att_w,
            t.att_r,
            t.att_k_ctrl,
            t.att_v,
            k.wkv_a,
            k.wkv_b,
        );
        let a1 = p.prober.state(
            p.prober.stacked(a, HipHook::PreWkv, six, 6),
            HipHook::PreWkvState,
            state,
        );
        let b1 = q.prober.state(
            q.prober.stacked(b, HipHook::PreWkv, six, 6),
            HipHook::PreWkvState,
            state,
        );
        assert(same_work(a1, b1));
        let a2 = wkv_kernel_run(a1, p, choice, state);
        let b2 = wkv_kernel_run(b1, q, choice, state);
        match choice {
            WkvChoiceSpec::Fla { kernel, lengths } => {
                lemma_same_fla(a1, b1, kernel, fla_args(p, state), lengths);
                assert(fla_args(p, state) == fla_args(q, state));
            },
            _ => {},
        }
        assert(same_work(a2, b2));
        reveal(wkv_part);
    }
    reveal(bonus_part);
    reveal(gated_part);
    reveal(ffn_mix_part);
}

proof fn lemma_attention(
    a: Run,
    b: Run,
    p: PassSpec,
    map: Map<HipHook, usize>,
    idx: usize,
    layer: LayerHip,
    forms: DecayForms,
    choice: WkvChoiceSpec,
    shift: TensorSpec,
    state: TensorSpec,
)
    requires
        same_work(a, b),
    ensures
        same_work(
            attention_run(a, p, idx, layer, forms, choice, shift, state),
            attention_run(b, p.answering(map), idx, layer, forms, choice, shift, state),
        ),
        same_work(ffn_run(a, p, layer, shift), ffn_run(b, p.answering(map), layer, shift)),
{
    broadcast use group_same_work;

    let q = p.answering(map);
    let att = p.tmp.new_att_shift;
    let ffn = p.tmp.new_ffn_shift;
    lemma_norm_and_shift(a, b, p, map, layer, layer.att_ln, shift, att);
    lemma_norm_and_shift(a, b, p, map, layer, layer.att_ln, shift, ffn);
    let a1 = a.step(|s: Run| shift_part(s, p, layer, shift, att)).call(
        copy_tensor_f16_call(att, shift),
    );
    let b1 = b.step(|s: Run| shift_part(s, q, layer, shift, att)).call(
        copy_tensor_f16_call(att, shift),
    );
    assert(same_work(a1, b1));
    lemma_mix(a1, b1, p, map, idx, layer, forms.exponential);
    let a2 = a1.step(|s: Run| mix_part(s, p, idx, layer, forms.exponential));
    let b2 = b1.step(|s: Run| mix_part(s, q, idx, layer, forms.exponential));
    assert(same_work(a2, b2));
    let a3 = a2.step(|s: Run| recurrent_part(s, p, layer, forms, choice, state));
    let b3 = b2.step(|s: Run| recurrent_part(s, q, layer, forms, choice, state));
    lemma_recurrent(a2, b2, p, map, layer, forms, choice, state);
    assert(same_work(a3, b3));
    assert(attention_run(a, p, idx, layer, forms, choice, shift, state) == a3) by {
        reveal(attention_run);
    }
    assert(attention_run(b, q, idx, layer, forms, choice, shift, state) == b3) by {
        reveal(attention_run);
    }
    let a4 = a.step(|s: Run| ffn_shift_part(s, p, layer, shift, ffn)).call(
        copy_tensor_f16_call(ffn, shift),
    );
    let b4 = b.step(|s: Run| ffn_shift_part(s, q, layer, shift, ffn)).call(
        copy_tensor_f16_call(ffn, shift),
    );
    assert(same_work(a4, b4));
    lemma_recurrence(a4, b4, p, map, layer, forms, choice, state);
    reveal(ffn_run);
}

proof fn lemma_recurrent(
    a: Run,
    b: Run,
    p: PassSpec,
    map: Map<HipHook, usize>,
    layer: LayerHip,
    forms: DecayForms,
    choice: WkvChoiceSpec,
    state: TensorSpec,
)
    requires
        same_work(a, b),
    ensures
        same_work(
            recurrent_part(a, p, layer, forms, choice, state),
            recurrent_part(b, p.answering(map), layer, forms, choice, state),
        ),
{
    broadcast use lemma_same_parts;

    let q = p.answering(map);
    lemma_recurrence(a, b, p, map, layer, forms, choice, state);
    let a1 = a.step(|s: Run| reshape_part(s, p, forms));
    let b1 = b.step(|s: Run| reshape_part(s, q, forms));
    assert(same_work(a1, b1));
    lemma_recurrence(a1, b1, p, map, layer, forms, choice, state);
    let a2 = a1.step(|s: Run| wkv_part(s, p, choice, state));
    let b2 = b1.step(|s: Run| wkv_part(s, q, choice, state));
    assert(same_work(a2, b2));
    lemma_recurrence(a2, b2, p, map, layer, forms, choice, state);
    let a3 = a2.step(|s: Run| bonus_part(s, p, layer));
    let b3 = b2.step(|s: Run| bonus_part(s, q, layer));
    assert(same_work(a3, b3));
    lemma_recurrence(a3, b3, p, map, layer, forms, choice, state);
    reveal(recurrent_part);
}

proof fn lemma_layers(
    a: Run,
    b: Run,
    p: PassSpec,
    map: Map<HipHook, usize>,
    model: Rwkv7Model,
    n: nat,
    forms: DecayForms,
    choice: WkvChoiceSpec,
    state: StateSpec,
)
    requires
        same_work(a, b),
    ensures
        same_work(
            layers_run(a, p, model, n, forms, choice, state),
            layers_run(b, p.answering(map), model, n, forms, choice, state),
        ),
    decreases n,
{
    broadcast use lemma_same_parts;

    if n > 0 {
        let idx = (n - 1) as usize;
        lemma_layers(a, b, p, map, model, (n - 1) as nat, forms, choice, state);
        let a0 = layers_run(a, p, model, (n - 1) as nat, forms, choice, state);
        let b0 = layers_run(b, p.answering(map), model, (n - 1) as nat, forms, choice, state);
        let pl = p.in_layer(idx);
        let ql = p.answering(map).in_layer(idx);
        assert(ql == pl.answering(map));
        let layer = model.layers@[idx as int];
        let e1 = resize_error(state.att_shift[idx as int], p.sh.state);
        let e2 = resize_error(state.ffn[idx as int], p.sh.state);
        let e3 = resize_error(state.wkv[idx as int], p.sh.wkv_state);
        let shift = state.att_shift[idx as int].with_shape(p.sh.state);
        let ffn = state.ffn[idx as int].with_shape(p.sh.state);
        let wkv = state.wkv[idx as int].with_shape(p.sh.wkv_state);
        let ac = a0.check(e1).check(e2).check(e3);
        let bc = b0.check(e1).check(e2).check(e3);
        assert(same_work(ac, bc)) by {
            broadcast use lemma_same_check;

        }
        lemma_norm_and_shift(ac, bc, pl, map, layer, model.embed.ln, shift, shift);
        let a1 = if idx == 0 {
            ac.step(|s: Run| embed_norm(s, pl, model.embed.ln))
        } else {
            ac
        };
        let b1 = if idx == 0 {
            bc.step(|s: Run| embed_norm(s, ql, model.embed.ln))
        } else {
            bc
        };
        assert(same_work(a1, b1));
        lemma_attention(a1, b1, pl, map, idx, layer, forms, choice, shift, wkv);
        let a2 = a1.step(
            |s: Run| attention_run(s, pl, idx, layer, forms, choice, shift, wkv),
        );
        let b2 = b1.step(
            |s: Run| attention_run(s, ql, idx, layer, forms, choice, shift, wkv),
        );
        assert(same_work(a2, b2));
        lemma_attention(a2, b2, pl, map, idx, layer, forms, choice, ffn, wkv);
        let a3 = a2.step(|s: Run| ffn_run(s, pl, layer, ffn));
        let b3 = b2.step(|s: Run| ffn_run(s, ql, layer, ffn));
        assert(same_work(a3, b3));
        assert(layer_run(a0, p, model, idx, forms, choice, state) == a3) by {
            reveal(layer_run);
        }
        assert(layer_run(b0, p.answering(map), model, idx, forms, choice, state) == b3) by {
            reveal(layer_run);
        }
    }
}

proof fn lemma_head(
    a: Run,
    b: Run,
    p: PassSpec,
    map: Map<HipHook, usize>,
    head: HeadHip,
    logits: TensorSpec,
    wide: TensorSpec,
)
    requires
        same_work(a, b),
    ensures
        same_work(
            output_head_run(a, p, head, logits, wide),
            output_head_run(b, p.answering(map), head, logits, wide),
        ),
{
    broadcast use group_same_work;

    assert(same_work(
        head_part(a, p, head, logits),
        head_part(b, p.answering(map), head, logits),
    )) by {
        reveal(head_part);
    }
    reveal(output_head_run);
}

/// Two passes that differ only in the hooks that are answered record the same work in the same
/// order, and fail or succeed alike.
pub proof fn law_probes_only_watch(
    s: Run,
    model: Rwkv7Model,
    one: Map<HipHook, usize>,
    other: Map<HipHook, usize>,
    mode: DispatchMode,
    sc: ScratchSpec,
    rows: Seq<Seq<u32>>,
    lens: Seq<usize>,
)
    ensures
        ({
            let a = dispatch_run(s, model, one, mode, sc, rows, lens);
            let b = dispatch_run(s, model, other, mode, sc, rows, lens);
            &&& a.error == b.error
            &&& a.stream.next == b.stream.next
            &&& work_of(a.stream.log) == work_of(b.stream.log)
        }),
{
    let t = rows[0].len() as usize;
    let k = rows.len() as usize;
    let info = model.info;
    let p = pass_of(info, one, sc, lens, t, k);
    let q = pass_of(info, other, sc, lens, t, k);
    assert(q == p.answering(other));
    let staging = staging_after(model, mode, sc, rows, lens);
    let choice = choice_of(info, mode, sc, lens, t, k);
    let n = info.n_layer as nat;
    let opened = embed_upload(
        open_run(s, info, mode, sc, lens, t, k),
        staging,
        p.w.shift.x,
    ).check(temp_view_error(sc.temp, p.sh));
    assert(same_work(opened, opened)) by {
        reveal(same_work);
    }
    let a0 = p.prober.channels(opened, HipHook::PostEmbed, p.w.shift.x, info.n_embd);
    let b0 = q.prober.channels(opened, HipHook::PostEmbed, p.w.shift.x, info.n_embd);
    assert(same_work(a0, b0)) by {
        broadcast use lemma_same_probe;

    }
    let a1 = a0.step(
        |s: Run| layers_run(s, p, model, n, mode.forms(), choice, sc.state),
    );
    let b1 = b0.step(
        |s: Run| layers_run(s, q, model, n, mode.forms(), choice, sc.state),
    );
    assert(same_work(a1, b1)) by {
        broadcast use lemma_same_parts;

        lemma_layers(a0, b0, p, other, model, n, mode.forms(), choice, sc.state);
    }
    let logits = sc.logits.with_shape(p.sh.out);
    let wide = sc.logits_f32.with_shape(p.sh.out);
    let a2 = a1.step(|s: Run| output_head_run(s, p, model.head, logits, wide));
    let b2 = b1.step(|s: Run| output_head_run(s, q, model.head, logits, wide));
    assert(same_work(a2, b2)) by {
        broadcast use lemma_same_parts;

        lemma_head(a1, b1, p, other, model.head, logits, wide);
    }
    assert(dispatch_run(s, model, one, mode, sc, rows, lens) == a2) by {
        reveal(dispatch_run);
    }
    assert(dispatch_run(s, model, other, mode, sc, rows, lens) == b2) by {
        reveal(dispatch_run);
    }
    reveal(same_work);
}

} // verus!
