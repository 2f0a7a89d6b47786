//! What the attention and the other parts of a layer leave in device memory, as a whole.
use crate::buffer::MemoryType;
use crate::buffers::{fla_at, fla_view};
use crate::launch::{Binary, Unary};
use crate::meaning::{group_calls, host_cells, Contents, Device, Recurrent};
use crate::model::block_laws::{
    laid, layer_below, lemma_adapt, lemma_decay, lemma_gate, lemma_inputs, lemma_key, lemma_laid,
    lemma_project, lemma_value, math, outside, same_weights, Layout,
};
use crate::model::dispatch_helpers::{fla_args, wkv_part, WkvChoiceSpec};
use crate::model::fla::{
    chunk_plan, cu_seqlens, fla_compute_run, fla_pass_shapes, fla_stages_run, ChunkPlan, FlaWkvSpec,
};
use crate::model::layer::{
    mix_part, project_part, decay_part, adapt_part, gate_part, value_part, key_part, wkv_input_part,
    PassSpec,
};
use crate::model::weights::LayerHip;
use crate::probe::{stack6, HipHook};
use crate::run::Run;
use crate::stream::DataSpec;
use crate::tensor::{DevicePtr, TensorShape, TensorSpec};
use vstd::prelude::*;

verus! {

/// Whether the tensors of a choice of attention are those of the working memory.
pub open spec fn choice_laid(choice: WkvChoiceSpec, p: PassSpec, g: Layout) -> bool {
    match choice {
        WkvChoiceSpec::Fla { kernel, lengths } => {
            &&& kernel.head_size == p.info.head_size
            &&& kernel.n_head == p.info.n_head
            &&& kernel.seq_len == g.t
            &&& kernel.batch_size == g.b
            &&& kernel.bufs == fla_view(
                fla_at((g.base + 41) as usize, g.fla),
                fla_pass_shapes(
                    kernel.head_size,
                    kernel.n_head,
                    kernel.chunk_size,
                    kernel.seq_len,
                    kernel.batch_size,
                ),
            )
            &&& chunk_plan(
                cu_seqlens(lengths, kernel.seq_len, kernel.batch_size),
                kernel.chunk_size as int,
            ).total <= usize::MAX
        },
        WkvChoiceSpec::FusedT1 => true,
        WkvChoiceSpec::Masked { state_out } => state_out.buffer == g.base + 40 && state_out.shape()
            == p.sh.wkv_state,
    }
}

/// The inputs of the recurrence where they lie.
pub open spec fn recurrent_at(c: Contents, p: PassSpec) -> Recurrent {
    Recurrent {
        w: c.at(p.w.att.att_w.ptr()),
        r: c.at(p.w.att.att_r.ptr()),
        k: c.at(p.w.att.att_k_ctrl.ptr()),
        v: c.at(p.w.att.att_v.ptr()),
        a: c.at(p.w.wkv.wkv_a.ptr()),
        b: c.at(p.w.wkv.wkv_b.ptr()),
    }
}

/// The stages of the chunked attention.
proof fn lemma_stages(
    d: Device,
    w: Contents,
    s: Run,
    p: PassSpec,
    g: Layout,
    f: FlaWkvSpec,
    plan: ChunkPlan,
    state: TensorSpec,
    indices: TensorSpec,
    offsets: TensorSpec,
    bounds: TensorSpec,
)
    requires
        laid(p, g),
        same_weights(w, d.after(s), g),
        f.head_size == p.info.head_size,
        f.n_head == p.info.n_head,
        f.seq_len == g.t,
        f.batch_size == g.b,
        f.bufs == fla_view(
            fla_at((g.base + 41) as usize, g.fla),
            fla_pass_shapes(f.head_size, f.n_head, f.chunk_size, f.seq_len, f.batch_size),
        ),
        g.base + 60 <= s.stream.next,
        outside(state, g, s.stream.next as int),
        outside(indices, g, s.stream.next as int),
        outside(offsets, g, s.stream.next as int),
        outside(bounds, g, s.stream.next as int),
        state.buffer != indices.buffer,
        state.buffer != offsets.buffer,
        state.buffer != bounds.buffer,
        0 < plan.total <= usize::MAX,
        d.after(s).at(indices.ptr()) == host_cells(DataSpec::I32(plan.indices)),
        d.after(s).at(offsets.ptr()) == host_cells(DataSpec::I32(plan.offsets)),
        d.after(s).at(bounds.ptr()) == host_cells(DataSpec::I32(plan.bounds)),
        fla_stages_run(s, f, fla_args(p, state), plan.total as usize, indices, offsets, bounds).error is None,
    ensures
        s.error is None,
        ({
            let c = d.after(s);
            let r = fla_stages_run(s, f, fla_args(p, state), plan.total as usize, indices, offsets, bounds);
            let e = d.after(r);
            let m = math(d, w, p);
            let y = m.chunked(f, plan, recurrent_at(c, p), c.at(state.ptr()));
            &&& r.stream.next == s.stream.next
            &&& same_weights(w, e, g)
            &&& e.at(p.w.wkv.wkv_out.ptr()) == y.0
            &&& e.at(state.ptr()) == y.1
            &&& forall|q: DevicePtr|
                #![trigger e.at(q)]
                q.buffer != g.base + 19 && q.buffer != state.buffer && !(g.base + 41 <= q.buffer < g.base + 56) ==> e.at(q) == c.at(q)
        }),
{
    broadcast use group_calls;
    broadcast use Device::lemma_emit;
    broadcast use Device::lemma_neg_exp;
    broadcast use Device::lemma_intra;
    broadcast use Device::lemma_wy_repr;
    broadcast use Device::lemma_chunk_h;
    broadcast use Device::lemma_chunk_o;

    lemma_laid(p, g);
    reveal(fla_view);
    reveal(fla_at);
}

/// The recurrence of a layer.
pub proof fn lemma_wkv(
    d: Device,
    w: Contents,
    s: Run,
    p: PassSpec,
    g: Layout,
    choice: WkvChoiceSpec,
    state: TensorSpec,
)
    requires
        laid(p, g),
        same_weights(w, d.after(s), g),
        choice_laid(choice, p, g),
        g.base + 60 <= s.stream.next,
        outside(state, g, s.stream.next as int),
        choice is Fla || d.after(s).at(p.w.wkv.w_decay.ptr()) == math(d, w, p).each(
            Unary::DecayExp,
            p.sh.std,
            d.after(s).at(p.w.att.att_w.ptr()),
        ),
        wkv_part(s, p, choice, state).error is None,
    ensures
        s.error is None,
        ({
            let c = d.after(s);
            let r = wkv_part(s, p, choice, state);
            let e = d.after(r);
            let m = math(d, w, p);
            let y = m.recurrence(
                choice,
                recurrent_at(c, p),
                c.at(state.ptr()),
                c.at(p.lens.ptr()),
                c.at(p.w.wkv.wkv_out.ptr()),
            );
            &&& r.stream.next >= s.stream.next
            &&& same_weights(w, e, g)
            &&& e.at(p.w.wkv.wkv_out.ptr()) == y.0
            &&& e.at(state.ptr()) == y.1
            &&& forall|q: DevicePtr|
                #![trigger e.at(q)]
                q.buffer < s.stream.next && q.buffer != g.base + 19 && q.buffer != state.buffer && !(g.base + 40 <= q.buffer < g.base + 56) ==> e.at(q) == c.at(q)
        }),
{
    broadcast use group_calls;
    broadcast use Device::lemma_wkv7;
    broadcast use Device::lemma_wkv_one;
    broadcast use Device::lemma_filled;

    lemma_laid(p, g);
    reveal(wkv_part);
    match choice {
        WkvChoiceSpec::Fla { kernel, lengths } => {
            reveal(fla_compute_run);
            let a = p.w.att;
            let k = p.w.wkv;
            let s1 = p.prober.stacked(
                s,
                HipHook::PreWkv,
                stack6(a.att_w, a.att_r, a.att_k_ctrl, a.att_v, k.wkv_a, k.wkv_b),
                6,
            );
            let s2 = p.prober.state(s1, HipHook::PreWkvState, state);
            let plan = chunk_plan(
                cu_seqlens(lengths, kernel.seq_len, kernel.batch_size),
                kernel.chunk_size as int,
            );
            assert(d.after(s2) == d.after(s));
            if plan.total > 0 {
                let ci_shape = TensorShape::of((plan.total * 2) as usize, 1, 1, 1);
                let list_shape = TensorShape::of((kernel.batch_size + 1) as usize, 1, 1, 1);
                let mem = MemoryType::Device;
                let indices = s2.fresh(ci_shape);
                let s3 = s2.filled(DataSpec::I32(plan.indices), ci_shape, mem);
                let offsets = s3.fresh(list_shape);
                let s4 = s3.filled(DataSpec::I32(plan.offsets), list_shape, mem);
                let bounds = s4.fresh(list_shape);
                let s5 = s4.filled(DataSpec::I32(plan.bounds), list_shape, mem);
                assert(s5.error is None);
                d.lemma_filled(s4, DataSpec::I32(plan.bounds), list_shape, mem, bounds.ptr());
                d.lemma_filled(s3, DataSpec::I32(plan.offsets), list_shape, mem, offsets.ptr());
                d.lemma_filled(s2, DataSpec::I32(plan.indices), ci_shape, mem, indices.ptr());
                lemma_stages(d, w, s5, p, g, kernel, plan, state, indices, offsets, bounds);
            }
        },
        _ => {},
    }
}

/// Everything between the token shift and the recurrence.
pub proof fn lemma_mix(
    d: Device,
    w: Contents,
    s: Run,
    p: PassSpec,
    g: Layout,
    idx: usize,
    layer: LayerHip,
    decay: bool,
)
    requires
        laid(p, g),
        same_weights(w, d.after(s), g),
        g.base + 60 <= s.stream.next,
        layer_below(layer, g),
        mix_part(s, p, idx, layer, decay).error is None,
    ensures
        s.error is None,
        ({
            let c = d.after(s);
            let r = mix_part(s, p, idx, layer, decay);
            let e = d.after(r);
            let m = math(d, w, p);
            let x = p.w.shift;
            let a = m.adaptation(layer, c.at(x.att_xa.ptr()));
            let key = m.projected(layer.att.w_k@, c.at(x.att_xk.ptr()));
            let kk = m.direction(layer, key);
            &&& r.stream.next == s.stream.next
            &&& same_weights(w, e, g)
            &&& recurrent_at(e, p) == (Recurrent {
                w: m.decay(layer, c.at(x.att_xw.ptr())),
                r: m.projected(layer.att.w_r@, c.at(x.att_xr.ptr())),
                k: m.controlled(layer, a, key),
                v: m.value(idx, layer, c.at(x.att_xv.ptr()), c.at(p.w.wkv.v_first.ptr())),
                a: m.each(Unary::Negate, p.sh.std, kk),
                b: m.both(Binary::Mul, kk, a),
            })
            &&& e.at(p.w.att.att_g.ptr()) == m.gate(layer, c.at(x.att_xg.ptr()))
            &&& e.at(p.w.wkv.v_first.ptr()) == m.first_value(
                idx,
                layer,
                c.at(x.att_xv.ptr()),
                c.at(p.w.wkv.v_first.ptr()),
            )
            &&& decay ==> e.at(p.w.wkv.w_decay.ptr()) == m.each(
                Unary::DecayExp,
                p.sh.std,
                e.at(p.w.att.att_w.ptr()),
            )
            &&& forall|q: DevicePtr|
                #![trigger e.at(q)]
                !(g.base + 8 <= q.buffer < g.base + 19) && q.buffer != g.base + 25 && !(g.base + 28 <= q.buffer < g.base + 38) ==> e.at(q) == c.at(q)
        }),
{
    reveal(mix_part);
    lemma_laid(p, g);
    let s1 = project_part(s, p, layer);
    let s2 = decay_part(s1, p, layer);
    let s3 = adapt_part(s2, p, layer);
    let s4 = gate_part(s3, p, layer);
    let s5 = value_part(s4, p, idx, layer);
    let s6 = key_part(s5, p, layer);
    let s7 = wkv_input_part(s6, p, decay);
    lemma_sticky_mix(s, p, idx, layer, decay);
    lemma_project(d, w, s, p, g, layer);
    lemma_decay(d, w, s1, p, g, layer);
    lemma_adapt(d, w, s2, p, g, layer);
    lemma_gate(d, w, s3, p, g, layer);
    lemma_value(d, w, s4, p, g, idx, layer);
    lemma_key(d, w, s5, p, g, layer);
    lemma_inputs(d, w, s6, p, g, decay);
}

/// Where the whole goes through, every part does.
pub proof fn lemma_sticky_mix(s: Run, p: PassSpec, idx: usize, layer: LayerHip, decay: bool)
    requires
        mix_part(s, p, idx, layer, decay).error is None,
    ensures
        ({
            let s1 = project_part(s, p, layer);
            let s2 = decay_part(s1, p, layer);
            let s3 = adapt_part(s2, p, layer);
            let s4 = gate_part(s3, p, layer);
            let s5 = value_part(s4, p, idx, layer);
            let s6 = key_part(s5, p, layer);
            let s7 = wkv_input_part(s6, p, decay);
            &&& s.error is None && s1.error is None && s2.error is None && s3.error is None
            &&& s4.error is None && s5.error is None && s6.error is None && s7.error is None
            &&& mix_part(s, p, idx, layer, decay) == s7
        }),
{
    reveal(mix_part);
}

} // verus!
