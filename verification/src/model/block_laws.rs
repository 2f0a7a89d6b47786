//! What the commands of a layer leave in device memory.
use crate::buffers::{
    att_at, att_view, inner_at, inner_view, shift_at, shift_view, temp_at, temp_view, wkv_at,
    wkv_view, work_at, work_view,
};
use crate::launch::{Binary, Unary};
use crate::meaning::{group_calls, lemma_cut_twice, Contents, Device};
use crate::model::block::Math;
use crate::model::dispatch_helpers::{bonus_part, ffn_mix_part, ffn_shift_part, gated_part};
use crate::model::layer::{
    adapt_part, blend_value, decay_part, gate_part, key_part, project_part, shift_part, value_part,
    wkv_input_part, PassSpec, GROUP_NORM_EPS,
};
use crate::model::weights::{LayerHip, LayerNormHip};
use crate::run::Run;
use crate::scratch::LoraDims;
use crate::shapes::{FlaShapes, PassShapes};
use crate::stream::Elem;
use crate::tensor::{DevicePtr, TensorShape, TensorSpec};
use vstd::prelude::*;

verus! {

/// How the tensors of a pass lie on the device: the weights below the buffer `low`, the tensors
/// that it works with from the buffer `base` on; then the shapes that these were made for, the
/// ranks of the model, and the tokens and sequences of the pass.
pub struct Layout {
    pub low: usize,
    pub base: usize,
    pub full: PassShapes,
    pub fla: FlaShapes,
    pub lora: LoraDims,
    pub t: usize,
    pub b: usize,
}

/// Whether the tensors of a pass are those of the working memory, in the shapes of the pass.
pub open spec fn laid(p: PassSpec, g: Layout) -> bool {
    &&& g.low <= g.base
    &&& g.base + 60 <= usize::MAX
    &&& p.sh == PassShapes::of(p.info, g.lora, g.t, g.b)
    &&& p.w == work_view(work_at(g.base, g.full), p.sh)
    &&& p.tmp == temp_view(temp_at((g.base + 36) as usize, g.full), p.sh)
    &&& p.lens == TensorSpec::whole((g.base + 59) as usize, g.full.lens).with_shape(p.sh.lens)
}

/// Whether a tensor lies in a buffer and has a shape.
pub open spec fn set_at(t: TensorSpec, buffer: int, shape: TensorShape) -> bool {
    t.buffer == buffer && t.shape() == shape
}

/// Where the tensors of a pass lie.
pub proof fn lemma_laid(p: PassSpec, g: Layout)
    requires
        laid(p, g),
    ensures
        set_at(p.w.shift.x, g.base + 0, p.sh.std),
        set_at(p.w.shift.x_ln, g.base + 1, p.sh.std),
        set_at(p.w.shift.att_xr, g.base + 2, p.sh.std),
        set_at(p.w.shift.att_xw, g.base + 3, p.sh.std),
        set_at(p.w.shift.att_xk, g.base + 4, p.sh.std),
        set_at(p.w.shift.att_xv, g.base + 5, p.sh.std),
        set_at(p.w.shift.att_xa, g.base + 6, p.sh.std),
        set_at(p.w.shift.att_xg, g.base + 7, p.sh.std),
        set_at(p.w.att.att_r, g.base + 8, p.sh.std),
        set_at(p.w.att.att_k, g.base + 9, p.sh.std),
        set_at(p.w.att.att_v, g.base + 10, p.sh.std),
        set_at(p.w.att.att_w, g.base + 11, p.sh.std),
        set_at(p.w.att.att_a, g.base + 12, p.sh.std),
        set_at(p.w.att.att_g, g.base + 13, p.sh.std),
        set_at(p.w.att.att_kk, g.base + 14, p.sh.std),
        set_at(p.w.att.att_k_ctrl, g.base + 15, p.sh.std),
        set_at(p.w.wkv.wkv_a, g.base + 16, p.sh.std),
        set_at(p.w.wkv.wkv_b, g.base + 17, p.sh.std),
        set_at(p.w.wkv.w_decay, g.base + 18, p.sh.std),
        set_at(p.w.wkv.wkv_out, g.base + 19, p.sh.std),
        set_at(p.w.wkv.wkv_normed, g.base + 20, p.sh.std),
        set_at(p.w.wkv.wkv_bonus, g.base + 21, p.sh.std),
        set_at(p.w.wkv.att_out, g.base + 22, p.sh.std),
        set_at(p.w.wkv.ffn_xk, g.base + 23, p.sh.std),
        set_at(p.w.wkv.ffn_out, g.base + 24, p.sh.std),
        set_at(p.w.wkv.v_first, g.base + 25, p.sh.std),
        set_at(p.w.inner.ffn_k, g.base + 26, p.sh.ffn),
        set_at(p.w.inner.ffn_k_sq, g.base + 27, p.sh.ffn),
        set_at(p.w.inner.lora_w, g.base + 28, p.sh.lora_w),
        set_at(p.w.inner.lora_a, g.base + 29, p.sh.lora_a),
        set_at(p.w.inner.lora_g, g.base + 30, p.sh.lora_g),
        set_at(p.w.inner.lora_v, g.base + 31, p.sh.lora_v),
        set_at(p.w.inner.lora_w_tanh, g.base + 32, p.sh.lora_w),
        set_at(p.w.inner.lora_a_proj, g.base + 33, p.sh.std),
        set_at(p.w.inner.lora_g_sig, g.base + 34, p.sh.lora_g),
        set_at(p.w.inner.v_lora2, g.base + 35, p.sh.std),
        set_at(p.tmp.temp1, g.base + 36, p.sh.std),
        set_at(p.tmp.temp2, g.base + 37, p.sh.std),
        set_at(p.tmp.new_att_shift, g.base + 38, p.sh.state),
        set_at(p.tmp.new_ffn_shift, g.base + 39, p.sh.state),
        set_at(p.lens, g.base + 59, p.sh.lens),
{
    reveal(work_view);
    reveal(work_at);
    reveal(shift_view);
    reveal(shift_at);
    reveal(att_view);
    reveal(att_at);
    reveal(wkv_view);
    reveal(wkv_at);
    reveal(inner_view);
    reveal(inner_at);
    reveal(temp_view);
    reveal(temp_at);
}

/// Whether a weight lies below the memory that a pass writes to.
pub open spec fn below(t: TensorSpec, g: Layout) -> bool {
    t.buffer < g.low
}

/// Whether a state lies above the weights, in a buffer made before, and outside the tensors that
/// a pass works with.
pub open spec fn outside(t: TensorSpec, g: Layout, next: int) -> bool {
    g.low <= t.buffer < next && !(g.base <= t.buffer < g.base + 60)
}

/// Whether scale and shift of a normalisation lie below the memory that a pass writes to.
pub open spec fn norm_below(ln: LayerNormHip, g: Layout) -> bool {
    below(ln.weight@, g) && below(ln.bias@, g)
}

/// Whether the weights of a layer lie below the memory that a pass writes to.
pub open spec fn layer_below(layer: LayerHip, g: Layout) -> bool {
    let a = layer.att;
    &&& norm_below(layer.att_ln, g)
    &&& norm_below(layer.ffn_ln, g)
    &&& norm_below(a.gn, g)
    &&& below(a.x_r@, g)
    &&& below(a.x_w@, g)
    &&& below(a.x_k@, g)
    &&& below(a.x_v@, g)
    &&& below(a.x_a@, g)
    &&& below(a.x_g@, g)
    &&& below(a.w0@, g)
    &&& below(a.w1@, g)
    &&& below(a.w2@, g)
    &&& below(a.a0@, g)
    &&& below(a.a1@, g)
    &&& below(a.a2@, g)
    &&& below(a.g1@, g)
    &&& below(a.g2@, g)
    &&& below(a.r_k@, g)
    &&& below(a.k_k@, g)
    &&& below(a.k_a@, g)
    &&& below(a.w_r@, g)
    &&& below(a.w_k@, g)
    &&& below(a.w_v@, g)
    &&& below(a.w_o@, g)
    &&& a.v0 matches Some(t) ==> below(t@, g)
    &&& a.v1 matches Some(t) ==> below(t@, g)
    &&& a.v2 matches Some(t) ==> below(t@, g)
    &&& below(layer.ffn.x_k@, g)
    &&& below(layer.ffn.w_k@, g)
    &&& below(layer.ffn.w_v@, g)
}

/// Whether a memory holds the weights that another one holds.
pub open spec fn same_weights(w: Contents, c: Contents, g: Layout) -> bool {
    forall|q: DevicePtr| #![trigger c.at(q)] q.buffer < g.low ==> c.at(q) == w.at(q)
}

/// The formulas of a pass, with the weights that a memory holds.
pub open spec fn math(d: Device, w: Contents, p: PassSpec) -> Math {
    Math { kernels: d.kernels, weights: w, sh: p.sh, info: p.info }
}

/// The token shift of the attention.
pub proof fn lemma_shift(
    d: Device,
    w: Contents,
    s: Run,
    p: PassSpec,
    g: Layout,
    layer: LayerHip,
    att_shift: TensorSpec,
)
    requires
        laid(p, g),
        same_weights(w, d.after(s), g),
        g.base + 60 <= s.stream.next,
        layer_below(layer, g),
        outside(att_shift, g, s.stream.next as int),
        shift_part(s, p, layer, att_shift, p.tmp.new_att_shift).error is None,
    ensures
        s.error is None,
        shift_part(s, p, layer, att_shift, p.tmp.new_att_shift).stream.next == s.stream.next,
        ({
            let c = d.after(s);
            let r = shift_part(s, p, layer, att_shift, p.tmp.new_att_shift);
            let e = d.after(r);
            let m = math(d, w, p);
            &&& same_weights(w, e, g)
            &&& e.at(p.w.shift.x_ln.ptr()) == m.normed(layer.att_ln, c.at(p.w.shift.x.ptr()))
            &&& e.at(p.w.shift.att_xr.ptr()) == m.mixed(e.at(p.w.shift.x_ln.ptr()), c.at(att_shift.ptr()), layer.att.x_r@)
            &&& e.at(p.w.shift.att_xw.ptr()) == m.mixed(e.at(p.w.shift.x_ln.ptr()), c.at(att_shift.ptr()), layer.att.x_w@)
            &&& e.at(p.w.shift.att_xk.ptr()) == m.mixed(e.at(p.w.shift.x_ln.ptr()), c.at(att_shift.ptr()), layer.att.x_k@)
            &&& e.at(p.w.shift.att_xv.ptr()) == m.mixed(e.at(p.w.shift.x_ln.ptr()), c.at(att_shift.ptr()), layer.att.x_v@)
            &&& e.at(p.w.shift.att_xa.ptr()) == m.mixed(e.at(p.w.shift.x_ln.ptr()), c.at(att_shift.ptr()), layer.att.x_a@)
            &&& e.at(p.w.shift.att_xg.ptr()) == m.mixed(e.at(p.w.shift.x_ln.ptr()), c.at(att_shift.ptr()), layer.att.x_g@)
            &&& e.at(p.tmp.new_att_shift.ptr()) == (d.kernels.last_token)(Elem::F16, m.tokens(), e.at(p.w.shift.x_ln.ptr()), c.at(att_shift.ptr()), Some(c.at(p.lens.ptr())))
            &&& forall|q: DevicePtr|
                #![trigger e.at(q)]
                q.buffer != g.base + 1 && q.buffer != g.base + 2 && q.buffer != g.base + 3 && q.buffer != g.base + 4 && q.buffer != g.base + 5 && q.buffer != g.base + 6 && q.buffer != g.base + 7 && q.buffer != g.base + 36 && q.buffer != g.base + 38 ==> e.at(q) == c.at(q)
        }),
{
    broadcast use group_calls;
    broadcast use lemma_cut_twice;

    lemma_laid(p, g);
    reveal(shift_part);
}

/// The projections of the attention.
pub proof fn lemma_project(
    d: Device,
    w: Contents,
    s: Run,
    p: PassSpec,
    g: Layout,
    layer: LayerHip,
)
    requires
        laid(p, g),
        same_weights(w, d.after(s), g),
        g.base + 60 <= s.stream.next,
        layer_below(layer, g),
        project_part(s, p, layer).error is None,
    ensures
        s.error is None,
        project_part(s, p, layer).stream.next == s.stream.next,
        ({
            let c = d.after(s);
            let r = project_part(s, p, layer);
            let e = d.after(r);
            let m = math(d, w, p);
            &&& same_weights(w, e, g)
            &&& e.at(p.w.att.att_r.ptr()) == m.projected(layer.att.w_r@, c.at(p.w.shift.att_xr.ptr()))
            &&& e.at(p.w.att.att_k.ptr()) == m.projected(layer.att.w_k@, c.at(p.w.shift.att_xk.ptr()))
            &&& e.at(p.w.att.att_v.ptr()) == m.projected(layer.att.w_v@, c.at(p.w.shift.att_xv.ptr()))
            &&& forall|q: DevicePtr|
                #![trigger e.at(q)]
                q.buffer != g.base + 8 && q.buffer != g.base + 9 && q.buffer != g.base + 10 ==> e.at(q) == c.at(q)
        }),
{
    broadcast use group_calls;
    broadcast use lemma_cut_twice;

    lemma_laid(p, g);
    reveal(project_part);
}

/// The decay.
pub proof fn lemma_decay(
    d: Device,
    w: Contents,
    s: Run,
    p: PassSpec,
    g: Layout,
    layer: LayerHip,
)
    requires
        laid(p, g),
        same_weights(w, d.after(s), g),
        g.base + 60 <= s.stream.next,
        layer_below(layer, g),
        decay_part(s, p, layer).error is None,
    ensures
        s.error is None,
        decay_part(s, p, layer).stream.next == s.stream.next,
        ({
            let c = d.after(s);
            let r = decay_part(s, p, layer);
            let e = d.after(r);
            let m = math(d, w, p);
            &&& same_weights(w, e, g)
            &&& e.at(p.w.att.att_w.ptr()) == m.decay(layer, c.at(p.w.shift.att_xw.ptr()))
            &&& forall|q: DevicePtr|
                #![trigger e.at(q)]
                q.buffer != g.base + 28 && q.buffer != g.base + 32 && q.buffer != g.base + 11 && q.buffer != g.base + 36 ==> e.at(q) == c.at(q)
        }),
{
    broadcast use group_calls;
    broadcast use lemma_cut_twice;

    lemma_laid(p, g);
    reveal(decay_part);
}

/// The adaptation.
pub proof fn lemma_adapt(
    d: Device,
    w: Contents,
    s: Run,
    p: PassSpec,
    g: Layout,
    layer: LayerHip,
)
    requires
        laid(p, g),
        same_weights(w, d.after(s), g),
        g.base + 60 <= s.stream.next,
        layer_below(layer, g),
        adapt_part(s, p, layer).error is None,
    ensures
        s.error is None,
        adapt_part(s, p, layer).stream.next == s.stream.next,
        ({
            let c = d.after(s);
            let r = adapt_part(s, p, layer);
            let e = d.after(r);
            let m = math(d, w, p);
            &&& same_weights(w, e, g)
            &&& e.at(p.w.att.att_a.ptr()) == m.adaptation(layer, c.at(p.w.shift.att_xa.ptr()))
            &&& forall|q: DevicePtr|
                #![trigger e.at(q)]
                q.buffer != g.base + 29 && q.buffer != g.base + 33 && q.buffer != g.base + 12 && q.buffer != g.base + 36 ==> e.at(q) == c.at(q)
        }),
{
    broadcast use group_calls;
    broadcast use lemma_cut_twice;

    lemma_laid(p, g);
    reveal(adapt_part);
}

/// What gates the attention.
pub proof fn lemma_gate(
    d: Device,
    w: Contents,
    s: Run,
    p: PassSpec,
    g: Layout,
    layer: LayerHip,
)
    requires
        laid(p, g),
        same_weights(w, d.after(s), g),
        g.base + 60 <= s.stream.next,
        layer_below(layer, g),
        gate_part(s, p, layer).error is None,
    ensures
        s.error is None,
        gate_part(s, p, layer).stream.next == s.stream.next,
        ({
            let c = d.after(s);
            let r = gate_part(s, p, layer);
            let e = d.after(r);
            let m = math(d, w, p);
            &&& same_weights(w, e, g)
            &&& e.at(p.w.att.att_g.ptr()) == m.gate(layer, c.at(p.w.shift.att_xg.ptr()))
            &&& forall|q: DevicePtr|
                #![trigger e.at(q)]
                q.buffer != g.base + 30 && q.buffer != g.base + 34 && q.buffer != g.base + 13 ==> e.at(q) == c.at(q)
        }),
{
    broadcast use group_calls;
    broadcast use lemma_cut_twice;

    lemma_laid(p, g);
    reveal(gate_part);
}

/// The value, blended with that of the first layer.
pub proof fn lemma_blend(
    d: Device,
    w: Contents,
    s: Run,
    p: PassSpec,
    g: Layout,
    v0: TensorSpec,
    v1: TensorSpec,
    v2: TensorSpec,
)
    requires
        laid(p, g),
        same_weights(w, d.after(s), g),
        g.base + 60 <= s.stream.next,
        below(v0, g),
        below(v1, g),
        below(v2, g),
        blend_value(s, p, v0, v1, v2).error is None,
    ensures
        s.error is None,
        blend_value(s, p, v0, v1, v2).stream.next == s.stream.next,
        ({
            let c = d.after(s);
            let r = blend_value(s, p, v0, v1, v2);
            let e = d.after(r);
            let m = math(d, w, p);
            &&& same_weights(w, e, g)
            &&& e.at(p.w.att.att_v.ptr()) == d.kernels.blended(Elem::F16, m.count(p.sh.std), c.at(p.w.att.att_v.ptr()), c.at(p.w.wkv.v_first.ptr()), m.low_rank_gate(v0, v1, v2, c.at(p.w.shift.att_xv.ptr())))
            &&& forall|q: DevicePtr|
                #![trigger e.at(q)]
                q.buffer != g.base + 31 && q.buffer != g.base + 35 && q.buffer != g.base + 36 && q.buffer != g.base + 37 && q.buffer != g.base + 10 ==> e.at(q) == c.at(q)
        }),
{
    broadcast use group_calls;
    broadcast use lemma_cut_twice;

    lemma_laid(p, g);
}

/// The value of a layer.
pub proof fn lemma_value(
    d: Device,
    w: Contents,
    s: Run,
    p: PassSpec,
    g: Layout,
    idx: usize,
    layer: LayerHip,
)
    requires
        laid(p, g),
        same_weights(w, d.after(s), g),
        g.base + 60 <= s.stream.next,
        layer_below(layer, g),
        d.after(s).at(p.w.att.att_v.ptr()) == math(d, w, p).own_value(layer, d.after(s).at(p.w.shift.att_xv.ptr())),
        value_part(s, p, idx, layer).error is None,
    ensures
        s.error is None,
        value_part(s, p, idx, layer).stream.next == s.stream.next,
        ({
            let c = d.after(s);
            let r = value_part(s, p, idx, layer);
            let e = d.after(r);
            let m = math(d, w, p);
            &&& same_weights(w, e, g)
            &&& e.at(p.w.att.att_v.ptr()) == m.value(idx, layer, c.at(p.w.shift.att_xv.ptr()), c.at(p.w.wkv.v_first.ptr()))
            &&& e.at(p.w.wkv.v_first.ptr()) == m.first_value(idx, layer, c.at(p.w.shift.att_xv.ptr()), c.at(p.w.wkv.v_first.ptr()))
            &&& forall|q: DevicePtr|
                #![trigger e.at(q)]
                q.buffer != g.base + 31 && q.buffer != g.base + 35 && q.buffer != g.base + 36 && q.buffer != g.base + 37 && q.buffer != g.base + 10 && q.buffer != g.base + 25 ==> e.at(q) == c.at(q)
        }),
{
    broadcast use group_calls;
    broadcast use lemma_cut_twice;

    lemma_laid(p, g);
    reveal(value_part);
    match (layer.att.v0, layer.att.v1, layer.att.v2) {
        (Some(v0), Some(v1), Some(v2)) if idx > 0 => {
            lemma_blend(d, w, s, p, g, v0@, v1@, v2@);
        },
        _ => {},
    }
}

/// The direction of the key and the controlled key.
pub proof fn lemma_key(
    d: Device,
    w: Contents,
    s: Run,
    p: PassSpec,
    g: Layout,
    layer: LayerHip,
)
    requires
        laid(p, g),
        same_weights(w, d.after(s), g),
        g.base + 60 <= s.stream.next,
        layer_below(layer, g),
        key_part(s, p, layer).error is None,
    ensures
        s.error is None,
        key_part(s, p, layer).stream.next == s.stream.next,
        ({
            let c = d.after(s);
            let r = key_part(s, p, layer);
            let e = d.after(r);
            let m = math(d, w, p);
            &&& same_weights(w, e, g)
            &&& e.at(p.w.att.att_kk.ptr()) == m.direction(layer, c.at(p.w.att.att_k.ptr()))
            &&& e.at(p.w.att.att_k_ctrl.ptr()) == m.controlled(layer, c.at(p.w.att.att_a.ptr()), c.at(p.w.att.att_k.ptr()))
            &&& forall|q: DevicePtr|
                #![trigger e.at(q)]
                q.buffer != g.base + 36 && q.buffer != g.base + 14 && q.buffer != g.base + 15 ==> e.at(q) == c.at(q)
        }),
{
    broadcast use group_calls;
    broadcast use lemma_cut_twice;

    lemma_laid(p, g);
    reveal(key_part);
}

/// The remaining inputs of the recurrence.
pub proof fn lemma_inputs(
    d: Device,
    w: Contents,
    s: Run,
    p: PassSpec,
    g: Layout,
    decay: bool,
)
    requires
        laid(p, g),
        same_weights(w, d.after(s), g),
        g.base + 60 <= s.stream.next,
        wkv_input_part(s, p, decay).error is None,
    ensures
        s.error is None,
        wkv_input_part(s, p, decay).stream.next == s.stream.next,
        ({
            let c = d.after(s);
            let r = wkv_input_part(s, p, decay);
            let e = d.after(r);
            let m = math(d, w, p);
            &&& same_weights(w, e, g)
            &&& e.at(p.w.wkv.wkv_a.ptr()) == m.each(Unary::Negate, p.sh.std, c.at(p.w.att.att_kk.ptr()))
            &&& e.at(p.w.wkv.wkv_b.ptr()) == m.both(Binary::Mul, c.at(p.w.att.att_kk.ptr()), c.at(p.w.att.att_a.ptr()))
            &&& decay ==> e.at(p.w.wkv.w_decay.ptr()) == m.each(Unary::DecayExp, p.sh.std, c.at(p.w.att.att_w.ptr()))
            &&& forall|q: DevicePtr|
                #![trigger e.at(q)]
                q.buffer != g.base + 16 && q.buffer != g.base + 17 && q.buffer != g.base + 18 ==> e.at(q) == c.at(q)
        }),
{
    broadcast use group_calls;
    broadcast use lemma_cut_twice;

    lemma_laid(p, g);
    reveal(wkv_input_part);
}

/// The normalised output of the recurrence, and what the current token adds.
pub proof fn lemma_bonus(
    d: Device,
    w: Contents,
    s: Run,
    p: PassSpec,
    g: Layout,
    layer: LayerHip,
)
    requires
        laid(p, g),
        same_weights(w, d.after(s), g),
        g.base + 60 <= s.stream.next,
        layer_below(layer, g),
        bonus_part(s, p, layer).error is None,
    ensures
        s.error is None,
        bonus_part(s, p, layer).stream.next == s.stream.next,
        ({
            let c = d.after(s);
            let r = bonus_part(s, p, layer);
            let e = d.after(r);
            let m = math(d, w, p);
            &&& same_weights(w, e, g)
            &&& e.at(p.w.wkv.wkv_normed.ptr()) == (d.kernels.group_norm)(Elem::F16, (p.sh.std.d0 as i32, p.sh.std.vectors() as i32, p.info.n_head as i32, GROUP_NORM_EPS), c.at(p.w.wkv.wkv_out.ptr()), m.weight(layer.att.gn.weight@), m.weight(layer.att.gn.bias@))
            &&& e.at(p.w.wkv.wkv_bonus.ptr()) == (d.kernels.bonus)(Elem::F16, (p.sh.wkv_data.d0 as i32, p.sh.wkv_data.d1 as i32, p.sh.wkv_data.d2 as i32, p.sh.wkv_data.d3 as i32), c.at(p.w.att.att_r.ptr()), c.at(p.w.att.att_k_ctrl.ptr()), c.at(p.w.att.att_v.ptr()), m.weight(layer.att.r_k@))
            &&& forall|q: DevicePtr|
                #![trigger e.at(q)]
                q.buffer != g.base + 20 && q.buffer != g.base + 21 ==> e.at(q) == c.at(q)
        }),
{
    broadcast use group_calls;
    broadcast use lemma_cut_twice;

    lemma_laid(p, g);
    reveal(bonus_part);
}

/// The residual of the attention.
pub proof fn lemma_gated(
    d: Device,
    w: Contents,
    s: Run,
    p: PassSpec,
    g: Layout,
    layer: LayerHip,
)
    requires
        laid(p, g),
        same_weights(w, d.after(s), g),
        g.base + 60 <= s.stream.next,
        layer_below(layer, g),
        gated_part(s, p, layer).error is None,
    ensures
        s.error is None,
        gated_part(s, p, layer).stream.next == s.stream.next,
        ({
            let c = d.after(s);
            let r = gated_part(s, p, layer);
            let e = d.after(r);
            let m = math(d, w, p);
            &&& same_weights(w, e, g)
            &&& e.at(p.w.shift.x.ptr()) == m.both(Binary::Add, c.at(p.w.shift.x.ptr()), m.projected(layer.att.w_o@, m.both(Binary::Mul, m.both(Binary::Add, c.at(p.w.wkv.wkv_normed.ptr()), c.at(p.w.wkv.wkv_bonus.ptr())), c.at(p.w.att.att_g.ptr()))))
            &&& forall|q: DevicePtr|
                #![trigger e.at(q)]
                q.buffer != g.base + 36 && q.buffer != g.base + 37 && q.buffer != g.base + 22 && q.buffer != g.base + 0 ==> e.at(q) == c.at(q)
        }),
{
    broadcast use group_calls;
    broadcast use lemma_cut_twice;

    lemma_laid(p, g);
    reveal(gated_part);
}

/// The token shift of the feed-forward part.
pub proof fn lemma_ffn_shift(
    d: Device,
    w: Contents,
    s: Run,
    p: PassSpec,
    g: Layout,
    layer: LayerHip,
    ffn_shift: TensorSpec,
)
    requires
        laid(p, g),
        same_weights(w, d.after(s), g),
        g.base + 60 <= s.stream.next,
        layer_below(layer, g),
        outside(ffn_shift, g, s.stream.next as int),
        ffn_shift_part(s, p, layer, ffn_shift, p.tmp.new_ffn_shift).error is None,
    ensures
        s.error is None,
        ffn_shift_part(s, p, layer, ffn_shift, p.tmp.new_ffn_shift).stream.next == s.stream.next,
        ({
            let c = d.after(s);
            let r = ffn_shift_part(s, p, layer, ffn_shift, p.tmp.new_ffn_shift);
            let e = d.after(r);
            let m = math(d, w, p);
            &&& same_weights(w, e, g)
            &&& e.at(p.w.shift.x_ln.ptr()) == m.normed(layer.ffn_ln, c.at(p.w.shift.x.ptr()))
            &&& e.at(p.w.wkv.ffn_xk.ptr()) == m.mixed(e.at(p.w.shift.x_ln.ptr()), c.at(ffn_shift.ptr()), layer.ffn.x_k@)
            &&& e.at(p.tmp.new_ffn_shift.ptr()) == (d.kernels.last_token)(Elem::F16, m.tokens(), e.at(p.w.shift.x_ln.ptr()), c.at(ffn_shift.ptr()), Some(c.at(p.lens.ptr())))
            &&& forall|q: DevicePtr|
                #![trigger e.at(q)]
                q.buffer != g.base + 1 && q.buffer != g.base + 23 && q.buffer != g.base + 39 ==> e.at(q) == c.at(q)
        }),
{
    broadcast use group_calls;
    broadcast use lemma_cut_twice;

    lemma_laid(p, g);
    reveal(ffn_shift_part);
}

/// The residual of the feed-forward part.
pub proof fn lemma_ffn_mix(
    d: Device,
    w: Contents,
    s: Run,
    p: PassSpec,
    g: Layout,
    layer: LayerHip,
)
    requires
        laid(p, g),
        same_weights(w, d.after(s), g),
        g.base + 60 <= s.stream.next,
        layer_below(layer, g),
        ffn_mix_part(s, p, layer).error is None,
    ensures
        s.error is None,
        ffn_mix_part(s, p, layer).stream.next == s.stream.next,
        ({
            let c = d.after(s);
            let r = ffn_mix_part(s, p, layer);
            let e = d.after(r);
            let m = math(d, w, p);
            &&& same_weights(w, e, g)
            &&& e.at(p.w.shift.x.ptr()) == m.both(Binary::Add, c.at(p.w.shift.x.ptr()), m.projected(layer.ffn.w_v@, m.each(Unary::SquaredRelu, p.sh.ffn, m.projected(layer.ffn.w_k@, c.at(p.w.wkv.ffn_xk.ptr())))))
            &&& forall|q: DevicePtr|
                #![trigger e.at(q)]
                q.buffer != g.base + 26 && q.buffer != g.base + 27 && q.buffer != g.base + 24 && q.buffer != g.base + 36 && q.buffer != g.base + 0 ==> e.at(q) == c.at(q)
        }),
{
    broadcast use group_calls;
    broadcast use lemma_cut_twice;

    lemma_laid(p, g);
    reveal(ffn_mix_part);
}

} // verus!
