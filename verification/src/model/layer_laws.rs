//! What whole layers and whole passes compute.
use crate::kernels::elementwise::copy_tensor_f16_call;
use crate::launch::Unary;
use crate::meaning::{group_calls, Contents, Device};
use crate::model::attention_laws::{choice_laid, lemma_mix, lemma_wkv, recurrent_at};
use crate::model::block_laws::{
    laid, layer_below, lemma_bonus, lemma_ffn_mix, lemma_ffn_shift, lemma_gated, lemma_laid,
    lemma_shift, math, norm_below, below, outside, same_weights, Layout,
};
use crate::model::dispatch_helpers::{
    attention_run, bonus_part, ffn_run, ffn_shift_part, gated_part, head_part, head_view_error, recurrent_part,
    wkv_part, DecayForms, WkvChoiceSpec,
};
use crate::model::layer::{embed_norm, mix_part, shift_part, PassSpec};
use crate::model::weights::{HeadHip, LayerHip, LayerNormHip};
use crate::run::Run;
use crate::tensor::{DevicePtr, TensorSpec};
use vstd::prelude::*;

verus! {

/// The attention of a layer adds to the hidden state what its formula says, of the hidden state,
/// the token-shift state and the recurrent state as they were, and leaves the new states in their
/// places.
pub proof fn law_attention(
    d: Device,
    w: Contents,
    s: Run,
    p: PassSpec,
    g: Layout,
    idx: usize,
    layer: LayerHip,
    forms: DecayForms,
    choice: WkvChoiceSpec,
    att_shift: TensorSpec,
    state: TensorSpec,
)
    requires
        laid(p, g),
        same_weights(w, d.after(s), g),
        choice_laid(choice, p, g),
        choice is Fla || forms.exponential,
        g.base + 60 <= s.stream.next,
        layer_below(layer, g),
        outside(att_shift, g, s.stream.next as int),
        att_shift.shape() == p.sh.state,
        outside(state, g, s.stream.next as int),
        att_shift.buffer != state.buffer,
        attention_run(s, p, idx, layer, forms, choice, att_shift, state).error is None,
    ensures
        s.error is None,
        ({
            let c = d.after(s);
            let r = attention_run(s, p, idx, layer, forms, choice, att_shift, state);
            let e = d.after(r);
            let y = math(d, w, p).attention(
                idx,
                layer,
                choice,
                c.at(p.w.shift.x.ptr()),
                c.at(att_shift.ptr()),
                c.at(state.ptr()),
                c.at(p.w.wkv.v_first.ptr()),
                c.at(p.lens.ptr()),
                c.at(p.w.wkv.wkv_out.ptr()),
            );
            &&& r.stream.next >= s.stream.next
            &&& same_weights(w, e, g)
            &&& e.at(p.w.shift.x.ptr()) == y.x
            &&& e.at(att_shift.ptr()) == y.shift
            &&& e.at(state.ptr()) == y.state
            &&& e.at(p.w.wkv.v_first.ptr()) == y.v_first
            &&& e.at(p.w.wkv.wkv_out.ptr()) == y.out
            &&& kept(c, e, g, s.stream.next as int, att_shift.buffer, state.buffer)
        }),
{
    broadcast use group_calls;

    lemma_laid(p, g);
    lemma_attention_parts(s, p, idx, layer, forms, choice, att_shift, state);
    let s1 = shift_part(s, p, layer, att_shift, p.tmp.new_att_shift);
    let s2 = s1.call(copy_tensor_f16_call(p.tmp.new_att_shift, att_shift));
    let s3 = mix_part(s2, p, idx, layer, forms.exponential);
    let s4 = s3.check(head_view_error(p, forms));
    let s5 = wkv_part(s4, p, choice, state);
    let s6 = bonus_part(s5, p, layer);
    let s7 = gated_part(s6, p, layer);
    lemma_shift(d, w, s, p, g, layer, att_shift);
    lemma_mix(d, w, s2, p, g, idx, layer, forms.exponential);
    lemma_wkv(d, w, s4, p, g, choice, state);
    lemma_bonus(d, w, s5, p, g, layer);
    lemma_gated(d, w, s6, p, g, layer);
    let c = d.after(s);
    let m = math(d, w, p);
    let c2 = d.after(s2);
    let xn = m.normed(layer.att_ln, c.at(p.w.shift.x.ptr()));
    let shift = c.at(att_shift.ptr());
    let n = m.recurrent(idx, layer, xn, shift, c.at(p.w.wkv.v_first.ptr()));
    assert(recurrent_at(d.after(s4), p) == n) by {
        assert(math(d, w, p).decay(layer, c2.at(p.w.shift.att_xw.ptr())) == n.w);
        assert(math(d, w, p).projected(layer.att.w_r@, c2.at(p.w.shift.att_xr.ptr())) == n.r);
    }
    let y = m.recurrence(
        choice,
        n,
        c.at(state.ptr()),
        c.at(p.lens.ptr()),
        c.at(p.w.wkv.wkv_out.ptr()),
    );
    assert(d.after(s5).at(p.w.wkv.wkv_out.ptr()) == y.0);
    assert(d.after(s5).at(state.ptr()) == y.1);
}

/// Where the attention goes through, every part of it does.
proof fn lemma_attention_parts(
    s: Run,
    p: PassSpec,
    idx: usize,
    layer: LayerHip,
    forms: DecayForms,
    choice: WkvChoiceSpec,
    att_shift: TensorSpec,
    state: TensorSpec,
)
    requires
        attention_run(s, p, idx, layer, forms, choice, att_shift, state).error is None,
    ensures
        ({
            let s1 = shift_part(s, p, layer, att_shift, p.tmp.new_att_shift);
            let s2 = s1.call(copy_tensor_f16_call(p.tmp.new_att_shift, att_shift));
            let s3 = mix_part(s2, p, idx, layer, forms.exponential);
            let s4 = s3.check(head_view_error(p, forms));
            let s5 = wkv_part(s4, p, choice, state);
            let s6 = bonus_part(s5, p, layer);
            let s7 = gated_part(s6, p, layer);
            &&& s.error is None && s1.error is None && s2.error is None && s3.error is None
            &&& s4.error is None && s5.error is None && s6.error is None && s7.error is None
            &&& s2.stream.next == s1.stream.next
            &&& s4.stream.next == s3.stream.next
            &&& attention_run(s, p, idx, layer, forms, choice, att_shift, state) == s7
        }),
{
    reveal(attention_run);
    reveal(recurrent_part);
}

/// Whether a memory still holds what lies outside the tensors that a pass works with, but for two
/// buffers.
pub open spec fn kept(c: Contents, e: Contents, g: Layout, next: int, a: usize, b: usize) -> bool {
    forall|q: DevicePtr|
        #![trigger e.at(q)]
        q.buffer < next && q.buffer != a && q.buffer != b && !(g.base <= q.buffer < g.base + 56)
            ==> e.at(q) == c.at(q)
}

/// The feed-forward part of a layer adds to the hidden state what its formula says, and leaves
/// its new token-shift state in its place.
pub proof fn law_feed_forward(
    d: Device,
    w: Contents,
    s: Run,
    p: PassSpec,
    g: Layout,
    layer: LayerHip,
    ffn_shift: TensorSpec,
)
    requires
        laid(p, g),
        same_weights(w, d.after(s), g),
        g.base + 60 <= s.stream.next,
        layer_below(layer, g),
        outside(ffn_shift, g, s.stream.next as int),
        ffn_shift.shape() == p.sh.state,
        ffn_run(s, p, layer, ffn_shift).error is None,
    ensures
        s.error is None,
        ({
            let c = d.after(s);
            let r = ffn_run(s, p, layer, ffn_shift);
            let e = d.after(r);
            let m = math(d, w, p);
            let x = c.at(p.w.shift.x.ptr());
            let shift = c.at(ffn_shift.ptr());
            &&& r.stream.next == s.stream.next
            &&& same_weights(w, e, g)
            &&& e.at(p.w.shift.x.ptr()) == m.feed_forward(layer, x, shift)
            &&& e.at(ffn_shift.ptr()) == m.carried(
                m.normed(layer.ffn_ln, x),
                shift,
                c.at(p.lens.ptr()),
            )
            &&& e.at(p.w.wkv.v_first.ptr()) == c.at(p.w.wkv.v_first.ptr())
            &&& e.at(p.w.wkv.wkv_out.ptr()) == c.at(p.w.wkv.wkv_out.ptr())
            &&& kept(c, e, g, s.stream.next as int, ffn_shift.buffer, ffn_shift.buffer)
        }),
{
    broadcast use group_calls;

    lemma_laid(p, g);
    reveal(ffn_run);
    let s1 = ffn_shift_part(s, p, layer, ffn_shift, p.tmp.new_ffn_shift);
    let s2 = s1.call(copy_tensor_f16_call(p.tmp.new_ffn_shift, ffn_shift));
    lemma_ffn_shift(d, w, s, p, g, layer, ffn_shift);
    lemma_ffn_mix(d, w, s2, p, g, layer);
}

/// The embedding goes through its own layer norm.
pub proof fn law_embed_norm(
    d: Device,
    w: Contents,
    s: Run,
    p: PassSpec,
    g: Layout, ln: LayerNormHip)
    requires
        laid(p, g),
        same_weights(w, d.after(s), g),
        norm_below(ln, g),
        embed_norm(s, p, ln).error is None,
    ensures
        s.error is None,
        ({
            let c = d.after(s);
            let e = d.after(embed_norm(s, p, ln));
            let m = math(d, w, p);
            &&& embed_norm(s, p, ln).stream.next == s.stream.next
            &&& same_weights(w, e, g)
            &&& e.at(p.w.shift.x.ptr()) == m.each(
                Unary::Copy,
                p.sh.std,
                m.normed(ln, c.at(p.w.shift.x.ptr())),
            )
            &&& forall|q: DevicePtr|
                #![trigger e.at(q)]
                q.buffer != g.base && q.buffer != g.base + 1 ==> e.at(q) == c.at(q)
        }),
{
    broadcast use group_calls;

    lemma_laid(p, g);
    reveal(embed_norm);
}

/// The logits are the head's projection of the hidden state behind the last layer norm.
pub proof fn law_head(
    d: Device,
    w: Contents,
    s: Run,
    p: PassSpec,
    g: Layout,
    head: HeadHip,
    logits: TensorSpec,
)
    requires
        laid(p, g),
        same_weights(w, d.after(s), g),
        norm_below(head.ln, g),
        below(head.w@, g),
        head_part(s, p, head, logits).error is None,
    ensures
        s.error is None,
        d.at(head_part(s, p, head, logits), logits) == math(d, w, p).logits(
            head,
            d.at(s, p.w.shift.x),
        ),
        head_part(s, p, head, logits).stream.next == s.stream.next,
        forall|q: DevicePtr|
            q.buffer != p.w.shift.x_ln.buffer && q.buffer != logits.buffer ==> (#[trigger] d.after(
                head_part(s, p, head, logits),
            ).at(q)) == d.after(s).at(q),
{
    broadcast use group_calls;

    lemma_laid(p, g);
    reveal(head_part);
}

} // verus!
