//! What all layers of a pass compute together.
use crate::meaning::{host_cells, Contents, Device};
use crate::model::attention_laws::choice_laid;
use crate::model::block::Held;
use crate::model::block_laws::{
    below, laid, layer_below, lemma_laid, math, norm_below, outside, same_weights, Layout,
};
use crate::model::dispatch_helpers::{
    attention_run, ffn_run, staged, DecayForms, WkvChoiceSpec,
};
use crate::model::layer::{embed_norm, PassSpec};
use crate::model::layer_laws::{law_attention, law_embed_norm, law_feed_forward};
use crate::model::pass::{layer_run, layers_run};
use crate::model::state_laws::apart;
use crate::model::Rwkv7Model;
use crate::run::Run;
use crate::scratch::StateSpec;
use crate::stream::DataSpec;
use crate::tensor::resize_error;
use vstd::prelude::*;

verus! {

/// What the tensors that go from layer to layer hold in a memory.
pub open spec fn held(c: Contents, p: PassSpec, state: StateSpec, n: nat) -> Held {
    Held {
        x: c.at(p.w.shift.x.ptr()),
        v_first: c.at(p.w.wkv.v_first.ptr()),
        out: c.at(p.w.wkv.wkv_out.ptr()),
        att_shift: Seq::new(n, |i: int| c.at(state.att_shift[i].ptr())),
        ffn: Seq::new(n, |i: int| c.at(state.ffn[i].ptr())),
        wkv: Seq::new(n, |i: int| c.at(state.wkv[i].ptr())),
    }
}

/// Whether the states of all layers lie in buffers of their own, outside the tensors that a pass
/// works with and above the weights.
pub open spec fn states_outside(state: StateSpec, g: Layout, n: int, next: int) -> bool {
    &&& apart(state, n)
    &&& forall|i: int| 0 <= i < n ==> outside(#[trigger] state.att_shift[i], g, next)
    &&& forall|i: int| 0 <= i < n ==> outside(#[trigger] state.ffn[i], g, next)
    &&& forall|i: int| 0 <= i < n ==> outside(#[trigger] state.wkv[i], g, next)
}

/// Whether all weights of a model lie below the memory that a pass writes to.
pub open spec fn model_below(model: Rwkv7Model, g: Layout) -> bool {
    &&& norm_below(model.embed.ln, g)
    &&& norm_below(model.head.ln, g)
    &&& below(model.head.w@, g)
    &&& model.layers@.len() == model.info.n_layer
    &&& forall|i: int| 0 <= i < model.layers@.len() ==> layer_below(#[trigger] model.layers@[i], g)
}

/// One layer computes what its formula says, and leaves everything else as it was.
pub proof fn law_layer(
    d: Device,
    w: Contents,
    s: Run,
    p: PassSpec,
    g: Layout,
    model: Rwkv7Model,
    idx: usize,
    forms: DecayForms,
    choice: WkvChoiceSpec,
    state: StateSpec,
)
    requires
        laid(p, g),
        same_weights(w, d.after(s), g),
        choice_laid(choice, p, g),
        choice is Fla || forms.exponential,
        g.base + 60 <= s.stream.next,
        model_below(model, g),
        idx < model.info.n_layer,
        states_outside(state, g, model.info.n_layer as int, s.stream.next as int),
        layer_run(s, p, model, idx, forms, choice, state).error is None,
    ensures
        s.error is None,
        ({
            let n = model.info.n_layer as nat;
            let c = d.after(s);
            let r = layer_run(s, p, model, idx, forms, choice, state);
            let e = d.after(r);
            &&& r.stream.next >= s.stream.next
            &&& same_weights(w, e, g)
            &&& e.at(p.lens.ptr()) == c.at(p.lens.ptr())
            &&& held(e, p, state, n) == math(d, w, p).layer(
                model,
                idx,
                choice,
                c.at(p.lens.ptr()),
                held(c, p, state, n),
            )
        }),
{
    broadcast use Device::lemma_check;

    reveal(layer_run);
    let q = p.in_layer(idx);
    let i = idx as int;
    let layer = model.layers@[i];
    lemma_laid(p, g);
    assert(laid(q, g));
    assert(outside(state.att_shift[i], g, s.stream.next as int));
    assert(outside(state.ffn[i], g, s.stream.next as int));
    assert(outside(state.wkv[i], g, s.stream.next as int));
    let att_shift = state.att_shift[i].with_shape(p.sh.state);
    let ffn_shift = state.ffn[i].with_shape(p.sh.state);
    let wkv = state.wkv[i].with_shape(p.sh.wkv_state);
    assert(att_shift.buffer != wkv.buffer) by {
        assert(state.att_shift[i].buffer != state.wkv[i].buffer);
    }
    let s0 = s.check(resize_error(state.att_shift[i], q.sh.state)).check(
        resize_error(state.ffn[i], q.sh.state),
    ).check(resize_error(state.wkv[i], q.sh.wkv_state));
    let s1 = if idx == 0 {
        embed_norm(s0, q, model.embed.ln)
    } else {
        s0
    };
    let s2 = attention_run(s1, q, idx, layer, forms, choice, att_shift, wkv);
    let s3 = ffn_run(s2, q, layer, ffn_shift);
    assert(s0.error is None && s1.error is None && s2.error is None);
    assert(s3 == layer_run(s, p, model, idx, forms, choice, state));
    if idx == 0 {
        law_embed_norm(d, w, s0, q, g, model.embed.ln);
    }
    law_attention(d, w, s1, q, g, idx, layer, forms, choice, att_shift, wkv);
    law_feed_forward(d, w, s2, q, g, layer, ffn_shift);
    let n = model.info.n_layer as nat;
    let c = d.after(s);
    let e = d.after(s3);
    let lens = c.at(p.lens.ptr());
    let want = math(d, w, p).layer(model, idx, choice, lens, held(c, p, state, n));
    let got = held(e, p, state, n);
    assert(state.ffn[i].buffer != state.att_shift[i].buffer);
    assert(state.ffn[i].buffer != state.wkv[i].buffer);
    assert(got.x == want.x);
    assert forall|j: int| 0 <= j < n implies got.att_shift[j] == want.att_shift[j] by {
        assert(outside(state.att_shift[j], g, s.stream.next as int));
        assert(state.att_shift[j].buffer != state.ffn[i].buffer);
        assert(state.att_shift[j].buffer != state.wkv[i].buffer);
        assert(j != i ==> state.att_shift[j].buffer != state.att_shift[i].buffer);
    }
    assert forall|j: int| 0 <= j < n implies got.ffn[j] == want.ffn[j] by {
        assert(outside(state.ffn[j], g, s.stream.next as int));
        assert(state.att_shift[i].buffer != state.ffn[j].buffer);
        assert(state.ffn[j].buffer != state.wkv[i].buffer);
        assert(j != i ==> state.ffn[j].buffer != state.ffn[i].buffer);
    }
    assert forall|j: int| 0 <= j < n implies got.wkv[j] == want.wkv[j] by {
        assert(outside(state.wkv[j], g, s.stream.next as int));
        assert(state.att_shift[i].buffer != state.wkv[j].buffer);
        assert(state.ffn[i].buffer != state.wkv[j].buffer);
        assert(j != i ==> state.wkv[j].buffer != state.wkv[i].buffer);
    }
    assert(got =~= want);
}

/// All layers together compute what their formulas say, one after the other.
pub proof fn law_layers(
    d: Device,
    w: Contents,
    s: Run,
    p: PassSpec,
    g: Layout,
    model: Rwkv7Model,
    k: nat,
    forms: DecayForms,
    choice: WkvChoiceSpec,
    state: StateSpec,
)
    requires
        laid(p, g),
        same_weights(w, d.after(s), g),
        choice_laid(choice, p, g),
        choice is Fla || forms.exponential,
        g.base + 60 <= s.stream.next,
        model_below(model, g),
        k <= model.info.n_layer,
        states_outside(state, g, model.info.n_layer as int, s.stream.next as int),
        layers_run(s, p, model, k, forms, choice, state).error is None,
    ensures
        s.error is None,
        ({
            let n = model.info.n_layer as nat;
            let c = d.after(s);
            let r = layers_run(s, p, model, k, forms, choice, state);
            let e = d.after(r);
            &&& r.stream.next >= s.stream.next
            &&& same_weights(w, e, g)
            &&& e.at(p.lens.ptr()) == c.at(p.lens.ptr())
            &&& held(e, p, state, n) == math(d, w, p).layers(
                model,
                k,
                choice,
                c.at(p.lens.ptr()),
                held(c, p, state, n),
            )
        }),
    decreases k,
{
    if k > 0 {
        let before = (k - 1) as nat;
        let s1 = layers_run(s, p, model, before, forms, choice, state);
        assert(s1.error is None);
        law_layers(d, w, s, p, g, model, before, forms, choice, state);
        law_layer(d, w, s1, p, g, model, before as usize, forms, choice, state);
    }
}

/// Every token starts as the row of the embedding table that it names.
pub proof fn law_embedding(
    before: Seq<u16>,
    table: Seq<u16>,
    stride: int,
    rows: Seq<Seq<u32>>,
    n_embd: int,
    t: int,
    sequence: int,
    token: int,
    channel: int,
)
    requires
        rows.len() * t * n_embd <= before.len(),
        0 <= sequence < rows.len(),
        0 <= token < t,
        0 <= channel < n_embd,
    ensures
        0 <= (sequence * t + token) * n_embd + channel < before.len(),
        host_cells(DataSpec::F16(staged(before, table, stride, rows, n_embd, t)))(
            (sequence * t + token) * n_embd + channel,
        ) == table[rows[sequence][token] * stride + channel] as u32,
{
    let place = sequence * t + token;
    let i = place * n_embd + channel;
    vstd::arithmetic::div_mod::lemma_fundamental_div_mod_converse(i, n_embd, place, channel);
    vstd::arithmetic::div_mod::lemma_fundamental_div_mod_converse(place, t, sequence, token);
    assert(0 <= place && place + 1 <= rows.len() * t) by (nonlinear_arith)
        requires
            0 <= sequence < rows.len(),
            0 <= token < t,
            place == sequence * t + token,
    ;
    assert(0 <= place * n_embd && (place + 1) * n_embd <= rows.len() * t * n_embd)
        by (nonlinear_arith)
        requires
            0 <= place,
            place + 1 <= rows.len() * t,
            0 < n_embd,
    ;
    assert((place + 1) * n_embd == place * n_embd + n_embd) by (nonlinear_arith);
}

} // verus!
