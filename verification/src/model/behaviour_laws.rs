//! What the parts of a pass are for: how what they leave in memory relates to what was there,
//! element by element, and how different ways to the same result agree.
use crate::launch::{Binary, Gemm, Unary, Wkv7};
use crate::meaning::{group_calls, lemma_cut, Cells, Device, Recurrent};
use crate::model::attention_laws::{choice_laid, lemma_sticky_mix, lemma_wkv};
use crate::model::block::Math;
use crate::model::block_laws::{
    below, laid, layer_below, lemma_adapt, lemma_decay, lemma_gate, lemma_inputs, lemma_key,
    lemma_laid, lemma_project, lemma_value, math, norm_below, outside, Layout,
};
use crate::model::dispatch_helpers::{
    ffn_mix_part, gated_part, head_part, wkv_part, WkvChoiceSpec,
};
use crate::model::fla::{chunk_plan, cu_seqlens};
use crate::model::layer::{
    adapt_part, blend_value, decay_part, gate_part, key_part, mix_part, project_part, value_part,
    PassSpec, LAYER_NORM_EPS,
};
use crate::model::weights::{HeadHip, LayerHip};
use crate::run::Run;
use crate::stream::Elem;
use crate::tensor::TensorSpec;
use vstd::prelude::*;

verus! {

/// Number of elements of a hidden state.
pub open spec fn width(p: PassSpec) -> int {
    p.sh.std.spec_len() as i32 as int
}

/// Every element of a blended value lies between the layer's own value and that of the first
/// layer, in this order, at a gate that is the sigmoid of something.
pub proof fn law_value_lies_between(
    d: Device,
    s: Run,
    p: PassSpec,
    g: Layout,
    v0: TensorSpec,
    v1: TensorSpec,
    v2: TensorSpec,
    i: int,
)
    requires
        laid(p, g),
        g.base + 60 <= s.stream.next,
        below(v0, g),
        below(v1, g),
        below(v2, g),
        blend_value(s, p, v0, v1, v2).error is None,
        0 <= i < width(p),
    ensures
        exists|t: u32|
            d.at(blend_value(s, p, v0, v1, v2), p.w.att.att_v)(i) == (d.kernels.lerp)(
                Elem::F16,
                d.at(s, p.w.att.att_v)(i),
                d.at(s, p.w.wkv.v_first)(i),
                #[trigger] (d.kernels.unary)(Unary::Sigmoid, Elem::F16, t),
            ),
{
    broadcast use {group_calls, lemma_cut};

    lemma_laid(p, g);
    let m = math(d, d.after(s), p);
    let t = m.along(
        Binary::Add,
        m.projected(v2, m.projected(v1, d.at(s, p.w.shift.att_xv))),
        v0,
    )(i);
    let gate = (d.kernels.unary)(Unary::Sigmoid, Elem::F16, t);
    assert(d.at(blend_value(s, p, v0, v1, v2), p.w.att.att_v)(i) == (d.kernels.lerp)(
        Elem::F16,
        d.at(s, p.w.att.att_v)(i),
        d.at(s, p.w.wkv.v_first)(i),
        gate,
    ));
}

/// With a closed gate, a value stays what it is; with an open one, it is that of the first
/// layer.
pub proof fn law_value_at_the_ends(
    d: Device,
    s: Run,
    p: PassSpec,
    g: Layout,
    v0: TensorSpec,
    v1: TensorSpec,
    v2: TensorSpec,
    closed_gate: u32,
    open_gate: u32,
    i: int,
)
    requires
        laid(p, g),
        g.base + 60 <= s.stream.next,
        below(v0, g),
        below(v1, g),
        below(v2, g),
        blend_value(s, p, v0, v1, v2).error is None,
        0 <= i < width(p),
        forall|a: u32, b: u32| #[trigger] (d.kernels.lerp)(Elem::F16, a, b, closed_gate) == a,
        forall|a: u32, b: u32| #[trigger] (d.kernels.lerp)(Elem::F16, a, b, open_gate) == b,
    ensures
        (forall|t: u32| #[trigger] (d.kernels.unary)(Unary::Sigmoid, Elem::F16, t) == closed_gate)
            ==> d.at(blend_value(s, p, v0, v1, v2), p.w.att.att_v)(i) == d.at(
            s,
            p.w.att.att_v,
        )(i),
        (forall|t: u32| #[trigger] (d.kernels.unary)(Unary::Sigmoid, Elem::F16, t) == open_gate)
            ==> d.at(blend_value(s, p, v0, v1, v2), p.w.att.att_v)(i) == d.at(
            s,
            p.w.wkv.v_first,
        )(i),
{
    law_value_lies_between(d, s, p, g, v0, v1, v2, i);
}

/// The feed-forward part adds what its projection gives to the hidden state.
pub proof fn law_feed_forward_adds(
    d: Device,
    s: Run,
    p: PassSpec,
    g: Layout,
    layer: LayerHip,
    i: int,
)
    requires
        laid(p, g),
        g.base + 60 <= s.stream.next,
        layer_below(layer, g),
        ffn_mix_part(s, p, layer).error is None,
        0 <= i < width(p),
    ensures
        ({
            let r = ffn_mix_part(s, p, layer);
            let w = layer.ffn.w_v@;
            &&& d.at(r, p.w.shift.x)(i) == (d.kernels.binary)(
                Binary::Add,
                Elem::F16,
                d.at(s, p.w.shift.x)(i),
                d.at(r, p.w.wkv.ffn_out)(i),
            )
            &&& d.at(r, p.w.wkv.ffn_out) == (d.kernels.product)(
                Gemm::Half,
                (w.shape().d0 as i32, p.sh.std.d1 as i32, w.shape().d1 as i32),
                d.at(s, w),
                d.at(r, p.w.inner.ffn_k_sq),
            )
        }),
{
    broadcast use {group_calls, lemma_cut};

    lemma_laid(p, g);
    reveal(ffn_mix_part);
}

/// A feed-forward part whose projection gives nothing leaves the hidden state as it is.
pub proof fn law_feed_forward_of_nothing(
    d: Device,
    s: Run,
    p: PassSpec,
    g: Layout,
    layer: LayerHip,
    zero: u32,
    i: int,
)
    requires
        laid(p, g),
        g.base + 60 <= s.stream.next,
        layer_below(layer, g),
        ffn_mix_part(s, p, layer).error is None,
        0 <= i < width(p),
        forall|a: u32| #[trigger] (d.kernels.binary)(Binary::Add, Elem::F16, a, zero) == a,
        d.at(ffn_mix_part(s, p, layer), p.w.wkv.ffn_out)(i) == zero,
    ensures
        d.at(ffn_mix_part(s, p, layer), p.w.shift.x)(i) == d.at(s, p.w.shift.x)(i),
{
    law_feed_forward_adds(d, s, p, g, layer, i);
}

/// The attention adds what its projection gives to the hidden state.
pub proof fn law_attention_adds(
    d: Device,
    s: Run,
    p: PassSpec,
    g: Layout,
    layer: LayerHip,
    i: int,
)
    requires
        laid(p, g),
        g.base + 60 <= s.stream.next,
        layer_below(layer, g),
        gated_part(s, p, layer).error is None,
        0 <= i < width(p),
    ensures
        ({
            let r = gated_part(s, p, layer);
            let w = layer.att.w_o@;
            &&& d.at(r, p.w.shift.x)(i) == (d.kernels.binary)(
                Binary::Add,
                Elem::F16,
                d.at(s, p.w.shift.x)(i),
                d.at(r, p.w.wkv.att_out)(i),
            )
            &&& d.at(r, p.w.wkv.att_out) == (d.kernels.product)(
                Gemm::Half,
                (w.shape().d0 as i32, p.sh.std.d1 as i32, w.shape().d1 as i32),
                d.at(s, w),
                d.at(r, p.tmp.temp2),
            )
            &&& d.at(r, p.tmp.temp2)(i) == (d.kernels.binary)(
                Binary::Mul,
                Elem::F16,
                (d.kernels.binary)(
                    Binary::Add,
                    Elem::F16,
                    d.at(s, p.w.wkv.wkv_normed)(i),
                    d.at(s, p.w.wkv.wkv_bonus)(i),
                ),
                d.at(s, p.w.att.att_g)(i),
            )
        }),
{
    broadcast use {group_calls, lemma_cut};

    lemma_laid(p, g);
    reveal(gated_part);
}

/// An attention whose projection gives nothing leaves the hidden state as it is.
pub proof fn law_attention_of_nothing(
    d: Device,
    s: Run,
    p: PassSpec,
    g: Layout,
    layer: LayerHip,
    zero: u32,
    i: int,
)
    requires
        laid(p, g),
        g.base + 60 <= s.stream.next,
        layer_below(layer, g),
        gated_part(s, p, layer).error is None,
        0 <= i < width(p),
        forall|a: u32| #[trigger] (d.kernels.binary)(Binary::Add, Elem::F16, a, zero) == a,
        d.at(gated_part(s, p, layer), p.w.wkv.att_out)(i) == zero,
    ensures
        d.at(gated_part(s, p, layer), p.w.shift.x)(i) == d.at(s, p.w.shift.x)(i),
{
    law_attention_adds(d, s, p, g, layer, i);
}

/// The output head multiplies its matrix with the norm of the hidden state, and with nothing else.
pub proof fn law_head_reads_the_norm(
    d: Device,
    s: Run,
    p: PassSpec,
    g: Layout,
    head: HeadHip,
    logits: TensorSpec,
)
    requires
        laid(p, g),
        norm_below(head.ln, g),
        below(head.w@, g),
        logits.buffer != g.base + 1,
        head_part(s, p, head, logits).error is None,
    ensures
        ({
            let r = head_part(s, p, head, logits);
            let w = head.w@;
            &&& d.at(r, logits) == (d.kernels.product)(
                Gemm::Half,
                (w.shape().d0 as i32, p.sh.std.d1 as i32, w.shape().d1 as i32),
                d.at(s, w),
                d.at(r, p.w.shift.x_ln),
            )
            &&& d.at(r, p.w.shift.x_ln) == (d.kernels.layer_norm)(
                Elem::F16,
                (p.sh.std.d0 as i32, p.sh.std.vectors() as i32, LAYER_NORM_EPS),
                d.at(s, p.w.shift.x),
                d.at(s, head.ln.weight@),
                d.at(s, head.ln.bias@),
            )
        }),
{
    broadcast use group_calls;

    lemma_laid(p, g);
    reveal(head_part);
}

/// Two hidden states with the same norm have the same logits.
pub proof fn law_logits_depend_on_the_norm_only(
    d1: Device,
    d2: Device,
    s1: Run,
    s2: Run,
    p: PassSpec,
    g: Layout,
    head: HeadHip,
    logits: TensorSpec,
)
    requires
        laid(p, g),
        norm_below(head.ln, g),
        below(head.w@, g),
        logits.buffer != g.base + 1,
        head_part(s1, p, head, logits).error is None,
        head_part(s2, p, head, logits).error is None,
        d1.kernels.product == d2.kernels.product,
        d1.at(s1, head.w@) == d2.at(s2, head.w@),
        (d1.kernels.layer_norm)(
            Elem::F16,
            (p.sh.std.d0 as i32, p.sh.std.vectors() as i32, LAYER_NORM_EPS),
            d1.at(s1, p.w.shift.x),
            d1.at(s1, head.ln.weight@),
            d1.at(s1, head.ln.bias@),
        ) == (d2.kernels.layer_norm)(
            Elem::F16,
            (p.sh.std.d0 as i32, p.sh.std.vectors() as i32, LAYER_NORM_EPS),
            d2.at(s2, p.w.shift.x),
            d2.at(s2, head.ln.weight@),
            d2.at(s2, head.ln.bias@),
        ),
    ensures
        d1.at(head_part(s1, p, head, logits), logits) == d2.at(
            head_part(s2, p, head, logits),
            logits,
        ),
{
    law_head_reads_the_norm(d1, s1, p, g, head, logits);
    law_head_reads_the_norm(d2, s2, p, g, head, logits);
}

/// What the recurrence reads: the receptance is the projection of its own mix of tokens, and so are
/// key and value; the key is controlled by the adaptation; the state loses what lies in the
/// direction of the key, and gets back as much of it as the adaptation says; and the decay factor
/// is the exponential of the decay.
pub proof fn law_recurrent_inputs(
    d: Device,
    s: Run,
    p: PassSpec,
    g: Layout,
    idx: usize,
    layer: LayerHip,
    i: int,
)
    requires
        laid(p, g),
        g.base + 60 <= s.stream.next,
        layer_below(layer, g),
        mix_part(s, p, idx, layer, true).error is None,
        0 <= i < width(p),
        i < p.sh.std.d0 as i32 * p.sh.std.d1 as i32 * p.sh.std.d2 as i32,
    ensures
        ({
            let r = mix_part(s, p, idx, layer, true);
            let k = d.kernels;
            let a = p.w.att;
            let tokens = p.sh.std.d1 as i32;
            &&& d.at(r, a.att_r) == (k.product)(
                Gemm::Half,
                (layer.att.w_r@.shape().d0 as i32, tokens, layer.att.w_r@.shape().d1 as i32),
                d.at(s, layer.att.w_r@),
                d.at(s, p.w.shift.att_xr),
            )
            &&& d.at(r, a.att_k) == (k.product)(
                Gemm::Half,
                (layer.att.w_k@.shape().d0 as i32, tokens, layer.att.w_k@.shape().d1 as i32),
                d.at(s, layer.att.w_k@),
                d.at(s, p.w.shift.att_xk),
            )
            &&& idx == 0 ==> d.at(r, a.att_v) == (k.product)(
                Gemm::Half,
                (layer.att.w_v@.shape().d0 as i32, tokens, layer.att.w_v@.shape().d1 as i32),
                d.at(s, layer.att.w_v@),
                d.at(s, p.w.shift.att_xv),
            )
            &&& idx == 0 ==> d.at(r, p.w.wkv.v_first)(i) == d.at(r, a.att_v)(i)
            &&& idx > 0 ==> d.at(r, p.w.wkv.v_first) == d.at(s, p.w.wkv.v_first)
            &&& d.at(r, a.att_k_ctrl)(i) == (k.control)(
                Elem::F16,
                d.at(s, layer.att.k_a@)(i % (p.sh.std.d0 as i32 as int)),
                d.at(r, a.att_a)(i),
                d.at(r, a.att_k)(i),
            )
            &&& d.at(r, p.w.wkv.wkv_a)(i) == (k.unary)(
                Unary::Negate,
                Elem::F16,
                d.at(r, a.att_kk)(i),
            )
            &&& d.at(r, p.w.wkv.wkv_b)(i) == (k.binary)(
                Binary::Mul,
                Elem::F16,
                d.at(r, a.att_kk)(i),
                d.at(r, a.att_a)(i),
            )
            &&& d.at(r, p.w.wkv.w_decay)(i) == (k.unary)(
                Unary::DecayExp,
                Elem::F16,
                d.at(r, a.att_w)(i),
            )
        }),
{
    broadcast use lemma_cut;

    let w = d.after(s);
    lemma_laid(p, g);
    let s1 = project_part(s, p, layer);
    let s2 = decay_part(s1, p, layer);
    let s3 = adapt_part(s2, p, layer);
    let s4 = gate_part(s3, p, layer);
    let s5 = value_part(s4, p, idx, layer);
    let s6 = key_part(s5, p, layer);
    lemma_sticky_mix(s, p, idx, layer, true);
    lemma_project(d, w, s, p, g, layer);
    lemma_decay(d, w, s1, p, g, layer);
    lemma_adapt(d, w, s2, p, g, layer);
    lemma_gate(d, w, s3, p, g, layer);
    lemma_value(d, w, s4, p, g, idx, layer);
    lemma_key(d, w, s5, p, g, layer);
    lemma_inputs(d, w, s6, p, g, true);
}

/// A way to compute a recurrence: from decay factors, receptance, key, value and the two vectors
/// that take from the state and give back to it, and the state, to an output and a new state.
pub type Recurrence = spec_fn(Recurrent, Cells) -> (Cells, Cells);

/// Whether the kernels that a choice stands for compute a recurrence. The chunked ones start from
/// the decay, the others from its exponential.
pub open spec fn computes(m: Math, choice: WkvChoiceSpec, lens: Cells, f: Recurrence) -> bool {
    let d = m.sh.wkv_data;
    match choice {
        WkvChoiceSpec::Fla { kernel, lengths } => {
            let plan = chunk_plan(
                cu_seqlens(lengths, kernel.seq_len, kernel.batch_size),
                kernel.chunk_size as int,
            );
            &&& plan.total > 0
            &&& forall|n: Recurrent, state: Cells|
                #[trigger] m.chunked(kernel, plan, n, state) == f(
                    (Recurrent { w: m.each(Unary::DecayExp, m.sh.std, n.w), ..n }),
                    state,
                )
        },
        WkvChoiceSpec::FusedT1 => forall|n: Recurrent, state: Cells|
            #[trigger] (m.kernels.wkv_one)(
                (d.d0 as i32, d.d1 as i32, d.d3 as i32),
                n,
                state,
                lens,
            ) == f(n, state),
        WkvChoiceSpec::Masked { .. } => forall|n: Recurrent, state: Cells|
            #[trigger] (m.kernels.wkv)(
                Wkv7::F16Masked,
                (d.d0 as i32, d.d1 as i32, d.d2 as i32, d.d3 as i32),
                n,
                state,
                Some(lens),
            ) == f(n, state),
    }
}

/// Whichever kernels compute the recurrence, they get the same inputs: the output and the new
/// state are those of the recurrence on the decay, the receptance, the controlled key, the value
/// and the two vectors, each from the buffer that was made for it.
pub proof fn law_recurrence(
    d: Device,
    s: Run,
    p: PassSpec,
    g: Layout,
    choice: WkvChoiceSpec,
    state: TensorSpec,
    f: Recurrence,
    i: int,
)
    requires
        laid(p, g),
        choice_laid(choice, p, g),
        g.base + 60 <= s.stream.next,
        outside(state, g, s.stream.next as int),
        d.at(s, p.w.wkv.w_decay) == math(d, d.after(s), p).each(
            Unary::DecayExp,
            p.sh.std,
            d.at(s, p.w.att.att_w),
        ),
        wkv_part(s, p, choice, state).error is None,
        computes(math(d, d.after(s), p), choice, d.at(s, p.lens), f),
        0 <= i < p.sh.wkv_state.spec_len() as i32,
    ensures
        ({
            let y = f(
                (Recurrent {
                    w: d.at(s, p.w.wkv.w_decay),
                    r: d.at(s, p.w.att.att_r),
                    k: d.at(s, p.w.att.att_k_ctrl),
                    v: d.at(s, p.w.att.att_v),
                    a: d.at(s, p.w.wkv.wkv_a),
                    b: d.at(s, p.w.wkv.wkv_b),
                }),
                d.at(s, state),
            );
            let r = wkv_part(s, p, choice, state);
            &&& d.at(r, p.w.wkv.wkv_out) == y.0
            &&& d.at(r, state)(i) == y.1(i)
        }),
{
    broadcast use lemma_cut;

    lemma_wkv(d, d.after(s), s, p, g, choice, state);
}

/// Chunked, one-token and masked attention agree: from the same inputs and the same state they
/// give the same output and the same new state.
pub proof fn law_choices_agree(
    d: Device,
    s: Run,
    p: PassSpec,
    g: Layout,
    one: WkvChoiceSpec,
    other: WkvChoiceSpec,
    state: TensorSpec,
    f: Recurrence,
    i: int,
)
    requires
        laid(p, g),
        choice_laid(one, p, g),
        choice_laid(other, p, g),
        g.base + 60 <= s.stream.next,
        outside(state, g, s.stream.next as int),
        d.at(s, p.w.wkv.w_decay) == math(d, d.after(s), p).each(
            Unary::DecayExp,
            p.sh.std,
            d.at(s, p.w.att.att_w),
        ),
        wkv_part(s, p, one, state).error is None,
        wkv_part(s, p, other, state).error is None,
        computes(math(d, d.after(s), p), one, d.at(s, p.lens), f),
        computes(math(d, d.after(s), p), other, d.at(s, p.lens), f),
        0 <= i < p.sh.wkv_state.spec_len() as i32,
    ensures
        d.at(wkv_part(s, p, one, state), p.w.wkv.wkv_out) == d.at(
            wkv_part(s, p, other, state),
            p.w.wkv.wkv_out,
        ),
        d.at(wkv_part(s, p, one, state), state)(i) == d.at(wkv_part(s, p, other, state), state)(i),
{
    law_recurrence(d, s, p, g, one, state, f, i);
    law_recurrence(d, s, p, g, other, state, f, i);
}

/// Numbers of a state and what is done with them, whatever the precision.
pub struct Arithmetic {
    pub plus: spec_fn(u32, u32) -> u32,
    pub times: spec_fn(u32, u32) -> u32,
    pub zero: u32,
}

impl Arithmetic {
    /// The inner product of the first `n` elements.
    pub open spec fn dot(self, n: nat, x: Cells, y: Cells) -> u32
        decreases n,
    {
        if n == 0 {
            self.zero
        } else {
            let k = n - 1;
            (self.plus)(self.dot(k as nat, x, y), (self.times)(x(k), y(k)))
        }
    }
}

/// Where the numbers of one head lie: its channels, and the rows and columns of its state.
pub struct Head {
    pub size: nat,
    pub channel: spec_fn(int) -> int,
    pub cell: spec_fn(int, int) -> int,
}

impl Head {
    /// The part of a vector that belongs to the head.
    pub open spec fn of(self, x: Cells) -> Cells {
        |i: int| x((self.channel)(i))
    }

    /// A row of a state.
    pub open spec fn row(self, state: Cells, i: int) -> Cells {
        |j: int| state((self.cell)(i, j))
    }

    /// Whether a step over one token is the recurrence of the head: of a state `S`, it makes
    /// `S' = S diag(w) + (S a) b^T + v k^T`, and gives `S' r`.
    pub open spec fn steps(
        self,
        ar: Arithmetic,
        n: Recurrent,
        before: Cells,
        out: Cells,
        after: Cells,
    ) -> bool {
        forall|i: int, j: int|
            #![trigger (self.cell)(i, j)]
            0 <= i < self.size && 0 <= j < self.size ==> {
                &&& after((self.cell)(i, j)) == (ar.plus)(
                    (ar.plus)(
                        (ar.times)(before((self.cell)(i, j)), self.of(n.w)(j)),
                        (ar.times)(
                            ar.dot(self.size, self.row(before, i), self.of(n.a)),
                            self.of(n.b)(j),
                        ),
                    ),
                    (ar.times)(self.of(n.v)(i), self.of(n.k)(j)),
                )
                &&& self.of(out)(i) == ar.dot(self.size, self.row(after, i), self.of(n.r))
            }
    }
}

/// On a device whose one-token kernel makes a step of the recurrence in a head, a pass over one
/// token makes it with the buffers of the layer: the state loses with the decay factor, is
/// corrected along the direction of the key, learns the value at the controlled key, and is read
/// with the receptance.
pub proof fn law_one_token_is_a_step(
    d: Device,
    s: Run,
    p: PassSpec,
    g: Layout,
    state: TensorSpec,
    ar: Arithmetic,
    head: Head,
)
    requires
        laid(p, g),
        g.base + 60 <= s.stream.next,
        outside(state, g, s.stream.next as int),
        d.at(s, p.w.wkv.w_decay) == math(d, d.after(s), p).each(
            Unary::DecayExp,
            p.sh.std,
            d.at(s, p.w.att.att_w),
        ),
        wkv_part(s, p, WkvChoiceSpec::FusedT1, state).error is None,
        forall|size: (i32, i32, i32), n: Recurrent, before: Cells, lens: Cells|
            #![trigger (d.kernels.wkv_one)(size, n, before, lens)]
            head.steps(
                ar,
                n,
                before,
                (d.kernels.wkv_one)(size, n, before, lens).0,
                (d.kernels.wkv_one)(size, n, before, lens).1,
            ),
    ensures
        head.steps(
            ar,
            (Recurrent {
                w: d.at(s, p.w.wkv.w_decay),
                r: d.at(s, p.w.att.att_r),
                k: d.at(s, p.w.att.att_k_ctrl),
                v: d.at(s, p.w.att.att_v),
                a: d.at(s, p.w.wkv.wkv_a),
                b: d.at(s, p.w.wkv.wkv_b),
            }),
            d.at(s, state),
            d.at(wkv_part(s, p, WkvChoiceSpec::FusedT1, state), p.w.wkv.wkv_out),
            d.at(wkv_part(s, p, WkvChoiceSpec::FusedT1, state), state),
        ),
{
    lemma_wkv(d, d.after(s), s, p, g, WkvChoiceSpec::FusedT1, state);
}

} // verus!
