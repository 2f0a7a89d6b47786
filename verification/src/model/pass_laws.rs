//! When a pass succeeds: weights of the right shapes and enough working memory are all it takes.
use crate::blas::gemm_call;
use crate::buffer::MemoryType;
use crate::kernels::elementwise::{
    binary_call, broadcast_call, copy_f16_to_f32_call, copy_tensor_f16_call,
    copy_tensor_f32_call, lerp_call, unary_call,
};
use crate::kernels::fla::{
    fla_chunk_h_call, fla_chunk_o_call, fla_cumsum_error, fla_intra_call, fla_neg_exp_call,
    fla_wy_repr_call,
};
use crate::kernels::mix::{channel_mix_call, control_k_call};
use crate::kernels::norm::{group_norm_f16_call, l2_norm_f16_call, layer_norm_f16_call};
use crate::kernels::wkv::{
    wkv7_call, wkv7_f16_masked_call, wkv7_fused_t1_call, wkv_bonus_f16_call,
};
use crate::model::dispatch_helpers::{
    attention_run, bonus_part, ffn_mix_part, ffn_run, ffn_shift_part, fla_args, gated_part,
    head_part, head_view_error, output_head_run, recurrent_part, reshape_part, wkv_kernel_run,
    wkv_part, wkv_tensors, DecayForms, WkvChoiceSpec,
};
use crate::model::fla::{
    chunk_plan, cu_seqlens, fla_compute_run, fla_sizes_fit, fla_stages_run, FlaArgs, FlaWkvSpec,
};
use crate::model::layer::{
    adapt_part, decay_part, embed_norm, gate_part, key_part, mix_part, project_part, shift_part,
    value_part, wkv_input_part, PassSpec,
};
use crate::model::pass::{layer_run, layers_run};
use crate::model::prefill::{FusedT1Wkv, WkvKernel};
use crate::model::weights::{HeadHip, LayerHip, LayerNormHip};
use crate::model::{Rwkv7Model, Rwkv7ModelInfo};
use crate::probe::{stack6, HipHook};
use crate::run::Run;
use crate::scratch::{LoraDims, StateSpec};
use crate::shapes::PassShapes;
use crate::stream::DataSpec;
use crate::tensor::{fill_error, reshape_error, resize_error, TensorShape, TensorSpec};
use vstd::prelude::*;

verus! {

/// A tensor of the given shape, without gaps.
pub open spec fn packed_as(tensor: TensorSpec, shape: TensorShape) -> bool {
    tensor.shape() == shape && tensor.contiguous()
}

/// A tensor of `n` elements, without gaps.
pub open spec fn packed_len(tensor: TensorSpec, n: int) -> bool {
    tensor.len() == n && tensor.contiguous()
}

impl LayerNormHip {
    /// Whether scale and shift have an element for each of `n` channels.
    pub open spec fn shaped(&self, n: int) -> bool {
        packed_len(self.weight@, n) && packed_len(self.bias@, n)
    }
}

impl LayerHip {
    /// Whether the weights of the layer have the shapes that the model asks for.
    #[verifier::opaque]
    pub open spec fn shaped(&self, info: Rwkv7ModelInfo, lora: LoraDims) -> bool {
        let c = info.n_embd;
        let a = self.att;
        &&& self.att_ln.shaped(c as int)
        &&& self.ffn_ln.shaped(c as int)
        &&& a.x_r@.shape().d0 == c
        &&& a.x_w@.shape().d0 == c
        &&& a.x_k@.shape().d0 == c
        &&& a.x_v@.shape().d0 == c
        &&& a.x_a@.shape().d0 == c
        &&& a.x_g@.shape().d0 == c
        &&& packed_len(a.w0@, c as int)
        &&& a.w1@.shape().d1 == c
        &&& a.w2@.shape().d1 == lora.w_dim
        &&& packed_len(a.a0@, c as int)
        &&& a.a1@.shape().d1 == c
        &&& a.a2@.shape().d1 == lora.a_dim
        &&& a.g1@.shape().d1 == c
        &&& a.g2@.shape().d1 == lora.g_dim
        &&& a.v0 matches Some(v0) ==> packed_len(v0@, c as int)
        &&& a.v1 matches Some(v1) ==> v1@.shape().d1 == c
        &&& a.v2 matches Some(v2) ==> v2@.shape().d1 == lora.v_rank()
        &&& packed_len(a.r_k@, info.head_size * info.n_head)
        &&& packed_len(a.k_k@, c as int)
        &&& a.k_a@.shape().d0 == c
        &&& a.k_a@.contiguous()
        &&& a.w_r@.shape().d1 == c
        &&& a.w_k@.shape().d1 == c
        &&& a.w_v@.shape().d1 == c
        &&& a.w_o@.shape().d1 == c
        &&& self.ffn.x_k@.shape().d0 == c
        &&& self.ffn.w_k@.shape().d1 == c
        &&& self.ffn.w_v@.shape().d1 == info.n_hidden
    }
}

impl Rwkv7Model {
    /// Whether every weight has the shape that the model asks for, and the heads make up the
    /// channels.
    pub open spec fn shaped(&self, lora: LoraDims) -> bool {
        let info = self.info;
        &&& info.n_embd == info.head_size * info.n_head
        &&& info.n_head > 0
        &&& info.head_size > 0
        &&& info.n_layer <= self.layers@.len()
        &&& self.embed.ln.shaped(info.n_embd as int)
        &&& self.head.ln.shaped(info.n_embd as int)
        &&& self.head.w@.shape().d1 == info.n_embd
        &&& forall|i: int| 0 <= i < info.n_layer ==> (#[trigger] self.layers@[i]).shaped(info, lora)
    }
}

impl PassSpec {
    /// Whether the tensors of the pass have its shapes.
    #[verifier::opaque]
    pub open spec fn laid_out(self, lora: LoraDims, t: usize, b: usize) -> bool {
        let sh = self.sh;
        let x = self.w.shift;
        let a = self.w.att;
        let k = self.w.wkv;
        let i = self.w.inner;
        &&& sh == PassShapes::of(self.info, lora, t, b)
        &&& packed_as(x.x, sh.std) && packed_as(x.x_ln, sh.std) && packed_as(x.att_xr, sh.std)
        &&& packed_as(x.att_xw, sh.std) && packed_as(x.att_xk, sh.std) && packed_as(
            x.att_xv,
            sh.std,
        )
        &&& packed_as(x.att_xa, sh.std) && packed_as(x.att_xg, sh.std)
        &&& packed_as(a.att_r, sh.std) && packed_as(a.att_k, sh.std) && packed_as(a.att_v, sh.std)
        &&& packed_as(a.att_w, sh.std) && packed_as(a.att_a, sh.std) && packed_as(a.att_g, sh.std)
        &&& packed_as(a.att_kk, sh.std) && packed_as(a.att_k_ctrl, sh.std)
        &&& packed_as(k.wkv_a, sh.std) && packed_as(k.wkv_b, sh.std) && packed_as(
            k.w_decay,
            sh.std,
        )
        &&& packed_as(k.wkv_out, sh.std) && packed_as(k.wkv_normed, sh.std) && packed_as(
            k.wkv_bonus,
            sh.std,
        )
        &&& packed_as(k.att_out, sh.std) && packed_as(k.ffn_xk, sh.std) && packed_as(
            k.ffn_out,
            sh.std,
        )
        &&& packed_as(k.v_first, sh.std)
        &&& packed_as(i.ffn_k, sh.ffn) && packed_as(i.ffn_k_sq, sh.ffn)
        &&& packed_as(i.lora_w, sh.lora_w) && packed_as(i.lora_a, sh.lora_a) && packed_as(
            i.lora_g,
            sh.lora_g,
        )
        &&& packed_as(i.lora_v, sh.lora_v) && packed_as(i.lora_w_tanh, sh.lora_w) && packed_as(
            i.lora_a_proj,
            sh.std,
        )
        &&& packed_as(i.lora_g_sig, sh.lora_g) && packed_as(i.v_lora2, sh.std)
        &&& packed_as(self.tmp.temp1, sh.std) && packed_as(self.tmp.temp2, sh.std)
        &&& packed_as(self.tmp.new_att_shift, sh.state) && packed_as(
            self.tmp.new_ffn_shift,
            sh.state,
        )
        &&& packed_as(self.lens, sh.lens)
    }
}

/// `after` is `before` with more work, no failure, and `made` more buffers.
pub open spec fn goes_on(before: Run, after: Run, made: int) -> bool {
    after.error is None && after.stream.next == before.stream.next + made
}

/// A norm of the hidden state of the first layer.
pub proof fn lemma_embed_norm(s: Run, p: PassSpec, ln: LayerNormHip, lora: LoraDims, t: usize, b: usize)
    requires
        s.error is None,
        p.laid_out(lora, t, b),
        ln.shaped(p.info.n_embd as int),
    ensures
        goes_on(s, embed_norm(s, p, ln), 0),
{
    reveal(PassSpec::laid_out);
    reveal(embed_norm);
    reveal(layer_norm_f16_call);
    reveal(unary_call);
}

pub proof fn lemma_shift_part(
    s: Run,
    p: PassSpec,
    layer: LayerHip,
    att_shift: TensorSpec,
    new_shift: TensorSpec,
    lora: LoraDims,
    t: usize,
    b: usize,
)
    requires
        s.error is None,
        p.laid_out(lora, t, b),
        layer.shaped(p.info, lora),
        packed_as(att_shift, p.sh.state),
    ensures
        goes_on(s, shift_part(s, p, layer, att_shift, new_shift), 0),
{
    reveal(PassSpec::laid_out);
    reveal(LayerHip::shaped);
    reveal(shift_part);
    reveal(layer_norm_f16_call);
    reveal(channel_mix_call);
}

proof fn lemma_project_part(
    s: Run,
    p: PassSpec,
    layer: LayerHip,
    lora: LoraDims,
    t: usize,
    b: usize,
)
    requires
        s.error is None,
        p.laid_out(lora, t, b),
        layer.shaped(p.info, lora),
    ensures
        goes_on(s, project_part(s, p, layer), 0),
{
    reveal(PassSpec::laid_out);
    reveal(LayerHip::shaped);
    reveal(project_part);
    reveal(gemm_call);
}

/// Channels repeat along a tensor without remainder.
proof fn lemma_repeats(c: int, t: int, b: int)
    requires
        c > 0,
        0 <= t,
        0 <= b,
    ensures
        (c * t * b * 1) % c == 0,
{
    assert(c * t * b * 1 == c * (t * b)) by (nonlinear_arith);
    vstd::arithmetic::div_mod::lemma_mod_multiples_basic(t * b, c);
    assert((t * b) * c == c * (t * b)) by (nonlinear_arith);
}

proof fn lemma_decay_part(
    s: Run,
    p: PassSpec,
    layer: LayerHip,
    lora: LoraDims,
    t: usize,
    b: usize,
)
    requires
        s.error is None,
        p.laid_out(lora, t, b),
        layer.shaped(p.info, lora),
        p.info.n_embd > 0,
    ensures
        goes_on(s, decay_part(s, p, layer), 0),
        goes_on(s, adapt_part(s, p, layer), 0),
        goes_on(s, gate_part(s, p, layer), 0),
{
    reveal(PassSpec::laid_out);
    reveal(LayerHip::shaped);
    reveal(decay_part);
    reveal(adapt_part);
    reveal(gate_part);
    reveal(gemm_call);
    reveal(unary_call);
    reveal(broadcast_call);
    lemma_repeats(p.info.n_embd as int, t as int, b as int);
}

proof fn lemma_value_part(
    s: Run,
    p: PassSpec,
    idx: usize,
    layer: LayerHip,
    lora: LoraDims,
    t: usize,
    b: usize,
)
    requires
        s.error is None,
        p.laid_out(lora, t, b),
        layer.shaped(p.info, lora),
        p.info.n_embd > 0,
    ensures
        goes_on(s, value_part(s, p, idx, layer), 0),
{
    reveal(PassSpec::laid_out);
    reveal(LayerHip::shaped);
    reveal(value_part);
    reveal(gemm_call);
    reveal(unary_call);
    reveal(lerp_call);
    reveal(broadcast_call);
    lemma_repeats(p.info.n_embd as int, t as int, b as int);
}

/// Heads and their sizes divide the channels that they make up.
proof fn lemma_heads_divide(info: Rwkv7ModelInfo)
    requires
        info.n_embd == info.head_size * info.n_head,
        info.n_head > 0,
        info.head_size > 0,
    ensures
        info.n_embd > 0,
        info.n_embd % info.n_head == 0,
        info.n_embd % info.head_size == 0,
{
    let h = info.head_size as int;
    let n = info.n_head as int;
    assert(h * n > 0) by (nonlinear_arith)
        requires
            h > 0,
            n > 0,
    ;
    vstd::arithmetic::div_mod::lemma_mod_multiples_basic(h, n);
    vstd::arithmetic::div_mod::lemma_mod_multiples_basic(n, h);
    assert(h * n == n * h) by (nonlinear_arith);
}

proof fn lemma_key_part(
    s: Run,
    p: PassSpec,
    layer: LayerHip,
    decay: bool,
    lora: LoraDims,
    t: usize,
    b: usize,
)
    requires
        s.error is None,
        p.laid_out(lora, t, b),
        layer.shaped(p.info, lora),
        p.info.n_embd == p.info.head_size * p.info.n_head,
        p.info.n_head > 0,
        p.info.head_size > 0,
    ensures
        goes_on(s, key_part(s, p, layer), 0),
        goes_on(s, wkv_input_part(s, p, decay), 0),
{
    reveal(PassSpec::laid_out);
    reveal(LayerHip::shaped);
    reveal(key_part);
    reveal(wkv_input_part);
    reveal(broadcast_call);
    reveal(l2_norm_f16_call);
    reveal(control_k_call);
    reveal(unary_call);
    reveal(binary_call);
    lemma_heads_divide(p.info);
    lemma_repeats(p.info.n_embd as int, t as int, b as int);
}

pub proof fn lemma_mix_part(
    s: Run,
    p: PassSpec,
    idx: usize,
    layer: LayerHip,
    decay: bool,
    lora: LoraDims,
    t: usize,
    b: usize,
)
    requires
        s.error is None,
        p.laid_out(lora, t, b),
        layer.shaped(p.info, lora),
        p.info.n_embd == p.info.head_size * p.info.n_head,
        p.info.n_head > 0,
        p.info.head_size > 0,
    ensures
        goes_on(s, mix_part(s, p, idx, layer, decay), 0),
{
    reveal(mix_part);
    lemma_heads_divide(p.info);
    lemma_project_part(s, p, layer, lora, t, b);
    let s1 = project_part(s, p, layer);
    lemma_decay_part(s1, p, layer, lora, t, b);
    let s2 = decay_part(s1, p, layer);
    lemma_decay_part(s2, p, layer, lora, t, b);
    let s3 = adapt_part(s2, p, layer);
    lemma_decay_part(s3, p, layer, lora, t, b);
    let s4 = gate_part(s3, p, layer);
    lemma_value_part(s4, p, idx, layer, lora, t, b);
    let s5 = value_part(s4, p, idx, layer);
    lemma_key_part(s5, p, layer, decay, lora, t, b);
    let s6 = key_part(s5, p, layer);
    lemma_key_part(s6, p, layer, decay, lora, t, b);
}

impl FlaWkvSpec {
    /// Whether the buffers of the chunked attention have no gaps, and those of the decay its
    /// shape.
    #[verifier::opaque]
    pub open spec fn laid_out(self) -> bool {
        let token = TensorShape::of(self.head_size, self.n_head, self.seq_len, self.batch_size);
        let w = self.bufs;
        &&& packed_as(w.gi, token)
        &&& packed_as(w.ge, token)
        &&& w.qg.contiguous() && w.kg.contiguous() && w.ag.contiguous() && w.bg.contiguous()
        &&& w.a_qk.contiguous() && w.a_qb.contiguous() && w.a_ab.contiguous()
        &&& w.a_ak.contiguous() && w.a_ab_inv.contiguous()
        &&& w.w_wy.contiguous() && w.u_wy.contiguous() && w.h.contiguous()
        &&& w.v_new.contiguous()
    }
}

/// The five stages of the chunked attention succeed and make no buffers.
pub proof fn law_fla_stages(
    s: Run,
    f: FlaWkvSpec,
    x: FlaArgs,
    total: usize,
    indices: TensorSpec,
    offsets: TensorSpec,
    bounds: TensorSpec,
)
    requires
        s.error is None,
        f.laid_out(),
        packed_as(x.att_w, TensorShape::of(f.head_size, f.n_head, f.seq_len, f.batch_size)),
        x.r.contiguous(),
        x.k.contiguous(),
        x.v.contiguous(),
        x.a.contiguous(),
        x.b.contiguous(),
        x.state.contiguous(),
        x.output.contiguous(),
        packed_len(indices, total * 2),
        offsets.contiguous(),
        bounds.contiguous(),
    ensures
        goes_on(s, fla_stages_run(s, f, x, total, indices, offsets, bounds), 0),
{
    reveal(FlaWkvSpec::laid_out);
    reveal(resize_error);
    reveal(fla_neg_exp_call);
    reveal(fla_cumsum_error);
    reveal(fla_intra_call);
    reveal(fla_wy_repr_call);
    reveal(fla_chunk_h_call);
    reveal(fla_chunk_o_call);
}

/// Buffers that the recurrent attention of one layer makes: three lists of indices where there
/// are chunks.
pub open spec fn lists_made(choice: WkvChoiceSpec) -> int {
    match choice {
        WkvChoiceSpec::Fla { kernel, lengths } => if chunk_plan(
            cu_seqlens(lengths, kernel.seq_len, kernel.batch_size),
            kernel.chunk_size as int,
        ).total == 0 {
            0
        } else {
            3
        },
        _ => 0,
    }
}

proof fn lemma_fla_compute(s: Run, f: FlaWkvSpec, x: FlaArgs, lengths: Seq<usize>)
    requires
        s.error is None,
        s.stream.next + 3 <= usize::MAX,
        f.laid_out(),
        fla_sizes_fit(f.chunk_size, f.seq_len, f.batch_size, lengths),
        packed_as(x.att_w, TensorShape::of(f.head_size, f.n_head, f.seq_len, f.batch_size)),
        x.r.contiguous(),
        x.k.contiguous(),
        x.v.contiguous(),
        x.a.contiguous(),
        x.b.contiguous(),
        x.state.contiguous(),
        x.output.contiguous(),
    ensures
        goes_on(
            s,
            fla_compute_run(s, f, x, lengths),
            lists_made(WkvChoiceSpec::Fla { kernel: f, lengths }),
        ),
{
    reveal(fla_compute_run);
    reveal(Run::allocated);
    reveal(fill_error);
    let plan = chunk_plan(cu_seqlens(lengths, f.seq_len, f.batch_size), f.chunk_size as int);
    if plan.total != 0 {
        let ci_shape = TensorShape::of((plan.total * 2) as usize, 1, 1, 1);
        let list_shape = TensorShape::of((f.batch_size + 1) as usize, 1, 1, 1);
        let indices = s.fresh(ci_shape);
        let s1 = s.filled(DataSpec::I32(plan.indices), ci_shape, MemoryType::Device);
        let offsets = s1.fresh(list_shape);
        let s2 = s1.filled(DataSpec::I32(plan.offsets), list_shape, MemoryType::Device);
        let bounds = s2.fresh(list_shape);
        let s3 = s2.filled(DataSpec::I32(plan.bounds), list_shape, MemoryType::Device);
        assert(ci_shape.spec_len() == plan.total * 2);
        assert(list_shape.spec_len() == f.batch_size + 1);
        assert(goes_on(s, s1, 1));
        assert(goes_on(s1, s2, 1));
        assert(goes_on(s2, s3, 1));
        law_fla_stages(s3, f, x, plan.total as usize, indices, offsets, bounds);
    }
}

/// Whether the recurrent attention fits a pass.
pub open spec fn choice_fits(
    choice: WkvChoiceSpec,
    info: Rwkv7ModelInfo,
    t: usize,
    b: usize,
) -> bool {
    match choice {
        WkvChoiceSpec::Fla { kernel, lengths } => {
            &&& kernel.laid_out()
            &&& kernel.head_size == info.head_size
            &&& kernel.n_head == info.n_head
            &&& kernel.seq_len == t
            &&& kernel.batch_size == b
            &&& fla_sizes_fit(kernel.chunk_size, t, b, lengths)
        },
        WkvChoiceSpec::FusedT1 => t == 1,
        WkvChoiceSpec::Masked { state_out } => packed_as(
            state_out,
            TensorShape::of(info.head_size, info.head_size, info.n_head, b),
        ),
    }
}

/// The channels of a pass, seen by heads.
proof fn lemma_by_heads(info: Rwkv7ModelInfo, lora: LoraDims, t: usize, b: usize)
    requires
        info.n_embd == info.head_size * info.n_head,
    ensures
        PassShapes::of(info, lora, t, b).std.spec_len() == PassShapes::of(
            info,
            lora,
            t,
            b,
        ).wkv_data.spec_len(),
{
    let c = info.head_size * info.n_head;
    assert(c * t * b * 1 == c * t * b) by (nonlinear_arith);
}

pub proof fn lemma_reshape_part(
    s: Run,
    p: PassSpec,
    forms: DecayForms,
    lora: LoraDims,
    t: usize,
    b: usize,
)
    requires
        s.error is None,
        p.laid_out(lora, t, b),
        p.info.n_embd == p.info.head_size * p.info.n_head,
    ensures
        goes_on(s, reshape_part(s, p, forms), 0),
{
    lemma_by_heads(p.info, lora, t, b);
    reveal(PassSpec::laid_out);
    reveal(head_view_error);
    reveal(reshape_error);
}

proof fn lemma_recurrent_part(
    s: Run,
    p: PassSpec,
    layer: LayerHip,
    forms: DecayForms,
    choice: WkvChoiceSpec,
    state: TensorSpec,
    lora: LoraDims,
    t: usize,
    b: usize,
)
    requires
        s.error is None,
        s.stream.next + 3 <= usize::MAX,
        p.laid_out(lora, t, b),
        layer.shaped(p.info, lora),
        p.info.n_embd == p.info.head_size * p.info.n_head,
        p.info.n_head > 0,
        p.info.head_size > 0,
        choice_fits(choice, p.info, t, b),
        packed_as(state, p.sh.wkv_state),
    ensures
        goes_on(s, recurrent_part(s, p, layer, forms, choice, state), lists_made(choice)),
{
    lemma_reshape_part(s, p, forms, lora, t, b);
    let s1 = reshape_part(s, p, forms);
    lemma_wkv_part(s1, p, choice, state, lora, t, b);
    let s2 = wkv_part(s1, p, choice, state);
    lemma_gated_part(s2, p, layer, lora, t, b);
    let s3 = bonus_part(s2, p, layer);
    lemma_gated_part(s3, p, layer, lora, t, b);
    reveal(recurrent_part);
}

/// Elements of a list.
proof fn lemma_list_len(n: usize)
    ensures
        TensorShape::of(n, 1, 1, 1).spec_len() == n,
{
    assert(n * 1 * 1 * 1 == n);
}

pub proof fn lemma_wkv_part(
    s: Run,
    p: PassSpec,
    choice: WkvChoiceSpec,
    state: TensorSpec,
    lora: LoraDims,
    t: usize,
    b: usize,
)
    requires
        s.error is None,
        s.stream.next + 3 <= usize::MAX,
        p.laid_out(lora, t, b),
        choice_fits(choice, p.info, t, b),
        packed_as(state, p.sh.wkv_state),
    ensures
        goes_on(s, wkv_part(s, p, choice, state), lists_made(choice)),
{
    reveal(PassSpec::laid_out);
    let a = p.w.att;
    let k = p.w.wkv;
    let s0 = p.prober.stacked(
        s,
        HipHook::PreWkv,
        stack6(a.att_w, a.att_r, a.att_k_ctrl, a.att_v, k.wkv_a, k.wkv_b),
        6,
    );
    let s1 = p.prober.state(s0, HipHook::PreWkvState, state);
    assert(goes_on(s, s1, 0));
    match choice {
        WkvChoiceSpec::Fla { kernel, lengths } => {
            lemma_fla_compute(s1, kernel, fla_args(p, state), lengths);
            let s2 = wkv_kernel_run(s1, p, choice, state);
            assert(s2 == fla_compute_run(s1, kernel, fla_args(p, state), lengths));
            assert(goes_on(s1, s2, lists_made(choice)));
        },
        WkvChoiceSpec::FusedT1 => {
            reveal(wkv7_fused_t1_call);
            let x = wkv_tensors(p);
            assert(x.same_inputs());
            assert(x.contiguous());
            lemma_list_len(b);
            assert(p.lens.len() == b);
            assert(FusedT1Wkv.call(x, state, p.lens) is Ok);
        },
        WkvChoiceSpec::Masked { state_out } => {
            reveal(wkv7_call);
            let x = wkv_tensors(p);
            assert(x.same_inputs());
            assert(x.contiguous());
            lemma_list_len(b);
            assert(p.lens.len() == b);
            assert(wkv7_f16_masked_call(x, state, state_out, p.lens) is Ok);
            assert(copy_tensor_f32_call(state_out, state) is Ok) by {
                reveal(unary_call);
            }
        },
    }
    let s2 = wkv_kernel_run(s1, p, choice, state);
    assert(goes_on(s1, s2, lists_made(choice)));
    reveal(wkv_part);
}

pub proof fn lemma_gated_part(
    s: Run,
    p: PassSpec,
    layer: LayerHip,
    lora: LoraDims,
    t: usize,
    b: usize,
)
    requires
        s.error is None,
        p.laid_out(lora, t, b),
        layer.shaped(p.info, lora),
        p.info.n_embd == p.info.head_size * p.info.n_head,
        p.info.n_head > 0,
        p.info.head_size > 0,
    ensures
        goes_on(s, bonus_part(s, p, layer), 0),
        goes_on(s, gated_part(s, p, layer), 0),
{
    reveal(PassSpec::laid_out);
    reveal(LayerHip::shaped);
    reveal(reshape_error);
    reveal(unary_call);
    reveal(binary_call);
    reveal(gemm_call);
    reveal(group_norm_f16_call);
    reveal(wkv_bonus_f16_call);
    lemma_heads_divide(p.info);
    lemma_by_heads(p.info, lora, t, b);
    let rk_shape = TensorShape::of(p.info.head_size, p.info.n_head, 1, 1);
    assert(rk_shape.spec_len() == p.info.head_size * p.info.n_head);
    reveal(bonus_part);
    reveal(gated_part);
}

proof fn lemma_attention(
    s: Run,
    p: PassSpec,
    idx: usize,
    layer: LayerHip,
    forms: DecayForms,
    choice: WkvChoiceSpec,
    att_shift: TensorSpec,
    state: TensorSpec,
    lora: LoraDims,
    t: usize,
    b: usize,
)
    requires
        s.error is None,
        s.stream.next + 3 <= usize::MAX,
        p.laid_out(lora, t, b),
        layer.shaped(p.info, lora),
        p.info.n_embd == p.info.head_size * p.info.n_head,
        p.info.n_head > 0,
        p.info.head_size > 0,
        choice_fits(choice, p.info, t, b),
        packed_as(att_shift, p.sh.state),
        packed_as(state, p.sh.wkv_state),
    ensures
        goes_on(
            s,
            attention_run(s, p, idx, layer, forms, choice, att_shift, state),
            lists_made(choice),
        ),
{
    lemma_shift_part(s, p, layer, att_shift, p.tmp.new_att_shift, lora, t, b);
    let s1 = shift_part(s, p, layer, att_shift, p.tmp.new_att_shift);
    let s2 = s1.call(copy_tensor_f16_call(p.tmp.new_att_shift, att_shift));
    assert(goes_on(s1, s2, 0)) by {
        reveal(PassSpec::laid_out);
        reveal(unary_call);
    }
    lemma_mix_part(s2, p, idx, layer, forms.exponential, lora, t, b);
    let s3 = mix_part(s2, p, idx, layer, forms.exponential);
    lemma_recurrent_part(s3, p, layer, forms, choice, state, lora, t, b);
    reveal(attention_run);
}

pub proof fn lemma_ffn_parts(
    s: Run,
    p: PassSpec,
    layer: LayerHip,
    ffn_shift: TensorSpec,
    new_shift: TensorSpec,
    lora: LoraDims,
    t: usize,
    b: usize,
)
    requires
        s.error is None,
        p.laid_out(lora, t, b),
        layer.shaped(p.info, lora),
        packed_as(ffn_shift, p.sh.state),
    ensures
        goes_on(s, ffn_shift_part(s, p, layer, ffn_shift, new_shift), 0),
        goes_on(s, ffn_mix_part(s, p, layer), 0),
{
    reveal(PassSpec::laid_out);
    reveal(LayerHip::shaped);
    reveal(layer_norm_f16_call);
    reveal(channel_mix_call);
    reveal(unary_call);
    reveal(binary_call);
    reveal(gemm_call);
    reveal(ffn_shift_part);
    reveal(ffn_mix_part);
}

proof fn lemma_ffn(
    s: Run,
    p: PassSpec,
    layer: LayerHip,
    ffn_shift: TensorSpec,
    lora: LoraDims,
    t: usize,
    b: usize,
)
    requires
        s.error is None,
        p.laid_out(lora, t, b),
        layer.shaped(p.info, lora),
        packed_as(ffn_shift, p.sh.state),
    ensures
        goes_on(s, ffn_run(s, p, layer, ffn_shift), 0),
{
    lemma_ffn_parts(s, p, layer, ffn_shift, p.tmp.new_ffn_shift, lora, t, b);
    let s1 = ffn_shift_part(s, p, layer, ffn_shift, p.tmp.new_ffn_shift);
    let s2 = s1.call(copy_tensor_f16_call(p.tmp.new_ffn_shift, ffn_shift));
    assert(goes_on(s1, s2, 0)) by {
        reveal(PassSpec::laid_out);
        reveal(unary_call);
    }
    lemma_ffn_parts(s2, p, layer, ffn_shift, p.tmp.new_ffn_shift, lora, t, b);
    reveal(ffn_run);
}

impl StateSpec {
    /// Whether the states of `n` layers have room for those of a pass.
    pub open spec fn roomy(self, sh: PassShapes, n: int) -> bool {
        &&& forall|i: int|
            0 <= i < n ==> sh.state.spec_len() <= (#[trigger] self.att_shift[i]).len()
        &&& forall|i: int| 0 <= i < n ==> sh.state.spec_len() <= (#[trigger] self.ffn[i]).len()
        &&& forall|i: int|
            0 <= i < n ==> sh.wkv_state.spec_len() <= (#[trigger] self.wkv[i]).len()
    }
}

pub proof fn lemma_layers(
    s: Run,
    p: PassSpec,
    model: Rwkv7Model,
    n: nat,
    forms: DecayForms,
    choice: WkvChoiceSpec,
    state: StateSpec,
    lora: LoraDims,
    t: usize,
    b: usize,
)
    requires
        s.error is None,
        s.stream.next + 3 * n <= usize::MAX,
        n <= model.info.n_layer,
        p.info == model.info,
        p.laid_out(lora, t, b),
        model.shaped(lora),
        choice_fits(choice, p.info, t, b),
        state.roomy(p.sh, model.info.n_layer as int),
    ensures
        goes_on(s, layers_run(s, p, model, n, forms, choice, state), n * lists_made(choice)),
    decreases n,
{
    if n > 0 {
        let idx = (n - 1) as usize;
        let made = lists_made(choice);
        lemma_layers(s, p, model, (n - 1) as nat, forms, choice, state, lora, t, b);
        assert((n - 1) * made + made == n * made) by (nonlinear_arith);
        assert((n - 1) * made <= 3 * (n - 1)) by (nonlinear_arith)
            requires
                0 <= made <= 3,
                n >= 1,
        ;
        let s0 = layers_run(s, p, model, (n - 1) as nat, forms, choice, state);
        let q = p.in_layer(idx);
        let layer = model.layers@[idx as int];
        assert(layer.shaped(p.info, lora));
        assert(q.laid_out(lora, t, b)) by {
            reveal(PassSpec::laid_out);
        }
        let att_shift = state.att_shift[idx as int];
        let ffn_shift = state.ffn[idx as int];
        let wkv = state.wkv[idx as int];
        assert(resize_error(att_shift, p.sh.state) is None && resize_error(ffn_shift, p.sh.state) is None
            && resize_error(wkv, p.sh.wkv_state) is None) by {
            reveal(resize_error);
        }
        lemma_embed_norm(s0, q, model.embed.ln, lora, t, b);
        let s1 = if idx == 0 {
            embed_norm(s0, q, model.embed.ln)
        } else {
            s0
        };
        assert(goes_on(s0, s1, 0));
        lemma_attention(
            s1,
            q,
            idx,
            layer,
            forms,
            choice,
            att_shift.with_shape(p.sh.state),
            wkv.with_shape(p.sh.wkv_state),
            lora,
            t,
            b,
        );
        let s2 = attention_run(
            s1,
            q,
            idx,
            layer,
            forms,
            choice,
            att_shift.with_shape(p.sh.state),
            wkv.with_shape(p.sh.wkv_state),
        );
        lemma_ffn(s2, q, layer, ffn_shift.with_shape(p.sh.state), lora, t, b);
        let s3 = ffn_run(s2, q, layer, ffn_shift.with_shape(p.sh.state));
        assert(layer_run(s0, p, model, idx, forms, choice, state) == s3) by {
            reveal(layer_run);
        }
    }
}

pub proof fn lemma_output_head(
    s: Run,
    p: PassSpec,
    head: HeadHip,
    logits: TensorSpec,
    logits_f32: TensorSpec,
    lora: LoraDims,
    t: usize,
    b: usize,
)
    requires
        s.error is None,
        p.laid_out(lora, t, b),
        head.ln.shaped(p.info.n_embd as int),
        head.w@.shape().d1 == p.info.n_embd,
        packed_as(logits, p.sh.out),
        packed_as(logits_f32, p.sh.out),
    ensures
        goes_on(s, head_part(s, p, head, logits), 0),
        goes_on(s, output_head_run(s, p, head, logits, logits_f32), 0),
        copy_f16_to_f32_call(logits, logits_f32) is Ok,
{
    reveal(PassSpec::laid_out);
    reveal(layer_norm_f16_call);
    reveal(gemm_call);
    reveal(copy_f16_to_f32_call);
    reveal(head_part);
    reveal(output_head_run);
}

} // verus!
