//! Blocks that the forward passes share: embedding lookup, attention, feed-forward and head.
use crate::blas::{hgemm_f16, hgemm_f16_call};
use crate::error::{first_error, ErrorSpec, HipErrorKind};
use crate::kernels::elementwise::{
    add_f16, add_f16_call, copy_f16_to_f32, copy_f16_to_f32_call, copy_tensor_f16,
    copy_tensor_f16_call, copy_tensor_f32, copy_tensor_f32_call, mul_f16, mul_f16_call,
    squared_relu_f16, squared_relu_f16_call,
};
use crate::kernels::mix::{channel_mix_state_f16_masked, channel_mix_state_f16_masked_call};
use crate::kernels::norm::{
    group_norm_f16, group_norm_f16_call, layer_norm_f16, layer_norm_f16_call,
};
use crate::kernels::wkv::{
    wkv7_f16_masked, wkv7_f16_masked_call, wkv_bonus_f16, wkv_bonus_f16_call, WkvTensors,
};
use crate::model::fla::{fla_compute_run, fla_sizes_fit, FlaArgs, FlaChunkedWkv, FlaWkvSpec};
use crate::model::layer::{
    mix_part, norm_call, shift_part, Pass, PassSpec, GROUP_NORM_EPS, LAYER_NORM_EPS,
};
use crate::model::prefill::{FusedT1Wkv, WkvInput, WkvKernel};
use crate::model::weights::{EmbedHip, HeadHip, LayerHip};
use crate::probe::{stack6, HipHook};
use crate::stream::{CommandOf, DataSpec, HostData, Run, Stream};
use crate::tensor::{lemma_matrix_fits, reshape_error, TensorHip, TensorShape, TensorSpec, F16, F32};
use vstd::prelude::*;
use vstd::slice::slice_to_vec;

verus! {

/// The tokens of each sequence.
pub open spec fn token_rows(tokens: Seq<&[u32]>) -> Seq<Seq<u32>> {
    Seq::new(tokens.len(), |i: int| tokens[i]@)
}

/// Position in the embedding table of what goes to position `i` of the staging memory, for
/// rows of `t` tokens.
pub open spec fn embed_source(
    rows: Seq<Seq<u32>>,
    stride: int,
    n_embd: int,
    t: int,
    i: int,
) -> int {
    let token = i / n_embd;
    rows[token / t][token % t] * stride + i % n_embd
}

/// The staging memory once the embeddings of `t` tokens of each sequence stand at its start.
pub open spec fn staged(
    before: Seq<u16>,
    table: Seq<u16>,
    stride: int,
    rows: Seq<Seq<u32>>,
    n_embd: int,
    t: int,
) -> Seq<u16> {
    Seq::new(
        before.len(),
        |i: int|
            if i < rows.len() * t * n_embd {
                table[embed_source(rows, stride, n_embd, t, i)]
            } else {
                before[i]
            },
    )
}

/// Whether every token has a row in the embedding table, and all rows fit in the staging
/// memory.
pub open spec fn embeddable(
    rows: Seq<Seq<u32>>,
    table_len: int,
    stride: int,
    n_embd: int,
    t: int,
    staging_len: int,
) -> bool {
    &&& rows.len() * t * n_embd <= staging_len
    &&& forall|b: int, k: int|
        0 <= b < rows.len() && 0 <= k < t ==> k < rows[b].len() && (#[trigger] rows[b][k]) * stride
            + n_embd <= table_len
}

/// Copies the embedding of every token into the staging memory.
pub fn stage_embeddings(
    tokens: &[&[u32]],
    t: usize,
    embed: &EmbedHip,
    n_embd: usize,
    emb_staging: &mut Vec<u16>,
)
    requires
        embeddable(
            token_rows(tokens@),
            embed.w@.len() as int,
            embed.n_embd as int,
            n_embd as int,
            t as int,
            old(emb_staging)@.len() as int,
        ),
    ensures
        final(emb_staging)@ == staged(
            old(emb_staging)@,
            embed.w@,
            embed.n_embd as int,
            token_rows(tokens@),
            n_embd as int,
            t as int,
        ),
{
    let ghost rows = token_rows(tokens@);
    let ghost before = emb_staging@;
    let ghost stride = embed.n_embd as int;
    let ghost table = embed.w@;
    let size: usize = emb_staging.len();
    let table_len: usize = embed.w.len();
    let b: usize = tokens.len();
    assert(0 * t * n_embd == 0) by (nonlinear_arith);
    let mut batch_idx: usize = 0;
    while batch_idx < b
        invariant
            batch_idx <= b == tokens@.len() == rows.len(),
            rows == token_rows(tokens@),
            table == embed.w@,
            stride == embed.n_embd,
            table_len == table.len(),
            size == before.len() == emb_staging@.len(),
            embeddable(rows, table.len() as int, stride, n_embd as int, t as int, size as int),
            forall|i: int|
                0 <= i < batch_idx * t * n_embd ==> #[trigger] emb_staging@[i]
                    == table[embed_source(rows, stride, n_embd as int, t as int, i)],
            forall|i: int|
                batch_idx * t * n_embd <= i < size ==> #[trigger] emb_staging@[i] == before[i],
        decreases b - batch_idx,
    {
        let row: &[u32] = tokens[batch_idx];
        assert(row@ == rows[batch_idx as int]);
        let mut time_idx: usize = 0;
        assert((batch_idx * t + 0) * n_embd == batch_idx * t * n_embd);
        while time_idx < t
            invariant
                time_idx <= t,
                batch_idx < b == rows.len(),
                row@ == rows[batch_idx as int],
                table == embed.w@,
                stride == embed.n_embd,
                table_len == table.len(),
                size == before.len() == emb_staging@.len(),
                embeddable(rows, table.len() as int, stride, n_embd as int, t as int, size as int),
                forall|i: int|
                    0 <= i < (batch_idx * t + time_idx) * n_embd ==> #[trigger] emb_staging@[i]
                        == table[embed_source(rows, stride, n_embd as int, t as int, i)],
                forall|i: int|
                    (batch_idx * t + time_idx) * n_embd <= i < size
                        ==> #[trigger] emb_staging@[i] == before[i],
            decreases t - time_idx,
        {
            let ghost j = batch_idx * t + time_idx;
            proof {
                assert(rows[batch_idx as int][time_idx as int] * stride + n_embd <= table.len());
                lemma_row_bounds(
                    batch_idx as int,
                    b as int,
                    time_idx as int,
                    t as int,
                    n_embd as int,
                );
                assert(0 <= rows[batch_idx as int][time_idx as int] * stride) by (nonlinear_arith)
                    requires
                        0 <= rows[batch_idx as int][time_idx as int],
                        0 <= stride,
                ;
            }
            let token: usize = row[time_idx] as usize;
            let src_offset: usize = token * embed.n_embd;
            let mut channel: usize = 0;
            if n_embd > 0 {
                let dst_offset: usize = (batch_idx * t + time_idx) * n_embd;
                while channel < n_embd
                    invariant
                        channel <= n_embd,
                        n_embd > 0,
                        time_idx < t,
                        batch_idx < b == rows.len(),
                        j == batch_idx * t + time_idx,
                        dst_offset == j * n_embd,
                        dst_offset + n_embd <= size,
                        token == rows[batch_idx as int][time_idx as int],
                        src_offset == token * stride,
                        src_offset + n_embd <= table_len,
                        table == embed.w@,
                        table_len == table.len(),
                        size == before.len() == emb_staging@.len(),
                        forall|i: int|
                            0 <= i < dst_offset + channel ==> #[trigger] emb_staging@[i]
                                == table[embed_source(rows, stride, n_embd as int, t as int, i)],
                        forall|i: int|
                            dst_offset + channel <= i < size ==> #[trigger] emb_staging@[i]
                                == before[i],
                    decreases n_embd - channel,
                {
                    proof {
                        vstd::arithmetic::div_mod::lemma_fundamental_div_mod_converse(
                            dst_offset + channel,
                            n_embd as int,
                            j,
                            channel as int,
                        );
                        vstd::arithmetic::div_mod::lemma_fundamental_div_mod_converse(
                            j,
                            t as int,
                            batch_idx as int,
                            time_idx as int,
                        );
                    }
                    let value: u16 = embed.w[src_offset + channel];
                    emb_staging.set(dst_offset + channel, value);
                    channel += 1;
                }
            }
            assert((batch_idx * t + time_idx) * n_embd + n_embd == (batch_idx * t + time_idx + 1)
                * n_embd) by (nonlinear_arith);
            assert(n_embd == 0 ==> (batch_idx * t + time_idx) * n_embd == 0 && (batch_idx * t
                + time_idx + 1) * n_embd == 0) by (nonlinear_arith);
            time_idx += 1;
        }
        assert((batch_idx * t + t) * n_embd == (batch_idx + 1) * t * n_embd) by (nonlinear_arith);
        batch_idx += 1;
    }
    assert(emb_staging@ =~= staged(before, table, stride, rows, n_embd as int, t as int));
}

/// Position of a row of `n_embd` values, below the size of all rows.
proof fn lemma_row_bounds(batch: int, b: int, time: int, t: int, n_embd: int)
    requires
        0 <= batch < b,
        0 <= time < t,
        0 <= n_embd,
    ensures
        0 <= (batch * t + time) * n_embd,
        (batch * t + time) * n_embd + n_embd <= b * t * n_embd,
        0 <= batch * t <= batch * t + time,
        n_embd > 0 ==> batch * t + time <= (batch * t + time) * n_embd,
{
    assert(0 <= batch * t && batch * t + t <= b * t) by (nonlinear_arith)
        requires
            0 <= batch < b,
            0 <= t,
    ;
    let j = batch * t + time;
    assert(0 <= j * n_embd && j * n_embd + n_embd <= (b * t) * n_embd && (n_embd > 0 ==> j <= j
        * n_embd)) by (nonlinear_arith)
        requires
            0 <= j,
            j + 1 <= b * t,
            0 <= n_embd,
    ;
}

/// Stages the embeddings and copies the whole staging memory to the hidden state.
pub open spec fn embed_upload(s: Run, staging: Seq<u16>, x: TensorSpec) -> Run {
    s.emit(CommandOf::Upload { dst: x.ptr(), data: DataSpec::F16(staging) })
}

/// Copies the whole staging memory to the hidden state.
pub fn upload_embeddings(emb_staging: &Vec<u16>, x: &TensorHip<F16>, stream: &mut Stream)
    ensures
        final(stream)@ == embed_upload(Run::start(old(stream)@), emb_staging@, x@).stream,
{
    stream.push(
        CommandOf::Upload {
            dst: x.as_ptr(),
            data: HostData::F16(slice_to_vec(emb_staging.as_slice())),
        },
    );
}

/// Looks up the embeddings of all tokens and normalises them in place.
pub fn embed_lookup(
    tokens: &[&[u32]],
    t: usize,
    embed: &EmbedHip,
    n_embd: usize,
    emb_staging: &mut Vec<u16>,
    x: &TensorHip<F16>,
    x_ln: &TensorHip<F16>,
    stream: &mut Stream,
) -> (r: Result<(), HipErrorKind>)
    requires
        embeddable(
            token_rows(tokens@),
            embed.w@.len() as int,
            embed.n_embd as int,
            n_embd as int,
            t as int,
            old(emb_staging)@.len() as int,
        ),
    ensures
        final(emb_staging)@ == staged(
            old(emb_staging)@,
            embed.w@,
            embed.n_embd as int,
            token_rows(tokens@),
            n_embd as int,
            t as int,
        ),
        embed_upload(Run::start(old(stream)@), final(emb_staging)@, x@).call(
            layer_norm_f16_call(x@, embed.ln.weight@, embed.ln.bias@, x_ln@, LAYER_NORM_EPS),
        ).call(copy_tensor_f16_call(x_ln@, x@)).agrees(final(stream)@, r),
{
    stage_embeddings(tokens, t, embed, n_embd, emb_staging);
    upload_embeddings(emb_staging, x, stream);
    layer_norm_f16(x, &embed.ln.weight, &embed.ln.bias, x_ln, LAYER_NORM_EPS, stream)?;
    copy_tensor_f16(x_ln, x, stream)?;
    Ok(())
}

/// How a layer runs its recurrent attention.
pub enum WkvChoice<'a> {
    /// Chunked, from the raw decay.
    Fla { kernel: &'a FlaChunkedWkv, lengths: &'a [usize] },
    /// Fused, for one token per sequence.
    FusedT1,
    /// Masked: the new state is written to a spare tensor and copied from there.
    Masked { state_out: &'a TensorHip<F32> },
}

/// What a choice stands for.
pub enum WkvChoiceSpec {
    Fla { kernel: FlaWkvSpec, lengths: Seq<usize> },
    FusedT1,
    Masked { state_out: TensorSpec },
}

impl<'a> View for WkvChoice<'a> {
    type V = WkvChoiceSpec;

    open spec fn view(&self) -> WkvChoiceSpec {
        match self {
            WkvChoice::Fla { kernel, lengths } => WkvChoiceSpec::Fla {
                kernel: kernel@,
                lengths: lengths@,
            },
            WkvChoice::FusedT1 => WkvChoiceSpec::FusedT1,
            WkvChoice::Masked { state_out } => WkvChoiceSpec::Masked { state_out: state_out@ },
        }
    }
}

impl WkvChoiceSpec {
    /// Whether the sizes of the chunked attention, where it is chosen, are machine integers.
    pub open spec fn sound(self) -> bool {
        match self {
            WkvChoiceSpec::Fla { kernel, lengths } => {
                &&& TensorShape::of(
                    kernel.head_size,
                    kernel.n_head,
                    kernel.seq_len,
                    kernel.batch_size,
                ).fits()
                &&& fla_sizes_fit(
                    kernel.chunk_size,
                    kernel.seq_len,
                    kernel.batch_size,
                    lengths,
                )
            },
            _ => true,
        }
    }

    /// Whether the raw decay is what the choice reads.
    pub open spec fn reads_raw(self) -> bool {
        self is Fla
    }
}

/// Which forms of the decay a pass prepares: the raw one, its exponential, or both.
#[derive(Debug, Clone, Copy)]
pub struct DecayForms {
    pub raw: bool,
    pub exponential: bool,
}

/// The inputs of the recurrent attention, seen by head.
pub struct WkvCallInputs {
    pub att_w_wkv: Option<TensorHip<F16>>,
    pub w_decay_wkv: Option<TensorHip<F16>>,
    pub r_wkv: TensorHip<F16>,
    pub k_ctrl_wkv: TensorHip<F16>,
    pub v_wkv: TensorHip<F16>,
    pub wkv_a_wkv: TensorHip<F16>,
    pub wkv_b_wkv: TensorHip<F16>,
    pub wkv_out_wkv: TensorHip<F16>,
}

impl WkvCallInputs {
    /// Whether these are the tensors of the pass, seen by head.
    pub open spec fn views(&self, p: PassSpec, forms: DecayForms) -> bool {
        let d = p.sh.wkv_data;
        &&& self.att_w_wkv is Some == forms.raw
        &&& self.w_decay_wkv is Some == forms.exponential
        &&& self.att_w_wkv matches Some(t) ==> t@ == p.w.att.att_w.with_shape(d)
        &&& self.w_decay_wkv matches Some(t) ==> t@ == p.w.wkv.w_decay.with_shape(d)
        &&& self.r_wkv@ == p.w.att.att_r.with_shape(d)
        &&& self.k_ctrl_wkv@ == p.w.att.att_k_ctrl.with_shape(d)
        &&& self.v_wkv@ == p.w.att.att_v.with_shape(d)
        &&& self.wkv_a_wkv@ == p.w.wkv.wkv_a.with_shape(d)
        &&& self.wkv_b_wkv@ == p.w.wkv.wkv_b.with_shape(d)
        &&& self.wkv_out_wkv@ == p.w.wkv.wkv_out.with_shape(d)
    }
}

/// Why the inputs of the recurrent attention cannot be seen by head, where they cannot.
#[verifier::opaque]
pub open spec fn head_view_error(p: PassSpec, forms: DecayForms) -> Option<ErrorSpec> {
    let d = p.sh.wkv_data;
    let a = p.w.att;
    let k = p.w.wkv;
    let raw = if forms.raw {
        reshape_error(a.att_w, d)
    } else {
        None
    };
    let exponential = if forms.exponential {
        reshape_error(k.w_decay, d)
    } else {
        None
    };
    let v = reshape_error(a.att_v, d);
    let rest = first_error(
        reshape_error(k.wkv_a, d),
        first_error(reshape_error(k.wkv_b, d), reshape_error(k.wkv_out, d)),
    );
    first_error(
        raw,
        first_error(
            exponential,
            first_error(
                reshape_error(a.att_r, d),
                first_error(reshape_error(a.att_k_ctrl, d), first_error(v, rest)),
            ),
        ),
    )
}

/// Sees the inputs of the recurrent attention by head.
pub open spec fn reshape_part(s: Run, p: PassSpec, forms: DecayForms) -> Run {
    s.check(head_view_error(p, forms))
}

/// The inputs and the output of the recurrent attention, with its exponential decay.
pub open spec fn wkv_tensors(p: PassSpec) -> WkvTensors {
    let d = p.sh.wkv_data;
    WkvTensors {
        w_decay: p.w.wkv.w_decay.with_shape(d),
        q: p.w.att.att_r.with_shape(d),
        k: p.w.att.att_k_ctrl.with_shape(d),
        v: p.w.att.att_v.with_shape(d),
        a: p.w.wkv.wkv_a.with_shape(d),
        b: p.w.wkv.wkv_b.with_shape(d),
        output: p.w.wkv.wkv_out.with_shape(d),
    }
}

/// The inputs, the state and the output of the chunked attention.
pub open spec fn fla_args(p: PassSpec, state: TensorSpec) -> FlaArgs {
    let d = p.sh.wkv_data;
    FlaArgs {
        att_w: p.w.att.att_w.with_shape(d),
        r: p.w.att.att_r.with_shape(d),
        k: p.w.att.att_k_ctrl.with_shape(d),
        v: p.w.att.att_v.with_shape(d),
        a: p.w.wkv.wkv_a.with_shape(d),
        b: p.w.wkv.wkv_b.with_shape(d),
        state,
        output: p.w.wkv.wkv_out.with_shape(d),
    }
}

/// The recurrent attention alone.
pub open spec fn wkv_kernel_run(
    s: Run,
    p: PassSpec,
    choice: WkvChoiceSpec,
    state: TensorSpec,
) -> Run {
    match choice {
        WkvChoiceSpec::Fla { kernel, lengths } => s.step(
            |s: Run| fla_compute_run(s, kernel, fla_args(p, state), lengths),
        ),
        WkvChoiceSpec::FusedT1 => s.call(FusedT1Wkv.call(wkv_tensors(p), state, p.lens)),
        WkvChoiceSpec::Masked { state_out } => s.call(
            wkv7_f16_masked_call(wkv_tensors(p), state, state_out, p.lens),
        ).call(copy_tensor_f32_call(state_out, state)),
    }
}

/// The recurrent attention, with its probes.
#[verifier::opaque]
pub open spec fn wkv_part(s: Run, p: PassSpec, choice: WkvChoiceSpec, state: TensorSpec) -> Run {
    let a = p.w.att;
    let k = p.w.wkv;
    let s = p.prober.stacked(
        s,
        HipHook::PreWkv,
        stack6(a.att_w, a.att_r, a.att_k_ctrl, a.att_v, k.wkv_a, k.wkv_b),
        6,
    );
    let s = p.prober.state(s, HipHook::PreWkvState, state);
    let s = wkv_kernel_run(s, p, choice, state);
    let s = p.prober.channels(s, HipHook::PostWkv, k.wkv_out, p.info.n_embd);
    p.prober.state(s, HipHook::PostWkvState, state)
}

/// The bonus term, seen by head.
#[verifier::opaque]
pub open spec fn bonus_part(s: Run, p: PassSpec, layer: LayerHip) -> Run {
    let d = p.sh.wkv_data;
    let a = p.w.att;
    let k = p.w.wkv;
    let rk_shape = TensorShape::of(p.info.head_size, p.info.n_head, 1, 1);
    let s = s.call(
        group_norm_f16_call(
            k.wkv_out,
            layer.att.gn.weight@,
            layer.att.gn.bias@,
            k.wkv_normed,
            p.info.n_head,
            GROUP_NORM_EPS,
        ),
    );
    let s = p.prober.channels(s, HipHook::PostAttGroupNorm, k.wkv_normed, p.info.n_embd);
    let s = s.check(reshape_error(layer.att.r_k@, rk_shape)).check(
        reshape_error(k.wkv_bonus, d),
    ).call(
        wkv_bonus_f16_call(
            a.att_r.with_shape(d),
            a.att_k_ctrl.with_shape(d),
            a.att_v.with_shape(d),
            layer.att.r_k@.with_shape(rk_shape),
            k.wkv_bonus.with_shape(d),
        ),
    );
    p.prober.channels(s, HipHook::PostWkvBonus, k.wkv_bonus, p.info.n_embd)
}

/// Gates and projects the attention, and adds it to the hidden state.
#[verifier::opaque]
pub open spec fn gated_part(s: Run, p: PassSpec, layer: LayerHip) -> Run {
    let k = p.w.wkv;
    let x = p.w.shift.x;
    let t = p.tmp;
    let s = s.call(add_f16_call(k.wkv_normed, k.wkv_bonus, t.temp1)).call(
        mul_f16_call(t.temp1, p.w.att.att_g, t.temp2),
    );
    let s = p.prober.channels(s, HipHook::PostAttGated, t.temp2, p.info.n_embd);
    let s = s.call(hgemm_f16_call(layer.att.w_o@, t.temp2, k.att_out));
    let s = p.prober.channels(s, HipHook::PostAttOut, k.att_out, p.info.n_embd);
    let s = s.call(add_f16_call(x, k.att_out, t.temp1)).call(copy_tensor_f16_call(t.temp1, x));
    p.prober.channels(s, HipHook::PostAtt, x, p.info.n_embd)
}

/// The attention from the inputs of the recurrence on.
#[verifier::opaque]
pub open spec fn recurrent_part(
    s: Run,
    p: PassSpec,
    layer: LayerHip,
    forms: DecayForms,
    choice: WkvChoiceSpec,
    state: TensorSpec,
) -> Run {
    s.step(|s: Run| reshape_part(s, p, forms)).step(
        |s: Run| wkv_part(s, p, choice, state),
    ).step(|s: Run| bonus_part(s, p, layer)).step(|s: Run| gated_part(s, p, layer))
}

/// The attention of one layer: its token-shift state is replaced by a copy of the new one.
#[verifier::opaque]
pub open spec fn attention_run(
    s: Run,
    p: PassSpec,
    layer_idx: usize,
    layer: LayerHip,
    forms: DecayForms,
    choice: WkvChoiceSpec,
    att_shift: TensorSpec,
    state: TensorSpec,
) -> Run {
    s.step(|s: Run| shift_part(s, p, layer, att_shift, p.tmp.new_att_shift)).call(
        copy_tensor_f16_call(p.tmp.new_att_shift, att_shift),
    ).step(|s: Run| mix_part(s, p, layer_idx, layer, forms.exponential)).step(
        |s: Run| recurrent_part(s, p, layer, forms, choice, state),
    )
}

/// Normalises the hidden state for the feed-forward part and shifts it by token.
#[verifier::opaque]
pub open spec fn ffn_shift_part(
    s: Run,
    p: PassSpec,
    layer: LayerHip,
    ffn_shift: TensorSpec,
    new_shift: TensorSpec,
) -> Run {
    let x_ln = p.w.shift.x_ln;
    let s = norm_call(p, layer.ffn_ln, s);
    let s = p.prober.channels(s, HipHook::PostFfnLayerNorm, x_ln, p.info.n_embd);
    s.call(
        channel_mix_state_f16_masked_call(
            x_ln,
            ffn_shift,
            layer.ffn.x_k@,
            p.w.wkv.ffn_xk,
            new_shift,
            p.lens,
        ),
    )
}

/// The feed-forward part behind its token shift.
#[verifier::opaque]
pub open spec fn ffn_mix_part(s: Run, p: PassSpec, layer: LayerHip) -> Run {
    let l = p.w.inner;
    let k = p.w.wkv;
    let x = p.w.shift.x;
    let t = p.tmp;
    let s = p.prober.channels(s, HipHook::PostFfnTokenShift, k.ffn_xk, p.info.n_embd);
    let s = s.call(hgemm_f16_call(layer.ffn.w_k@, k.ffn_xk, l.ffn_k));
    let s = p.prober.channels(s, HipHook::PostFfnLinear, l.ffn_k, p.info.n_hidden);
    let s = s.call(squared_relu_f16_call(l.ffn_k, l.ffn_k_sq));
    let s = p.prober.channels(s, HipHook::PostFfnActivate, l.ffn_k_sq, p.info.n_hidden);
    let s = s.call(hgemm_f16_call(layer.ffn.w_v@, l.ffn_k_sq, k.ffn_out));
    let s = p.prober.channels(s, HipHook::PostFfnOut, k.ffn_out, p.info.n_embd);
    let s = s.call(add_f16_call(x, k.ffn_out, t.temp1)).call(copy_tensor_f16_call(t.temp1, x));
    p.prober.channels(s, HipHook::PostFfn, x, p.info.n_embd)
}

/// The feed-forward part of one layer: its token-shift state is replaced by a copy of the
/// new one.
#[verifier::opaque]
pub open spec fn ffn_run(s: Run, p: PassSpec, layer: LayerHip, ffn_shift: TensorSpec) -> Run {
    s.step(|s: Run| ffn_shift_part(s, p, layer, ffn_shift, p.tmp.new_ffn_shift)).call(
        copy_tensor_f16_call(p.tmp.new_ffn_shift, ffn_shift),
    ).step(|s: Run| ffn_mix_part(s, p, layer))
}

/// The output head, up to the logits in half precision.
#[verifier::opaque]
pub open spec fn head_part(s: Run, p: PassSpec, head: HeadHip, logits: TensorSpec) -> Run {
    let s = norm_call(p, head.ln, s).call(hgemm_f16_call(head.w@, p.w.shift.x_ln, logits));
    let s = p.prober.channels(s, HipHook::PostHeadLayerNorm, p.w.shift.x_ln, p.info.n_embd);
    p.prober.channels(s, HipHook::PostHead, logits, p.info.n_vocab)
}

/// The output head and the way of the logits to the host.
#[verifier::opaque]
pub open spec fn output_head_run(
    s: Run,
    p: PassSpec,
    head: HeadHip,
    logits: TensorSpec,
    logits_f32: TensorSpec,
) -> Run {
    s.step(|s: Run| head_part(s, p, head, logits)).call(
        copy_f16_to_f32_call(logits, logits_f32),
    ).download::<F32>(logits_f32)
}

impl<'a> Pass<'a> {
    /// Sees the inputs of the recurrent attention by head.
    pub fn reshape_part(&self, forms: DecayForms) -> (r: Result<WkvCallInputs, HipErrorKind>)
        requires
            self@.sound(),
        ensures
            match r {
                Ok(v) => head_view_error(self@, forms) is None && v.views(self@, forms),
                Err(e) => head_view_error(self@, forms) == Some(e@),
            },
    {
        reveal(head_view_error);
        let d = self.sh.wkv_data;
        let a = &self.w.att;
        let k = &self.w.wkv;
        let att_w_wkv: Option<TensorHip<F16>> = if forms.raw {
            Some(a.att_w.reshape_view(d)?)
        } else {
            None
        };
        let w_decay_wkv: Option<TensorHip<F16>> = if forms.exponential {
            Some(k.w_decay.reshape_view(d)?)
        } else {
            None
        };
        let r_wkv = a.att_r.reshape_view(d)?;
        let k_ctrl_wkv = a.att_k_ctrl.reshape_view(d)?;
        let v_wkv = a.att_v.reshape_view(d)?;
        let wkv_a_wkv = k.wkv_a.reshape_view(d)?;
        let wkv_b_wkv = k.wkv_b.reshape_view(d)?;
        let wkv_out_wkv = k.wkv_out.reshape_view(d)?;
        Ok(
            WkvCallInputs {
                att_w_wkv,
                w_decay_wkv,
                r_wkv,
                k_ctrl_wkv,
                v_wkv,
                wkv_a_wkv,
                wkv_b_wkv,
                wkv_out_wkv,
            },
        )
    }

    fn wkv_kernel(
        &self,
        views: &WkvCallInputs,
        forms: DecayForms,
        choice: &WkvChoice<'_>,
        state: &TensorHip<F32>,
        stream: &mut Stream,
    ) -> (r: Result<(), HipErrorKind>)
        requires
            views.views(self@, forms),
            choice@.sound(),
            choice@.reads_raw() ==> forms.raw,
            !choice@.reads_raw() ==> forms.exponential,
        ensures
            wkv_kernel_run(Run::start(old(stream)@), self@, choice@, state@).agrees(
                final(stream)@,
                r,
            ),
    {
        match choice {
            WkvChoice::Fla { kernel, lengths } => {
                let att_w = views.att_w_wkv.as_ref().unwrap();
                kernel.compute(
                    att_w,
                    &views.r_wkv,
                    &views.k_ctrl_wkv,
                    &views.v_wkv,
                    &views.wkv_a_wkv,
                    &views.wkv_b_wkv,
                    state,
                    &views.wkv_out_wkv,
                    lengths,
                    stream,
                )
            },
            WkvChoice::FusedT1 => {
                let w_decay = views.w_decay_wkv.as_ref().unwrap();
                let input = WkvInput {
                    w_decay,
                    r: &views.r_wkv,
                    k: &views.k_ctrl_wkv,
                    v: &views.v_wkv,
                    a: &views.wkv_a_wkv,
                    b: &views.wkv_b_wkv,
                    lengths: self.lens,
                };
                FusedT1Wkv.compute(&input, state, &views.wkv_out_wkv, stream)
            },
            WkvChoice::Masked { state_out } => {
                let w_decay = views.w_decay_wkv.as_ref().unwrap();
                wkv7_f16_masked(
                    w_decay,
                    &views.r_wkv,
                    &views.k_ctrl_wkv,
                    &views.v_wkv,
                    &views.wkv_a_wkv,
                    &views.wkv_b_wkv,
                    state,
                    &views.wkv_out_wkv,
                    state_out,
                    self.lens,
                    stream,
                )?;
                copy_tensor_f32(state_out, state, stream)
            },
        }
    }

    /// The recurrent attention, with its probes.
    pub fn wkv_part(
        &self,
        views: &WkvCallInputs,
        forms: DecayForms,
        choice: &WkvChoice<'_>,
        state: &TensorHip<F32>,
        stream: &mut Stream,
    ) -> (r: Result<(), HipErrorKind>)
        requires
            self@.sound(),
            views.views(self@, forms),
            choice@.sound(),
            choice@.reads_raw() ==> forms.raw,
            !choice@.reads_raw() ==> forms.exponential,
        ensures
            wkv_part(Run::start(old(stream)@), self@, choice@, state@).agrees(final(stream)@, r),
    {
        reveal(wkv_part);
        let a = &self.w.att;
        let k = &self.w.wkv;
        self.prober.stacked6(
            HipHook::PreWkv,
            &a.att_w,
            &a.att_r,
            &a.att_k_ctrl,
            &a.att_v,
            &k.wkv_a,
            &k.wkv_b,
            stream,
        );
        self.prober.state(HipHook::PreWkvState, state, stream);
        self.wkv_kernel(views, forms, choice, state, stream)?;
        self.prober.channels(HipHook::PostWkv, &k.wkv_out, self.info.n_embd, stream);
        self.prober.state(HipHook::PostWkvState, state, stream);
        Ok(())
    }

    /// The bonus term, seen by head.
    pub fn bonus_part(
        &self,
        views: &WkvCallInputs,
        forms: DecayForms,
        layer: &LayerHip,
        stream: &mut Stream,
    ) -> (r: Result<(), HipErrorKind>)
        requires
            self@.sound(),
            views.views(self@, forms),
        ensures
            bonus_part(Run::start(old(stream)@), self@, *layer).agrees(final(stream)@, r),
    {
        reveal(bonus_part);
        let k = &self.w.wkv;
        proof {
            lemma_matrix_fits(self.info.head_size, self.info.n_head);
        }
        group_norm_f16(
            &k.wkv_out,
            &layer.att.gn.weight,
            &layer.att.gn.bias,
            &k.wkv_normed,
            self.info.n_head,
            GROUP_NORM_EPS,
            stream,
        )?;
        self.prober.channels(HipHook::PostAttGroupNorm, &k.wkv_normed, self.info.n_embd, stream);
        let rk_shape = TensorShape::new(self.info.head_size, self.info.n_head, 1, 1);
        let r_k = layer.att.r_k.reshape_view(rk_shape)?;
        let bonus = k.wkv_bonus.reshape_view(self.sh.wkv_data)?;
        wkv_bonus_f16(&views.r_wkv, &views.k_ctrl_wkv, &views.v_wkv, &r_k, &bonus, stream)?;
        self.prober.channels(HipHook::PostWkvBonus, &k.wkv_bonus, self.info.n_embd, stream);
        Ok(())
    }

    /// Gates and projects the attention, and adds it to the hidden state.
    pub fn gated_part(&self, layer: &LayerHip, stream: &mut Stream) -> (r: Result<(), HipErrorKind>)
        ensures
            gated_part(Run::start(old(stream)@), self@, *layer).agrees(final(stream)@, r),
    {
        reveal(gated_part);
        let k = &self.w.wkv;
        let x = &self.w.shift.x;
        let t = self.tmp;
        add_f16(&k.wkv_normed, &k.wkv_bonus, &t.temp1, stream)?;
        mul_f16(&t.temp1, &self.w.att.att_g, &t.temp2, stream)?;
        self.prober.channels(HipHook::PostAttGated, &t.temp2, self.info.n_embd, stream);
        hgemm_f16(&layer.att.w_o, &t.temp2, &k.att_out, stream)?;
        self.prober.channels(HipHook::PostAttOut, &k.att_out, self.info.n_embd, stream);
        add_f16(x, &k.att_out, &t.temp1, stream)?;
        copy_tensor_f16(&t.temp1, x, stream)?;
        self.prober.channels(HipHook::PostAtt, x, self.info.n_embd, stream);
        Ok(())
    }

    /// The attention from the inputs of the recurrence on.
    pub fn recurrent_part(
        &self,
        layer: &LayerHip,
        forms: DecayForms,
        choice: &WkvChoice<'_>,
        state: &TensorHip<F32>,
        stream: &mut Stream,
    ) -> (r: Result<(), HipErrorKind>)
        requires
            self@.sound(),
            choice@.sound(),
            choice@.reads_raw() ==> forms.raw,
            !choice@.reads_raw() ==> forms.exponential,
        ensures
            recurrent_part(
                Run::start(old(stream)@),
                self@,
                *layer,
                forms,
                choice@,
                state@,
            ).agrees(final(stream)@, r),
    {
        reveal(recurrent_part);
        let views = self.reshape_part(forms)?;
        self.wkv_part(&views, forms, choice, state, stream)?;
        self.bonus_part(&views, forms, layer, stream)?;
        self.gated_part(layer, stream)
    }
}

/// The attention of one layer.
pub fn attention_block(
    p: &Pass<'_>,
    layer_idx: usize,
    layer: &LayerHip,
    forms: DecayForms,
    choice: &WkvChoice<'_>,
    att_shift: &TensorHip<F16>,
    state: &TensorHip<F32>,
    stream: &mut Stream,
) -> (r: Result<(), HipErrorKind>)
    requires
        p@.sound(),
        layer.repeatable(),
        choice@.sound(),
        choice@.reads_raw() ==> forms.raw,
        !choice@.reads_raw() ==> forms.exponential,
    ensures
        attention_run(
            Run::start(old(stream)@),
            p@,
            layer_idx,
            *layer,
            forms,
            choice@,
            att_shift@,
            state@,
        ).agrees(final(stream)@, r),
{
    reveal(attention_run);
    p.shift_part(layer, att_shift, &p.tmp.new_att_shift, stream)?;
    copy_tensor_f16(&p.tmp.new_att_shift, att_shift, stream)?;
    p.mix_part(layer_idx, layer, forms.exponential, stream)?;
    p.recurrent_part(layer, forms, choice, state, stream)
}

impl<'a> Pass<'a> {
    /// Normalises the hidden state for the feed-forward part and shifts it by token.
    pub fn ffn_shift_part(
        &self,
        layer: &LayerHip,
        ffn_shift: &TensorHip<F16>,
        new_shift: &TensorHip<F16>,
        stream: &mut Stream,
    ) -> (r: Result<(), HipErrorKind>)
        ensures
            ffn_shift_part(
                Run::start(old(stream)@),
                self@,
                *layer,
                ffn_shift@,
                new_shift@,
            ).agrees(final(stream)@, r),
    {
        reveal(ffn_shift_part);
        let x_ln = &self.w.shift.x_ln;
        layer_norm_f16(
            &self.w.shift.x,
            &layer.ffn_ln.weight,
            &layer.ffn_ln.bias,
            x_ln,
            LAYER_NORM_EPS,
            stream,
        )?;
        self.prober.channels(HipHook::PostFfnLayerNorm, x_ln, self.info.n_embd, stream);
        channel_mix_state_f16_masked(
            x_ln,
            ffn_shift,
            &layer.ffn.x_k,
            &self.w.wkv.ffn_xk,
            new_shift,
            self.lens,
            stream,
        )
    }

    /// The feed-forward part behind its token shift.
    pub fn ffn_mix_part(&self, layer: &LayerHip, stream: &mut Stream) -> (r: Result<
        (),
        HipErrorKind,
    >)
        ensures
            ffn_mix_part(Run::start(old(stream)@), self@, *layer).agrees(final(stream)@, r),
    {
        reveal(ffn_mix_part);
        let l = &self.w.inner;
        let k = &self.w.wkv;
        let x = &self.w.shift.x;
        let t = self.tmp;
        self.prober.channels(HipHook::PostFfnTokenShift, &k.ffn_xk, self.info.n_embd, stream);
        hgemm_f16(&layer.ffn.w_k, &k.ffn_xk, &l.ffn_k, stream)?;
        self.prober.channels(HipHook::PostFfnLinear, &l.ffn_k, self.info.n_hidden, stream);
        squared_relu_f16(&l.ffn_k, &l.ffn_k_sq, stream)?;
        self.prober.channels(HipHook::PostFfnActivate, &l.ffn_k_sq, self.info.n_hidden, stream);
        hgemm_f16(&layer.ffn.w_v, &l.ffn_k_sq, &k.ffn_out, stream)?;
        self.prober.channels(HipHook::PostFfnOut, &k.ffn_out, self.info.n_embd, stream);
        add_f16(x, &k.ffn_out, &t.temp1, stream)?;
        copy_tensor_f16(&t.temp1, x, stream)?;
        self.prober.channels(HipHook::PostFfn, x, self.info.n_embd, stream);
        Ok(())
    }
}

/// The feed-forward part of one layer.
pub fn ffn_block(
    p: &Pass<'_>,
    layer: &LayerHip,
    ffn_shift: &TensorHip<F16>,
    stream: &mut Stream,
) -> (r: Result<(), HipErrorKind>)
    ensures
        ffn_run(Run::start(old(stream)@), p@, *layer, ffn_shift@).agrees(final(stream)@, r),
{
    reveal(ffn_run);
    p.ffn_shift_part(layer, ffn_shift, &p.tmp.new_ffn_shift, stream)?;
    copy_tensor_f16(&p.tmp.new_ffn_shift, ffn_shift, stream)?;
    p.ffn_mix_part(layer, stream)
}

/// The output head, up to the logits in half precision.
pub fn head_logits(
    p: &Pass<'_>,
    head: &HeadHip,
    logits: &TensorHip<F16>,
    stream: &mut Stream,
) -> (r: Result<(), HipErrorKind>)
    ensures
        head_part(Run::start(old(stream)@), p@, *head, logits@).agrees(final(stream)@, r),
{
    reveal(head_part);
    let w = &p.w.shift;
    layer_norm_f16(&w.x, &head.ln.weight, &head.ln.bias, &w.x_ln, LAYER_NORM_EPS, stream)?;
    hgemm_f16(&head.w, &w.x_ln, logits, stream)?;
    p.prober.channels(HipHook::PostHeadLayerNorm, &w.x_ln, p.info.n_embd, stream);
    p.prober.channels(HipHook::PostHead, logits, p.info.n_vocab, stream);
    Ok(())
}

/// The output head and the way of the logits to the host.
pub fn output_head(
    p: &Pass<'_>,
    head: &HeadHip,
    logits: &TensorHip<F16>,
    logits_f32: &TensorHip<F32>,
    stream: &mut Stream,
) -> (r: Result<(), HipErrorKind>)
    ensures
        output_head_run(Run::start(old(stream)@), p@, *head, logits@, logits_f32@).agrees(
            final(stream)@,
            r,
        ),
{
    reveal(output_head_run);
    head_logits(p, head, logits, stream)?;
    copy_f16_to_f32(logits, logits_f32, stream)?;
    logits_f32.download(stream);
    Ok(())
}

} // verus!
