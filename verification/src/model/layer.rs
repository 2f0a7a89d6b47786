//! The parts of one layer, in the order in which they go to the device.
use crate::blas::{hgemm_f16, hgemm_f16_call};
use crate::buffers::{TempBuffers, TempSpec, WorkBuffers, WorkSpec};
use crate::error::HipErrorKind;
use crate::kernels::elementwise::{
    broadcast_add_f16, broadcast_add_f16_call, broadcast_mul_f16, broadcast_mul_f16_call,
    copy_tensor_f16, copy_tensor_f16_call, decay_exp_f16, decay_exp_f16_call, lerp_f16,
    lerp_f16_call, mul_f16, mul_f16_call, negate_f16, negate_f16_call, sigmoid_f16,
    sigmoid_f16_call, softplus_decay_f16, softplus_decay_f16_call, tanh_f16, tanh_f16_call,
};
use crate::kernels::mix::{
    channel_mix_state_f16, channel_mix_state_f16_call, channel_mix_state_f16_masked,
    channel_mix_state_f16_masked_call, control_k_f16, control_k_f16_call,
};
use crate::kernels::norm::{l2_norm_f16, l2_norm_f16_call, layer_norm_f16, layer_norm_f16_call};
use crate::model::weights::{LayerHip, LayerNormHip};
use crate::model::Rwkv7ModelInfo;
use crate::probe::{stack3, stack6, HipHook, Prober, ProberSpec};
use crate::shapes::PassShapes;
use crate::stream::{Run, Stream};
use crate::tensor::{TensorHip, TensorSpec, F16, I32};
use vstd::prelude::*;

verus! {

/// 1e-5, the epsilon of the layer norms.
pub const LAYER_NORM_EPS: u32 = 0x3727_C5AC;

/// 64e-5, the epsilon of the group norm.
pub const GROUP_NORM_EPS: u32 = 0x3A27_C5AC;

/// 1e-12, the epsilon of the L2 norm.
pub const L2_NORM_EPS: u32 = 0x2B8C_BCCC;

/// What every part of a layer works with.
pub struct Pass<'a> {
    pub info: Rwkv7ModelInfo,
    pub sh: PassShapes,
    pub w: &'a WorkBuffers,
    pub tmp: &'a TempBuffers,
    pub lens: &'a TensorHip<I32>,
    pub prober: Prober<'a>,
}

/// What a pass stands for.
pub struct PassSpec {
    pub info: Rwkv7ModelInfo,
    pub sh: PassShapes,
    pub w: WorkSpec,
    pub tmp: TempSpec,
    pub lens: TensorSpec,
    pub prober: ProberSpec,
}

impl<'a> View for Pass<'a> {
    type V = PassSpec;

    open spec fn view(&self) -> PassSpec {
        PassSpec {
            info: self.info,
            sh: self.sh,
            w: self.w@,
            tmp: self.tmp@,
            lens: self.lens@,
            prober: self.prober@,
        }
    }
}

impl PassSpec {
    /// Whether sizes and divisors are such that every part can be asked for.
    pub open spec fn sound(self) -> bool {
        &&& self.sh.fits()
        &&& self.info.n_head > 0
        &&& self.info.head_size > 0
        &&& self.info.head_size * self.info.n_head <= usize::MAX
        &&& self.prober.frame.n_embd * 6 <= usize::MAX
    }
}

/// A layer norm of the hidden state.
pub open spec fn norm_call(p: PassSpec, ln: LayerNormHip, s: Run) -> Run {
    s.call(
        layer_norm_f16_call(p.w.shift.x, ln.weight@, ln.bias@, p.w.shift.x_ln, LAYER_NORM_EPS),
    )
}

/// Normalises the embedding in place.
#[verifier::opaque]
pub open spec fn embed_norm(s: Run, p: PassSpec, ln: LayerNormHip) -> Run {
    let w = p.w.shift;
    let s = norm_call(p, ln, s).call(copy_tensor_f16_call(w.x_ln, w.x));
    p.prober.channels(s, HipHook::PostEmbedLayerNorm, w.x, p.info.n_embd)
}

/// Normalises the hidden state and shifts it by token, in six mixes.
#[verifier::opaque]
pub open spec fn shift_part(
    s: Run,
    p: PassSpec,
    layer: LayerHip,
    att_shift: TensorSpec,
    new_shift: TensorSpec,
) -> Run {
    let w = p.w.shift;
    let s = norm_call(p, layer.att_ln, s);
    let s = p.prober.channels(s, HipHook::PostAttLayerNorm, w.x_ln, p.info.n_embd);
    s.call(
        channel_mix_state_f16_masked_call(
            w.x_ln,
            att_shift,
            layer.att.x_r@,
            w.att_xr,
            new_shift,
            p.lens,
        ),
    ).call(
        channel_mix_state_f16_call(w.x_ln, att_shift, layer.att.x_w@, w.att_xw, p.tmp.temp1),
    ).call(
        channel_mix_state_f16_call(w.x_ln, att_shift, layer.att.x_k@, w.att_xk, p.tmp.temp1),
    ).call(
        channel_mix_state_f16_call(w.x_ln, att_shift, layer.att.x_v@, w.att_xv, p.tmp.temp1),
    ).call(
        channel_mix_state_f16_call(w.x_ln, att_shift, layer.att.x_a@, w.att_xa, p.tmp.temp1),
    ).call(
        channel_mix_state_f16_call(w.x_ln, att_shift, layer.att.x_g@, w.att_xg, p.tmp.temp1),
    )
}

/// Shows the shifted tokens and projects receptance, key and value.
#[verifier::opaque]
pub open spec fn project_part(s: Run, p: PassSpec, layer: LayerHip) -> Run {
    let w = p.w.shift;
    let a = p.w.att;
    let s = p.prober.stacked(
        s,
        HipHook::PostAttTokenShift,
        stack6(w.att_xr, w.att_xw, w.att_xk, w.att_xv, w.att_xa, w.att_xg),
        6,
    );
    let s = s.call(hgemm_f16_call(layer.att.w_r@, w.att_xr, a.att_r)).call(
        hgemm_f16_call(layer.att.w_k@, w.att_xk, a.att_k),
    ).call(hgemm_f16_call(layer.att.w_v@, w.att_xv, a.att_v));
    p.prober.stacked(s, HipHook::PostAttLinear, stack3(a.att_r, a.att_k, a.att_v), 3)
}

/// The decay, through its low-rank factors.
#[verifier::opaque]
pub open spec fn decay_part(s: Run, p: PassSpec, layer: LayerHip) -> Run {
    let l = p.w.inner;
    let att_w = p.w.att.att_w;
    let s = s.call(hgemm_f16_call(layer.att.w1@, p.w.shift.att_xw, l.lora_w)).call(
        tanh_f16_call(l.lora_w, l.lora_w_tanh),
    ).call(hgemm_f16_call(layer.att.w2@, l.lora_w_tanh, att_w)).call(
        broadcast_add_f16_call(att_w, layer.att.w0@, p.tmp.temp1),
    ).call(softplus_decay_f16_call(p.tmp.temp1, att_w));
    p.prober.channels(s, HipHook::PostAttDecay, att_w, p.info.n_embd)
}

/// The adaptation, through its low-rank factors.
#[verifier::opaque]
pub open spec fn adapt_part(s: Run, p: PassSpec, layer: LayerHip) -> Run {
    let l = p.w.inner;
    let att_a = p.w.att.att_a;
    let s = s.call(hgemm_f16_call(layer.att.a1@, p.w.shift.att_xa, l.lora_a)).call(
        hgemm_f16_call(layer.att.a2@, l.lora_a, l.lora_a_proj),
    ).call(broadcast_add_f16_call(l.lora_a_proj, layer.att.a0@, p.tmp.temp1)).call(
        sigmoid_f16_call(p.tmp.temp1, att_a),
    );
    p.prober.channels(s, HipHook::PostAttAdapt, att_a, p.info.n_embd)
}

/// The gating values, through its low-rank factors.
#[verifier::opaque]
pub open spec fn gate_part(s: Run, p: PassSpec, layer: LayerHip) -> Run {
    let l = p.w.inner;
    let att_g = p.w.att.att_g;
    let s = s.call(hgemm_f16_call(layer.att.g1@, p.w.shift.att_xg, l.lora_g)).call(
        sigmoid_f16_call(l.lora_g, l.lora_g_sig),
    ).call(hgemm_f16_call(layer.att.g2@, l.lora_g_sig, att_g));
    p.prober.channels(s, HipHook::PostAttGate, att_g, p.info.n_embd)
}

/// Blends the value with that of the first layer.
pub open spec fn blend_value(s: Run, p: PassSpec, v0: TensorSpec, v1: TensorSpec, v2: TensorSpec) -> Run {
    let l = p.w.inner;
    let att_v = p.w.att.att_v;
    s.call(hgemm_f16_call(v1, p.w.shift.att_xv, l.lora_v)).call(
        hgemm_f16_call(v2, l.lora_v, l.v_lora2),
    ).call(broadcast_add_f16_call(l.v_lora2, v0, p.tmp.temp1)).call(
        sigmoid_f16_call(p.tmp.temp1, p.tmp.temp2),
    ).call(lerp_f16_call(att_v, p.w.wkv.v_first, p.tmp.temp2, p.tmp.temp1)).call(
        copy_tensor_f16_call(p.tmp.temp1, att_v),
    )
}

/// The first layer keeps its value; later layers blend theirs with it.
#[verifier::opaque]
pub open spec fn value_part(s: Run, p: PassSpec, layer_idx: usize, layer: LayerHip) -> Run {
    let att_v = p.w.att.att_v;
    if layer_idx > 0 {
        let s = match (layer.att.v0, layer.att.v1, layer.att.v2) {
            (Some(v0), Some(v1), Some(v2)) => blend_value(s, p, v0@, v1@, v2@),
            _ => s,
        };
        p.prober.channels(s, HipHook::PostAttValueResidual, att_v, p.info.n_embd)
    } else {
        s.call(copy_tensor_f16_call(att_v, p.w.wkv.v_first))
    }
}

/// The normalised key and the controlled key.
#[verifier::opaque]
pub open spec fn key_part(s: Run, p: PassSpec, layer: LayerHip) -> Run {
    let a = p.w.att;
    let s = s.call(broadcast_mul_f16_call(a.att_k, layer.att.k_k@, p.tmp.temp1)).call(
        l2_norm_f16_call(p.tmp.temp1, a.att_kk, p.info.head_size, L2_NORM_EPS),
    );
    let s = p.prober.channels(s, HipHook::PostAttL2Norm, a.att_kk, p.info.n_embd);
    let s = s.call(control_k_f16_call(layer.att.k_a@, a.att_a, a.att_k, a.att_k_ctrl));
    p.prober.channels(s, HipHook::PostAttControlK, a.att_k_ctrl, p.info.n_embd)
}

/// The inputs of the recurrent attention; its decay factor only where `decay` says so.
#[verifier::opaque]
pub open spec fn wkv_input_part(s: Run, p: PassSpec, decay: bool) -> Run {
    let a = p.w.att;
    let k = p.w.wkv;
    let s = s.call(negate_f16_call(a.att_kk, k.wkv_a)).call(
        mul_f16_call(a.att_kk, a.att_a, k.wkv_b),
    );
    if decay {
        s.call(decay_exp_f16_call(a.att_w, k.w_decay))
    } else {
        s
    }
}

/// Everything between the token shift and the recurrent attention.
#[verifier::opaque]
pub open spec fn mix_part(
    s: Run,
    p: PassSpec,
    layer_idx: usize,
    layer: LayerHip,
    decay: bool,
) -> Run {
    s.step(|s: Run| project_part(s, p, layer)).step(|s: Run| decay_part(s, p, layer)).step(
        |s: Run| adapt_part(s, p, layer),
    ).step(|s: Run| gate_part(s, p, layer)).step(
        |s: Run| value_part(s, p, layer_idx, layer),
    ).step(|s: Run| key_part(s, p, layer)).step(|s: Run| wkv_input_part(s, p, decay))
}

impl<'a> Pass<'a> {
    fn norm(&self, ln: &LayerNormHip, stream: &mut Stream) -> (r: Result<(), HipErrorKind>)
        ensures
            norm_call(self@, *ln, Run::start(old(stream)@)).agrees(final(stream)@, r),
    {
        let w = &self.w.shift;
        layer_norm_f16(&w.x, &ln.weight, &ln.bias, &w.x_ln, LAYER_NORM_EPS, stream)
    }

    /// Normalises the embedding in place.
    pub fn embed_norm(&self, ln: &LayerNormHip, stream: &mut Stream) -> (r: Result<
        (),
        HipErrorKind,
    >)
        ensures
            embed_norm(Run::start(old(stream)@), self@, *ln).agrees(final(stream)@, r),
    {
        reveal(embed_norm);
        let w = &self.w.shift;
        self.norm(ln, stream)?;
        copy_tensor_f16(&w.x_ln, &w.x, stream)?;
        self.prober.channels(HipHook::PostEmbedLayerNorm, &w.x, self.info.n_embd, stream);
        Ok(())
    }

    /// Normalises the hidden state and shifts it by token, in six mixes.
    pub fn shift_part(
        &self,
        layer: &LayerHip,
        att_shift: &TensorHip<F16>,
        new_shift: &TensorHip<F16>,
        stream: &mut Stream,
    ) -> (r: Result<(), HipErrorKind>)
        ensures
            shift_part(
                Run::start(old(stream)@),
                self@,
                *layer,
                att_shift@,
                new_shift@,
            ).agrees(final(stream)@, r),
    {
        reveal(shift_part);
        let w = &self.w.shift;
        let temp1 = &self.tmp.temp1;
        self.norm(&layer.att_ln, stream)?;
        self.prober.channels(HipHook::PostAttLayerNorm, &w.x_ln, self.info.n_embd, stream);
        channel_mix_state_f16_masked(
            &w.x_ln,
            att_shift,
            &layer.att.x_r,
            &w.att_xr,
            new_shift,
            self.lens,
            stream,
        )?;
        channel_mix_state_f16(&w.x_ln, att_shift, &layer.att.x_w, &w.att_xw, temp1, stream)?;
        channel_mix_state_f16(&w.x_ln, att_shift, &layer.att.x_k, &w.att_xk, temp1, stream)?;
        channel_mix_state_f16(&w.x_ln, att_shift, &layer.att.x_v, &w.att_xv, temp1, stream)?;
        channel_mix_state_f16(&w.x_ln, att_shift, &layer.att.x_a, &w.att_xa, temp1, stream)?;
        channel_mix_state_f16(&w.x_ln, att_shift, &layer.att.x_g, &w.att_xg, temp1, stream)?;
        Ok(())
    }

    fn project_part(&self, layer: &LayerHip, stream: &mut Stream) -> (r: Result<(), HipErrorKind>)
        requires
            self@.sound(),
        ensures
            project_part(Run::start(old(stream)@), self@, *layer).agrees(final(stream)@, r),
    {
        reveal(project_part);
        let w = &self.w.shift;
        let a = &self.w.att;
        self.prober.stacked6(
            HipHook::PostAttTokenShift,
            &w.att_xr,
            &w.att_xw,
            &w.att_xk,
            &w.att_xv,
            &w.att_xa,
            &w.att_xg,
            stream,
        );
        hgemm_f16(&layer.att.w_r, &w.att_xr, &a.att_r, stream)?;
        hgemm_f16(&layer.att.w_k, &w.att_xk, &a.att_k, stream)?;
        hgemm_f16(&layer.att.w_v, &w.att_xv, &a.att_v, stream)?;
        self.prober.stacked3(HipHook::PostAttLinear, &a.att_r, &a.att_k, &a.att_v, stream);
        Ok(())
    }

    fn decay_part(&self, layer: &LayerHip, stream: &mut Stream) -> (r: Result<(), HipErrorKind>)
        requires
            layer.repeatable(),
        ensures
            decay_part(Run::start(old(stream)@), self@, *layer).agrees(final(stream)@, r),
    {
        reveal(decay_part);
        let l = &self.w.inner;
        let att_w = &self.w.att.att_w;
        let temp1 = &self.tmp.temp1;
        hgemm_f16(&layer.att.w1, &self.w.shift.att_xw, &l.lora_w, stream)?;
        tanh_f16(&l.lora_w, &l.lora_w_tanh, stream)?;
        hgemm_f16(&layer.att.w2, &l.lora_w_tanh, att_w, stream)?;
        broadcast_add_f16(att_w, &layer.att.w0, temp1, stream)?;
        softplus_decay_f16(temp1, att_w, stream)?;
        self.prober.channels(HipHook::PostAttDecay, att_w, self.info.n_embd, stream);
        Ok(())
    }

    fn adapt_part(&self, layer: &LayerHip, stream: &mut Stream) -> (r: Result<(), HipErrorKind>)
        requires
            layer.repeatable(),
        ensures
            adapt_part(Run::start(old(stream)@), self@, *layer).agrees(final(stream)@, r),
    {
        reveal(adapt_part);
        let l = &self.w.inner;
        let att_a = &self.w.att.att_a;
        let temp1 = &self.tmp.temp1;
        hgemm_f16(&layer.att.a1, &self.w.shift.att_xa, &l.lora_a, stream)?;
        hgemm_f16(&layer.att.a2, &l.lora_a, &l.lora_a_proj, stream)?;
        broadcast_add_f16(&l.lora_a_proj, &layer.att.a0, temp1, stream)?;
        sigmoid_f16(temp1, att_a, stream)?;
        self.prober.channels(HipHook::PostAttAdapt, att_a, self.info.n_embd, stream);
        Ok(())
    }

    fn gate_part(&self, layer: &LayerHip, stream: &mut Stream) -> (r: Result<(), HipErrorKind>)
        ensures
            gate_part(Run::start(old(stream)@), self@, *layer).agrees(final(stream)@, r),
    {
        reveal(gate_part);
        let l = &self.w.inner;
        let att_g = &self.w.att.att_g;
        hgemm_f16(&layer.att.g1, &self.w.shift.att_xg, &l.lora_g, stream)?;
        sigmoid_f16(&l.lora_g, &l.lora_g_sig, stream)?;
        hgemm_f16(&layer.att.g2, &l.lora_g_sig, att_g, stream)?;
        self.prober.channels(HipHook::PostAttGate, att_g, self.info.n_embd, stream);
        Ok(())
    }

    fn blend_value(
        &self,
        v0: &TensorHip<F16>,
        v1: &TensorHip<F16>,
        v2: &TensorHip<F16>,
        stream: &mut Stream,
    ) -> (r: Result<(), HipErrorKind>)
        requires
            v0@.len() > 0,
        ensures
            blend_value(Run::start(old(stream)@), self@, v0@, v1@, v2@).agrees(final(stream)@, r),
    {
        let l = &self.w.inner;
        let att_v = &self.w.att.att_v;
        let temp1 = &self.tmp.temp1;
        let temp2 = &self.tmp.temp2;
        hgemm_f16(v1, &self.w.shift.att_xv, &l.lora_v, stream)?;
        hgemm_f16(v2, &l.lora_v, &l.v_lora2, stream)?;
        broadcast_add_f16(&l.v_lora2, v0, temp1, stream)?;
        sigmoid_f16(temp1, temp2, stream)?;
        lerp_f16(att_v, &self.w.wkv.v_first, temp2, temp1, stream)?;
        copy_tensor_f16(temp1, att_v, stream)?;
        Ok(())
    }

    fn value_part(&self, layer_idx: usize, layer: &LayerHip, stream: &mut Stream) -> (r: Result<
        (),
        HipErrorKind,
    >)
        requires
            layer.repeatable(),
        ensures
            value_part(Run::start(old(stream)@), self@, layer_idx, *layer).agrees(
                final(stream)@,
                r,
            ),
    {
        reveal(value_part);
        let att_v = &self.w.att.att_v;
        if layer_idx > 0 {
            if let (Some(v0), Some(v1), Some(v2)) = (&layer.att.v0, &layer.att.v1, &layer.att.v2) {
                self.blend_value(v0, v1, v2, stream)?;
            }
            self.prober.channels(HipHook::PostAttValueResidual, att_v, self.info.n_embd, stream);
            Ok(())
        } else {
            copy_tensor_f16(att_v, &self.w.wkv.v_first, stream)
        }
    }

    fn key_part(&self, layer: &LayerHip, stream: &mut Stream) -> (r: Result<(), HipErrorKind>)
        requires
            self@.sound(),
            layer.repeatable(),
        ensures
            key_part(Run::start(old(stream)@), self@, *layer).agrees(final(stream)@, r),
    {
        reveal(key_part);
        let a = &self.w.att;
        let temp1 = &self.tmp.temp1;
        broadcast_mul_f16(&a.att_k, &layer.att.k_k, temp1, stream)?;
        l2_norm_f16(temp1, &a.att_kk, self.info.head_size, L2_NORM_EPS, stream)?;
        self.prober.channels(HipHook::PostAttL2Norm, &a.att_kk, self.info.n_embd, stream);
        control_k_f16(&layer.att.k_a, &a.att_a, &a.att_k, &a.att_k_ctrl, stream)?;
        self.prober.channels(HipHook::PostAttControlK, &a.att_k_ctrl, self.info.n_embd, stream);
        Ok(())
    }

    fn wkv_input_part(&self, decay: bool, stream: &mut Stream) -> (r: Result<(), HipErrorKind>)
        ensures
            wkv_input_part(Run::start(old(stream)@), self@, decay).agrees(final(stream)@, r),
    {
        reveal(wkv_input_part);
        let a = &self.w.att;
        let k = &self.w.wkv;
        negate_f16(&a.att_kk, &k.wkv_a, stream)?;
        mul_f16(&a.att_kk, &a.att_a, &k.wkv_b, stream)?;
        if decay {
            decay_exp_f16(&a.att_w, &k.w_decay, stream)?;
        }
        Ok(())
    }

    /// Everything between the token shift and the recurrent attention.
    pub fn mix_part(
        &self,
        layer_idx: usize,
        layer: &LayerHip,
        decay: bool,
        stream: &mut Stream,
    ) -> (r: Result<(), HipErrorKind>)
        requires
            self@.sound(),
            layer.repeatable(),
        ensures
            mix_part(Run::start(old(stream)@), self@, layer_idx, *layer, decay).agrees(
                final(stream)@,
                r,
            ),
    {
        reveal(mix_part);
        self.project_part(layer, stream)?;
        self.decay_part(layer, stream)?;
        self.adapt_part(layer, stream)?;
        self.gate_part(layer, stream)?;
        self.value_part(layer_idx, layer, stream)?;
        self.key_part(layer, stream)?;
        self.wkv_input_part(decay, stream)
    }
}

} // verus!
