//! Groups of device tensors that are allocated and viewed together.
use crate::buffer::MemoryType;
use crate::error::{first_error, ErrorSpec, HipErrorKind};
use crate::shapes::{FlaShapes, PassShapes};
use crate::stream::{Elem, Run, Stream};
use crate::tensor::{resize_error, TensorHip, TensorSpec, F16, F32};
use vstd::prelude::*;

verus! {

broadcast use Run::lemma_allocated;

/// Tensors for the hidden state and its token-shifted forms.
#[derive(Debug)]
pub struct ShiftBuffers {
    /// Hidden state.
    pub x: TensorHip<F16>,
    /// Output of the layer norms.
    pub x_ln: TensorHip<F16>,
    /// Token-shifted inputs of the attention.
    pub att_xr: TensorHip<F16>,
    pub att_xw: TensorHip<F16>,
    pub att_xk: TensorHip<F16>,
    pub att_xv: TensorHip<F16>,
    pub att_xa: TensorHip<F16>,
    pub att_xg: TensorHip<F16>,
}

/// What the tensors for the hidden state and its token-shifted forms stand for.
pub struct ShiftSpec {
    pub x: TensorSpec,
    pub x_ln: TensorSpec,
    pub att_xr: TensorSpec,
    pub att_xw: TensorSpec,
    pub att_xk: TensorSpec,
    pub att_xv: TensorSpec,
    pub att_xa: TensorSpec,
    pub att_xg: TensorSpec,
}

impl View for ShiftBuffers {
    type V = ShiftSpec;

    open spec fn view(&self) -> ShiftSpec {
        ShiftSpec {
            x: self.x@,
            x_ln: self.x_ln@,
            att_xr: self.att_xr@,
            att_xw: self.att_xw@,
            att_xk: self.att_xk@,
            att_xv: self.att_xv@,
            att_xa: self.att_xa@,
            att_xg: self.att_xg@,
        }
    }
}

/// Allocates the tensors for the hidden state and its token-shifted forms.
#[verifier::opaque]
pub open spec fn shift_alloc_run(s: Run, sh: PassShapes) -> Run {
    s.allocated(Elem::F16, sh.std, MemoryType::Device, false).allocated(Elem::F16, sh.std, MemoryType::Device, false).allocated(Elem::F16, sh.std, MemoryType::Device, false).allocated(Elem::F16, sh.std, MemoryType::Device, false).allocated(Elem::F16, sh.std, MemoryType::Device, false).allocated(Elem::F16, sh.std, MemoryType::Device, false).allocated(Elem::F16, sh.std, MemoryType::Device, false).allocated(Elem::F16, sh.std, MemoryType::Device, false)
}

/// The tensors that `shift_alloc_run` makes, from the first free buffer number on.
#[verifier::opaque]
pub open spec fn shift_at(next: usize, sh: PassShapes) -> ShiftSpec {
    ShiftSpec {
        x: TensorSpec::whole(next, sh.std),
        x_ln: TensorSpec::whole((next + 1) as usize, sh.std),
        att_xr: TensorSpec::whole((next + 2) as usize, sh.std),
        att_xw: TensorSpec::whole((next + 3) as usize, sh.std),
        att_xk: TensorSpec::whole((next + 4) as usize, sh.std),
        att_xv: TensorSpec::whole((next + 5) as usize, sh.std),
        att_xa: TensorSpec::whole((next + 6) as usize, sh.std),
        att_xg: TensorSpec::whole((next + 7) as usize, sh.std),
    }
}

/// Why the tensors for the hidden state and its token-shifted forms cannot be seen in the shapes of one pass, where they cannot.
#[verifier::opaque]
pub open spec fn shift_view_error(w: ShiftSpec, sh: PassShapes) -> Option<ErrorSpec> {
    first_error(first_error(first_error(first_error(first_error(first_error(first_error(resize_error(w.x, sh.std), resize_error(w.x_ln, sh.std)), resize_error(w.att_xr, sh.std)), resize_error(w.att_xw, sh.std)), resize_error(w.att_xk, sh.std)), resize_error(w.att_xv, sh.std)), resize_error(w.att_xa, sh.std)), resize_error(w.att_xg, sh.std))
}

/// The same tensors in the shapes of one pass.
#[verifier::opaque]
pub open spec fn shift_view(w: ShiftSpec, sh: PassShapes) -> ShiftSpec {
    ShiftSpec {
        x: w.x.with_shape(sh.std),
        x_ln: w.x_ln.with_shape(sh.std),
        att_xr: w.att_xr.with_shape(sh.std),
        att_xw: w.att_xw.with_shape(sh.std),
        att_xk: w.att_xk.with_shape(sh.std),
        att_xv: w.att_xv.with_shape(sh.std),
        att_xa: w.att_xa.with_shape(sh.std),
        att_xg: w.att_xg.with_shape(sh.std),
    }
}

impl ShiftBuffers {
    /// Allocates the tensors.
    pub fn allocate(sh: &PassShapes, stream: &mut Stream) -> (r: Result<ShiftBuffers, HipErrorKind>)
        requires
            sh.fits(),
        ensures
            shift_alloc_run(Run::start(old(stream)@), *sh).agrees(final(stream)@, r),
            r matches Ok(w) ==> w@ == shift_at(old(stream)@.next, *sh) && final(stream)@.next
                == old(stream)@.next + 8,
    {
        reveal(shift_alloc_run);
        reveal(shift_at);
        let x: TensorHip<F16> = TensorHip::new(sh.std, stream)?;
        let x_ln: TensorHip<F16> = TensorHip::new(sh.std, stream)?;
        let att_xr: TensorHip<F16> = TensorHip::new(sh.std, stream)?;
        let att_xw: TensorHip<F16> = TensorHip::new(sh.std, stream)?;
        let att_xk: TensorHip<F16> = TensorHip::new(sh.std, stream)?;
        let att_xv: TensorHip<F16> = TensorHip::new(sh.std, stream)?;
        let att_xa: TensorHip<F16> = TensorHip::new(sh.std, stream)?;
        let att_xg: TensorHip<F16> = TensorHip::new(sh.std, stream)?;
        Ok(
            ShiftBuffers {
                x,
                x_ln,
                att_xr,
                att_xw,
                att_xk,
                att_xv,
                att_xa,
                att_xg,
            },
        )
    }

    /// The same tensors in the shapes of one pass.
    pub fn resized(&self, sh: &PassShapes) -> (r: Result<ShiftBuffers, HipErrorKind>)
        requires
            sh.fits(),
        ensures
            match r {
                Ok(w) => shift_view_error(self@, *sh) is None && w@ == shift_view(self@, *sh),
                Err(e) => shift_view_error(self@, *sh) == Some(e@),
            },
    {
        reveal(shift_view_error);
        reveal(shift_view);
        let x = self.x.resized_view(sh.std)?;
        let x_ln = self.x_ln.resized_view(sh.std)?;
        let att_xr = self.att_xr.resized_view(sh.std)?;
        let att_xw = self.att_xw.resized_view(sh.std)?;
        let att_xk = self.att_xk.resized_view(sh.std)?;
        let att_xv = self.att_xv.resized_view(sh.std)?;
        let att_xa = self.att_xa.resized_view(sh.std)?;
        let att_xg = self.att_xg.resized_view(sh.std)?;
        Ok(
            ShiftBuffers {
                x,
                x_ln,
                att_xr,
                att_xw,
                att_xk,
                att_xv,
                att_xa,
                att_xg,
            },
        )
    }
}

/// Tensors for the projections of the attention.
#[derive(Debug)]
pub struct AttBuffers {
    /// Projections of the attention.
    pub att_r: TensorHip<F16>,
    pub att_k: TensorHip<F16>,
    pub att_v: TensorHip<F16>,
    /// Decay.
    pub att_w: TensorHip<F16>,
    /// Adaptation.
    pub att_a: TensorHip<F16>,
    /// Gate.
    pub att_g: TensorHip<F16>,
    /// Normalised key.
    pub att_kk: TensorHip<F16>,
    /// Controlled key.
    pub att_k_ctrl: TensorHip<F16>,
}

/// What the tensors for the projections of the attention stand for.
pub struct AttSpec {
    pub att_r: TensorSpec,
    pub att_k: TensorSpec,
    pub att_v: TensorSpec,
    pub att_w: TensorSpec,
    pub att_a: TensorSpec,
    pub att_g: TensorSpec,
    pub att_kk: TensorSpec,
    pub att_k_ctrl: TensorSpec,
}

impl View for AttBuffers {
    type V = AttSpec;

    open spec fn view(&self) -> AttSpec {
        AttSpec {
            att_r: self.att_r@,
            att_k: self.att_k@,
            att_v: self.att_v@,
            att_w: self.att_w@,
            att_a: self.att_a@,
            att_g: self.att_g@,
            att_kk: self.att_kk@,
            att_k_ctrl: self.att_k_ctrl@,
        }
    }
}

/// Allocates the tensors for the projections of the attention.
#[verifier::opaque]
pub open spec fn att_alloc_run(s: Run, sh: PassShapes) -> Run {
    s.allocated(Elem::F16, sh.std, MemoryType::Device, false).allocated(Elem::F16, sh.std, MemoryType::Device, false).allocated(Elem::F16, sh.std, MemoryType::Device, false).allocated(Elem::F16, sh.std, MemoryType::Device, false).allocated(Elem::F16, sh.std, MemoryType::Device, false).allocated(Elem::F16, sh.std, MemoryType::Device, false).allocated(Elem::F16, sh.std, MemoryType::Device, false).allocated(Elem::F16, sh.std, MemoryType::Device, false)
}

/// The tensors that `att_alloc_run` makes, from the first free buffer number on.
#[verifier::opaque]
pub open spec fn att_at(next: usize, sh: PassShapes) -> AttSpec {
    AttSpec {
        att_r: TensorSpec::whole(next, sh.std),
        att_k: TensorSpec::whole((next + 1) as usize, sh.std),
        att_v: TensorSpec::whole((next + 2) as usize, sh.std),
        att_w: TensorSpec::whole((next + 3) as usize, sh.std),
        att_a: TensorSpec::whole((next + 4) as usize, sh.std),
        att_g: TensorSpec::whole((next + 5) as usize, sh.std),
        att_kk: TensorSpec::whole((next + 6) as usize, sh.std),
        att_k_ctrl: TensorSpec::whole((next + 7) as usize, sh.std),
    }
}

/// Why the tensors for the projections of the attention cannot be seen in the shapes of one pass, where they cannot.
#[verifier::opaque]
pub open spec fn att_view_error(w: AttSpec, sh: PassShapes) -> Option<ErrorSpec> {
    first_error(first_error(first_error(first_error(first_error(first_error(first_error(resize_error(w.att_r, sh.std), resize_error(w.att_k, sh.std)), resize_error(w.att_v, sh.std)), resize_error(w.att_w, sh.std)), resize_error(w.att_a, sh.std)), resize_error(w.att_g, sh.std)), resize_error(w.att_kk, sh.std)), resize_error(w.att_k_ctrl, sh.std))
}

/// The same tensors in the shapes of one pass.
#[verifier::opaque]
pub open spec fn att_view(w: AttSpec, sh: PassShapes) -> AttSpec {
    AttSpec {
        att_r: w.att_r.with_shape(sh.std),
        att_k: w.att_k.with_shape(sh.std),
        att_v: w.att_v.with_shape(sh.std),
        att_w: w.att_w.with_shape(sh.std),
        att_a: w.att_a.with_shape(sh.std),
        att_g: w.att_g.with_shape(sh.std),
        att_kk: w.att_kk.with_shape(sh.std),
        att_k_ctrl: w.att_k_ctrl.with_shape(sh.std),
    }
}

impl AttBuffers {
    /// Allocates the tensors.
    pub fn allocate(sh: &PassShapes, stream: &mut Stream) -> (r: Result<AttBuffers, HipErrorKind>)
        requires
            sh.fits(),
        ensures
            att_alloc_run(Run::start(old(stream)@), *sh).agrees(final(stream)@, r),
            r matches Ok(w) ==> w@ == att_at(old(stream)@.next, *sh) && final(stream)@.next
                == old(stream)@.next + 8,
    {
        reveal(att_alloc_run);
        reveal(att_at);
        let att_r: TensorHip<F16> = TensorHip::new(sh.std, stream)?;
        let att_k: TensorHip<F16> = TensorHip::new(sh.std, stream)?;
        let att_v: TensorHip<F16> = TensorHip::new(sh.std, stream)?;
        let att_w: TensorHip<F16> = TensorHip::new(sh.std, stream)?;
        let att_a: TensorHip<F16> = TensorHip::new(sh.std, stream)?;
        let att_g: TensorHip<F16> = TensorHip::new(sh.std, stream)?;
        let att_kk: TensorHip<F16> = TensorHip::new(sh.std, stream)?;
        let att_k_ctrl: TensorHip<F16> = TensorHip::new(sh.std, stream)?;
        Ok(
            AttBuffers {
                att_r,
                att_k,
                att_v,
                att_w,
                att_a,
                att_g,
                att_kk,
                att_k_ctrl,
            },
        )
    }

    /// The same tensors in the shapes of one pass.
    pub fn resized(&self, sh: &PassShapes) -> (r: Result<AttBuffers, HipErrorKind>)
        requires
            sh.fits(),
        ensures
            match r {
                Ok(w) => att_view_error(self@, *sh) is None && w@ == att_view(self@, *sh),
                Err(e) => att_view_error(self@, *sh) == Some(e@),
            },
    {
        reveal(att_view_error);
        reveal(att_view);
        let att_r = self.att_r.resized_view(sh.std)?;
        let att_k = self.att_k.resized_view(sh.std)?;
        let att_v = self.att_v.resized_view(sh.std)?;
        let att_w = self.att_w.resized_view(sh.std)?;
        let att_a = self.att_a.resized_view(sh.std)?;
        let att_g = self.att_g.resized_view(sh.std)?;
        let att_kk = self.att_kk.resized_view(sh.std)?;
        let att_k_ctrl = self.att_k_ctrl.resized_view(sh.std)?;
        Ok(
            AttBuffers {
                att_r,
                att_k,
                att_v,
                att_w,
                att_a,
                att_g,
                att_kk,
                att_k_ctrl,
            },
        )
    }
}

/// Tensors for the recurrent attention and the outputs of both parts.
#[derive(Debug)]
pub struct WkvBuffers {
    /// Inputs of the recurrent attention.
    pub wkv_a: TensorHip<F16>,
    pub wkv_b: TensorHip<F16>,
    pub w_decay: TensorHip<F16>,
    /// Output of the recurrent attention.
    pub wkv_out: TensorHip<F16>,
    /// Group-normalised output.
    pub wkv_normed: TensorHip<F16>,
    /// Bonus term.
    pub wkv_bonus: TensorHip<F16>,
    /// Projected attention.
    pub att_out: TensorHip<F16>,
    /// Token-shifted input of the feed-forward part.
    pub ffn_xk: TensorHip<F16>,
    /// Output of the feed-forward part.
    pub ffn_out: TensorHip<F16>,
    /// Value of the first layer.
    pub v_first: TensorHip<F16>,
}

/// What the tensors for the recurrent attention and the outputs of both parts stand for.
pub struct WkvSpec {
    pub wkv_a: TensorSpec,
    pub wkv_b: TensorSpec,
    pub w_decay: TensorSpec,
    pub wkv_out: TensorSpec,
    pub wkv_normed: TensorSpec,
    pub wkv_bonus: TensorSpec,
    pub att_out: TensorSpec,
    pub ffn_xk: TensorSpec,
    pub ffn_out: TensorSpec,
    pub v_first: TensorSpec,
}

impl View for WkvBuffers {
    type V = WkvSpec;

    open spec fn view(&self) -> WkvSpec {
        WkvSpec {
            wkv_a: self.wkv_a@,
            wkv_b: self.wkv_b@,
            w_decay: self.w_decay@,
            wkv_out: self.wkv_out@,
            wkv_normed: self.wkv_normed@,
            wkv_bonus: self.wkv_bonus@,
            att_out: self.att_out@,
            ffn_xk: self.ffn_xk@,
            ffn_out: self.ffn_out@,
            v_first: self.v_first@,
        }
    }
}

/// Allocates the tensors for the recurrent attention and the outputs of both parts.
#[verifier::opaque]
pub open spec fn wkv_alloc_run(s: Run, sh: PassShapes) -> Run {
    s.allocated(Elem::F16, sh.std, MemoryType::Device, false).allocated(Elem::F16, sh.std, MemoryType::Device, false).allocated(Elem::F16, sh.std, MemoryType::Device, false).allocated(Elem::F16, sh.std, MemoryType::Device, false).allocated(Elem::F16, sh.std, MemoryType::Device, false).allocated(Elem::F16, sh.std, MemoryType::Device, false).allocated(Elem::F16, sh.std, MemoryType::Device, false).allocated(Elem::F16, sh.std, MemoryType::Device, false).allocated(Elem::F16, sh.std, MemoryType::Device, false).allocated(Elem::F16, sh.std, MemoryType::Device, false)
}

/// The tensors that `wkv_alloc_run` makes, from the first free buffer number on.
#[verifier::opaque]
pub open spec fn wkv_at(next: usize, sh: PassShapes) -> WkvSpec {
    WkvSpec {
        wkv_a: TensorSpec::whole(next, sh.std),
        wkv_b: TensorSpec::whole((next + 1) as usize, sh.std),
        w_decay: TensorSpec::whole((next + 2) as usize, sh.std),
        wkv_out: TensorSpec::whole((next + 3) as usize, sh.std),
        wkv_normed: TensorSpec::whole((next + 4) as usize, sh.std),
        wkv_bonus: TensorSpec::whole((next + 5) as usize, sh.std),
        att_out: TensorSpec::whole((next + 6) as usize, sh.std),
        ffn_xk: TensorSpec::whole((next + 7) as usize, sh.std),
        ffn_out: TensorSpec::whole((next + 8) as usize, sh.std),
        v_first: TensorSpec::whole((next + 9) as usize, sh.std),
    }
}

/// Why the tensors for the recurrent attention and the outputs of both parts cannot be seen in the shapes of one pass, where they cannot.
#[verifier::opaque]
pub open spec fn wkv_view_error(w: WkvSpec, sh: PassShapes) -> Option<ErrorSpec> {
    first_error(first_error(first_error(first_error(first_error(first_error(first_error(first_error(first_error(resize_error(w.wkv_a, sh.std), resize_error(w.wkv_b, sh.std)), resize_error(w.w_decay, sh.std)), resize_error(w.wkv_out, sh.std)), resize_error(w.wkv_normed, sh.std)), resize_error(w.wkv_bonus, sh.std)), resize_error(w.att_out, sh.std)), resize_error(w.ffn_xk, sh.std)), resize_error(w.ffn_out, sh.std)), resize_error(w.v_first, sh.std))
}

/// The same tensors in the shapes of one pass.
#[verifier::opaque]
pub open spec fn wkv_view(w: WkvSpec, sh: PassShapes) -> WkvSpec {
    WkvSpec {
        wkv_a: w.wkv_a.with_shape(sh.std),
        wkv_b: w.wkv_b.with_shape(sh.std),
        w_decay: w.w_decay.with_shape(sh.std),
        wkv_out: w.wkv_out.with_shape(sh.std),
        wkv_normed: w.wkv_normed.with_shape(sh.std),
        wkv_bonus: w.wkv_bonus.with_shape(sh.std),
        att_out: w.att_out.with_shape(sh.std),
        ffn_xk: w.ffn_xk.with_shape(sh.std),
        ffn_out: w.ffn_out.with_shape(sh.std),
        v_first: w.v_first.with_shape(sh.std),
    }
}

impl WkvBuffers {
    /// Allocates the tensors.
    pub fn allocate(sh: &PassShapes, stream: &mut Stream) -> (r: Result<WkvBuffers, HipErrorKind>)
        requires
            sh.fits(),
        ensures
            wkv_alloc_run(Run::start(old(stream)@), *sh).agrees(final(stream)@, r),
            r matches Ok(w) ==> w@ == wkv_at(old(stream)@.next, *sh) && final(stream)@.next
                == old(stream)@.next + 10,
    {
        reveal(wkv_alloc_run);
        reveal(wkv_at);
        let wkv_a: TensorHip<F16> = TensorHip::new(sh.std, stream)?;
        let wkv_b: TensorHip<F16> = TensorHip::new(sh.std, stream)?;
        let w_decay: TensorHip<F16> = TensorHip::new(sh.std, stream)?;
        let wkv_out: TensorHip<F16> = TensorHip::new(sh.std, stream)?;
        let wkv_normed: TensorHip<F16> = TensorHip::new(sh.std, stream)?;
        let wkv_bonus: TensorHip<F16> = TensorHip::new(sh.std, stream)?;
        let att_out: TensorHip<F16> = TensorHip::new(sh.std, stream)?;
        let ffn_xk: TensorHip<F16> = TensorHip::new(sh.std, stream)?;
        let ffn_out: TensorHip<F16> = TensorHip::new(sh.std, stream)?;
        let v_first: TensorHip<F16> = TensorHip::new(sh.std, stream)?;
        Ok(
            WkvBuffers {
                wkv_a,
                wkv_b,
                w_decay,
                wkv_out,
                wkv_normed,
                wkv_bonus,
                att_out,
                ffn_xk,
                ffn_out,
                v_first,
            },
        )
    }

    /// The same tensors in the shapes of one pass.
    pub fn resized(&self, sh: &PassShapes) -> (r: Result<WkvBuffers, HipErrorKind>)
        requires
            sh.fits(),
        ensures
            match r {
                Ok(w) => wkv_view_error(self@, *sh) is None && w@ == wkv_view(self@, *sh),
                Err(e) => wkv_view_error(self@, *sh) == Some(e@),
            },
    {
        reveal(wkv_view_error);
        reveal(wkv_view);
        let wkv_a = self.wkv_a.resized_view(sh.std)?;
        let wkv_b = self.wkv_b.resized_view(sh.std)?;
        let w_decay = self.w_decay.resized_view(sh.std)?;
        let wkv_out = self.wkv_out.resized_view(sh.std)?;
        let wkv_normed = self.wkv_normed.resized_view(sh.std)?;
        let wkv_bonus = self.wkv_bonus.resized_view(sh.std)?;
        let att_out = self.att_out.resized_view(sh.std)?;
        let ffn_xk = self.ffn_xk.resized_view(sh.std)?;
        let ffn_out = self.ffn_out.resized_view(sh.std)?;
        let v_first = self.v_first.resized_view(sh.std)?;
        Ok(
            WkvBuffers {
                wkv_a,
                wkv_b,
                w_decay,
                wkv_out,
                wkv_normed,
                wkv_bonus,
                att_out,
                ffn_xk,
                ffn_out,
                v_first,
            },
        )
    }
}

/// Tensors for the hidden feed-forward values and the low-rank intermediates.
#[derive(Debug)]
pub struct InnerBuffers {
    /// Hidden values of the feed-forward part.
    pub ffn_k: TensorHip<F16>,
    pub ffn_k_sq: TensorHip<F16>,
    /// Low-rank intermediates.
    pub lora_w: TensorHip<F16>,
    pub lora_a: TensorHip<F16>,
    pub lora_g: TensorHip<F16>,
    pub lora_v: TensorHip<F16>,
    pub lora_w_tanh: TensorHip<F16>,
    pub lora_a_proj: TensorHip<F16>,
    pub lora_g_sig: TensorHip<F16>,
    pub v_lora2: TensorHip<F16>,
}

/// What the tensors for the hidden feed-forward values and the low-rank intermediates stand for.
pub struct InnerSpec {
    pub ffn_k: TensorSpec,
    pub ffn_k_sq: TensorSpec,
    pub lora_w: TensorSpec,
    pub lora_a: TensorSpec,
    pub lora_g: TensorSpec,
    pub lora_v: TensorSpec,
    pub lora_w_tanh: TensorSpec,
    pub lora_a_proj: TensorSpec,
    pub lora_g_sig: TensorSpec,
    pub v_lora2: TensorSpec,
}

impl View for InnerBuffers {
    type V = InnerSpec;

    open spec fn view(&self) -> InnerSpec {
        InnerSpec {
            ffn_k: self.ffn_k@,
            ffn_k_sq: self.ffn_k_sq@,
            lora_w: self.lora_w@,
            lora_a: self.lora_a@,
            lora_g: self.lora_g@,
            lora_v: self.lora_v@,
            lora_w_tanh: self.lora_w_tanh@,
            lora_a_proj: self.lora_a_proj@,
            lora_g_sig: self.lora_g_sig@,
            v_lora2: self.v_lora2@,
        }
    }
}

/// Allocates the tensors for the hidden feed-forward values and the low-rank intermediates.
#[verifier::opaque]
pub open spec fn inner_alloc_run(s: Run, sh: PassShapes) -> Run {
    s.allocated(Elem::F16, sh.ffn, MemoryType::Device, false).allocated(Elem::F16, sh.ffn, MemoryType::Device, false).allocated(Elem::F16, sh.lora_w, MemoryType::Device, false).allocated(Elem::F16, sh.lora_a, MemoryType::Device, false).allocated(Elem::F16, sh.lora_g, MemoryType::Device, false).allocated(Elem::F16, sh.lora_v, MemoryType::Device, false).allocated(Elem::F16, sh.lora_w, MemoryType::Device, false).allocated(Elem::F16, sh.std, MemoryType::Device, false).allocated(Elem::F16, sh.lora_g, MemoryType::Device, false).allocated(Elem::F16, sh.std, MemoryType::Device, false)
}

/// The tensors that `inner_alloc_run` makes, from the first free buffer number on.
#[verifier::opaque]
pub open spec fn inner_at(next: usize, sh: PassShapes) -> InnerSpec {
    InnerSpec {
        ffn_k: TensorSpec::whole(next, sh.ffn),
        ffn_k_sq: TensorSpec::whole((next + 1) as usize, sh.ffn),
        lora_w: TensorSpec::whole((next + 2) as usize, sh.lora_w),
        lora_a: TensorSpec::whole((next + 3) as usize, sh.lora_a),
        lora_g: TensorSpec::whole((next + 4) as usize, sh.lora_g),
        lora_v: TensorSpec::whole((next + 5) as usize, sh.lora_v),
        lora_w_tanh: TensorSpec::whole((next + 6) as usize, sh.lora_w),
        lora_a_proj: TensorSpec::whole((next + 7) as usize, sh.std),
        lora_g_sig: TensorSpec::whole((next + 8) as usize, sh.lora_g),
        v_lora2: TensorSpec::whole((next + 9) as usize, sh.std),
    }
}

/// Why the tensors for the hidden feed-forward values and the low-rank intermediates cannot be seen in the shapes of one pass, where they cannot.
#[verifier::opaque]
pub open spec fn inner_view_error(w: InnerSpec, sh: PassShapes) -> Option<ErrorSpec> {
    first_error(first_error(first_error(first_error(first_error(first_error(first_error(first_error(first_error(resize_error(w.ffn_k, sh.ffn), resize_error(w.ffn_k_sq, sh.ffn)), resize_error(w.lora_w, sh.lora_w)), resize_error(w.lora_a, sh.lora_a)), resize_error(w.lora_g, sh.lora_g)), resize_error(w.lora_v, sh.lora_v)), resize_error(w.lora_w_tanh, sh.lora_w)), resize_error(w.lora_a_proj, sh.std)), resize_error(w.lora_g_sig, sh.lora_g)), resize_error(w.v_lora2, sh.std))
}

/// The same tensors in the shapes of one pass.
#[verifier::opaque]
pub open spec fn inner_view(w: InnerSpec, sh: PassShapes) -> InnerSpec {
    InnerSpec {
        ffn_k: w.ffn_k.with_shape(sh.ffn),
        ffn_k_sq: w.ffn_k_sq.with_shape(sh.ffn),
        lora_w: w.lora_w.with_shape(sh.lora_w),
        lora_a: w.lora_a.with_shape(sh.lora_a),
        lora_g: w.lora_g.with_shape(sh.lora_g),
        lora_v: w.lora_v.with_shape(sh.lora_v),
        lora_w_tanh: w.lora_w_tanh.with_shape(sh.lora_w),
        lora_a_proj: w.lora_a_proj.with_shape(sh.std),
        lora_g_sig: w.lora_g_sig.with_shape(sh.lora_g),
        v_lora2: w.v_lora2.with_shape(sh.std),
    }
}

impl InnerBuffers {
    /// Allocates the tensors.
    pub fn allocate(sh: &PassShapes, stream: &mut Stream) -> (r: Result<InnerBuffers, HipErrorKind>)
        requires
            sh.fits(),
        ensures
            inner_alloc_run(Run::start(old(stream)@), *sh).agrees(final(stream)@, r),
            r matches Ok(w) ==> w@ == inner_at(old(stream)@.next, *sh) && final(stream)@.next
                == old(stream)@.next + 10,
    {
        reveal(inner_alloc_run);
        reveal(inner_at);
        let ffn_k: TensorHip<F16> = TensorHip::new(sh.ffn, stream)?;
        let ffn_k_sq: TensorHip<F16> = TensorHip::new(sh.ffn, stream)?;
        let lora_w: TensorHip<F16> = TensorHip::new(sh.lora_w, stream)?;
        let lora_a: TensorHip<F16> = TensorHip::new(sh.lora_a, stream)?;
        let lora_g: TensorHip<F16> = TensorHip::new(sh.lora_g, stream)?;
        let lora_v: TensorHip<F16> = TensorHip::new(sh.lora_v, stream)?;
        let lora_w_tanh: TensorHip<F16> = TensorHip::new(sh.lora_w, stream)?;
        let lora_a_proj: TensorHip<F16> = TensorHip::new(sh.std, stream)?;
        let lora_g_sig: TensorHip<F16> = TensorHip::new(sh.lora_g, stream)?;
        let v_lora2: TensorHip<F16> = TensorHip::new(sh.std, stream)?;
        Ok(
            InnerBuffers {
                ffn_k,
                ffn_k_sq,
                lora_w,
                lora_a,
                lora_g,
                lora_v,
                lora_w_tanh,
                lora_a_proj,
                lora_g_sig,
                v_lora2,
            },
        )
    }

    /// The same tensors in the shapes of one pass.
    pub fn resized(&self, sh: &PassShapes) -> (r: Result<InnerBuffers, HipErrorKind>)
        requires
            sh.fits(),
        ensures
            match r {
                Ok(w) => inner_view_error(self@, *sh) is None && w@ == inner_view(self@, *sh),
                Err(e) => inner_view_error(self@, *sh) == Some(e@),
            },
    {
        reveal(inner_view_error);
        reveal(inner_view);
        let ffn_k = self.ffn_k.resized_view(sh.ffn)?;
        let ffn_k_sq = self.ffn_k_sq.resized_view(sh.ffn)?;
        let lora_w = self.lora_w.resized_view(sh.lora_w)?;
        let lora_a = self.lora_a.resized_view(sh.lora_a)?;
        let lora_g = self.lora_g.resized_view(sh.lora_g)?;
        let lora_v = self.lora_v.resized_view(sh.lora_v)?;
        let lora_w_tanh = self.lora_w_tanh.resized_view(sh.lora_w)?;
        let lora_a_proj = self.lora_a_proj.resized_view(sh.std)?;
        let lora_g_sig = self.lora_g_sig.resized_view(sh.lora_g)?;
        let v_lora2 = self.v_lora2.resized_view(sh.std)?;
        Ok(
            InnerBuffers {
                ffn_k,
                ffn_k_sq,
                lora_w,
                lora_a,
                lora_g,
                lora_v,
                lora_w_tanh,
                lora_a_proj,
                lora_g_sig,
                v_lora2,
            },
        )
    }
}

/// Tensors that a pass works in.
#[derive(Debug)]
pub struct WorkBuffers {
    pub shift: ShiftBuffers,
    pub att: AttBuffers,
    pub wkv: WkvBuffers,
    pub inner: InnerBuffers,
}

/// What the working tensors stand for.
pub struct WorkSpec {
    pub shift: ShiftSpec,
    pub att: AttSpec,
    pub wkv: WkvSpec,
    pub inner: InnerSpec,
}

impl View for WorkBuffers {
    type V = WorkSpec;

    open spec fn view(&self) -> WorkSpec {
        WorkSpec {
            shift: self.shift@,
            att: self.att@,
            wkv: self.wkv@,
            inner: self.inner@,
        }
    }
}

/// Allocates the working tensors.
#[verifier::opaque]
pub open spec fn work_alloc_run(s: Run, sh: PassShapes) -> Run {
    s.step(|s: Run| shift_alloc_run(s, sh)).step(|s: Run| att_alloc_run(s, sh)).step(
        |s: Run| wkv_alloc_run(s, sh),
    ).step(|s: Run| inner_alloc_run(s, sh))
}

/// The tensors that `work_alloc_run` makes, from the first free buffer number on.
#[verifier::opaque]
pub open spec fn work_at(next: usize, sh: PassShapes) -> WorkSpec {
    WorkSpec {
        shift: shift_at(next, sh),
        att: att_at((next + 8) as usize, sh),
        wkv: wkv_at((next + 16) as usize, sh),
        inner: inner_at((next + 26) as usize, sh),
    }
}

/// Why the working tensors cannot be seen in the shapes of one pass, where they cannot.
#[verifier::opaque]
pub open spec fn work_view_error(w: WorkSpec, sh: PassShapes) -> Option<ErrorSpec> {
    first_error(
        first_error(
            first_error(shift_view_error(w.shift, sh), att_view_error(w.att, sh)),
            wkv_view_error(w.wkv, sh),
        ),
        inner_view_error(w.inner, sh),
    )
}

/// The same tensors in the shapes of one pass.
#[verifier::opaque]
pub open spec fn work_view(w: WorkSpec, sh: PassShapes) -> WorkSpec {
    WorkSpec {
        shift: shift_view(w.shift, sh),
        att: att_view(w.att, sh),
        wkv: wkv_view(w.wkv, sh),
        inner: inner_view(w.inner, sh),
    }
}

impl WorkBuffers {
    /// Allocates the tensors.
    pub fn allocate(sh: &PassShapes, stream: &mut Stream) -> (r: Result<WorkBuffers, HipErrorKind>)
        requires
            sh.fits(),
        ensures
            work_alloc_run(Run::start(old(stream)@), *sh).agrees(final(stream)@, r),
            r matches Ok(w) ==> w@ == work_at(old(stream)@.next, *sh) && final(stream)@.next
                == old(stream)@.next + 36,
    {
        reveal(work_alloc_run);
        reveal(work_at);
        let shift = ShiftBuffers::allocate(sh, stream)?;
        let att = AttBuffers::allocate(sh, stream)?;
        let wkv = WkvBuffers::allocate(sh, stream)?;
        let inner = InnerBuffers::allocate(sh, stream)?;
        Ok(WorkBuffers { shift, att, wkv, inner })
    }

    /// The same tensors in the shapes of one pass.
    pub fn resized(&self, sh: &PassShapes) -> (r: Result<WorkBuffers, HipErrorKind>)
        requires
            sh.fits(),
        ensures
            match r {
                Ok(w) => work_view_error(self@, *sh) is None && w@ == work_view(self@, *sh),
                Err(e) => work_view_error(self@, *sh) == Some(e@),
            },
    {
        reveal(work_view_error);
        reveal(work_view);
        let shift = self.shift.resized(sh)?;
        let att = self.att.resized(sh)?;
        let wkv = self.wkv.resized(sh)?;
        let inner = self.inner.resized(sh)?;
        Ok(WorkBuffers { shift, att, wkv, inner })
    }
}

/// Room for values that are written over at once.
#[derive(Debug)]
pub struct TempBuffers {
    /// Room for pointwise work.
    pub temp1: TensorHip<F16>,
    pub temp2: TensorHip<F16>,
    /// Token-shift states on their way out.
    pub new_att_shift: TensorHip<F16>,
    pub new_ffn_shift: TensorHip<F16>,
}

/// What the temporary tensors stand for.
pub struct TempSpec {
    pub temp1: TensorSpec,
    pub temp2: TensorSpec,
    pub new_att_shift: TensorSpec,
    pub new_ffn_shift: TensorSpec,
}

impl View for TempBuffers {
    type V = TempSpec;

    open spec fn view(&self) -> TempSpec {
        TempSpec {
            temp1: self.temp1@,
            temp2: self.temp2@,
            new_att_shift: self.new_att_shift@,
            new_ffn_shift: self.new_ffn_shift@,
        }
    }
}

/// Allocates the temporary tensors.
#[verifier::opaque]
pub open spec fn temp_alloc_run(s: Run, sh: PassShapes) -> Run {
    s.allocated(Elem::F16, sh.std, MemoryType::Device, false).allocated(Elem::F16, sh.std, MemoryType::Device, false).allocated(Elem::F16, sh.state, MemoryType::Device, false).allocated(Elem::F16, sh.state, MemoryType::Device, false)
}

/// The tensors that `temp_alloc_run` makes, from the first free buffer number on.
#[verifier::opaque]
pub open spec fn temp_at(next: usize, sh: PassShapes) -> TempSpec {
    TempSpec {
        temp1: TensorSpec::whole(next, sh.std),
        temp2: TensorSpec::whole((next + 1) as usize, sh.std),
        new_att_shift: TensorSpec::whole((next + 2) as usize, sh.state),
        new_ffn_shift: TensorSpec::whole((next + 3) as usize, sh.state),
    }
}

/// Why the temporary tensors cannot be seen in the shapes of one pass, where they cannot.
#[verifier::opaque]
pub open spec fn temp_view_error(w: TempSpec, sh: PassShapes) -> Option<ErrorSpec> {
    first_error(first_error(first_error(resize_error(w.new_att_shift, sh.state), resize_error(w.new_ffn_shift, sh.state)), resize_error(w.temp1, sh.std)), resize_error(w.temp2, sh.std))
}

/// The same tensors in the shapes of one pass.
#[verifier::opaque]
pub open spec fn temp_view(w: TempSpec, sh: PassShapes) -> TempSpec {
    TempSpec {
        temp1: w.temp1.with_shape(sh.std),
        temp2: w.temp2.with_shape(sh.std),
        new_att_shift: w.new_att_shift.with_shape(sh.state),
        new_ffn_shift: w.new_ffn_shift.with_shape(sh.state),
    }
}

impl TempBuffers {
    /// Allocates the tensors.
    pub fn allocate(sh: &PassShapes, stream: &mut Stream) -> (r: Result<TempBuffers, HipErrorKind>)
        requires
            sh.fits(),
        ensures
            temp_alloc_run(Run::start(old(stream)@), *sh).agrees(final(stream)@, r),
            r matches Ok(w) ==> w@ == temp_at(old(stream)@.next, *sh) && final(stream)@.next
                == old(stream)@.next + 4,
    {
        reveal(temp_alloc_run);
        reveal(temp_at);
        let temp1: TensorHip<F16> = TensorHip::new(sh.std, stream)?;
        let temp2: TensorHip<F16> = TensorHip::new(sh.std, stream)?;
        let new_att_shift: TensorHip<F16> = TensorHip::new(sh.state, stream)?;
        let new_ffn_shift: TensorHip<F16> = TensorHip::new(sh.state, stream)?;
        Ok(
            TempBuffers {
                temp1,
                temp2,
                new_att_shift,
                new_ffn_shift,
            },
        )
    }

    /// The same tensors in the shapes of one pass.
    pub fn resized(&self, sh: &PassShapes) -> (r: Result<TempBuffers, HipErrorKind>)
        requires
            sh.fits(),
        ensures
            match r {
                Ok(w) => temp_view_error(self@, *sh) is None && w@ == temp_view(self@, *sh),
                Err(e) => temp_view_error(self@, *sh) == Some(e@),
            },
    {
        reveal(temp_view_error);
        reveal(temp_view);
        let new_att_shift = self.new_att_shift.resized_view(sh.state)?;
        let new_ffn_shift = self.new_ffn_shift.resized_view(sh.state)?;
        let temp1 = self.temp1.resized_view(sh.std)?;
        let temp2 = self.temp2.resized_view(sh.std)?;
        Ok(
            TempBuffers {
                temp1,
                temp2,
                new_att_shift,
                new_ffn_shift,
            },
        )
    }
}

/// Tensors of the chunked linear attention.
#[derive(Debug)]
pub struct FlaBuffers {
    /// Cumulative decay with the token itself.
    pub gi: TensorHip<F32>,
    /// Cumulative decay before the token.
    pub ge: TensorHip<F32>,
    /// Query, key and adaptation scaled by decay.
    pub qg: TensorHip<F32>,
    pub kg: TensorHip<F32>,
    pub ag: TensorHip<F32>,
    pub bg: TensorHip<F32>,
    /// Chunk matrices.
    pub a_qk: TensorHip<F32>,
    pub a_qb: TensorHip<F32>,
    pub a_ab: TensorHip<F32>,
    pub a_ak: TensorHip<F32>,
    /// Inverse of `a_ab`.
    pub a_ab_inv: TensorHip<F32>,
    /// The two factors of the chunk update.
    pub w_wy: TensorHip<F32>,
    pub u_wy: TensorHip<F32>,
    /// State of each chunk.
    pub h: TensorHip<F32>,
    /// Corrected values.
    pub v_new: TensorHip<F32>,
}

/// What the tensors of the chunked linear attention stand for.
pub struct FlaSpec {
    pub gi: TensorSpec,
    pub ge: TensorSpec,
    pub qg: TensorSpec,
    pub kg: TensorSpec,
    pub ag: TensorSpec,
    pub bg: TensorSpec,
    pub a_qk: TensorSpec,
    pub a_qb: TensorSpec,
    pub a_ab: TensorSpec,
    pub a_ak: TensorSpec,
    pub a_ab_inv: TensorSpec,
    pub w_wy: TensorSpec,
    pub u_wy: TensorSpec,
    pub h: TensorSpec,
    pub v_new: TensorSpec,
}

impl View for FlaBuffers {
    type V = FlaSpec;

    open spec fn view(&self) -> FlaSpec {
        FlaSpec {
            gi: self.gi@,
            ge: self.ge@,
            qg: self.qg@,
            kg: self.kg@,
            ag: self.ag@,
            bg: self.bg@,
            a_qk: self.a_qk@,
            a_qb: self.a_qb@,
            a_ab: self.a_ab@,
            a_ak: self.a_ak@,
            a_ab_inv: self.a_ab_inv@,
            w_wy: self.w_wy@,
            u_wy: self.u_wy@,
            h: self.h@,
            v_new: self.v_new@,
        }
    }
}

/// Allocates the tensors of the chunked linear attention.
#[verifier::opaque]
pub open spec fn fla_alloc_run(s: Run, sh: FlaShapes) -> Run {
    s.allocated(Elem::F32, sh.token, MemoryType::Device, false).allocated(Elem::F32, sh.token, MemoryType::Device, false).allocated(Elem::F32, sh.token, MemoryType::Device, false).allocated(Elem::F32, sh.token, MemoryType::Device, false).allocated(Elem::F32, sh.token, MemoryType::Device, false).allocated(Elem::F32, sh.token, MemoryType::Device, false).allocated(Elem::F32, sh.matrix, MemoryType::Device, false).allocated(Elem::F32, sh.matrix, MemoryType::Device, false).allocated(Elem::F32, sh.matrix, MemoryType::Device, false).allocated(Elem::F32, sh.matrix, MemoryType::Device, false).allocated(Elem::F32, sh.matrix, MemoryType::Device, false).allocated(Elem::F32, sh.token, MemoryType::Device, false).allocated(Elem::F32, sh.token, MemoryType::Device, false).allocated(Elem::F32, sh.state, MemoryType::Device, false).allocated(Elem::F32, sh.token, MemoryType::Device, false)
}

/// The tensors that `fla_alloc_run` makes, from the first free buffer number on.
#[verifier::opaque]
pub open spec fn fla_at(next: usize, sh: FlaShapes) -> FlaSpec {
    FlaSpec {
        gi: TensorSpec::whole(next, sh.token),
        ge: TensorSpec::whole((next + 1) as usize, sh.token),
        qg: TensorSpec::whole((next + 2) as usize, sh.token),
        kg: TensorSpec::whole((next + 3) as usize, sh.token),
        ag: TensorSpec::whole((next + 4) as usize, sh.token),
        bg: TensorSpec::whole((next + 5) as usize, sh.token),
        a_qk: TensorSpec::whole((next + 6) as usize, sh.matrix),
        a_qb: TensorSpec::whole((next + 7) as usize, sh.matrix),
        a_ab: TensorSpec::whole((next + 8) as usize, sh.matrix),
        a_ak: TensorSpec::whole((next + 9) as usize, sh.matrix),
        a_ab_inv: TensorSpec::whole((next + 10) as usize, sh.matrix),
        w_wy: TensorSpec::whole((next + 11) as usize, sh.token),
        u_wy: TensorSpec::whole((next + 12) as usize, sh.token),
        h: TensorSpec::whole((next + 13) as usize, sh.state),
        v_new: TensorSpec::whole((next + 14) as usize, sh.token),
    }
}

/// Why the tensors of the chunked linear attention cannot be seen in the shapes of one pass, where they cannot.
#[verifier::opaque]
pub open spec fn fla_view_error(w: FlaSpec, sh: FlaShapes) -> Option<ErrorSpec> {
    first_error(first_error(first_error(first_error(first_error(first_error(first_error(first_error(first_error(first_error(first_error(first_error(first_error(first_error(resize_error(w.gi, sh.token), resize_error(w.ge, sh.token)), resize_error(w.qg, sh.token)), resize_error(w.kg, sh.token)), resize_error(w.ag, sh.token)), resize_error(w.bg, sh.token)), resize_error(w.a_qk, sh.matrix)), resize_error(w.a_qb, sh.matrix)), resize_error(w.a_ab, sh.matrix)), resize_error(w.a_ak, sh.matrix)), resize_error(w.a_ab_inv, sh.matrix)), resize_error(w.w_wy, sh.token)), resize_error(w.u_wy, sh.token)), resize_error(w.h, sh.state)), resize_error(w.v_new, sh.token))
}

/// The same tensors in the shapes of one pass.
#[verifier::opaque]
pub open spec fn fla_view(w: FlaSpec, sh: FlaShapes) -> FlaSpec {
    FlaSpec {
        gi: w.gi.with_shape(sh.token),
        ge: w.ge.with_shape(sh.token),
        qg: w.qg.with_shape(sh.token),
        kg: w.kg.with_shape(sh.token),
        ag: w.ag.with_shape(sh.token),
        bg: w.bg.with_shape(sh.token),
        a_qk: w.a_qk.with_shape(sh.matrix),
        a_qb: w.a_qb.with_shape(sh.matrix),
        a_ab: w.a_ab.with_shape(sh.matrix),
        a_ak: w.a_ak.with_shape(sh.matrix),
        a_ab_inv: w.a_ab_inv.with_shape(sh.matrix),
        w_wy: w.w_wy.with_shape(sh.token),
        u_wy: w.u_wy.with_shape(sh.token),
        h: w.h.with_shape(sh.state),
        v_new: w.v_new.with_shape(sh.token),
    }
}

impl FlaBuffers {
    /// Allocates the tensors.
    pub fn allocate(sh: &FlaShapes, stream: &mut Stream) -> (r: Result<FlaBuffers, HipErrorKind>)
        requires
            sh.fits(),
        ensures
            fla_alloc_run(Run::start(old(stream)@), *sh).agrees(final(stream)@, r),
            r matches Ok(w) ==> w@ == fla_at(old(stream)@.next, *sh) && final(stream)@.next
                == old(stream)@.next + 15,
    {
        reveal(fla_alloc_run);
        reveal(fla_at);
        let gi: TensorHip<F32> = TensorHip::new(sh.token, stream)?;
        let ge: TensorHip<F32> = TensorHip::new(sh.token, stream)?;
        let qg: TensorHip<F32> = TensorHip::new(sh.token, stream)?;
        let kg: TensorHip<F32> = TensorHip::new(sh.token, stream)?;
        let ag: TensorHip<F32> = TensorHip::new(sh.token, stream)?;
        let bg: TensorHip<F32> = TensorHip::new(sh.token, stream)?;
        let a_qk: TensorHip<F32> = TensorHip::new(sh.matrix, stream)?;
        let a_qb: TensorHip<F32> = TensorHip::new(sh.matrix, stream)?;
        let a_ab: TensorHip<F32> = TensorHip::new(sh.matrix, stream)?;
        let a_ak: TensorHip<F32> = TensorHip::new(sh.matrix, stream)?;
        let a_ab_inv: TensorHip<F32> = TensorHip::new(sh.matrix, stream)?;
        let w_wy: TensorHip<F32> = TensorHip::new(sh.token, stream)?;
        let u_wy: TensorHip<F32> = TensorHip::new(sh.token, stream)?;
        let h: TensorHip<F32> = TensorHip::new(sh.state, stream)?;
        let v_new: TensorHip<F32> = TensorHip::new(sh.token, stream)?;
        Ok(
            FlaBuffers {
                gi,
                ge,
                qg,
                kg,
                ag,
                bg,
                a_qk,
                a_qb,
                a_ab,
                a_ak,
                a_ab_inv,
                w_wy,
                u_wy,
                h,
                v_new,
            },
        )
    }

    /// The same tensors in the shapes of one pass.
    pub fn resized(&self, sh: &FlaShapes) -> (r: Result<FlaBuffers, HipErrorKind>)
        requires
            sh.fits(),
        ensures
            match r {
                Ok(w) => fla_view_error(self@, *sh) is None && w@ == fla_view(self@, *sh),
                Err(e) => fla_view_error(self@, *sh) == Some(e@),
            },
    {
        reveal(fla_view_error);
        reveal(fla_view);
        let gi = self.gi.resized_view(sh.token)?;
        let ge = self.ge.resized_view(sh.token)?;
        let qg = self.qg.resized_view(sh.token)?;
        let kg = self.kg.resized_view(sh.token)?;
        let ag = self.ag.resized_view(sh.token)?;
        let bg = self.bg.resized_view(sh.token)?;
        let a_qk = self.a_qk.resized_view(sh.matrix)?;
        let a_qb = self.a_qb.resized_view(sh.matrix)?;
        let a_ab = self.a_ab.resized_view(sh.matrix)?;
        let a_ak = self.a_ak.resized_view(sh.matrix)?;
        let a_ab_inv = self.a_ab_inv.resized_view(sh.matrix)?;
        let w_wy = self.w_wy.resized_view(sh.token)?;
        let u_wy = self.u_wy.resized_view(sh.token)?;
        let h = self.h.resized_view(sh.state)?;
        let v_new = self.v_new.resized_view(sh.token)?;
        Ok(
            FlaBuffers {
                gi,
                ge,
                qg,
                kg,
                ag,
                bg,
                a_qk,
                a_qb,
                a_ab,
                a_ak,
                a_ab_inv,
                w_wy,
                u_wy,
                h,
                v_new,
            },
        )
    }
}

} // verus!
