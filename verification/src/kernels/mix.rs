//! Token shift, channel mix and key control kernels.
use crate::buffer::MemoryType;
use crate::error::{host_error, HipErrorKind};
use crate::launch::Launch;
use crate::stream::{CommandOf, DataSpec, Elem, HostData, Outcome, Run, Stream};
use crate::tensor::{lemma_matrix_fits, DevicePtr, TensorHip, TensorShape, TensorSpec, F16, F32, I32};
use crate::text::{decimal, text};
use vstd::prelude::*;
use vstd::slice::slice_to_vec;

verus! {

broadcast use Run::lemma_allocated;

/// Mixes each token of one sequence with the token before it; the last token becomes the
/// new state.
#[verifier::opaque]
pub open spec fn token_shift_f32_call(
    x: TensorSpec,
    state_in: TensorSpec,
    mix: TensorSpec,
    output: TensorSpec,
    state_out: TensorSpec,
) -> Outcome {
    let c = x.shape().d0;
    let t = x.shape().d1;
    if output.shape().d0 != c || output.shape().d1 != t {
        Err(
            host_error(
                "Output shape mismatch: expected ["@ + decimal(c as nat) + ", "@ + decimal(
                    t as nat,
                ) + ", 1, 1], got "@ + output.shape().text(),
            ),
        )
    } else if state_in.shape().d0 != c || state_out.shape().d0 != c {
        Err(
            host_error(
                "State shape mismatch: expected ["@ + decimal(c as nat) + ", 1, 1, 1]"@,
            ),
        )
    } else if mix.shape().d0 != c {
        Err(
            host_error(
                "Mix shape mismatch: expected ["@ + decimal(c as nat) + ", 1, 1, 1], got "@
                    + mix.shape().text(),
            ),
        )
    } else {
        Ok(
            CommandOf::Launch(
                Launch::TokenShift {
                    x: x.ptr(),
                    state_in: state_in.ptr(),
                    mix: mix.ptr(),
                    output: output.ptr(),
                    state_out: state_out.ptr(),
                    c: c as i32,
                    t: t as i32,
                },
            ),
        )
    }
}

/// Mixes each token of one sequence with the token before it; the last token becomes the
/// new state.
pub fn token_shift_f32(
    x: &TensorHip<F32>,
    state_in: &TensorHip<F32>,
    mix: &TensorHip<F32>,
    output: &TensorHip<F32>,
    state_out: &TensorHip<F32>,
    stream: &mut Stream,
) -> (r: Result<(), HipErrorKind>)
    ensures
        Run::start(old(stream)@).call(
            token_shift_f32_call(x@, state_in@, mix@, output@, state_out@),
        ).agrees(final(stream)@, r),
{
    reveal(token_shift_f32_call);
    let c: usize = x.shape().d0;
    let t: usize = x.shape().d1;
    if output.shape().d0 != c || output.shape().d1 != t {
        return Err(
            HipErrorKind::host(
                text("Output shape mismatch: expected [").num(c).lit(", ").num(t).lit(
                    ", 1, 1], got ",
                ).shape(output.shape()),
            ),
        );
    }
    if state_in.shape().d0 != c || state_out.shape().d0 != c {
        return Err(
            HipErrorKind::host(
                text("State shape mismatch: expected [").num(c).lit(", 1, 1, 1]"),
            ),
        );
    }
    if mix.shape().d0 != c {
        return Err(
            HipErrorKind::host(
                text("Mix shape mismatch: expected [").num(c).lit(", 1, 1, 1], got ").shape(
                    mix.shape(),
                ),
            ),
        );
    }
    stream.launch(
        Launch::TokenShift {
            x: x.as_ptr(),
            state_in: state_in.as_ptr(),
            mix: mix.as_ptr(),
            output: output.as_ptr(),
            state_out: state_out.as_ptr(),
            c: c as i32,
            t: t as i32,
        },
    );
    Ok(())
}

/// Mixes each token of each sequence with the token before it. The new state of a sequence
/// is its last token or, with lengths at hand, its last real token.
#[verifier::opaque]
pub open spec fn channel_mix_call(
    elem: Elem,
    x: TensorSpec,
    state_in: TensorSpec,
    x_k: TensorSpec,
    output: TensorSpec,
    state_out: TensorSpec,
    lengths: Option<TensorSpec>,
) -> Outcome {
    let c = x.shape().d0;
    let b = x.shape().d2;
    if output.shape() != x.shape() {
        Err(
            host_error(
                "Output shape mismatch: expected "@ + x.shape().text() + ", got "@
                    + output.shape().text(),
            ),
        )
    } else if state_in.shape().d0 != c || state_in.shape().d1 != b {
        Err(
            host_error(
                "State shape mismatch: expected ["@ + decimal(c as nat) + ", "@ + decimal(
                    b as nat,
                ) + ", 1, 1], got "@ + state_in.shape().text(),
            ),
        )
    } else if x_k.shape().d0 != c {
        Err(
            host_error(
                "x_k shape mismatch: expected ["@ + decimal(c as nat) + ", 1, 1, 1], got "@
                    + x_k.shape().text(),
            ),
        )
    } else if lengths matches Some(l) && l.len() != b {
        Err(
            host_error(
                "lengths size mismatch: expected "@ + decimal(b as nat) + ", got "@ + decimal(
                    lengths->0.len(),
                ),
            ),
        )
    } else {
        Ok(
            CommandOf::Launch(
                Launch::ChannelMix {
                    elem,
                    x: x.ptr(),
                    state_in: state_in.ptr(),
                    x_k: x_k.ptr(),
                    output: output.ptr(),
                    state_out: state_out.ptr(),
                    lengths: match lengths {
                        Some(l) => Some(l.ptr()),
                        None => None,
                    },
                    c: c as i32,
                    t: x.shape().d1 as i32,
                    b: b as i32,
                },
            ),
        )
    }
}

fn launch_channel_mix<T>(
    elem: Elem,
    x: &TensorHip<T>,
    state_in: &TensorHip<T>,
    x_k: &TensorHip<T>,
    output: &TensorHip<T>,
    state_out: &TensorHip<T>,
    lengths: Option<&TensorHip<I32>>,
    stream: &mut Stream,
) -> (r: Result<(), HipErrorKind>)
    ensures
        Run::start(old(stream)@).call(
            channel_mix_call(
                elem,
                x@,
                state_in@,
                x_k@,
                output@,
                state_out@,
                match lengths {
                    Some(l) => Some(l@),
                    None => None,
                },
            ),
        ).agrees(final(stream)@, r),
{
    reveal(channel_mix_call);
    let c: usize = x.shape().d0;
    let b: usize = x.shape().d2;
    if output.shape() != x.shape() {
        return Err(
            HipErrorKind::host(
                text("Output shape mismatch: expected ").shape(x.shape()).lit(", got ").shape(
                    output.shape(),
                ),
            ),
        );
    }
    if state_in.shape().d0 != c || state_in.shape().d1 != b {
        return Err(
            HipErrorKind::host(
                text("State shape mismatch: expected [").num(c).lit(", ").num(b).lit(
                    ", 1, 1], got ",
                ).shape(state_in.shape()),
            ),
        );
    }
    if x_k.shape().d0 != c {
        return Err(
            HipErrorKind::host(
                text("x_k shape mismatch: expected [").num(c).lit(", 1, 1, 1], got ").shape(
                    x_k.shape(),
                ),
            ),
        );
    }
    let lengths_ptr: Option<DevicePtr> = match lengths {
        Some(l) => {
            if l.len() != b {
                return Err(
                    HipErrorKind::host(
                        text("lengths size mismatch: expected ").num(b).lit(", got ").num(l.len()),
                    ),
                );
            }
            Some(l.as_ptr())
        },
        None => None,
    };
    stream.launch(
        Launch::ChannelMix {
            elem,
            x: x.as_ptr(),
            state_in: state_in.as_ptr(),
            x_k: x_k.as_ptr(),
            output: output.as_ptr(),
            state_out: state_out.as_ptr(),
            lengths: lengths_ptr,
            c: c as i32,
            t: x.shape().d1 as i32,
            b: b as i32,
        },
    );
    Ok(())
}

/// Channel mix in single precision.
pub open spec fn channel_mix_state_f32_call(
    x: TensorSpec,
    state_in: TensorSpec,
    x_k: TensorSpec,
    output: TensorSpec,
    state_out: TensorSpec,
) -> Outcome {
    channel_mix_call(Elem::F32, x, state_in, x_k, output, state_out, None)
}

/// Channel mix in single precision.
pub fn channel_mix_state_f32(
    x: &TensorHip<F32>,
    state_in: &TensorHip<F32>,
    x_k: &TensorHip<F32>,
    output: &TensorHip<F32>,
    state_out: &TensorHip<F32>,
    stream: &mut Stream,
) -> (r: Result<(), HipErrorKind>)
    ensures
        Run::start(old(stream)@).call(
            channel_mix_state_f32_call(x@, state_in@, x_k@, output@, state_out@),
        ).agrees(final(stream)@, r),
{
    launch_channel_mix(Elem::F32, x, state_in, x_k, output, state_out, None, stream)
}

/// Channel mix in half precision.
pub open spec fn channel_mix_state_f16_call(
    x: TensorSpec,
    state_in: TensorSpec,
    x_k: TensorSpec,
    output: TensorSpec,
    state_out: TensorSpec,
) -> Outcome {
    channel_mix_call(Elem::F16, x, state_in, x_k, output, state_out, None)
}

/// Channel mix in half precision.
pub fn channel_mix_state_f16(
    x: &TensorHip<F16>,
    state_in: &TensorHip<F16>,
    x_k: &TensorHip<F16>,
    output: &TensorHip<F16>,
    state_out: &TensorHip<F16>,
    stream: &mut Stream,
) -> (r: Result<(), HipErrorKind>)
    ensures
        Run::start(old(stream)@).call(
            channel_mix_state_f16_call(x@, state_in@, x_k@, output@, state_out@),
        ).agrees(final(stream)@, r),
{
    launch_channel_mix(Elem::F16, x, state_in, x_k, output, state_out, None, stream)
}

/// Channel mix in half precision; the new state is the last real token of each sequence.
pub open spec fn channel_mix_state_f16_masked_call(
    x: TensorSpec,
    state_in: TensorSpec,
    x_k: TensorSpec,
    output: TensorSpec,
    state_out: TensorSpec,
    lengths: TensorSpec,
) -> Outcome {
    channel_mix_call(Elem::F16, x, state_in, x_k, output, state_out, Some(lengths))
}

/// Channel mix in half precision; the new state is the last real token of each sequence.
pub fn channel_mix_state_f16_masked(
    x: &TensorHip<F16>,
    state_in: &TensorHip<F16>,
    x_k: &TensorHip<F16>,
    output: &TensorHip<F16>,
    state_out: &TensorHip<F16>,
    lengths: &TensorHip<I32>,
    stream: &mut Stream,
) -> (r: Result<(), HipErrorKind>)
    ensures
        Run::start(old(stream)@).call(
            channel_mix_state_f16_masked_call(x@, state_in@, x_k@, output@, state_out@, lengths@),
        ).agrees(final(stream)@, r),
{
    launch_channel_mix(Elem::F16, x, state_in, x_k, output, state_out, Some(lengths), stream)
}

/// `output = k * (1 + (a - 1) * k_a)`, with `k_a` given by channel.
#[verifier::opaque]
pub open spec fn control_k_call(
    elem: Elem,
    name: Seq<char>,
    k_a: TensorSpec,
    a: TensorSpec,
    k: TensorSpec,
    output: TensorSpec,
) -> Outcome {
    let c = k.shape().d0;
    if output.shape() != k.shape() {
        Err(
            host_error(
                "Output shape mismatch: expected "@ + k.shape().text() + ", got "@
                    + output.shape().text(),
            ),
        )
    } else if a.shape() != k.shape() {
        Err(
            host_error(
                "a shape mismatch: expected "@ + k.shape().text() + ", got "@ + a.shape().text(),
            ),
        )
    } else if k_a.shape().d0 != c {
        Err(
            host_error(
                "k_a shape mismatch: expected ["@ + decimal(c as nat) + ", 1, 1, 1], got "@
                    + k_a.shape().text(),
            ),
        )
    } else if !k_a.contiguous() || !a.contiguous() || !k.contiguous() || !output.contiguous() {
        Err(host_error(name + " requires contiguous tensors"@))
    } else {
        Ok(
            CommandOf::Launch(
                Launch::ControlK {
                    elem,
                    k_a: k_a.ptr(),
                    a: a.ptr(),
                    k: k.ptr(),
                    output: output.ptr(),
                    c: c as i32,
                    t: k.shape().d1 as i32,
                    b: k.shape().d2 as i32,
                },
            ),
        )
    }
}

fn launch_control_k<T>(
    elem: Elem,
    name: &str,
    k_a: &TensorHip<T>,
    a: &TensorHip<T>,
    k: &TensorHip<T>,
    output: &TensorHip<T>,
    stream: &mut Stream,
) -> (r: Result<(), HipErrorKind>)
    ensures
        Run::start(old(stream)@).call(
            control_k_call(elem, name@, k_a@, a@, k@, output@),
        ).agrees(final(stream)@, r),
{
    reveal(control_k_call);
    let c: usize = k.shape().d0;
    if output.shape() != k.shape() {
        return Err(
            HipErrorKind::host(
                text("Output shape mismatch: expected ").shape(k.shape()).lit(", got ").shape(
                    output.shape(),
                ),
            ),
        );
    }
    if a.shape() != k.shape() {
        return Err(
            HipErrorKind::host(
                text("a shape mismatch: expected ").shape(k.shape()).lit(", got ").shape(
                    a.shape(),
                ),
            ),
        );
    }
    if k_a.shape().d0 != c {
        return Err(
            HipErrorKind::host(
                text("k_a shape mismatch: expected [").num(c).lit(", 1, 1, 1], got ").shape(
                    k_a.shape(),
                ),
            ),
        );
    }
    if !k_a.is_contiguous() || !a.is_contiguous() || !k.is_contiguous()
        || !output.is_contiguous() {
        return Err(HipErrorKind::host(text(name).lit(" requires contiguous tensors")));
    }
    stream.launch(
        Launch::ControlK {
            elem,
            k_a: k_a.as_ptr(),
            a: a.as_ptr(),
            k: k.as_ptr(),
            output: output.as_ptr(),
            c: c as i32,
            t: k.shape().d1 as i32,
            b: k.shape().d2 as i32,
        },
    );
    Ok(())
}

/// The key that replaces `k`, from the adaptation `a`.
pub open spec fn control_k_f32_call(
    k_a: TensorSpec,
    a: TensorSpec,
    k: TensorSpec,
    output: TensorSpec,
) -> Outcome {
    control_k_call(Elem::F32, "control_k_f32"@, k_a, a, k, output)
}

/// The key that replaces `k`, from the adaptation `a`.
pub fn control_k_f32(
    k_a: &TensorHip<F32>,
    a: &TensorHip<F32>,
    k: &TensorHip<F32>,
    output: &TensorHip<F32>,
    stream: &mut Stream,
) -> (r: Result<(), HipErrorKind>)
    ensures
        Run::start(old(stream)@).call(control_k_f32_call(k_a@, a@, k@, output@)).agrees(
            final(stream)@,
            r,
        ),
{
    launch_control_k(Elem::F32, "control_k_f32", k_a, a, k, output, stream)
}

/// The key that replaces `k`, from the adaptation `a`.
pub open spec fn control_k_f16_call(
    k_a: TensorSpec,
    a: TensorSpec,
    k: TensorSpec,
    output: TensorSpec,
) -> Outcome {
    control_k_call(Elem::F16, "control_k_f16"@, k_a, a, k, output)
}

/// The key that replaces `k`, from the adaptation `a`.
pub fn control_k_f16(
    k_a: &TensorHip<F16>,
    a: &TensorHip<F16>,
    k: &TensorHip<F16>,
    output: &TensorHip<F16>,
    stream: &mut Stream,
) -> (r: Result<(), HipErrorKind>)
    ensures
        Run::start(old(stream)@).call(control_k_f16_call(k_a@, a@, k@, output@)).agrees(
            final(stream)@,
            r,
        ),
{
    launch_control_k(Elem::F16, "control_k_f16", k_a, a, k, output, stream)
}

/// Token shift of host values, on the device.
pub open spec fn hip_token_shift_run(
    s: Run,
    x: Seq<u32>,
    state_in: Seq<u32>,
    mix: Seq<u32>,
    c: usize,
    t: usize,
) -> Run {
    if x.len() != c * t {
        s.check(Some(host_error("x size mismatch: expected "@ + decimal((c * t) as nat) + ", got "@ + decimal(x.len()))))
    } else if state_in.len() != c || mix.len() != c {
        s.check(Some(host_error("state/mix size mismatch: expected "@ + decimal(c as nat))))
    } else {
        let x_shape = TensorShape::of(c, t, 1, 1);
        let state_shape = TensorShape::of(c, 1, 1, 1);
        let d_x = s.fresh(x_shape);
        let s = s.filled(DataSpec::F32(x), x_shape, MemoryType::Device);
        let d_state_in = s.fresh(state_shape);
        let s = s.filled(DataSpec::F32(state_in), state_shape, MemoryType::Device);
        let d_mix = s.fresh(state_shape);
        let s = s.filled(DataSpec::F32(mix), state_shape, MemoryType::Device);
        let d_output = s.fresh(x_shape);
        let s = s.allocated(Elem::F32, x_shape, MemoryType::Device, false);
        let d_state_out = s.fresh(state_shape);
        let s = s.allocated(Elem::F32, state_shape, MemoryType::Device, false);
        s.call(token_shift_f32_call(d_x, d_state_in, d_mix, d_output, d_state_out)).download::<F32>(d_output).download::<F32>(d_state_out)
    }
}

/// Token shift of host values, on the device; the answer is what the last commands download.
pub fn hip_token_shift(
    x: &[u32],
    state_in: &[u32],
    mix: &[u32],
    c: usize,
    t: usize,
    stream: &mut Stream,
) -> (r: Result<(), HipErrorKind>)
    requires
        c * t <= usize::MAX,
    ensures
        hip_token_shift_run(Run::start(old(stream)@), x@, state_in@, mix@, c, t).agrees(final(stream)@, r),
{
    if x.len() != c * t {
        return Err(HipErrorKind::host(text("x size mismatch: expected ").num(c * t).lit(", got ").num(x.len())));
    }
    if state_in.len() != c || mix.len() != c {
        return Err(HipErrorKind::host(text("state/mix size mismatch: expected ").num(c)));
    }
    proof {
        lemma_matrix_fits(c, t);
        lemma_matrix_fits(c, 1);
    }
    let x_shape = TensorShape::new(c, t, 1, 1);
    let state_shape = TensorShape::new(c, 1, 1, 1);
    let d_x: TensorHip<F32> = TensorHip::from_host(HostData::F32(slice_to_vec(x)), x_shape, stream)?;
    let d_state_in: TensorHip<F32> = TensorHip::from_host(HostData::F32(slice_to_vec(state_in)), state_shape, stream)?;
    let d_mix: TensorHip<F32> = TensorHip::from_host(HostData::F32(slice_to_vec(mix)), state_shape, stream)?;
    let d_output: TensorHip<F32> = TensorHip::new(x_shape, stream)?;
    let d_state_out: TensorHip<F32> = TensorHip::new(state_shape, stream)?;
    token_shift_f32(&d_x, &d_state_in, &d_mix, &d_output, &d_state_out, stream)?;
    d_output.download(stream);
    d_state_out.download(stream);
    Ok(())
}

/// Channel mix of host values, on the device.
pub open spec fn hip_channel_mix_state_run(
    s: Run,
    x: Seq<u32>,
    state_in: Seq<u32>,
    x_k: Seq<u32>,
    c: usize,
    t: usize,
    b: usize,
) -> Run {
    if x.len() != c * t * b {
        s.check(Some(host_error("x size mismatch: expected "@ + decimal((c * t * b) as nat) + ", got "@ + decimal(x.len()))))
    } else if state_in.len() != c * b {
        s.check(Some(host_error("state_in size mismatch: expected "@ + decimal((c * b) as nat) + ", got "@ + decimal(state_in.len()))))
    } else if x_k.len() != c {
        s.check(Some(host_error("x_k size mismatch: expected "@ + decimal(c as nat) + ", got "@ + decimal(x_k.len()))))
    } else {
        let x_shape = TensorShape::of(c, t, b, 1);
        let state_shape = TensorShape::of(c, b, 1, 1);
        let xk_shape = TensorShape::of(c, 1, 1, 1);
        let d_x = s.fresh(x_shape);
        let s = s.filled(DataSpec::F32(x), x_shape, MemoryType::Device);
        let d_state_in = s.fresh(state_shape);
        let s = s.filled(DataSpec::F32(state_in), state_shape, MemoryType::Device);
        let d_x_k = s.fresh(xk_shape);
        let s = s.filled(DataSpec::F32(x_k), xk_shape, MemoryType::Device);
        let d_output = s.fresh(x_shape);
        let s = s.allocated(Elem::F32, x_shape, MemoryType::Device, false);
        let d_state_out = s.fresh(state_shape);
        let s = s.allocated(Elem::F32, state_shape, MemoryType::Device, false);
        s.call(channel_mix_state_f32_call(d_x, d_state_in, d_x_k, d_output, d_state_out)).download::<F32>(d_output).download::<F32>(d_state_out)
    }
}

/// Channel mix of host values, on the device; the answer is what the last commands download.
pub fn hip_channel_mix_state(
    x: &[u32],
    state_in: &[u32],
    x_k: &[u32],
    c: usize,
    t: usize,
    b: usize,
    stream: &mut Stream,
) -> (r: Result<(), HipErrorKind>)
    requires
        TensorShape::of(c, t, b, 1).fits(),
        c * b <= usize::MAX,
    ensures
        hip_channel_mix_state_run(Run::start(old(stream)@), x@, state_in@, x_k@, c, t, b).agrees(final(stream)@, r),
{
    reveal(TensorShape::fits);
    if x.len() != c * t * b {
        return Err(HipErrorKind::host(text("x size mismatch: expected ").num(c * t * b).lit(", got ").num(x.len())));
    }
    if state_in.len() != c * b {
        return Err(HipErrorKind::host(text("state_in size mismatch: expected ").num(c * b).lit(", got ").num(state_in.len())));
    }
    if x_k.len() != c {
        return Err(HipErrorKind::host(text("x_k size mismatch: expected ").num(c).lit(", got ").num(x_k.len())));
    }
    proof {
        lemma_matrix_fits(c, b);
        lemma_matrix_fits(c, 1);
    }
    let x_shape = TensorShape::new(c, t, b, 1);
    let state_shape = TensorShape::new(c, b, 1, 1);
    let xk_shape = TensorShape::new(c, 1, 1, 1);
    let d_x: TensorHip<F32> = TensorHip::from_host(HostData::F32(slice_to_vec(x)), x_shape, stream)?;
    let d_state_in: TensorHip<F32> = TensorHip::from_host(HostData::F32(slice_to_vec(state_in)), state_shape, stream)?;
    let d_x_k: TensorHip<F32> = TensorHip::from_host(HostData::F32(slice_to_vec(x_k)), xk_shape, stream)?;
    let d_output: TensorHip<F32> = TensorHip::new(x_shape, stream)?;
    let d_state_out: TensorHip<F32> = TensorHip::new(state_shape, stream)?;
    channel_mix_state_f32(&d_x, &d_state_in, &d_x_k, &d_output, &d_state_out, stream)?;
    d_output.download(stream);
    d_state_out.download(stream);
    Ok(())
}

/// Key control of host values, on the device.
pub open spec fn hip_control_k_run(
    s: Run,
    k_a: Seq<u32>,
    a: Seq<u32>,
    k: Seq<u32>,
    c: usize,
    t: usize,
    b: usize,
) -> Run {
    if k.len() != c * t * b || a.len() != c * t * b {
        s.check(Some(host_error("Input size mismatch: expected "@ + decimal((c * t * b) as nat) + ", got k="@ + decimal(k.len()) + ", a="@ + decimal(a.len()))))
    } else if k_a.len() != c {
        s.check(Some(host_error("k_a size mismatch: expected "@ + decimal(c as nat) + ", got "@ + decimal(k_a.len()))))
    } else {
        let data_shape = TensorShape::of(c, t, b, 1);
        let ka_shape = TensorShape::of(c, 1, 1, 1);
        let d_k_a = s.fresh(ka_shape);
        let s = s.filled(DataSpec::F32(k_a), ka_shape, MemoryType::Device);
        let d_a = s.fresh(data_shape);
        let s = s.filled(DataSpec::F32(a), data_shape, MemoryType::Device);
        let d_k = s.fresh(data_shape);
        let s = s.filled(DataSpec::F32(k), data_shape, MemoryType::Device);
        let d_output = s.fresh(data_shape);
        let s = s.allocated(Elem::F32, data_shape, MemoryType::Device, false);
        s.call(control_k_f32_call(d_k_a, d_a, d_k, d_output)).download::<F32>(d_output)
    }
}

/// Key control of host values, on the device; the answer is what the last command downloads.
pub fn hip_control_k(
    k_a: &[u32],
    a: &[u32],
    k: &[u32],
    c: usize,
    t: usize,
    b: usize,
    stream: &mut Stream,
) -> (r: Result<(), HipErrorKind>)
    requires
        TensorShape::of(c, t, b, 1).fits(),
    ensures
        hip_control_k_run(Run::start(old(stream)@), k_a@, a@, k@, c, t, b).agrees(final(stream)@, r),
{
    reveal(TensorShape::fits);
    if k.len() != c * t * b || a.len() != c * t * b {
        return Err(HipErrorKind::host(text("Input size mismatch: expected ").num(c * t * b).lit(", got k=").num(k.len()).lit(", a=").num(a.len())));
    }
    if k_a.len() != c {
        return Err(HipErrorKind::host(text("k_a size mismatch: expected ").num(c).lit(", got ").num(k_a.len())));
    }
    proof {
        lemma_matrix_fits(c, 1);
    }
    let data_shape = TensorShape::new(c, t, b, 1);
    let ka_shape = TensorShape::new(c, 1, 1, 1);
    let d_k_a: TensorHip<F32> = TensorHip::from_host(HostData::F32(slice_to_vec(k_a)), ka_shape, stream)?;
    let d_a: TensorHip<F32> = TensorHip::from_host(HostData::F32(slice_to_vec(a)), data_shape, stream)?;
    let d_k: TensorHip<F32> = TensorHip::from_host(HostData::F32(slice_to_vec(k)), data_shape, stream)?;
    let d_output: TensorHip<F32> = TensorHip::new(data_shape, stream)?;
    control_k_f32(&d_k_a, &d_a, &d_k, &d_output, stream)?;
    d_output.download(stream);
    Ok(())
}

/// For each sequence, the channels of its last real token.
pub open spec fn shift_state(
    x: Seq<u32>,
    lengths: Seq<usize>,
    c: nat,
    t: nat,
    b: nat,
) -> Seq<u32> {
    Seq::new(
        c * b,
        |i: int| x[(i / c as int) * t * c + (lengths[i / c as int] - 1) * c + i % c as int],
    )
}

/// Position of a channel of a token of a sequence, below the size of the whole.
proof fn lemma_token_position(c: int, t: int, b: int, batch: int, time: int, channel: int)
    requires
        0 <= channel < c,
        0 <= time < t,
        0 <= batch < b,
    ensures
        0 <= batch * t * c + time * c + channel < c * t * b,
        0 <= batch * t * c,
        0 <= batch * t <= batch * t * c,
        0 <= time * c,
        batch * c + channel < c * b,
        0 <= batch * c,
{
    assert(0 <= batch * t && (batch * t + t) <= b * t) by (nonlinear_arith)
        requires
            0 <= batch < b,
            0 <= t,
    ;
    assert(0 <= batch * t <= batch * t * c && (batch * t + time) * c + c <= (b * t) * c && 0 <= time * c && (
    batch * t + time) * c == batch * t * c + time * c) by (nonlinear_arith)
        requires
            0 <= batch * t,
            0 <= time < t,
            batch * t + t <= b * t,
            0 < c,
    ;
    assert((b * t) * c == c * t * b) by (nonlinear_arith);
    assert(0 <= batch * c && batch * c + c <= c * b) by (nonlinear_arith)
        requires
            0 <= batch < b,
            0 < c,
    ;
}

/// For each sequence of the flattened `[c, t, b]` tensor `x`, the channels of its last real
/// token.
pub fn extract_shift_state_at_lengths(
    x: &[u32],
    lengths: &[usize],
    c: usize,
    t: usize,
    b: usize,
) -> (state_out: Vec<u32>)
    requires
        x@.len() == c * t * b,
        lengths@.len() == b,
        forall|i: int| 0 <= i < b ==> 1 <= #[trigger] lengths@[i] <= t,
    ensures
        state_out@ == shift_state(x@, lengths@, c as nat, t as nat, b as nat),
{
    let total: usize = x.len();
    let mut state_out: Vec<u32> = Vec::new();
    let mut batch_idx: usize = 0;
    while batch_idx < b
        invariant
            batch_idx <= b,
            total == x@.len() == c * t * b,
            lengths@.len() == b,
            forall|i: int| 0 <= i < b ==> 1 <= #[trigger] lengths@[i] <= t,
            state_out@.len() == batch_idx * c,
            forall|i: int|
                0 <= i < batch_idx * c ==> #[trigger] state_out@[i] == x@[(i / c as int) * t * c + (
                lengths@[i / c as int] - 1) * c + i % c as int],
        decreases b - batch_idx,
    {
        let time_idx: usize = lengths[batch_idx] - 1;
        let mut channel: usize = 0;
        while channel < c
            invariant
                channel <= c,
                batch_idx < b,
                total == x@.len() == c * t * b,
                lengths@.len() == b,
                1 <= lengths@[batch_idx as int] <= t,
                time_idx == lengths@[batch_idx as int] - 1,
                state_out@.len() == batch_idx * c + channel,
                forall|i: int|
                    0 <= i < batch_idx * c + channel ==> #[trigger] state_out@[i] == x@[(i
                        / c as int) * t * c + (lengths@[i / c as int] - 1) * c + i % c as int],
            decreases c - channel,
        {
            proof {
                lemma_token_position(
                    c as int,
                    t as int,
                    b as int,
                    batch_idx as int,
                    time_idx as int,
                    channel as int,
                );
                vstd::arithmetic::div_mod::lemma_fundamental_div_mod_converse(
                    batch_idx * c + channel,
                    c as int,
                    batch_idx as int,
                    channel as int,
                );
            }
            let x_idx: usize = batch_idx * t * c + time_idx * c + channel;
            state_out.push(x[x_idx]);
            channel += 1;
        }
        assert(batch_idx * c + c == (batch_idx + 1) * c) by (nonlinear_arith);
        batch_idx += 1;
    }
    assert(c * b == b * c) by (nonlinear_arith);
    assert(state_out@ =~= shift_state(x@, lengths@, c as nat, t as nat, b as nat));
    state_out
}

} // verus!
