//! The recurrent attention kernels and their bonus term.
use crate::buffer::MemoryType;
use crate::error::{host_error, HipErrorKind};
use crate::launch::{Launch, Wkv7};
use crate::stream::{CommandOf, CommandSpec, DataSpec, Elem, HostData, Outcome, Run, Stream};
use crate::tensor::{lemma_matrix_fits, DevicePtr, TensorHip, TensorShape, TensorSpec, F16, F32, I32};
use crate::text::{decimal, text};
use vstd::prelude::*;
use vstd::slice::slice_to_vec;

verus! {

broadcast use Run::lemma_allocated;

/// `output = sum over the head of (r * k * r_k), times v`.
#[verifier::opaque]
pub open spec fn wkv_bonus_f32_call(
    r: TensorSpec,
    k: TensorSpec,
    v: TensorSpec,
    r_k: TensorSpec,
    output: TensorSpec,
) -> Outcome {
    let n = r.shape().d0;
    let h = r.shape().d1;
    if k.shape() != r.shape() || v.shape() != r.shape() {
        Err(
            host_error(
                "Shape mismatch: r="@ + r.shape().text() + ", k="@ + k.shape().text() + ", v="@
                    + v.shape().text(),
            ),
        )
    } else if output.shape() != r.shape() {
        Err(
            host_error(
                "Output shape mismatch: expected "@ + r.shape().text() + ", got "@
                    + output.shape().text(),
            ),
        )
    } else if r_k.shape().d0 != n || r_k.shape().d1 != h {
        Err(
            host_error(
                "r_k shape mismatch: expected ["@ + decimal(n as nat) + ", "@ + decimal(h as nat)
                    + ", 1, 1], got "@ + r_k.shape().text(),
            ),
        )
    } else if !r.contiguous() || !k.contiguous() || !v.contiguous() || !r_k.contiguous()
        || !output.contiguous() {
        Err(host_error("wkv_bonus_f32 requires contiguous tensors"@))
    } else {
        Ok(bonus_launch(Elem::F32, r, k, v, r_k, output))
    }
}

/// The bonus kernel with its arguments.
pub open spec fn bonus_launch(
    elem: Elem,
    r: TensorSpec,
    k: TensorSpec,
    v: TensorSpec,
    r_k: TensorSpec,
    output: TensorSpec,
) -> CommandSpec {
    CommandOf::Launch(
        Launch::WkvBonus {
            elem,
            r: r.ptr(),
            k: k.ptr(),
            v: v.ptr(),
            r_k: r_k.ptr(),
            output: output.ptr(),
            n: r.shape().d0 as i32,
            h: r.shape().d1 as i32,
            t: r.shape().d2 as i32,
            b: r.shape().d3 as i32,
        },
    )
}

fn launch_bonus<T>(
    elem: Elem,
    r: &TensorHip<T>,
    k: &TensorHip<T>,
    v: &TensorHip<T>,
    r_k: &TensorHip<T>,
    output: &TensorHip<T>,
    stream: &mut Stream,
)
    ensures
        final(stream)@ == Run::start(old(stream)@).emit(
            bonus_launch(elem, r@, k@, v@, r_k@, output@),
        ).stream,
{
    stream.launch(
        Launch::WkvBonus {
            elem,
            r: r.as_ptr(),
            k: k.as_ptr(),
            v: v.as_ptr(),
            r_k: r_k.as_ptr(),
            output: output.as_ptr(),
            n: r.shape().d0 as i32,
            h: r.shape().d1 as i32,
            t: r.shape().d2 as i32,
            b: r.shape().d3 as i32,
        },
    );
}

/// `output = sum over the head of (r * k * r_k), times v`.
pub fn wkv_bonus_f32(
    r: &TensorHip<F32>,
    k: &TensorHip<F32>,
    v: &TensorHip<F32>,
    r_k: &TensorHip<F32>,
    output: &TensorHip<F32>,
    stream: &mut Stream,
) -> (res: Result<(), HipErrorKind>)
    ensures
        Run::start(old(stream)@).call(
            wkv_bonus_f32_call(r@, k@, v@, r_k@, output@),
        ).agrees(final(stream)@, res),
{
    reveal(wkv_bonus_f32_call);
    let n: usize = r.shape().d0;
    let h: usize = r.shape().d1;
    if k.shape() != r.shape() || v.shape() != r.shape() {
        return Err(
            HipErrorKind::host(
                text("Shape mismatch: r=").shape(r.shape()).lit(", k=").shape(k.shape()).lit(
                    ", v=",
                ).shape(v.shape()),
            ),
        );
    }
    if output.shape() != r.shape() {
        return Err(
            HipErrorKind::host(
                text("Output shape mismatch: expected ").shape(r.shape()).lit(", got ").shape(
                    output.shape(),
                ),
            ),
        );
    }
    if r_k.shape().d0 != n || r_k.shape().d1 != h {
        return Err(
            HipErrorKind::host(
                text("r_k shape mismatch: expected [").num(n).lit(", ").num(h).lit(
                    ", 1, 1], got ",
                ).shape(r_k.shape()),
            ),
        );
    }
    if !r.is_contiguous() || !k.is_contiguous() || !v.is_contiguous() || !r_k.is_contiguous()
        || !output.is_contiguous() {
        return Err(HipErrorKind::host(text("wkv_bonus_f32 requires contiguous tensors")));
    }
    launch_bonus(Elem::F32, r, k, v, r_k, output, stream);
    Ok(())
}

/// `output = sum over the head of (r * k * r_k), times v`; only gaps are looked for.
#[verifier::opaque]
pub open spec fn wkv_bonus_f16_call(
    r: TensorSpec,
    k: TensorSpec,
    v: TensorSpec,
    r_k: TensorSpec,
    output: TensorSpec,
) -> Outcome {
    if !r.contiguous() || !k.contiguous() || !v.contiguous() || !r_k.contiguous()
        || !output.contiguous() {
        Err(host_error("wkv_bonus_f16 requires contiguous tensors"@))
    } else {
        Ok(bonus_launch(Elem::F16, r, k, v, r_k, output))
    }
}

/// `output = sum over the head of (r * k * r_k), times v`.
pub fn wkv_bonus_f16(
    r: &TensorHip<F16>,
    k: &TensorHip<F16>,
    v: &TensorHip<F16>,
    r_k: &TensorHip<F16>,
    output: &TensorHip<F16>,
    stream: &mut Stream,
) -> (res: Result<(), HipErrorKind>)
    ensures
        Run::start(old(stream)@).call(
            wkv_bonus_f16_call(r@, k@, v@, r_k@, output@),
        ).agrees(final(stream)@, res),
{
    reveal(wkv_bonus_f16_call);
    if !r.is_contiguous() || !k.is_contiguous() || !v.is_contiguous() || !r_k.is_contiguous()
        || !output.is_contiguous() {
        return Err(HipErrorKind::host(text("wkv_bonus_f16 requires contiguous tensors")));
    }
    launch_bonus(Elem::F16, r, k, v, r_k, output, stream);
    Ok(())
}

/// The seven inputs of a recurrent attention kernel that vary by token, and its output.
pub struct WkvTensors {
    pub w_decay: TensorSpec,
    pub q: TensorSpec,
    pub k: TensorSpec,
    pub v: TensorSpec,
    pub a: TensorSpec,
    pub b: TensorSpec,
    pub output: TensorSpec,
}

impl WkvTensors {
    /// Whether every input has the shape of the decay.
    pub open spec fn same_inputs(self) -> bool {
        let shape = self.w_decay.shape();
        self.q.shape() == shape && self.k.shape() == shape && self.v.shape() == shape
            && self.a.shape() == shape && self.b.shape() == shape
    }

    /// Whether no tensor has gaps.
    pub open spec fn contiguous(self) -> bool {
        self.w_decay.contiguous() && self.q.contiguous() && self.k.contiguous()
            && self.v.contiguous() && self.a.contiguous() && self.b.contiguous()
            && self.output.contiguous()
    }

    /// The shape of the state: one square matrix for each head of each sequence.
    pub open spec fn state_shape(self) -> TensorShape {
        let shape = self.w_decay.shape();
        TensorShape::of(shape.d0, shape.d0, shape.d1, shape.d3)
    }

    /// The shapes of the inputs, by name.
    pub open spec fn shapes_text(self, prefix: Seq<char>) -> Seq<char> {
        prefix + self.w_decay.shape().text() + ", q="@ + self.q.shape().text() + ", k="@
            + self.k.shape().text() + ", v="@ + self.v.shape().text() + ", a="@
            + self.a.shape().text() + ", b="@ + self.b.shape().text()
    }
}

/// The recurrent attention with separate input and output states.
#[verifier::opaque]
pub open spec fn wkv7_call(
    kernel: Wkv7,
    name: Seq<char>,
    x: WkvTensors,
    state_in: TensorSpec,
    state_out: TensorSpec,
    lengths: Option<TensorSpec>,
) -> Outcome {
    let shape = x.w_decay.shape();
    let state_shape = x.state_shape();
    if !x.same_inputs() {
        Err(host_error(x.shapes_text("Input shape mismatch: w_decay="@)))
    } else if x.output.shape() != shape {
        Err(
            host_error(
                "Output shape mismatch: expected "@ + shape.text() + ", got "@
                    + x.output.shape().text(),
            ),
        )
    } else if state_in.shape() != state_shape {
        Err(
            host_error(
                "state_in shape mismatch: expected "@ + state_shape.text() + ", got "@
                    + state_in.shape().text(),
            ),
        )
    } else if state_out.shape() != state_shape {
        Err(
            host_error(
                "state_out shape mismatch: expected "@ + state_shape.text() + ", got "@
                    + state_out.shape().text(),
            ),
        )
    } else if lengths matches Some(l) && l.len() != shape.d3 {
        Err(
            host_error(
                "lengths size mismatch: expected "@ + decimal(shape.d3 as nat) + ", got "@
                    + decimal(lengths->0.len()),
            ),
        )
    } else if !x.contiguous() || !state_in.contiguous() || !state_out.contiguous() || (
    lengths matches Some(l) && !l.contiguous()) {
        Err(host_error(name + " requires contiguous tensors"@))
    } else {
        Ok(wkv7_launch(kernel, x, state_in, state_out, lengths))
    }
}

/// A recurrent attention kernel with its arguments.
pub open spec fn wkv7_launch(
    kernel: Wkv7,
    x: WkvTensors,
    state_in: TensorSpec,
    state_out: TensorSpec,
    lengths: Option<TensorSpec>,
) -> CommandSpec {
    let shape = x.w_decay.shape();
    CommandOf::Launch(
        Launch::Wkv7 {
            kernel,
            w_decay: x.w_decay.ptr(),
            q: x.q.ptr(),
            k: x.k.ptr(),
            v: x.v.ptr(),
            a: x.a.ptr(),
            b: x.b.ptr(),
            state_in: state_in.ptr(),
            output: x.output.ptr(),
            state_out: state_out.ptr(),
            lengths: match lengths {
                Some(l) => Some(l.ptr()),
                None => None,
            },
            n: shape.d0 as i32,
            h: shape.d1 as i32,
            t: shape.d2 as i32,
            b_size: shape.d3 as i32,
        },
    )
}

/// The inputs and the output of a recurrent attention kernel, by reference.
pub struct WkvArgs<'a, T> {
    pub w_decay: &'a TensorHip<T>,
    pub q: &'a TensorHip<T>,
    pub k: &'a TensorHip<T>,
    pub v: &'a TensorHip<T>,
    pub a: &'a TensorHip<T>,
    pub b: &'a TensorHip<T>,
    pub output: &'a TensorHip<T>,
}

impl<'a, T> View for WkvArgs<'a, T> {
    type V = WkvTensors;

    open spec fn view(&self) -> WkvTensors {
        WkvTensors {
            w_decay: self.w_decay@,
            q: self.q@,
            k: self.k@,
            v: self.v@,
            a: self.a@,
            b: self.b@,
            output: self.output@,
        }
    }
}

impl<'a, T> WkvArgs<'a, T> {
    fn same_inputs(&self) -> (b: bool)
        ensures
            b == self@.same_inputs(),
    {
        let shape = self.w_decay.shape();
        self.q.shape() == shape && self.k.shape() == shape && self.v.shape() == shape
            && self.a.shape() == shape && self.b.shape() == shape
    }

    fn is_contiguous(&self) -> (b: bool)
        ensures
            b == self@.contiguous(),
    {
        self.w_decay.is_contiguous() && self.q.is_contiguous() && self.k.is_contiguous()
            && self.v.is_contiguous() && self.a.is_contiguous() && self.b.is_contiguous()
            && self.output.is_contiguous()
    }

    fn shapes_error(&self, prefix: &str) -> (e: HipErrorKind)
        ensures
            e@ == host_error(self@.shapes_text(prefix@)),
    {
        HipErrorKind::host(
            text(prefix).shape(self.w_decay.shape()).lit(", q=").shape(self.q.shape()).lit(
                ", k=",
            ).shape(self.k.shape()).lit(", v=").shape(self.v.shape()).lit(", a=").shape(
                self.a.shape(),
            ).lit(", b=").shape(self.b.shape()),
        )
    }

    fn state_shape(&self) -> (s: TensorShape)
        ensures
            s == self@.state_shape(),
    {
        let shape = self.w_decay.shape();
        TensorShape::new(shape.d0, shape.d0, shape.d1, shape.d3)
    }

    fn start(
        &self,
        kernel: Wkv7,
        state_in: &TensorHip<F32>,
        state_out: &TensorHip<F32>,
        lengths: Option<&TensorHip<I32>>,
        stream: &mut Stream,
    )
        ensures
            final(stream)@ == Run::start(old(stream)@).emit(
                wkv7_launch(
                    kernel,
                    self@,
                    state_in@,
                    state_out@,
                    match lengths {
                        Some(l) => Some(l@),
                        None => None,
                    },
                ),
            ).stream,
    {
        let shape = self.w_decay.shape();
        let lengths_ptr: Option<DevicePtr> = match lengths {
            Some(l) => Some(l.as_ptr()),
            None => None,
        };
        stream.launch(
            Launch::Wkv7 {
                kernel,
                w_decay: self.w_decay.as_ptr(),
                q: self.q.as_ptr(),
                k: self.k.as_ptr(),
                v: self.v.as_ptr(),
                a: self.a.as_ptr(),
                b: self.b.as_ptr(),
                state_in: state_in.as_ptr(),
                output: self.output.as_ptr(),
                state_out: state_out.as_ptr(),
                lengths: lengths_ptr,
                n: shape.d0 as i32,
                h: shape.d1 as i32,
                t: shape.d2 as i32,
                b_size: shape.d3 as i32,
            },
        );
    }

    fn launch_wkv7(
        &self,
        kernel: Wkv7,
        name: &str,
        state_in: &TensorHip<F32>,
        state_out: &TensorHip<F32>,
        lengths: Option<&TensorHip<I32>>,
        stream: &mut Stream,
    ) -> (r: Result<(), HipErrorKind>)
        ensures
            Run::start(old(stream)@).call(
                wkv7_call(
                    kernel,
                    name@,
                    self@,
                    state_in@,
                    state_out@,
                    match lengths {
                        Some(l) => Some(l@),
                        None => None,
                    },
                ),
            ).agrees(final(stream)@, r),
    {
        reveal(wkv7_call);
        let shape = self.w_decay.shape();
        let state_shape = self.state_shape();
        if !self.same_inputs() {
            return Err(self.shapes_error("Input shape mismatch: w_decay="));
        }
        if self.output.shape() != shape {
            return Err(
                HipErrorKind::host(
                    text("Output shape mismatch: expected ").shape(shape).lit(", got ").shape(
                        self.output.shape(),
                    ),
                ),
            );
        }
        if state_in.shape() != state_shape {
            return Err(
                HipErrorKind::host(
                    text("state_in shape mismatch: expected ").shape(state_shape).lit(
                        ", got ",
                    ).shape(state_in.shape()),
                ),
            );
        }
        if state_out.shape() != state_shape {
            return Err(
                HipErrorKind::host(
                    text("state_out shape mismatch: expected ").shape(state_shape).lit(
                        ", got ",
                    ).shape(state_out.shape()),
                ),
            );
        }
        let mut lengths_contiguous = true;
        if let Some(l) = lengths {
            if l.len() != shape.d3 {
                return Err(
                    HipErrorKind::host(
                        text("lengths size mismatch: expected ").num(shape.d3).lit(", got ").num(
                            l.len(),
                        ),
                    ),
                );
            }
            lengths_contiguous = l.is_contiguous();
        }
        if !self.is_contiguous() || !state_in.is_contiguous() || !state_out.is_contiguous()
            || !lengths_contiguous {
            return Err(HipErrorKind::host(text(name).lit(" requires contiguous tensors")));
        }
        self.start(kernel, state_in, state_out, lengths, stream);
        Ok(())
    }
}

/// The recurrent attention in single precision.
pub open spec fn wkv7_f32_call(
    x: WkvTensors,
    state_in: TensorSpec,
    state_out: TensorSpec,
) -> Outcome {
    wkv7_call(Wkv7::F32, "wkv7_f32"@, x, state_in, state_out, None)
}

/// The recurrent attention in single precision.
pub fn wkv7_f32(
    w_decay: &TensorHip<F32>,
    q: &TensorHip<F32>,
    k: &TensorHip<F32>,
    v: &TensorHip<F32>,
    a: &TensorHip<F32>,
    b: &TensorHip<F32>,
    state_in: &TensorHip<F32>,
    output: &TensorHip<F32>,
    state_out: &TensorHip<F32>,
    stream: &mut Stream,
) -> (r: Result<(), HipErrorKind>)
    ensures
        Run::start(old(stream)@).call(
            wkv7_f32_call(
                (WkvTensors {
                    w_decay: w_decay@,
                    q: q@,
                    k: k@,
                    v: v@,
                    a: a@,
                    b: b@,
                    output: output@,
                }),
                state_in@,
                state_out@,
            ),
        ).agrees(final(stream)@, r),
{
    let args = WkvArgs { w_decay, q, k, v, a, b, output };
    args.launch_wkv7(Wkv7::F32, "wkv7_f32", state_in, state_out, None, stream)
}

/// The recurrent attention in single precision; padding leaves the state alone.
pub open spec fn wkv7_f32_masked_call(
    x: WkvTensors,
    state_in: TensorSpec,
    state_out: TensorSpec,
    lengths: TensorSpec,
) -> Outcome {
    wkv7_call(Wkv7::F32Masked, "wkv7_f32_masked"@, x, state_in, state_out, Some(lengths))
}

/// The recurrent attention in single precision; padding leaves the state alone.
pub fn wkv7_f32_masked(
    w_decay: &TensorHip<F32>,
    q: &TensorHip<F32>,
    k: &TensorHip<F32>,
    v: &TensorHip<F32>,
    a: &TensorHip<F32>,
    b: &TensorHip<F32>,
    state_in: &TensorHip<F32>,
    output: &TensorHip<F32>,
    state_out: &TensorHip<F32>,
    lengths: &TensorHip<I32>,
    stream: &mut Stream,
) -> (r: Result<(), HipErrorKind>)
    ensures
        Run::start(old(stream)@).call(
            wkv7_f32_masked_call(
                (WkvTensors {
                    w_decay: w_decay@,
                    q: q@,
                    k: k@,
                    v: v@,
                    a: a@,
                    b: b@,
                    output: output@,
                }),
                state_in@,
                state_out@,
                lengths@,
            ),
        ).agrees(final(stream)@, r),
{
    let args = WkvArgs { w_decay, q, k, v, a, b, output };
    args.launch_wkv7(Wkv7::F32Masked, "wkv7_f32_masked", state_in, state_out, Some(lengths), stream)
}

/// The recurrent attention in half precision; padding leaves the state alone.
pub open spec fn wkv7_f16_masked_call(
    x: WkvTensors,
    state_in: TensorSpec,
    state_out: TensorSpec,
    lengths: TensorSpec,
) -> Outcome {
    wkv7_call(Wkv7::F16Masked, "wkv7_f16_masked"@, x, state_in, state_out, Some(lengths))
}

/// The recurrent attention in half precision; padding leaves the state alone.
pub fn wkv7_f16_masked(
    w_decay: &TensorHip<F16>,
    q: &TensorHip<F16>,
    k: &TensorHip<F16>,
    v: &TensorHip<F16>,
    a: &TensorHip<F16>,
    b: &TensorHip<F16>,
    state_in: &TensorHip<F32>,
    output: &TensorHip<F16>,
    state_out: &TensorHip<F32>,
    lengths: &TensorHip<I32>,
    stream: &mut Stream,
) -> (r: Result<(), HipErrorKind>)
    ensures
        Run::start(old(stream)@).call(
            wkv7_f16_masked_call(
                (WkvTensors {
                    w_decay: w_decay@,
                    q: q@,
                    k: k@,
                    v: v@,
                    a: a@,
                    b: b@,
                    output: output@,
                }),
                state_in@,
                state_out@,
                lengths@,
            ),
        ).agrees(final(stream)@, r),
{
    let args = WkvArgs { w_decay, q, k, v, a, b, output };
    args.launch_wkv7(Wkv7::F16Masked, "wkv7_f16_masked", state_in, state_out, Some(lengths), stream)
}

/// The recurrent attention with wave-cooperative reductions; the state is updated in place.
#[verifier::opaque]
pub open spec fn wkv7_wave_reduce_call(
    x: WkvTensors,
    state: TensorSpec,
    lengths: TensorSpec,
) -> Outcome {
    let shape = x.w_decay.shape();
    let state_shape = x.state_shape();
    if !x.same_inputs() {
        Err(host_error(x.shapes_text("Shape mismatch: w_decay="@)))
    } else if state.shape() != state_shape {
        Err(
            host_error(
                "State shape mismatch: expected "@ + state_shape.text() + ", got "@
                    + state.shape().text(),
            ),
        )
    } else if x.output.shape() != shape {
        Err(
            host_error(
                "Output shape mismatch: expected "@ + shape.text() + ", got "@
                    + x.output.shape().text(),
            ),
        )
    } else {
        Ok(wkv7_launch(Wkv7::WaveReduce, x, state, state, Some(lengths)))
    }
}

/// The recurrent attention with wave-cooperative reductions; the state is updated in place.
pub fn wkv7_wave_reduce(
    w_decay: &TensorHip<F16>,
    q: &TensorHip<F16>,
    k: &TensorHip<F16>,
    v: &TensorHip<F16>,
    a: &TensorHip<F16>,
    b: &TensorHip<F16>,
    state: &TensorHip<F32>,
    output: &TensorHip<F16>,
    lengths: &TensorHip<I32>,
    stream: &mut Stream,
) -> (r: Result<(), HipErrorKind>)
    ensures
        Run::start(old(stream)@).call(
            wkv7_wave_reduce_call(
                (WkvTensors {
                    w_decay: w_decay@,
                    q: q@,
                    k: k@,
                    v: v@,
                    a: a@,
                    b: b@,
                    output: output@,
                }),
                state@,
                lengths@,
            ),
        ).agrees(final(stream)@, r),
{
    reveal(wkv7_wave_reduce_call);
    let args = WkvArgs { w_decay, q, k, v, a, b, output };
    let shape = w_decay.shape();
    let state_shape = args.state_shape();
    if !args.same_inputs() {
        return Err(args.shapes_error("Shape mismatch: w_decay="));
    }
    if state.shape() != state_shape {
        return Err(
            HipErrorKind::host(
                text("State shape mismatch: expected ").shape(state_shape).lit(", got ").shape(
                    state.shape(),
                ),
            ),
        );
    }
    if output.shape() != shape {
        return Err(
            HipErrorKind::host(
                text("Output shape mismatch: expected ").shape(shape).lit(", got ").shape(
                    output.shape(),
                ),
            ),
        );
    }
    args.start(Wkv7::WaveReduce, state, state, Some(lengths), stream);
    Ok(())
}

/// The recurrent attention for one token per sequence; the state is updated in place.
#[verifier::opaque]
pub open spec fn wkv7_fused_t1_call(
    x: WkvTensors,
    state: TensorSpec,
    lengths: TensorSpec,
) -> Outcome {
    let shape = x.w_decay.shape();
    let state_shape = x.state_shape();
    if shape.d2 != 1 {
        Err(host_error("wkv7_fused_t1 requires T=1"@))
    } else if !x.same_inputs() {
        Err(host_error("Input shape mismatch"@))
    } else if state.shape() != state_shape {
        Err(
            host_error(
                "State shape mismatch: expected "@ + state_shape.text() + ", got "@
                    + state.shape().text(),
            ),
        )
    } else if x.output.shape() != shape {
        Err(
            host_error(
                "Output shape mismatch: expected "@ + shape.text() + ", got "@
                    + x.output.shape().text(),
            ),
        )
    } else if lengths.len() != shape.d3 {
        Err(
            host_error(
                "lengths size mismatch: expected "@ + decimal(shape.d3 as nat) + ", got "@
                    + decimal(lengths.len()),
            ),
        )
    } else if !x.contiguous() || !state.contiguous() || !lengths.contiguous() {
        Err(host_error("wkv7_fused_t1 requires contiguous tensors"@))
    } else {
        Ok(
            CommandOf::Launch(
                Launch::Wkv7FusedT1 {
                    w_decay: x.w_decay.ptr(),
                    q: x.q.ptr(),
                    k: x.k.ptr(),
                    v: x.v.ptr(),
                    a: x.a.ptr(),
                    b: x.b.ptr(),
                    state: state.ptr(),
                    output: x.output.ptr(),
                    lengths: lengths.ptr(),
                    n: shape.d0 as i32,
                    h: shape.d1 as i32,
                    b_size: shape.d3 as i32,
                },
            ),
        )
    }
}

/// The recurrent attention for one token per sequence; the state is updated in place.
pub fn wkv7_fused_t1(
    w_decay: &TensorHip<F16>,
    q: &TensorHip<F16>,
    k: &TensorHip<F16>,
    v: &TensorHip<F16>,
    a: &TensorHip<F16>,
    b: &TensorHip<F16>,
    state: &TensorHip<F32>,
    output: &TensorHip<F16>,
    lengths: &TensorHip<I32>,
    stream: &mut Stream,
) -> (r: Result<(), HipErrorKind>)
    ensures
        Run::start(old(stream)@).call(
            wkv7_fused_t1_call(
                (WkvTensors {
                    w_decay: w_decay@,
                    q: q@,
                    k: k@,
                    v: v@,
                    a: a@,
                    b: b@,
                    output: output@,
                }),
                state@,
                lengths@,
            ),
        ).agrees(final(stream)@, r),
{
    reveal(wkv7_fused_t1_call);
    let args = WkvArgs { w_decay, q, k, v, a, b, output };
    let shape = w_decay.shape();
    let state_shape = args.state_shape();
    if shape.d2 != 1 {
        return Err(HipErrorKind::host(text("wkv7_fused_t1 requires T=1")));
    }
    if !args.same_inputs() {
        return Err(HipErrorKind::host(text("Input shape mismatch")));
    }
    if state.shape() != state_shape {
        return Err(
            HipErrorKind::host(
                text("State shape mismatch: expected ").shape(state_shape).lit(", got ").shape(
                    state.shape(),
                ),
            ),
        );
    }
    if output.shape() != shape {
        return Err(
            HipErrorKind::host(
                text("Output shape mismatch: expected ").shape(shape).lit(", got ").shape(
                    output.shape(),
                ),
            ),
        );
    }
    if lengths.len() != shape.d3 {
        return Err(
            HipErrorKind::host(
                text("lengths size mismatch: expected ").num(shape.d3).lit(", got ").num(
                    lengths.len(),
                ),
            ),
        );
    }
    if !args.is_contiguous() || !state.is_contiguous() || !lengths.is_contiguous() {
        return Err(HipErrorKind::host(text("wkv7_fused_t1 requires contiguous tensors")));
    }
    stream.launch(
        Launch::Wkv7FusedT1 {
            w_decay: w_decay.as_ptr(),
            q: q.as_ptr(),
            k: k.as_ptr(),
            v: v.as_ptr(),
            a: a.as_ptr(),
            b: b.as_ptr(),
            state: state.as_ptr(),
            output: output.as_ptr(),
            lengths: lengths.as_ptr(),
            n: shape.d0 as i32,
            h: shape.d1 as i32,
            b_size: shape.d3 as i32,
        },
    );
    Ok(())
}

/// The bonus term of host values, on the device.
pub open spec fn hip_wkv_bonus_run(
    s: Run,
    r: Seq<u32>,
    k: Seq<u32>,
    v: Seq<u32>,
    r_k: Seq<u32>,
    n: usize,
    h: usize,
    t: usize,
    b: usize,
) -> Run {
    if r.len() != n * h * t * b || k.len() != n * h * t * b || v.len() != n * h * t * b {
        s.check(Some(host_error("Input size mismatch: expected "@ + decimal((n * h * t * b) as nat) + ", got r="@ + decimal(r.len()) + ", k="@ + decimal(k.len()) + ", v="@ + decimal(v.len()))))
    } else if r_k.len() != n * h {
        s.check(Some(host_error("r_k size mismatch: expected "@ + decimal((n * h) as nat) + ", got "@ + decimal(r_k.len()))))
    } else {
        let data_shape = TensorShape::of(n, h, t, b);
        let rk_shape = TensorShape::of(n, h, 1, 1);
        let d_r = s.fresh(data_shape);
        let s = s.filled(DataSpec::F32(r), data_shape, MemoryType::Device);
        let d_k = s.fresh(data_shape);
        let s = s.filled(DataSpec::F32(k), data_shape, MemoryType::Device);
        let d_v = s.fresh(data_shape);
        let s = s.filled(DataSpec::F32(v), data_shape, MemoryType::Device);
        let d_r_k = s.fresh(rk_shape);
        let s = s.filled(DataSpec::F32(r_k), rk_shape, MemoryType::Device);
        let d_output = s.fresh(data_shape);
        let s = s.allocated(Elem::F32, data_shape, MemoryType::Device, false);
        s.call(wkv_bonus_f32_call(d_r, d_k, d_v, d_r_k, d_output)).download::<F32>(d_output)
    }
}

/// The bonus term of host values, on the device; the answer is what the last command downloads.
pub fn hip_wkv_bonus(
    r: &[u32],
    k: &[u32],
    v: &[u32],
    r_k: &[u32],
    n: usize,
    h: usize,
    t: usize,
    b: usize,
    stream: &mut Stream,
) -> (res: Result<(), HipErrorKind>)
    requires
        TensorShape::of(n, h, t, b).fits(),
    ensures
        hip_wkv_bonus_run(Run::start(old(stream)@), r@, k@, v@, r_k@, n, h, t, b).agrees(final(stream)@, res),
{
    reveal(TensorShape::fits);
    if r.len() != n * h * t * b || k.len() != n * h * t * b || v.len() != n * h * t * b {
        return Err(HipErrorKind::host(text("Input size mismatch: expected ").num(n * h * t * b).lit(", got r=").num(r.len()).lit(", k=").num(k.len()).lit(", v=").num(v.len())));
    }
    if r_k.len() != n * h {
        return Err(HipErrorKind::host(text("r_k size mismatch: expected ").num(n * h).lit(", got ").num(r_k.len())));
    }
    proof {
        lemma_matrix_fits(n, h);
    }
    let data_shape = TensorShape::new(n, h, t, b);
    let rk_shape = TensorShape::new(n, h, 1, 1);
    let d_r: TensorHip<F32> = TensorHip::from_host(HostData::F32(slice_to_vec(r)), data_shape, stream)?;
    let d_k: TensorHip<F32> = TensorHip::from_host(HostData::F32(slice_to_vec(k)), data_shape, stream)?;
    let d_v: TensorHip<F32> = TensorHip::from_host(HostData::F32(slice_to_vec(v)), data_shape, stream)?;
    let d_r_k: TensorHip<F32> = TensorHip::from_host(HostData::F32(slice_to_vec(r_k)), rk_shape, stream)?;
    let d_output: TensorHip<F32> = TensorHip::new(data_shape, stream)?;
    wkv_bonus_f32(&d_r, &d_k, &d_v, &d_r_k, &d_output, stream)?;
    d_output.download(stream);
    Ok(())
}

/// The recurrent attention over host values, on the device.
pub open spec fn hip_wkv7_run(
    s: Run,
    w_decay: Seq<u32>,
    q: Seq<u32>,
    k: Seq<u32>,
    v: Seq<u32>,
    a: Seq<u32>,
    b: Seq<u32>,
    state_in: Seq<u32>,
    n: usize,
    h: usize,
    t: usize,
    batch: usize,
) -> Run {
    if w_decay.len() != n * h * t * batch || q.len() != n * h * t * batch || k.len() != n * h * t * batch || v.len() != n * h * t * batch || a.len() != n * h * t * batch || b.len() != n * h * t * batch {
        s.check(Some(host_error("Input size mismatch: expected "@ + decimal((n * h * t * batch) as nat) + ", got w="@ + decimal(w_decay.len()) + ", q="@ + decimal(q.len()) + ", k="@ + decimal(k.len()) + ", v="@ + decimal(v.len()) + ", a="@ + decimal(a.len()) + ", b="@ + decimal(b.len()))))
    } else if state_in.len() != n * n * h * batch {
        s.check(Some(host_error("state_in size mismatch: expected "@ + decimal((n * n * h * batch) as nat) + ", got "@ + decimal(state_in.len()))))
    } else {
        let input_shape = TensorShape::of(n, h, t, batch);
        let state_shape = TensorShape::of(n, n, h, batch);
        let d_w_decay = s.fresh(input_shape);
        let s = s.filled(DataSpec::F32(w_decay), input_shape, MemoryType::Device);
        let d_q = s.fresh(input_shape);
        let s = s.filled(DataSpec::F32(q), input_shape, MemoryType::Device);
        let d_k = s.fresh(input_shape);
        let s = s.filled(DataSpec::F32(k), input_shape, MemoryType::Device);
        let d_v = s.fresh(input_shape);
        let s = s.filled(DataSpec::F32(v), input_shape, MemoryType::Device);
        let d_a = s.fresh(input_shape);
        let s = s.filled(DataSpec::F32(a), input_shape, MemoryType::Device);
        let d_b = s.fresh(input_shape);
        let s = s.filled(DataSpec::F32(b), input_shape, MemoryType::Device);
        let d_state_in = s.fresh(state_shape);
        let s = s.filled(DataSpec::F32(state_in), state_shape, MemoryType::Device);
        let d_output = s.fresh(input_shape);
        let s = s.allocated(Elem::F32, input_shape, MemoryType::Device, false);
        let d_state_out = s.fresh(state_shape);
        let s = s.allocated(Elem::F32, state_shape, MemoryType::Device, false);
        s.call(wkv7_f32_call(
                WkvTensors {
                    w_decay: d_w_decay,
                    q: d_q,
                    k: d_k,
                    v: d_v,
                    a: d_a,
                    b: d_b,
                    output: d_output,
                },
                d_state_in,
                d_state_out,
            )).download::<F32>(d_output).download::<F32>(d_state_out)
    }
}

/// The recurrent attention over host values, on the device; the answer is what the last commands download.
pub fn hip_wkv7(
    w_decay: &[u32],
    q: &[u32],
    k: &[u32],
    v: &[u32],
    a: &[u32],
    b: &[u32],
    state_in: &[u32],
    n: usize,
    h: usize,
    t: usize,
    batch: usize,
    stream: &mut Stream,
) -> (r: Result<(), HipErrorKind>)
    requires
        TensorShape::of(n, h, t, batch).fits(),
        TensorShape::of(n, n, h, batch).fits(),
    ensures
        hip_wkv7_run(Run::start(old(stream)@), w_decay@, q@, k@, v@, a@, b@, state_in@, n, h, t, batch).agrees(final(stream)@, r),
{
    reveal(TensorShape::fits);
    if w_decay.len() != n * h * t * batch || q.len() != n * h * t * batch || k.len() != n * h * t * batch || v.len() != n * h * t * batch || a.len() != n * h * t * batch || b.len() != n * h * t * batch {
        return Err(HipErrorKind::host(text("Input size mismatch: expected ").num(n * h * t * batch).lit(", got w=").num(w_decay.len()).lit(", q=").num(q.len()).lit(", k=").num(k.len()).lit(", v=").num(v.len()).lit(", a=").num(a.len()).lit(", b=").num(b.len())));
    }
    if state_in.len() != n * n * h * batch {
        return Err(HipErrorKind::host(text("state_in size mismatch: expected ").num(n * n * h * batch).lit(", got ").num(state_in.len())));
    }
    let input_shape = TensorShape::new(n, h, t, batch);
    let state_shape = TensorShape::new(n, n, h, batch);
    let d_w_decay: TensorHip<F32> = TensorHip::from_host(HostData::F32(slice_to_vec(w_decay)), input_shape, stream)?;
    let d_q: TensorHip<F32> = TensorHip::from_host(HostData::F32(slice_to_vec(q)), input_shape, stream)?;
    let d_k: TensorHip<F32> = TensorHip::from_host(HostData::F32(slice_to_vec(k)), input_shape, stream)?;
    let d_v: TensorHip<F32> = TensorHip::from_host(HostData::F32(slice_to_vec(v)), input_shape, stream)?;
    let d_a: TensorHip<F32> = TensorHip::from_host(HostData::F32(slice_to_vec(a)), input_shape, stream)?;
    let d_b: TensorHip<F32> = TensorHip::from_host(HostData::F32(slice_to_vec(b)), input_shape, stream)?;
    let d_state_in: TensorHip<F32> = TensorHip::from_host(HostData::F32(slice_to_vec(state_in)), state_shape, stream)?;
    let d_output: TensorHip<F32> = TensorHip::new(input_shape, stream)?;
    let d_state_out: TensorHip<F32> = TensorHip::new(state_shape, stream)?;
    wkv7_f32(&d_w_decay, &d_q, &d_k, &d_v, &d_a, &d_b, &d_state_in, &d_output, &d_state_out, stream)?;
    d_output.download(stream);
    d_state_out.download(stream);
    Ok(())
}

/// The recurrent attention over host values with padding, on the device.
pub open spec fn hip_wkv7_masked_run(
    s: Run,
    w_decay: Seq<u32>,
    q: Seq<u32>,
    k: Seq<u32>,
    v: Seq<u32>,
    a: Seq<u32>,
    b: Seq<u32>,
    state_in: Seq<u32>,
    lengths: Seq<i32>,
    n: usize,
    h: usize,
    t: usize,
    batch: usize,
) -> Run {
    if w_decay.len() != n * h * t * batch || q.len() != n * h * t * batch || k.len() != n * h * t * batch || v.len() != n * h * t * batch || a.len() != n * h * t * batch || b.len() != n * h * t * batch {
        s.check(Some(host_error("Input size mismatch: expected "@ + decimal((n * h * t * batch) as nat) + ", got w="@ + decimal(w_decay.len()) + ", q="@ + decimal(q.len()) + ", k="@ + decimal(k.len()) + ", v="@ + decimal(v.len()) + ", a="@ + decimal(a.len()) + ", b="@ + decimal(b.len()))))
    } else if state_in.len() != n * n * h * batch {
        s.check(Some(host_error("state_in size mismatch: expected "@ + decimal((n * n * h * batch) as nat) + ", got "@ + decimal(state_in.len()))))
    } else if lengths.len() != batch {
        s.check(Some(host_error("lengths size mismatch: expected "@ + decimal(batch as nat) + ", got "@ + decimal(lengths.len()))))
    } else {
        let input_shape = TensorShape::of(n, h, t, batch);
        let state_shape = TensorShape::of(n, n, h, batch);
        let lengths_shape = TensorShape::of(batch, 1, 1, 1);
        let d_w_decay = s.fresh(input_shape);
        let s = s.filled(DataSpec::F32(w_decay), input_shape, MemoryType::Device);
        let d_q = s.fresh(input_shape);
        let s = s.filled(DataSpec::F32(q), input_shape, MemoryType::Device);
        let d_k = s.fresh(input_shape);
        let s = s.filled(DataSpec::F32(k), input_shape, MemoryType::Device);
        let d_v = s.fresh(input_shape);
        let s = s.filled(DataSpec::F32(v), input_shape, MemoryType::Device);
        let d_a = s.fresh(input_shape);
        let s = s.filled(DataSpec::F32(a), input_shape, MemoryType::Device);
        let d_b = s.fresh(input_shape);
        let s = s.filled(DataSpec::F32(b), input_shape, MemoryType::Device);
        let d_state_in = s.fresh(state_shape);
        let s = s.filled(DataSpec::F32(state_in), state_shape, MemoryType::Device);
        let d_lengths = s.fresh(lengths_shape);
        let s = s.filled(DataSpec::I32(lengths), lengths_shape, MemoryType::Device);
        let d_output = s.fresh(input_shape);
        let s = s.allocated(Elem::F32, input_shape, MemoryType::Device, false);
        let d_state_out = s.fresh(state_shape);
        let s = s.allocated(Elem::F32, state_shape, MemoryType::Device, false);
        s.call(wkv7_f32_masked_call(
                WkvTensors {
                    w_decay: d_w_decay,
                    q: d_q,
                    k: d_k,
                    v: d_v,
                    a: d_a,
                    b: d_b,
                    output: d_output,
                },
                d_state_in,
                d_state_out,
                d_lengths,
            )).download::<F32>(d_output).download::<F32>(d_state_out)
    }
}

/// The recurrent attention over host values with padding, on the device; the answer is what the last commands download.
pub fn hip_wkv7_masked(
    w_decay: &[u32],
    q: &[u32],
    k: &[u32],
    v: &[u32],
    a: &[u32],
    b: &[u32],
    state_in: &[u32],
    lengths: &[i32],
    n: usize,
    h: usize,
    t: usize,
    batch: usize,
    stream: &mut Stream,
) -> (r: Result<(), HipErrorKind>)
    requires
        TensorShape::of(n, h, t, batch).fits(),
        TensorShape::of(n, n, h, batch).fits(),
    ensures
        hip_wkv7_masked_run(Run::start(old(stream)@), w_decay@, q@, k@, v@, a@, b@, state_in@, lengths@, n, h, t, batch).agrees(final(stream)@, r),
{
    reveal(TensorShape::fits);
    if w_decay.len() != n * h * t * batch || q.len() != n * h * t * batch || k.len() != n * h * t * batch || v.len() != n * h * t * batch || a.len() != n * h * t * batch || b.len() != n * h * t * batch {
        return Err(HipErrorKind::host(text("Input size mismatch: expected ").num(n * h * t * batch).lit(", got w=").num(w_decay.len()).lit(", q=").num(q.len()).lit(", k=").num(k.len()).lit(", v=").num(v.len()).lit(", a=").num(a.len()).lit(", b=").num(b.len())));
    }
    if state_in.len() != n * n * h * batch {
        return Err(HipErrorKind::host(text("state_in size mismatch: expected ").num(n * n * h * batch).lit(", got ").num(state_in.len())));
    }
    if lengths.len() != batch {
        return Err(HipErrorKind::host(text("lengths size mismatch: expected ").num(batch).lit(", got ").num(lengths.len())));
    }
    proof {
        lemma_matrix_fits(batch, 1);
    }
    let input_shape = TensorShape::new(n, h, t, batch);
    let state_shape = TensorShape::new(n, n, h, batch);
    let lengths_shape = TensorShape::new(batch, 1, 1, 1);
    let d_w_decay: TensorHip<F32> = TensorHip::from_host(HostData::F32(slice_to_vec(w_decay)), input_shape, stream)?;
    let d_q: TensorHip<F32> = TensorHip::from_host(HostData::F32(slice_to_vec(q)), input_shape, stream)?;
    let d_k: TensorHip<F32> = TensorHip::from_host(HostData::F32(slice_to_vec(k)), input_shape, stream)?;
    let d_v: TensorHip<F32> = TensorHip::from_host(HostData::F32(slice_to_vec(v)), input_shape, stream)?;
    let d_a: TensorHip<F32> = TensorHip::from_host(HostData::F32(slice_to_vec(a)), input_shape, stream)?;
    let d_b: TensorHip<F32> = TensorHip::from_host(HostData::F32(slice_to_vec(b)), input_shape, stream)?;
    let d_state_in: TensorHip<F32> = TensorHip::from_host(HostData::F32(slice_to_vec(state_in)), state_shape, stream)?;
    let d_lengths: TensorHip<I32> = TensorHip::from_host(HostData::I32(slice_to_vec(lengths)), lengths_shape, stream)?;
    let d_output: TensorHip<F32> = TensorHip::new(input_shape, stream)?;
    let d_state_out: TensorHip<F32> = TensorHip::new(state_shape, stream)?;
    wkv7_f32_masked(&d_w_decay, &d_q, &d_k, &d_v, &d_a, &d_b, &d_state_in, &d_output, &d_state_out, &d_lengths, stream)?;
    d_output.download(stream);
    d_state_out.download(stream);
    Ok(())
}

} // verus!
