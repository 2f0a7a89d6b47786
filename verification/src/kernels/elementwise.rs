//! Elementwise kernels.
use crate::buffer::{buffer_at, buffer_run, copy_in, copy_out, BufferSpec, DeviceBuffer, MemoryType};
use crate::error::{host_error, HipErrorKind};
use crate::launch::{Binary, Launch, Unary};
use crate::stream::{CommandOf, DataSpec, Elem, HostData, Outcome, Run, Stream};
use crate::tensor::{lemma_matrix_fits, TensorHip, TensorShape, TensorSpec, F16, F32};
use crate::text::{decimal, text};
use vstd::prelude::*;
use vstd::slice::slice_to_vec;

verus! {

broadcast use Run::lemma_allocated;

/// The message for two sizes that should agree, in either of its two wordings.
pub open spec fn sizes_text(equals: bool, input: nat, output: nat) -> Seq<char> {
    if equals {
        "Size mismatch: input="@ + decimal(input) + ", output="@ + decimal(output)
    } else {
        "Size mismatch: input "@ + decimal(input) + " vs output "@ + decimal(output)
    }
}

fn sizes_error(equals: bool, input: usize, output: usize) -> (e: HipErrorKind)
    ensures
        e@ == host_error(sizes_text(equals, input as nat, output as nat)),
{
    if equals {
        HipErrorKind::host(text("Size mismatch: input=").num(input).lit(", output=").num(output))
    } else {
        HipErrorKind::host(
            text("Size mismatch: input ").num(input).lit(" vs output ").num(output),
        )
    }
}

/// A kernel that maps `input` to `output`: both have the same size and no gaps.
#[verifier::opaque]
pub open spec fn unary_call(
    op: Unary,
    elem: Elem,
    name: Seq<char>,
    equals: bool,
    input: TensorSpec,
    output: TensorSpec,
) -> Outcome {
    if input.len() != output.len() {
        Err(host_error(sizes_text(equals, input.len(), output.len())))
    } else if !input.contiguous() || !output.contiguous() {
        Err(host_error(name + " requires contiguous tensors"@))
    } else {
        Ok(
            CommandOf::Launch(
                Launch::Unary {
                    op,
                    elem,
                    input: input.ptr(),
                    output: output.ptr(),
                    n: input.len() as i32,
                },
            ),
        )
    }
}

fn launch_unary<T>(
    op: Unary,
    elem: Elem,
    name: &str,
    equals: bool,
    input: &TensorHip<T>,
    output: &TensorHip<T>,
    stream: &mut Stream,
) -> (r: Result<(), HipErrorKind>)
    ensures
        Run::start(old(stream)@).call(
            unary_call(op, elem, name@, equals, input@, output@),
        ).agrees(final(stream)@, r),
{
    reveal(unary_call);
    if input.len() != output.len() {
        return Err(sizes_error(equals, input.len(), output.len()));
    }
    if !input.is_contiguous() || !output.is_contiguous() {
        return Err(HipErrorKind::host(text(name).lit(" requires contiguous tensors")));
    }
    stream.launch(
        Launch::Unary {
            op,
            elem,
            input: input.as_ptr(),
            output: output.as_ptr(),
            n: input.len() as i32,
        },
    );
    Ok(())
}

/// A kernel that combines `a` and `b` into `output`: all have the same size and no gaps.
#[verifier::opaque]
pub open spec fn binary_call(
    op: Binary,
    elem: Elem,
    name: Seq<char>,
    a: TensorSpec,
    b: TensorSpec,
    output: TensorSpec,
) -> Outcome {
    if a.len() != b.len() || a.len() != output.len() {
        Err(
            host_error(
                "Size mismatch: a="@ + decimal(a.len()) + ", b="@ + decimal(b.len())
                    + ", output="@ + decimal(output.len()),
            ),
        )
    } else if !a.contiguous() || !b.contiguous() || !output.contiguous() {
        Err(host_error(name + " requires contiguous tensors"@))
    } else {
        Ok(
            CommandOf::Launch(
                Launch::Binary {
                    op,
                    elem,
                    a: a.ptr(),
                    b: b.ptr(),
                    output: output.ptr(),
                    n: a.len() as i32,
                },
            ),
        )
    }
}

fn launch_binary<T>(
    op: Binary,
    elem: Elem,
    name: &str,
    a: &TensorHip<T>,
    b: &TensorHip<T>,
    output: &TensorHip<T>,
    stream: &mut Stream,
) -> (r: Result<(), HipErrorKind>)
    ensures
        Run::start(old(stream)@).call(binary_call(op, elem, name@, a@, b@, output@)).agrees(
            final(stream)@,
            r,
        ),
{
    reveal(binary_call);
    if a.len() != b.len() || a.len() != output.len() {
        return Err(
            HipErrorKind::host(
                text("Size mismatch: a=").num(a.len()).lit(", b=").num(b.len()).lit(
                    ", output=",
                ).num(output.len()),
            ),
        );
    }
    if !a.is_contiguous() || !b.is_contiguous() || !output.is_contiguous() {
        return Err(HipErrorKind::host(text(name).lit(" requires contiguous tensors")));
    }
    stream.launch(
        Launch::Binary {
            op,
            elem,
            a: a.as_ptr(),
            b: b.as_ptr(),
            output: output.as_ptr(),
            n: a.len() as i32,
        },
    );
    Ok(())
}

/// A kernel that repeats `operand` along `input`: its size divides that of `input`.
#[verifier::opaque]
pub open spec fn broadcast_call(
    op: Binary,
    elem: Elem,
    name: Seq<char>,
    role: Seq<char>,
    input: TensorSpec,
    operand: TensorSpec,
    output: TensorSpec,
) -> Outcome {
    if input.len() != output.len() {
        Err(host_error(sizes_text(true, input.len(), output.len())))
    } else if input.len() % operand.len() != 0 {
        Err(
            host_error(
                "Broadcast incompatible: input len "@ + decimal(input.len())
                    + " not divisible by "@ + role + " len "@ + decimal(operand.len()),
            ),
        )
    } else if !input.contiguous() || !operand.contiguous() || !output.contiguous() {
        Err(host_error(name + " requires contiguous tensors"@))
    } else {
        Ok(
            CommandOf::Launch(
                Launch::Broadcast {
                    op,
                    elem,
                    input: input.ptr(),
                    operand: operand.ptr(),
                    output: output.ptr(),
                    n: input.len() as i32,
                    operand_len: operand.len() as i32,
                },
            ),
        )
    }
}

fn launch_broadcast<T>(
    op: Binary,
    elem: Elem,
    name: &str,
    role: &str,
    input: &TensorHip<T>,
    operand: &TensorHip<T>,
    output: &TensorHip<T>,
    stream: &mut Stream,
) -> (r: Result<(), HipErrorKind>)
    requires
        operand@.len() > 0,
    ensures
        Run::start(old(stream)@).call(
            broadcast_call(op, elem, name@, role@, input@, operand@, output@),
        ).agrees(final(stream)@, r),
{
    reveal(broadcast_call);
    if input.len() != output.len() {
        return Err(sizes_error(true, input.len(), output.len()));
    }
    if input.len() % operand.len() != 0 {
        return Err(
            HipErrorKind::host(
                text("Broadcast incompatible: input len ").num(input.len()).lit(
                    " not divisible by ",
                ).lit(role).lit(" len ").num(operand.len()),
            ),
        );
    }
    if !input.is_contiguous() || !operand.is_contiguous() || !output.is_contiguous() {
        return Err(HipErrorKind::host(text(name).lit(" requires contiguous tensors")));
    }
    stream.launch(
        Launch::Broadcast {
            op,
            elem,
            input: input.as_ptr(),
            operand: operand.as_ptr(),
            output: output.as_ptr(),
            n: input.len() as i32,
            operand_len: operand.len() as i32,
        },
    );
    Ok(())
}

/// `output = a + (b - a) * t`, elementwise.
#[verifier::opaque]
pub open spec fn lerp_call(
    elem: Elem,
    name: Seq<char>,
    a: TensorSpec,
    b: TensorSpec,
    t: TensorSpec,
    output: TensorSpec,
) -> Outcome {
    if a.len() != b.len() || a.len() != t.len() || a.len() != output.len() {
        Err(
            host_error(
                "Size mismatch: a="@ + decimal(a.len()) + ", b="@ + decimal(b.len()) + ", t="@
                    + decimal(t.len()) + ", output="@ + decimal(output.len()),
            ),
        )
    } else if !a.contiguous() || !b.contiguous() || !t.contiguous() || !output.contiguous() {
        Err(host_error(name + " requires contiguous tensors"@))
    } else {
        Ok(
            CommandOf::Launch(
                Launch::Lerp {
                    elem,
                    a: a.ptr(),
                    b: b.ptr(),
                    t: t.ptr(),
                    output: output.ptr(),
                    n: a.len() as i32,
                },
            ),
        )
    }
}

fn launch_lerp<T>(
    elem: Elem,
    name: &str,
    a: &TensorHip<T>,
    b: &TensorHip<T>,
    t: &TensorHip<T>,
    output: &TensorHip<T>,
    stream: &mut Stream,
) -> (r: Result<(), HipErrorKind>)
    ensures
        Run::start(old(stream)@).call(lerp_call(elem, name@, a@, b@, t@, output@)).agrees(
            final(stream)@,
            r,
        ),
{
    reveal(lerp_call);
    if a.len() != b.len() || a.len() != t.len() || a.len() != output.len() {
        return Err(
            HipErrorKind::host(
                text("Size mismatch: a=").num(a.len()).lit(", b=").num(b.len()).lit(", t=").num(
                    t.len(),
                ).lit(", output=").num(output.len()),
            ),
        );
    }
    if !a.is_contiguous() || !b.is_contiguous() || !t.is_contiguous() || !output.is_contiguous() {
        return Err(HipErrorKind::host(text(name).lit(" requires contiguous tensors")));
    }
    stream.launch(
        Launch::Lerp {
            elem,
            a: a.as_ptr(),
            b: b.as_ptr(),
            t: t.as_ptr(),
            output: output.as_ptr(),
            n: a.len() as i32,
        },
    );
    Ok(())
}

/// Copies `input` to `output`.
pub open spec fn copy_tensor_f32_call(input: TensorSpec, output: TensorSpec) -> Outcome {
    unary_call(Unary::Copy, Elem::F32, "copy_tensor_f32"@, false, input, output)
}

/// Copies `input` to `output`.
pub fn copy_tensor_f32(input: &TensorHip<F32>, output: &TensorHip<F32>, stream: &mut Stream) -> (r: Result<
    (),
    HipErrorKind,
>)
    ensures
        Run::start(old(stream)@).call(copy_tensor_f32_call(input@, output@)).agrees(final(stream)@, r),
{
    launch_unary(Unary::Copy, Elem::F32, "copy_tensor_f32", false, input, output, stream)
}

/// Copies `input` to `output`.
pub open spec fn copy_tensor_f16_call(input: TensorSpec, output: TensorSpec) -> Outcome {
    unary_call(Unary::Copy, Elem::F16, "copy_tensor_f16"@, false, input, output)
}

/// Copies `input` to `output`.
pub fn copy_tensor_f16(input: &TensorHip<F16>, output: &TensorHip<F16>, stream: &mut Stream) -> (r: Result<
    (),
    HipErrorKind,
>)
    ensures
        Run::start(old(stream)@).call(copy_tensor_f16_call(input@, output@)).agrees(final(stream)@, r),
{
    launch_unary(Unary::Copy, Elem::F16, "copy_tensor_f16", false, input, output, stream)
}

/// `output = exp(-exp(input))`.
pub open spec fn decay_exp_f32_call(input: TensorSpec, output: TensorSpec) -> Outcome {
    unary_call(Unary::DecayExp, Elem::F32, "decay_exp_f32"@, false, input, output)
}

/// `output = exp(-exp(input))`.
pub fn decay_exp_f32(input: &TensorHip<F32>, output: &TensorHip<F32>, stream: &mut Stream) -> (r: Result<
    (),
    HipErrorKind,
>)
    ensures
        Run::start(old(stream)@).call(decay_exp_f32_call(input@, output@)).agrees(final(stream)@, r),
{
    launch_unary(Unary::DecayExp, Elem::F32, "decay_exp_f32", false, input, output, stream)
}

/// `output = exp(-exp(input))`.
pub open spec fn decay_exp_f16_call(input: TensorSpec, output: TensorSpec) -> Outcome {
    unary_call(Unary::DecayExp, Elem::F16, "decay_exp_f16"@, false, input, output)
}

/// `output = exp(-exp(input))`.
pub fn decay_exp_f16(input: &TensorHip<F16>, output: &TensorHip<F16>, stream: &mut Stream) -> (r: Result<
    (),
    HipErrorKind,
>)
    ensures
        Run::start(old(stream)@).call(decay_exp_f16_call(input@, output@)).agrees(final(stream)@, r),
{
    launch_unary(Unary::DecayExp, Elem::F16, "decay_exp_f16", false, input, output, stream)
}

/// `output = 1 / (1 + exp(-input))`.
pub open spec fn sigmoid_f32_call(input: TensorSpec, output: TensorSpec) -> Outcome {
    unary_call(Unary::Sigmoid, Elem::F32, "sigmoid_f32"@, false, input, output)
}

/// `output = 1 / (1 + exp(-input))`.
pub fn sigmoid_f32(input: &TensorHip<F32>, output: &TensorHip<F32>, stream: &mut Stream) -> (r: Result<
    (),
    HipErrorKind,
>)
    ensures
        Run::start(old(stream)@).call(sigmoid_f32_call(input@, output@)).agrees(final(stream)@, r),
{
    launch_unary(Unary::Sigmoid, Elem::F32, "sigmoid_f32", false, input, output, stream)
}

/// `output = 1 / (1 + exp(-input))`.
pub open spec fn sigmoid_f16_call(input: TensorSpec, output: TensorSpec) -> Outcome {
    unary_call(Unary::Sigmoid, Elem::F16, "sigmoid_f16"@, false, input, output)
}

/// `output = 1 / (1 + exp(-input))`.
pub fn sigmoid_f16(input: &TensorHip<F16>, output: &TensorHip<F16>, stream: &mut Stream) -> (r: Result<
    (),
    HipErrorKind,
>)
    ensures
        Run::start(old(stream)@).call(sigmoid_f16_call(input@, output@)).agrees(final(stream)@, r),
{
    launch_unary(Unary::Sigmoid, Elem::F16, "sigmoid_f16", false, input, output, stream)
}

/// `output = max(input, 0)^2`.
pub open spec fn squared_relu_f32_call(input: TensorSpec, output: TensorSpec) -> Outcome {
    unary_call(Unary::SquaredRelu, Elem::F32, "squared_relu_f32"@, false, input, output)
}

/// `output = max(input, 0)^2`.
pub fn squared_relu_f32(input: &TensorHip<F32>, output: &TensorHip<F32>, stream: &mut Stream) -> (r: Result<
    (),
    HipErrorKind,
>)
    ensures
        Run::start(old(stream)@).call(squared_relu_f32_call(input@, output@)).agrees(final(stream)@, r),
{
    launch_unary(Unary::SquaredRelu, Elem::F32, "squared_relu_f32", false, input, output, stream)
}

/// `output = max(input, 0)^2`.
pub open spec fn squared_relu_f16_call(input: TensorSpec, output: TensorSpec) -> Outcome {
    unary_call(Unary::SquaredRelu, Elem::F16, "squared_relu_f16"@, false, input, output)
}

/// `output = max(input, 0)^2`.
pub fn squared_relu_f16(input: &TensorHip<F16>, output: &TensorHip<F16>, stream: &mut Stream) -> (r: Result<
    (),
    HipErrorKind,
>)
    ensures
        Run::start(old(stream)@).call(squared_relu_f16_call(input@, output@)).agrees(final(stream)@, r),
{
    launch_unary(Unary::SquaredRelu, Elem::F16, "squared_relu_f16", false, input, output, stream)
}

/// `output = -softplus(-input) - 0.5`.
pub open spec fn softplus_decay_f32_call(input: TensorSpec, output: TensorSpec) -> Outcome {
    unary_call(Unary::SoftplusDecay, Elem::F32, "softplus_decay_f32"@, false, input, output)
}

/// `output = -softplus(-input) - 0.5`.
pub fn softplus_decay_f32(input: &TensorHip<F32>, output: &TensorHip<F32>, stream: &mut Stream) -> (r: Result<
    (),
    HipErrorKind,
>)
    ensures
        Run::start(old(stream)@).call(softplus_decay_f32_call(input@, output@)).agrees(final(stream)@, r),
{
    launch_unary(Unary::SoftplusDecay, Elem::F32, "softplus_decay_f32", false, input, output, stream)
}

/// `output = -softplus(-input) - 0.5`.
pub open spec fn softplus_decay_f16_call(input: TensorSpec, output: TensorSpec) -> Outcome {
    unary_call(Unary::SoftplusDecay, Elem::F16, "softplus_decay_f16"@, false, input, output)
}

/// `output = -softplus(-input) - 0.5`.
pub fn softplus_decay_f16(input: &TensorHip<F16>, output: &TensorHip<F16>, stream: &mut Stream) -> (r: Result<
    (),
    HipErrorKind,
>)
    ensures
        Run::start(old(stream)@).call(softplus_decay_f16_call(input@, output@)).agrees(final(stream)@, r),
{
    launch_unary(Unary::SoftplusDecay, Elem::F16, "softplus_decay_f16", false, input, output, stream)
}

/// `output = tanh(input)`.
pub open spec fn tanh_f32_call(input: TensorSpec, output: TensorSpec) -> Outcome {
    unary_call(Unary::Tanh, Elem::F32, "tanh_f32"@, false, input, output)
}

/// `output = tanh(input)`.
pub fn tanh_f32(input: &TensorHip<F32>, output: &TensorHip<F32>, stream: &mut Stream) -> (r: Result<
    (),
    HipErrorKind,
>)
    ensures
        Run::start(old(stream)@).call(tanh_f32_call(input@, output@)).agrees(final(stream)@, r),
{
    launch_unary(Unary::Tanh, Elem::F32, "tanh_f32", false, input, output, stream)
}

/// `output = tanh(input)`.
pub open spec fn tanh_f16_call(input: TensorSpec, output: TensorSpec) -> Outcome {
    unary_call(Unary::Tanh, Elem::F16, "tanh_f16"@, false, input, output)
}

/// `output = tanh(input)`.
pub fn tanh_f16(input: &TensorHip<F16>, output: &TensorHip<F16>, stream: &mut Stream) -> (r: Result<
    (),
    HipErrorKind,
>)
    ensures
        Run::start(old(stream)@).call(tanh_f16_call(input@, output@)).agrees(final(stream)@, r),
{
    launch_unary(Unary::Tanh, Elem::F16, "tanh_f16", false, input, output, stream)
}

/// `output = -input`.
pub open spec fn negate_f32_call(input: TensorSpec, output: TensorSpec) -> Outcome {
    unary_call(Unary::Negate, Elem::F32, "negate_f32"@, true, input, output)
}

/// `output = -input`.
pub fn negate_f32(input: &TensorHip<F32>, output: &TensorHip<F32>, stream: &mut Stream) -> (r: Result<
    (),
    HipErrorKind,
>)
    ensures
        Run::start(old(stream)@).call(negate_f32_call(input@, output@)).agrees(final(stream)@, r),
{
    launch_unary(Unary::Negate, Elem::F32, "negate_f32", true, input, output, stream)
}

/// `output = -input`.
pub open spec fn negate_f16_call(input: TensorSpec, output: TensorSpec) -> Outcome {
    unary_call(Unary::Negate, Elem::F16, "negate_f16"@, true, input, output)
}

/// `output = -input`.
pub fn negate_f16(input: &TensorHip<F16>, output: &TensorHip<F16>, stream: &mut Stream) -> (r: Result<
    (),
    HipErrorKind,
>)
    ensures
        Run::start(old(stream)@).call(negate_f16_call(input@, output@)).agrees(final(stream)@, r),
{
    launch_unary(Unary::Negate, Elem::F16, "negate_f16", true, input, output, stream)
}

/// `output = exp(input)`.
pub open spec fn exp_f32_call(input: TensorSpec, output: TensorSpec) -> Outcome {
    unary_call(Unary::Exp, Elem::F32, "exp_f32"@, true, input, output)
}

/// `output = exp(input)`.
pub fn exp_f32(input: &TensorHip<F32>, output: &TensorHip<F32>, stream: &mut Stream) -> (r: Result<
    (),
    HipErrorKind,
>)
    ensures
        Run::start(old(stream)@).call(exp_f32_call(input@, output@)).agrees(final(stream)@, r),
{
    launch_unary(Unary::Exp, Elem::F32, "exp_f32", true, input, output, stream)
}

/// `output = exp(input)`.
pub open spec fn exp_f16_call(input: TensorSpec, output: TensorSpec) -> Outcome {
    unary_call(Unary::Exp, Elem::F16, "exp_f16"@, true, input, output)
}

/// `output = exp(input)`.
pub fn exp_f16(input: &TensorHip<F16>, output: &TensorHip<F16>, stream: &mut Stream) -> (r: Result<
    (),
    HipErrorKind,
>)
    ensures
        Run::start(old(stream)@).call(exp_f16_call(input@, output@)).agrees(final(stream)@, r),
{
    launch_unary(Unary::Exp, Elem::F16, "exp_f16", true, input, output, stream)
}

/// `output = a + b`.
pub open spec fn add_f32_call(a: TensorSpec, b: TensorSpec, output: TensorSpec) -> Outcome {
    binary_call(Binary::Add, Elem::F32, "add_f32"@, a, b, output)
}

/// `output = a + b`.
pub fn add_f32(
    a: &TensorHip<F32>,
    b: &TensorHip<F32>,
    output: &TensorHip<F32>,
    stream: &mut Stream,
) -> (r: Result<(), HipErrorKind>)
    ensures
        Run::start(old(stream)@).call(add_f32_call(a@, b@, output@)).agrees(final(stream)@, r),
{
    launch_binary(Binary::Add, Elem::F32, "add_f32", a, b, output, stream)
}

/// `output = a + b`.
pub open spec fn add_f16_call(a: TensorSpec, b: TensorSpec, output: TensorSpec) -> Outcome {
    binary_call(Binary::Add, Elem::F16, "add_f16"@, a, b, output)
}

/// `output = a + b`.
pub fn add_f16(
    a: &TensorHip<F16>,
    b: &TensorHip<F16>,
    output: &TensorHip<F16>,
    stream: &mut Stream,
) -> (r: Result<(), HipErrorKind>)
    ensures
        Run::start(old(stream)@).call(add_f16_call(a@, b@, output@)).agrees(final(stream)@, r),
{
    launch_binary(Binary::Add, Elem::F16, "add_f16", a, b, output, stream)
}

/// `output = a * b`.
pub open spec fn mul_f32_call(a: TensorSpec, b: TensorSpec, output: TensorSpec) -> Outcome {
    binary_call(Binary::Mul, Elem::F32, "mul_f32"@, a, b, output)
}

/// `output = a * b`.
pub fn mul_f32(
    a: &TensorHip<F32>,
    b: &TensorHip<F32>,
    output: &TensorHip<F32>,
    stream: &mut Stream,
) -> (r: Result<(), HipErrorKind>)
    ensures
        Run::start(old(stream)@).call(mul_f32_call(a@, b@, output@)).agrees(final(stream)@, r),
{
    launch_binary(Binary::Mul, Elem::F32, "mul_f32", a, b, output, stream)
}

/// `output = a * b`.
pub open spec fn mul_f16_call(a: TensorSpec, b: TensorSpec, output: TensorSpec) -> Outcome {
    binary_call(Binary::Mul, Elem::F16, "mul_f16"@, a, b, output)
}

/// `output = a * b`.
pub fn mul_f16(
    a: &TensorHip<F16>,
    b: &TensorHip<F16>,
    output: &TensorHip<F16>,
    stream: &mut Stream,
) -> (r: Result<(), HipErrorKind>)
    ensures
        Run::start(old(stream)@).call(mul_f16_call(a@, b@, output@)).agrees(final(stream)@, r),
{
    launch_binary(Binary::Mul, Elem::F16, "mul_f16", a, b, output, stream)
}

/// `output = input + bias`, the bias repeated along the input.
pub open spec fn broadcast_add_f32_call(
    input: TensorSpec,
    bias: TensorSpec,
    output: TensorSpec,
) -> Outcome {
    broadcast_call(Binary::Add, Elem::F32, "broadcast_add_f32"@, "bias"@, input, bias, output)
}

/// `output = input + bias`, the bias repeated along the input.
pub fn broadcast_add_f32(
    input: &TensorHip<F32>,
    bias: &TensorHip<F32>,
    output: &TensorHip<F32>,
    stream: &mut Stream,
) -> (r: Result<(), HipErrorKind>)
    requires
        bias@.len() > 0,
    ensures
        Run::start(old(stream)@).call(broadcast_add_f32_call(input@, bias@, output@)).agrees(
            final(stream)@,
            r,
        ),
{
    launch_broadcast(
        Binary::Add,
        Elem::F32,
        "broadcast_add_f32",
        "bias",
        input,
        bias,
        output,
        stream,
    )
}

/// `output = input + bias`, the bias repeated along the input.
pub open spec fn broadcast_add_f16_call(
    input: TensorSpec,
    bias: TensorSpec,
    output: TensorSpec,
) -> Outcome {
    broadcast_call(Binary::Add, Elem::F16, "broadcast_add_f16"@, "bias"@, input, bias, output)
}

/// `output = input + bias`, the bias repeated along the input.
pub fn broadcast_add_f16(
    input: &TensorHip<F16>,
    bias: &TensorHip<F16>,
    output: &TensorHip<F16>,
    stream: &mut Stream,
) -> (r: Result<(), HipErrorKind>)
    requires
        bias@.len() > 0,
    ensures
        Run::start(old(stream)@).call(broadcast_add_f16_call(input@, bias@, output@)).agrees(
            final(stream)@,
            r,
        ),
{
    launch_broadcast(
        Binary::Add,
        Elem::F16,
        "broadcast_add_f16",
        "bias",
        input,
        bias,
        output,
        stream,
    )
}

/// `output = input * scale`, the scale repeated along the input.
pub open spec fn broadcast_mul_f32_call(
    input: TensorSpec,
    scale: TensorSpec,
    output: TensorSpec,
) -> Outcome {
    broadcast_call(Binary::Mul, Elem::F32, "broadcast_mul_f32"@, "scale"@, input, scale, output)
}

/// `output = input * scale`, the scale repeated along the input.
pub fn broadcast_mul_f32(
    input: &TensorHip<F32>,
    scale: &TensorHip<F32>,
    output: &TensorHip<F32>,
    stream: &mut Stream,
) -> (r: Result<(), HipErrorKind>)
    requires
        scale@.len() > 0,
    ensures
        Run::start(old(stream)@).call(broadcast_mul_f32_call(input@, scale@, output@)).agrees(
            final(stream)@,
            r,
        ),
{
    launch_broadcast(
        Binary::Mul,
        Elem::F32,
        "broadcast_mul_f32",
        "scale",
        input,
        scale,
        output,
        stream,
    )
}

/// `output = input * scale`, the scale repeated along the input.
pub open spec fn broadcast_mul_f16_call(
    input: TensorSpec,
    scale: TensorSpec,
    output: TensorSpec,
) -> Outcome {
    broadcast_call(Binary::Mul, Elem::F16, "broadcast_mul_f16"@, "scale"@, input, scale, output)
}

/// `output = input * scale`, the scale repeated along the input.
pub fn broadcast_mul_f16(
    input: &TensorHip<F16>,
    scale: &TensorHip<F16>,
    output: &TensorHip<F16>,
    stream: &mut Stream,
) -> (r: Result<(), HipErrorKind>)
    requires
        scale@.len() > 0,
    ensures
        Run::start(old(stream)@).call(broadcast_mul_f16_call(input@, scale@, output@)).agrees(
            final(stream)@,
            r,
        ),
{
    launch_broadcast(
        Binary::Mul,
        Elem::F16,
        "broadcast_mul_f16",
        "scale",
        input,
        scale,
        output,
        stream,
    )
}

/// `output = a + (b - a) * t`.
pub open spec fn lerp_f32_call(
    a: TensorSpec,
    b: TensorSpec,
    t: TensorSpec,
    output: TensorSpec,
) -> Outcome {
    lerp_call(Elem::F32, "lerp_f32"@, a, b, t, output)
}

/// `output = a + (b - a) * t`.
pub fn lerp_f32(
    a: &TensorHip<F32>,
    b: &TensorHip<F32>,
    t: &TensorHip<F32>,
    output: &TensorHip<F32>,
    stream: &mut Stream,
) -> (r: Result<(), HipErrorKind>)
    ensures
        Run::start(old(stream)@).call(lerp_f32_call(a@, b@, t@, output@)).agrees(final(stream)@, r),
{
    launch_lerp(Elem::F32, "lerp_f32", a, b, t, output, stream)
}

/// `output = a + (b - a) * t`.
pub open spec fn lerp_f16_call(
    a: TensorSpec,
    b: TensorSpec,
    t: TensorSpec,
    output: TensorSpec,
) -> Outcome {
    lerp_call(Elem::F16, "lerp_f16"@, a, b, t, output)
}

/// `output = a + (b - a) * t`.
pub fn lerp_f16(
    a: &TensorHip<F16>,
    b: &TensorHip<F16>,
    t: &TensorHip<F16>,
    output: &TensorHip<F16>,
    stream: &mut Stream,
) -> (r: Result<(), HipErrorKind>)
    ensures
        Run::start(old(stream)@).call(lerp_f16_call(a@, b@, t@, output@)).agrees(final(stream)@, r),
{
    launch_lerp(Elem::F16, "lerp_f16", a, b, t, output, stream)
}

/// Widens half precision to single precision.
#[verifier::opaque]
pub open spec fn copy_f16_to_f32_call(input: TensorSpec, output: TensorSpec) -> Outcome {
    if input.len() != output.len() {
        Err(host_error(sizes_text(false, input.len(), output.len())))
    } else if !input.contiguous() || !output.contiguous() {
        Err(host_error("copy_f16_to_f32"@ + " requires contiguous tensors"@))
    } else {
        Ok(
            CommandOf::Launch(
                Launch::CopyF16ToF32 {
                    input: input.ptr(),
                    output: output.ptr(),
                    n: input.len() as i32,
                },
            ),
        )
    }
}

/// Widens half precision to single precision.
pub fn copy_f16_to_f32(
    input: &TensorHip<F16>,
    output: &TensorHip<F32>,
    stream: &mut Stream,
) -> (r: Result<(), HipErrorKind>)
    ensures
        Run::start(old(stream)@).call(copy_f16_to_f32_call(input@, output@)).agrees(
            final(stream)@,
            r,
        ),
{
    reveal(copy_f16_to_f32_call);
    if input.len() != output.len() {
        return Err(sizes_error(false, input.len(), output.len()));
    }
    if !input.is_contiguous() || !output.is_contiguous() {
        return Err(
            HipErrorKind::host(text("copy_f16_to_f32").lit(" requires contiguous tensors")),
        );
    }
    stream.launch(
        Launch::CopyF16ToF32 {
            input: input.as_ptr(),
            output: output.as_ptr(),
            n: input.len() as i32,
        },
    );
    Ok(())
}

/// Copies one buffer to another of the same length.
#[verifier::opaque]
pub open spec fn copy_f32_call(input: BufferSpec, output: BufferSpec) -> Outcome {
    if input.len != output.len {
        Err(host_error(sizes_text(false, input.len as nat, output.len as nat)))
    } else {
        Ok(
            CommandOf::Launch(
                Launch::Unary {
                    op: Unary::Copy,
                    elem: Elem::F32,
                    input: input.ptr,
                    output: output.ptr,
                    n: input.len as i32,
                },
            ),
        )
    }
}

/// Copies one buffer to another of the same length.
pub fn copy_f32(
    input: &DeviceBuffer<F32>,
    output: &DeviceBuffer<F32>,
    stream: &mut Stream,
) -> (r: Result<(), HipErrorKind>)
    ensures
        Run::start(old(stream)@).call(copy_f32_call(input@, output@)).agrees(final(stream)@, r),
{
    reveal(copy_f32_call);
    if input.len() != output.len() {
        return Err(sizes_error(false, input.len(), output.len()));
    }
    stream.launch(
        Launch::Unary {
            op: Unary::Copy,
            elem: Elem::F32,
            input: input.as_ptr(),
            output: output.as_ptr(),
            n: input.len() as i32,
        },
    );
    Ok(())
}

/// Uploads `input`, maps it with a kernel and asks for what comes out.
pub open spec fn map_host(s: Run, input: Seq<u32>, call: spec_fn(TensorSpec, TensorSpec) -> Outcome) -> Run {
    let shape = TensorShape::of(input.len() as usize, 1, 1, 1);
    let d_input = s.fresh(shape);
    let s = s.filled(DataSpec::F32(input), shape, MemoryType::Device);
    let d_output = s.fresh(shape);
    s.allocated(Elem::F32, shape, MemoryType::Device, false).call(
        call(d_input, d_output),
    ).download::<F32>(d_output)
}

/// `exp(-exp(input))` of host values, on the device; the answer is what the last command downloads.
pub fn hip_decay_exp(input: &[u32], stream: &mut Stream) -> (r: Result<(), HipErrorKind>)
    ensures
        map_host(
            Run::start(old(stream)@),
            input@,
            |d_input: TensorSpec, d_output: TensorSpec| decay_exp_f32_call(d_input, d_output),
        ).agrees(final(stream)@, r),
{
    proof {
        lemma_matrix_fits(input@.len() as usize, 1);
    }
    let shape = TensorShape::new(input.len(), 1, 1, 1);
    let d_input: TensorHip<F32> = TensorHip::from_host(
        HostData::F32(slice_to_vec(input)),
        shape,
        stream,
    )?;
    let d_output: TensorHip<F32> = TensorHip::new(shape, stream)?;
    decay_exp_f32(&d_input, &d_output, stream)?;
    d_output.download(stream);
    Ok(())
}

/// The logistic function of host values, on the device; the answer is what the last command downloads.
pub fn hip_sigmoid(input: &[u32], stream: &mut Stream) -> (r: Result<(), HipErrorKind>)
    ensures
        map_host(
            Run::start(old(stream)@),
            input@,
            |d_input: TensorSpec, d_output: TensorSpec| sigmoid_f32_call(d_input, d_output),
        ).agrees(final(stream)@, r),
{
    proof {
        lemma_matrix_fits(input@.len() as usize, 1);
    }
    let shape = TensorShape::new(input.len(), 1, 1, 1);
    let d_input: TensorHip<F32> = TensorHip::from_host(
        HostData::F32(slice_to_vec(input)),
        shape,
        stream,
    )?;
    let d_output: TensorHip<F32> = TensorHip::new(shape, stream)?;
    sigmoid_f32(&d_input, &d_output, stream)?;
    d_output.download(stream);
    Ok(())
}

/// `max(input, 0)^2` of host values, on the device; the answer is what the last command downloads.
pub fn hip_squared_relu(input: &[u32], stream: &mut Stream) -> (r: Result<(), HipErrorKind>)
    ensures
        map_host(
            Run::start(old(stream)@),
            input@,
            |d_input: TensorSpec, d_output: TensorSpec| squared_relu_f32_call(d_input, d_output),
        ).agrees(final(stream)@, r),
{
    proof {
        lemma_matrix_fits(input@.len() as usize, 1);
    }
    let shape = TensorShape::new(input.len(), 1, 1, 1);
    let d_input: TensorHip<F32> = TensorHip::from_host(
        HostData::F32(slice_to_vec(input)),
        shape,
        stream,
    )?;
    let d_output: TensorHip<F32> = TensorHip::new(shape, stream)?;
    squared_relu_f32(&d_input, &d_output, stream)?;
    d_output.download(stream);
    Ok(())
}

/// `-softplus(-input) - 0.5` of host values, on the device; the answer is what the last command downloads.
pub fn hip_softplus_decay(input: &[u32], stream: &mut Stream) -> (r: Result<(), HipErrorKind>)
    ensures
        map_host(
            Run::start(old(stream)@),
            input@,
            |d_input: TensorSpec, d_output: TensorSpec| softplus_decay_f32_call(d_input, d_output),
        ).agrees(final(stream)@, r),
{
    proof {
        lemma_matrix_fits(input@.len() as usize, 1);
    }
    let shape = TensorShape::new(input.len(), 1, 1, 1);
    let d_input: TensorHip<F32> = TensorHip::from_host(
        HostData::F32(slice_to_vec(input)),
        shape,
        stream,
    )?;
    let d_output: TensorHip<F32> = TensorHip::new(shape, stream)?;
    softplus_decay_f32(&d_input, &d_output, stream)?;
    d_output.download(stream);
    Ok(())
}

/// The hyperbolic tangent of host values, on the device; the answer is what the last command downloads.
pub fn hip_tanh(input: &[u32], stream: &mut Stream) -> (r: Result<(), HipErrorKind>)
    ensures
        map_host(
            Run::start(old(stream)@),
            input@,
            |d_input: TensorSpec, d_output: TensorSpec| tanh_f32_call(d_input, d_output),
        ).agrees(final(stream)@, r),
{
    proof {
        lemma_matrix_fits(input@.len() as usize, 1);
    }
    let shape = TensorShape::new(input.len(), 1, 1, 1);
    let d_input: TensorHip<F32> = TensorHip::from_host(
        HostData::F32(slice_to_vec(input)),
        shape,
        stream,
    )?;
    let d_output: TensorHip<F32> = TensorHip::new(shape, stream)?;
    tanh_f32(&d_input, &d_output, stream)?;
    d_output.download(stream);
    Ok(())
}

/// Copies host values through two device buffers and back.
pub open spec fn hip_copy_kernel_run(s: Run, input: Seq<u32>) -> Run {
    let n = input.len() as usize;
    let d_input = buffer_at(s, n);
    let s = buffer_run::<F32>(s, n);
    let d_output = buffer_at(s, n);
    let s = buffer_run::<F32>(s, n);
    let s = copy_in(s, DataSpec::F32(input), d_input).call(copy_f32_call(d_input, d_output));
    copy_out::<F32>(s, d_output, input.len()).emit(CommandOf::Synchronize)
}

/// Copies host values through two device buffers and back; the answer is what the last
/// transfer downloads.
pub fn hip_copy_kernel(input: &[u32], stream: &mut Stream) -> (r: Result<(), HipErrorKind>)
    ensures
        hip_copy_kernel_run(Run::start(old(stream)@), input@).agrees(final(stream)@, r),
{
    let d_input: DeviceBuffer<F32> = DeviceBuffer::new(input.len(), stream)?;
    let d_output: DeviceBuffer<F32> = DeviceBuffer::new(input.len(), stream)?;
    d_input.copy_from_host(HostData::F32(slice_to_vec(input)), stream)?;
    copy_f32(&d_input, &d_output, stream)?;
    d_output.copy_to_host(input.len(), stream)?;
    stream.push(CommandOf::Synchronize);
    Ok(())
}

/// Interpolates between host values on the device; the answer is what the last command
/// downloads.
pub open spec fn hip_lerp_run(s: Run, a: Seq<u32>, b: Seq<u32>, t: Seq<u32>) -> Run {
    if a.len() != b.len() || a.len() != t.len() {
        s.check(
            Some(
                host_error(
                    "Size mismatch: a="@ + decimal(a.len()) + ", b="@ + decimal(b.len())
                        + ", t="@ + decimal(t.len()),
                ),
            ),
        )
    } else {
        let shape = TensorShape::of(a.len() as usize, 1, 1, 1);
        let d_a = s.fresh(shape);
        let s = s.filled(DataSpec::F32(a), shape, MemoryType::Device);
        let d_b = s.fresh(shape);
        let s = s.filled(DataSpec::F32(b), shape, MemoryType::Device);
        let d_t = s.fresh(shape);
        let s = s.filled(DataSpec::F32(t), shape, MemoryType::Device);
        let d_output = s.fresh(shape);
        s.allocated(Elem::F32, shape, MemoryType::Device, false).call(
            lerp_f32_call(d_a, d_b, d_t, d_output),
        ).download::<F32>(d_output)
    }
}

/// Interpolates between host values on the device; the answer is what the last command
/// downloads.
pub fn hip_lerp(a: &[u32], b: &[u32], t: &[u32], stream: &mut Stream) -> (r: Result<
    (),
    HipErrorKind,
>)
    ensures
        hip_lerp_run(Run::start(old(stream)@), a@, b@, t@).agrees(final(stream)@, r),
{
    if a.len() != b.len() || a.len() != t.len() {
        return Err(
            HipErrorKind::host(
                text("Size mismatch: a=").num(a.len()).lit(", b=").num(b.len()).lit(", t=").num(
                    t.len(),
                ),
            ),
        );
    }
    proof {
        lemma_matrix_fits(a@.len() as usize, 1);
    }
    let shape = TensorShape::new(a.len(), 1, 1, 1);
    let d_a: TensorHip<F32> = TensorHip::from_host(HostData::F32(slice_to_vec(a)), shape, stream)?;
    let d_b: TensorHip<F32> = TensorHip::from_host(HostData::F32(slice_to_vec(b)), shape, stream)?;
    let d_t: TensorHip<F32> = TensorHip::from_host(HostData::F32(slice_to_vec(t)), shape, stream)?;
    let d_output: TensorHip<F32> = TensorHip::new(shape, stream)?;
    lerp_f32(&d_a, &d_b, &d_t, &d_output, stream)?;
    d_output.download(stream);
    Ok(())
}

} // verus!
