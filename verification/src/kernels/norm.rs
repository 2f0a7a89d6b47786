//! Normalisation kernels.
use crate::buffer::MemoryType;
use crate::error::{host_error, ErrorSpec, HipErrorKind};
use crate::launch::Launch;
use crate::stream::{CommandOf, DataSpec, Elem, HostData, Outcome, Run, Stream};
use crate::tensor::{lemma_matrix_fits, TensorHip, TensorShape, TensorSpec, F16, F32};
use crate::text::{decimal, text};
use vstd::prelude::*;
use vstd::slice::slice_to_vec;

verus! {

broadcast use Run::lemma_allocated;

/// The message for an output that differs from the input in its channels or vectors.
pub open spec fn vectors_error(input: TensorSpec, output: TensorSpec) -> ErrorSpec {
    host_error(
        "Output shape mismatch: expected C="@ + decimal(input.shape().d0 as nat) + " with "@
            + decimal(input.shape().vectors()) + " vectors, got "@ + output.shape().text()
            + " with "@ + decimal(output.shape().vectors()) + " vectors"@,
    )
}

/// Whether the output has the channels and the number of vectors of the input.
pub open spec fn same_vectors(input: TensorSpec, output: TensorSpec) -> bool {
    output.shape().d0 == input.shape().d0 && output.shape().vectors() == input.shape().vectors()
}

fn vectors_mismatch<T>(input: &TensorHip<T>, output: &TensorHip<T>) -> (e: HipErrorKind)
    ensures
        e@ == vectors_error(input@, output@),
{
    HipErrorKind::host(
        text("Output shape mismatch: expected C=").num(input.shape().d0).lit(" with ").num(
            input.shape().vector_count(),
        ).lit(" vectors, got ").shape(output.shape()).lit(" with ").num(
            output.shape().vector_count(),
        ).lit(" vectors"),
    )
}

/// Normalises each vector along axis 0, then scales and shifts it by channel.
#[verifier::opaque]
pub open spec fn layer_norm_f32_call(
    input: TensorSpec,
    weight: TensorSpec,
    bias: TensorSpec,
    output: TensorSpec,
    eps: u32,
) -> Outcome {
    if !same_vectors(input, output) {
        Err(vectors_error(input, output))
    } else if weight.shape().d0 != input.shape().d0 || bias.shape().d0 != input.shape().d0 {
        Err(
            host_error(
                "Weight/bias shape mismatch: expected ["@ + decimal(input.shape().d0 as nat)
                    + ", 1, 1, 1], got weight="@ + weight.shape().text() + ", bias="@
                    + bias.shape().text(),
            ),
        )
    } else if !input.contiguous() || !output.contiguous() {
        Err(host_error("layer_norm_f32 requires contiguous tensors"@))
    } else {
        Ok(
            CommandOf::Launch(
                Launch::LayerNorm {
                    elem: Elem::F32,
                    input: input.ptr(),
                    weight: weight.ptr(),
                    bias: bias.ptr(),
                    output: output.ptr(),
                    c: input.shape().d0 as i32,
                    n: input.shape().vectors() as i32,
                    eps,
                },
            ),
        )
    }
}

/// Normalises each vector along axis 0, then scales and shifts it by channel.
pub fn layer_norm_f32(
    input: &TensorHip<F32>,
    weight: &TensorHip<F32>,
    bias: &TensorHip<F32>,
    output: &TensorHip<F32>,
    eps: u32,
    stream: &mut Stream,
) -> (r: Result<(), HipErrorKind>)
    ensures
        Run::start(old(stream)@).call(
            layer_norm_f32_call(input@, weight@, bias@, output@, eps),
        ).agrees(final(stream)@, r),
{
    reveal(layer_norm_f32_call);
    let c: usize = input.shape().d0;
    let n: usize = input.shape().vector_count();
    if output.shape().d0 != c || output.shape().vector_count() != n {
        return Err(vectors_mismatch(input, output));
    }
    if weight.shape().d0 != c || bias.shape().d0 != c {
        return Err(
            HipErrorKind::host(
                text("Weight/bias shape mismatch: expected [").num(c).lit(
                    ", 1, 1, 1], got weight=",
                ).shape(weight.shape()).lit(", bias=").shape(bias.shape()),
            ),
        );
    }
    if !input.is_contiguous() || !output.is_contiguous() {
        return Err(HipErrorKind::host(text("layer_norm_f32 requires contiguous tensors")));
    }
    stream.launch(
        Launch::LayerNorm {
            elem: Elem::F32,
            input: input.as_ptr(),
            weight: weight.as_ptr(),
            bias: bias.as_ptr(),
            output: output.as_ptr(),
            c: c as i32,
            n: n as i32,
            eps,
        },
    );
    Ok(())
}

/// Normalises each vector along axis 0, then scales and shifts it by channel.
#[verifier::opaque]
pub open spec fn layer_norm_f16_call(
    input: TensorSpec,
    weight: TensorSpec,
    bias: TensorSpec,
    output: TensorSpec,
    eps: u32,
) -> Outcome {
    if input.len() != output.len() || weight.len() != input.shape().d0 || bias.len()
        != input.shape().d0 {
        Err(host_error("layer_norm_f16 shape mismatch"@))
    } else if !input.contiguous() || !output.contiguous() || !weight.contiguous()
        || !bias.contiguous() {
        Err(host_error("layer_norm_f16 requires contiguous tensors"@))
    } else {
        Ok(
            CommandOf::Launch(
                Launch::LayerNorm {
                    elem: Elem::F16,
                    input: input.ptr(),
                    weight: weight.ptr(),
                    bias: bias.ptr(),
                    output: output.ptr(),
                    c: input.shape().d0 as i32,
                    n: input.shape().vectors() as i32,
                    eps,
                },
            ),
        )
    }
}

/// Normalises each vector along axis 0, then scales and shifts it by channel.
pub fn layer_norm_f16(
    input: &TensorHip<F16>,
    weight: &TensorHip<F16>,
    bias: &TensorHip<F16>,
    output: &TensorHip<F16>,
    eps: u32,
    stream: &mut Stream,
) -> (r: Result<(), HipErrorKind>)
    ensures
        Run::start(old(stream)@).call(
            layer_norm_f16_call(input@, weight@, bias@, output@, eps),
        ).agrees(final(stream)@, r),
{
    reveal(layer_norm_f16_call);
    let shape = input.shape();
    if input.len() != output.len() || weight.len() != shape.d0 || bias.len() != shape.d0 {
        return Err(HipErrorKind::host(text("layer_norm_f16 shape mismatch")));
    }
    if !input.is_contiguous() || !output.is_contiguous() || !weight.is_contiguous()
        || !bias.is_contiguous() {
        return Err(HipErrorKind::host(text("layer_norm_f16 requires contiguous tensors")));
    }
    stream.launch(
        Launch::LayerNorm {
            elem: Elem::F16,
            input: input.as_ptr(),
            weight: weight.as_ptr(),
            bias: bias.as_ptr(),
            output: output.as_ptr(),
            c: shape.d0 as i32,
            n: shape.vector_count() as i32,
            eps,
        },
    );
    Ok(())
}

/// Normalises the channels of each vector within equal groups, then scales and shifts them.
#[verifier::opaque]
pub open spec fn group_norm_f32_call(
    input: TensorSpec,
    weight: TensorSpec,
    bias: TensorSpec,
    output: TensorSpec,
    num_groups: usize,
    eps: u32,
) -> Outcome {
    if input.shape().d0 % num_groups != 0 {
        Err(
            host_error(
                "Channel count "@ + decimal(input.shape().d0 as nat)
                    + " must be divisible by num_groups "@ + decimal(num_groups as nat),
            ),
        )
    } else if !same_vectors(input, output) {
        Err(vectors_error(input, output))
    } else if !input.contiguous() || !output.contiguous() {
        Err(host_error("group_norm_f32 requires contiguous tensors"@))
    } else {
        Ok(
            CommandOf::Launch(
                Launch::GroupNorm {
                    elem: Elem::F32,
                    input: input.ptr(),
                    weight: weight.ptr(),
                    bias: bias.ptr(),
                    output: output.ptr(),
                    c: input.shape().d0 as i32,
                    n: input.shape().vectors() as i32,
                    groups: num_groups as i32,
                    eps,
                },
            ),
        )
    }
}

/// Normalises the channels of each vector within equal groups, then scales and shifts them.
pub fn group_norm_f32(
    input: &TensorHip<F32>,
    weight: &TensorHip<F32>,
    bias: &TensorHip<F32>,
    output: &TensorHip<F32>,
    num_groups: usize,
    eps: u32,
    stream: &mut Stream,
) -> (r: Result<(), HipErrorKind>)
    requires
        num_groups > 0,
    ensures
        Run::start(old(stream)@).call(
            group_norm_f32_call(input@, weight@, bias@, output@, num_groups, eps),
        ).agrees(final(stream)@, r),
{
    reveal(group_norm_f32_call);
    let c: usize = input.shape().d0;
    let n: usize = input.shape().vector_count();
    if c % num_groups != 0 {
        return Err(
            HipErrorKind::host(
                text("Channel count ").num(c).lit(" must be divisible by num_groups ").num(
                    num_groups,
                ),
            ),
        );
    }
    if output.shape().d0 != c || output.shape().vector_count() != n {
        return Err(vectors_mismatch(input, output));
    }
    if !input.is_contiguous() || !output.is_contiguous() {
        return Err(HipErrorKind::host(text("group_norm_f32 requires contiguous tensors")));
    }
    stream.launch(
        Launch::GroupNorm {
            elem: Elem::F32,
            input: input.as_ptr(),
            weight: weight.as_ptr(),
            bias: bias.as_ptr(),
            output: output.as_ptr(),
            c: c as i32,
            n: n as i32,
            groups: num_groups as i32,
            eps,
        },
    );
    Ok(())
}

/// Normalises the channels of each vector within equal groups, then scales and shifts them.
#[verifier::opaque]
pub open spec fn group_norm_f16_call(
    input: TensorSpec,
    weight: TensorSpec,
    bias: TensorSpec,
    output: TensorSpec,
    num_groups: usize,
    eps: u32,
) -> Outcome {
    if input.shape().d0 % num_groups != 0 {
        Err(
            host_error(
                "Channel count "@ + decimal(input.shape().d0 as nat)
                    + " must be divisible by num_groups "@ + decimal(num_groups as nat),
            ),
        )
    } else if !same_vectors(input, output) {
        Err(vectors_error(input, output))
    } else if !input.contiguous() || !output.contiguous() {
        Err(host_error("group_norm_f16 requires contiguous tensors"@))
    } else {
        Ok(
            CommandOf::Launch(
                Launch::GroupNorm {
                    elem: Elem::F16,
                    input: input.ptr(),
                    weight: weight.ptr(),
                    bias: bias.ptr(),
                    output: output.ptr(),
                    c: input.shape().d0 as i32,
                    n: input.shape().vectors() as i32,
                    groups: num_groups as i32,
                    eps,
                },
            ),
        )
    }
}

/// Normalises the channels of each vector within equal groups, then scales and shifts them.
pub fn group_norm_f16(
    input: &TensorHip<F16>,
    weight: &TensorHip<F16>,
    bias: &TensorHip<F16>,
    output: &TensorHip<F16>,
    num_groups: usize,
    eps: u32,
    stream: &mut Stream,
) -> (r: Result<(), HipErrorKind>)
    requires
        num_groups > 0,
    ensures
        Run::start(old(stream)@).call(
            group_norm_f16_call(input@, weight@, bias@, output@, num_groups, eps),
        ).agrees(final(stream)@, r),
{
    reveal(group_norm_f16_call);
    let c: usize = input.shape().d0;
    let n: usize = input.shape().vector_count();
    if c % num_groups != 0 {
        return Err(
            HipErrorKind::host(
                text("Channel count ").num(c).lit(" must be divisible by num_groups ").num(
                    num_groups,
                ),
            ),
        );
    }
    if output.shape().d0 != c || output.shape().vector_count() != n {
        return Err(vectors_mismatch(input, output));
    }
    if !input.is_contiguous() || !output.is_contiguous() {
        return Err(HipErrorKind::host(text("group_norm_f16 requires contiguous tensors")));
    }
    stream.launch(
        Launch::GroupNorm {
            elem: Elem::F16,
            input: input.as_ptr(),
            weight: weight.as_ptr(),
            bias: bias.as_ptr(),
            output: output.as_ptr(),
            c: c as i32,
            n: n as i32,
            groups: num_groups as i32,
            eps,
        },
    );
    Ok(())
}

/// Brings each head of each vector to unit length.
#[verifier::opaque]
pub open spec fn l2_norm_f32_call(
    input: TensorSpec,
    output: TensorSpec,
    head_size: usize,
    eps: u32,
) -> Outcome {
    if input.shape().d0 % head_size != 0 {
        Err(
            host_error(
                "Channel count "@ + decimal(input.shape().d0 as nat)
                    + " must be divisible by head_size "@ + decimal(head_size as nat),
            ),
        )
    } else if !same_vectors(input, output) {
        Err(vectors_error(input, output))
    } else if !input.contiguous() || !output.contiguous() {
        Err(host_error("l2_norm_f32 requires contiguous tensors"@))
    } else {
        Ok(
            CommandOf::Launch(
                Launch::L2Norm {
                    elem: Elem::F32,
                    input: input.ptr(),
                    output: output.ptr(),
                    c: input.shape().d0 as i32,
                    n: input.shape().vectors() as i32,
                    head_size: head_size as i32,
                    eps,
                },
            ),
        )
    }
}

/// Brings each head of each vector to unit length.
pub fn l2_norm_f32(
    input: &TensorHip<F32>,
    output: &TensorHip<F32>,
    head_size: usize,
    eps: u32,
    stream: &mut Stream,
) -> (r: Result<(), HipErrorKind>)
    requires
        head_size > 0,
    ensures
        Run::start(old(stream)@).call(l2_norm_f32_call(input@, output@, head_size, eps)).agrees(
            final(stream)@,
            r,
        ),
{
    reveal(l2_norm_f32_call);
    let c: usize = input.shape().d0;
    let n: usize = input.shape().vector_count();
    if c % head_size != 0 {
        return Err(
            HipErrorKind::host(
                text("Channel count ").num(c).lit(" must be divisible by head_size ").num(
                    head_size,
                ),
            ),
        );
    }
    if output.shape().d0 != c || output.shape().vector_count() != n {
        return Err(vectors_mismatch(input, output));
    }
    if !input.is_contiguous() || !output.is_contiguous() {
        return Err(HipErrorKind::host(text("l2_norm_f32 requires contiguous tensors")));
    }
    stream.launch(
        Launch::L2Norm {
            elem: Elem::F32,
            input: input.as_ptr(),
            output: output.as_ptr(),
            c: c as i32,
            n: n as i32,
            head_size: head_size as i32,
            eps,
        },
    );
    Ok(())
}

/// Brings each head of each vector to unit length.
#[verifier::opaque]
pub open spec fn l2_norm_f16_call(
    input: TensorSpec,
    output: TensorSpec,
    head_size: usize,
    eps: u32,
) -> Outcome {
    if input.shape().d0 % head_size != 0 {
        Err(
            host_error(
                "Channel count "@ + decimal(input.shape().d0 as nat)
                    + " must be divisible by head_size "@ + decimal(head_size as nat),
            ),
        )
    } else if !same_vectors(input, output) {
        Err(vectors_error(input, output))
    } else if !input.contiguous() || !output.contiguous() {
        Err(host_error("l2_norm_f16 requires contiguous tensors"@))
    } else {
        Ok(
            CommandOf::Launch(
                Launch::L2Norm {
                    elem: Elem::F16,
                    input: input.ptr(),
                    output: output.ptr(),
                    c: input.shape().d0 as i32,
                    n: input.shape().vectors() as i32,
                    head_size: head_size as i32,
                    eps,
                },
            ),
        )
    }
}

/// Brings each head of each vector to unit length.
pub fn l2_norm_f16(
    input: &TensorHip<F16>,
    output: &TensorHip<F16>,
    head_size: usize,
    eps: u32,
    stream: &mut Stream,
) -> (r: Result<(), HipErrorKind>)
    requires
        head_size > 0,
    ensures
        Run::start(old(stream)@).call(l2_norm_f16_call(input@, output@, head_size, eps)).agrees(
            final(stream)@,
            r,
        ),
{
    reveal(l2_norm_f16_call);
    let c: usize = input.shape().d0;
    let n: usize = input.shape().vector_count();
    if c % head_size != 0 {
        return Err(
            HipErrorKind::host(
                text("Channel count ").num(c).lit(" must be divisible by head_size ").num(
                    head_size,
                ),
            ),
        );
    }
    if output.shape().d0 != c || output.shape().vector_count() != n {
        return Err(vectors_mismatch(input, output));
    }
    if !input.is_contiguous() || !output.is_contiguous() {
        return Err(HipErrorKind::host(text("l2_norm_f16 requires contiguous tensors")));
    }
    stream.launch(
        Launch::L2Norm {
            elem: Elem::F16,
            input: input.as_ptr(),
            output: output.as_ptr(),
            c: c as i32,
            n: n as i32,
            head_size: head_size as i32,
            eps,
        },
    );
    Ok(())
}

/// Layer normalisation of host values, on the device.
pub open spec fn hip_layer_norm_run(
    s: Run,
    input: Seq<u32>,
    weight: Seq<u32>,
    bias: Seq<u32>,
    c: usize,
    n: usize,
    eps: u32,
) -> Run {
    if input.len() != c * n {
        s.check(
            Some(
                host_error(
                    "Input size mismatch: expected "@ + decimal((c * n) as nat) + " ("@ + decimal(
                        c as nat,
                    ) + "*"@ + decimal(n as nat) + "), got "@ + decimal(input.len()),
                ),
            ),
        )
    } else if weight.len() != c || bias.len() != c {
        s.check(
            Some(
                host_error(
                    "Weight/bias size mismatch: expected "@ + decimal(c as nat)
                        + ", got weight="@ + decimal(weight.len()) + ", bias="@ + decimal(
                        bias.len(),
                    ),
                ),
            ),
        )
    } else {
        let shape = TensorShape::of(c, n, 1, 1);
        let param = TensorShape::of(c, 1, 1, 1);
        let d_input = s.fresh(shape);
        let s = s.filled(DataSpec::F32(input), shape, MemoryType::Device);
        let d_weight = s.fresh(param);
        let s = s.filled(DataSpec::F32(weight), param, MemoryType::Device);
        let d_bias = s.fresh(param);
        let s = s.filled(DataSpec::F32(bias), param, MemoryType::Device);
        let d_output = s.fresh(shape);
        s.allocated(Elem::F32, shape, MemoryType::Device, false).call(
            layer_norm_f32_call(d_input, d_weight, d_bias, d_output, eps),
        ).download::<F32>(d_output)
    }
}

/// Layer normalisation of host values, on the device; the answer is what the last command
/// downloads.
pub fn hip_layer_norm(
    input: &[u32],
    weight: &[u32],
    bias: &[u32],
    c: usize,
    n: usize,
    eps: u32,
    stream: &mut Stream,
) -> (r: Result<(), HipErrorKind>)
    requires
        c * n <= usize::MAX,
    ensures
        hip_layer_norm_run(Run::start(old(stream)@), input@, weight@, bias@, c, n, eps).agrees(
            final(stream)@,
            r,
        ),
{
    if input.len() != c * n {
        return Err(
            HipErrorKind::host(
                text("Input size mismatch: expected ").num(c * n).lit(" (").num(c).lit("*").num(
                    n,
                ).lit("), got ").num(input.len()),
            ),
        );
    }
    if weight.len() != c || bias.len() != c {
        return Err(
            HipErrorKind::host(
                text("Weight/bias size mismatch: expected ").num(c).lit(", got weight=").num(
                    weight.len(),
                ).lit(", bias=").num(bias.len()),
            ),
        );
    }
    proof {
        lemma_matrix_fits(c, n);
        lemma_matrix_fits(c, 1);
    }
    let shape = TensorShape::new(c, n, 1, 1);
    let param = TensorShape::new(c, 1, 1, 1);
    let d_input: TensorHip<F32> = TensorHip::from_host(
        HostData::F32(slice_to_vec(input)),
        shape,
        stream,
    )?;
    let d_weight: TensorHip<F32> = TensorHip::from_host(
        HostData::F32(slice_to_vec(weight)),
        param,
        stream,
    )?;
    let d_bias: TensorHip<F32> = TensorHip::from_host(
        HostData::F32(slice_to_vec(bias)),
        param,
        stream,
    )?;
    let d_output: TensorHip<F32> = TensorHip::new(shape, stream)?;
    layer_norm_f32(&d_input, &d_weight, &d_bias, &d_output, eps, stream)?;
    d_output.download(stream);
    Ok(())
}

/// Group normalisation of host values, on the device.
pub open spec fn hip_group_norm_run(
    s: Run,
    input: Seq<u32>,
    weight: Seq<u32>,
    bias: Seq<u32>,
    c: usize,
    n: usize,
    num_groups: usize,
    eps: u32,
) -> Run {
    if input.len() != c * n {
        s.check(
            Some(
                host_error(
                    "Input size mismatch: expected "@ + decimal((c * n) as nat) + ", got "@
                        + decimal(input.len()),
                ),
            ),
        )
    } else if weight.len() != c || bias.len() != c {
        s.check(
            Some(host_error("Weight/bias size mismatch: expected "@ + decimal(c as nat))),
        )
    } else {
        let shape = TensorShape::of(c, n, 1, 1);
        let param = TensorShape::of(c, 1, 1, 1);
        let d_input = s.fresh(shape);
        let s = s.filled(DataSpec::F32(input), shape, MemoryType::Device);
        let d_weight = s.fresh(param);
        let s = s.filled(DataSpec::F32(weight), param, MemoryType::Device);
        let d_bias = s.fresh(param);
        let s = s.filled(DataSpec::F32(bias), param, MemoryType::Device);
        let d_output = s.fresh(shape);
        s.allocated(Elem::F32, shape, MemoryType::Device, false).call(
            group_norm_f32_call(d_input, d_weight, d_bias, d_output, num_groups, eps),
        ).download::<F32>(d_output)
    }
}

/// Group normalisation of host values, on the device; the answer is what the last command
/// downloads.
pub fn hip_group_norm(
    input: &[u32],
    weight: &[u32],
    bias: &[u32],
    c: usize,
    n: usize,
    num_groups: usize,
    eps: u32,
    stream: &mut Stream,
) -> (r: Result<(), HipErrorKind>)
    requires
        c * n <= usize::MAX,
        num_groups > 0,
    ensures
        hip_group_norm_run(
            Run::start(old(stream)@),
            input@,
            weight@,
            bias@,
            c,
            n,
            num_groups,
            eps,
        ).agrees(final(stream)@, r),
{
    if input.len() != c * n {
        return Err(
            HipErrorKind::host(
                text("Input size mismatch: expected ").num(c * n).lit(", got ").num(input.len()),
            ),
        );
    }
    if weight.len() != c || bias.len() != c {
        return Err(HipErrorKind::host(text("Weight/bias size mismatch: expected ").num(c)));
    }
    proof {
        lemma_matrix_fits(c, n);
        lemma_matrix_fits(c, 1);
    }
    let shape = TensorShape::new(c, n, 1, 1);
    let param = TensorShape::new(c, 1, 1, 1);
    let d_input: TensorHip<F32> = TensorHip::from_host(
        HostData::F32(slice_to_vec(input)),
        shape,
        stream,
    )?;
    let d_weight: TensorHip<F32> = TensorHip::from_host(
        HostData::F32(slice_to_vec(weight)),
        param,
        stream,
    )?;
    let d_bias: TensorHip<F32> = TensorHip::from_host(
        HostData::F32(slice_to_vec(bias)),
        param,
        stream,
    )?;
    let d_output: TensorHip<F32> = TensorHip::new(shape, stream)?;
    group_norm_f32(&d_input, &d_weight, &d_bias, &d_output, num_groups, eps, stream)?;
    d_output.download(stream);
    Ok(())
}

/// L2 normalisation of host values, on the device.
pub open spec fn hip_l2_norm_run(
    s: Run,
    input: Seq<u32>,
    c: usize,
    n: usize,
    head_size: usize,
    eps: u32,
) -> Run {
    if input.len() != c * n {
        s.check(
            Some(
                host_error(
                    "Input size mismatch: expected "@ + decimal((c * n) as nat) + ", got "@
                        + decimal(input.len()),
                ),
            ),
        )
    } else {
        let shape = TensorShape::of(c, n, 1, 1);
        let d_input = s.fresh(shape);
        let s = s.filled(DataSpec::F32(input), shape, MemoryType::Device);
        let d_output = s.fresh(shape);
        s.allocated(Elem::F32, shape, MemoryType::Device, false).call(
            l2_norm_f32_call(d_input, d_output, head_size, eps),
        ).download::<F32>(d_output)
    }
}

/// L2 normalisation of host values, on the device; the answer is what the last command
/// downloads.
pub fn hip_l2_norm(
    input: &[u32],
    c: usize,
    n: usize,
    head_size: usize,
    eps: u32,
    stream: &mut Stream,
) -> (r: Result<(), HipErrorKind>)
    requires
        c * n <= usize::MAX,
        head_size > 0,
    ensures
        hip_l2_norm_run(Run::start(old(stream)@), input@, c, n, head_size, eps).agrees(
            final(stream)@,
            r,
        ),
{
    if input.len() != c * n {
        return Err(
            HipErrorKind::host(
                text("Input size mismatch: expected ").num(c * n).lit(", got ").num(input.len()),
            ),
        );
    }
    proof {
        lemma_matrix_fits(c, n);
        lemma_matrix_fits(c, 1);
    }
    let shape = TensorShape::new(c, n, 1, 1);
    let d_input: TensorHip<F32> = TensorHip::from_host(
        HostData::F32(slice_to_vec(input)),
        shape,
        stream,
    )?;
    let d_output: TensorHip<F32> = TensorHip::new(shape, stream)?;
    l2_norm_f32(&d_input, &d_output, head_size, eps, stream)?;
    d_output.download(stream);
    Ok(())
}

} // verus!
