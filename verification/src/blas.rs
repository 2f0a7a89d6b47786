//! Matrix products.
use crate::buffer::MemoryType;
use crate::error::{host_error, HipErrorKind};
use crate::launch::{Gemm, Launch};
use crate::stream::{
    null_stream, own_stream, CommandOf, CommandSpec, DataSpec, Elem, HostData, Outcome, Run, Stream,
    StreamSpec,
};
use crate::tensor::{fill_error, lemma_matrix_fits, TensorHip, TensorShape, TensorSpec, F16, F32};
use crate::text::{decimal, signed_decimal, text};
use vstd::prelude::*;
use vstd::slice::slice_to_vec;

verus! {

broadcast use Run::lemma_allocated;

/// `output = weight * input`: the rows of the input are the columns of the weight.
#[verifier::opaque]
pub open spec fn gemm_call(
    kernel: Gemm,
    name: Seq<char>,
    weight: TensorSpec,
    input: TensorSpec,
    output: TensorSpec,
) -> Outcome {
    let k = weight.shape().d1 as i32;
    if input.shape().d0 as i32 != k {
        Err(
            host_error(
                name + " dimension mismatch: weight has K="@ + signed_decimal(k as int)
                    + ", input has K="@ + decimal(input.shape().d0 as nat),
            ),
        )
    } else {
        Ok(
            CommandOf::Launch(
                Launch::Gemm {
                    kernel,
                    m: weight.shape().d0 as i32,
                    n: input.shape().d1 as i32,
                    k,
                    weight: weight.ptr(),
                    input: input.ptr(),
                    output: output.ptr(),
                },
            ),
        )
    }
}

fn launch_gemm<T>(
    kernel: Gemm,
    name: &str,
    weight: &TensorHip<T>,
    input: &TensorHip<T>,
    output: &TensorHip<T>,
    stream: &mut Stream,
) -> (r: Result<(), HipErrorKind>)
    ensures
        Run::start(old(stream)@).call(
            gemm_call(kernel, name@, weight@, input@, output@),
        ).agrees(final(stream)@, r),
{
    reveal(gemm_call);
    let m: i32 = weight.shape().d0 as i32;
    let k: i32 = weight.shape().d1 as i32;
    let n: i32 = input.shape().d1 as i32;
    if input.shape().d0 as i32 != k {
        return Err(
            HipErrorKind::host(
                text(name).lit(" dimension mismatch: weight has K=").signed(k).lit(
                    ", input has K=",
                ).num(input.shape().d0),
            ),
        );
    }
    stream.launch(
        Launch::Gemm {
            kernel,
            m,
            n,
            k,
            weight: weight.as_ptr(),
            input: input.as_ptr(),
            output: output.as_ptr(),
        },
    );
    Ok(())
}

/// `output = weight * input` in half precision.
pub open spec fn hgemm_f16_call(
    weight: TensorSpec,
    input: TensorSpec,
    output: TensorSpec,
) -> Outcome {
    gemm_call(Gemm::Half, "HGEMM"@, weight, input, output)
}

/// `output = weight * input` in half precision.
pub fn hgemm_f16(
    weight: &TensorHip<F16>,
    input: &TensorHip<F16>,
    output: &TensorHip<F16>,
    stream: &mut Stream,
) -> (r: Result<(), HipErrorKind>)
    ensures
        Run::start(old(stream)@).call(hgemm_f16_call(weight@, input@, output@)).agrees(
            final(stream)@,
            r,
        ),
{
    launch_gemm(Gemm::Half, "HGEMM", weight, input, output, stream)
}

/// `output = weight * input` in single precision.
pub open spec fn sgemm_f32_call(
    weight: TensorSpec,
    input: TensorSpec,
    output: TensorSpec,
) -> Outcome {
    gemm_call(Gemm::Single, "SGEMM"@, weight, input, output)
}

/// `output = weight * input` in single precision.
pub fn sgemm_f32(
    weight: &TensorHip<F32>,
    input: &TensorHip<F32>,
    output: &TensorHip<F32>,
    stream: &mut Stream,
) -> (r: Result<(), HipErrorKind>)
    ensures
        Run::start(old(stream)@).call(sgemm_f32_call(weight@, input@, output@)).agrees(
            final(stream)@,
            r,
        ),
{
    launch_gemm(Gemm::Single, "SGEMM", weight, input, output, stream)
}

/// The product of host matrices stored by columns, on the device.
pub open spec fn hip_sgemm_run(
    s: Run,
    weight: Seq<u32>,
    input: Seq<u32>,
    m: usize,
    k: usize,
    n: usize,
) -> Run {
    if weight.len() != m * k {
        s.check(Some(host_error("Weight size mismatch: expected "@ + decimal(m as nat) + "×"@ + decimal(k as nat) + "="@ + decimal((m * k) as nat) + ", got "@ + decimal(weight.len()))))
    } else if input.len() != k * n {
        s.check(Some(host_error("Input size mismatch: expected "@ + decimal(k as nat) + "×"@ + decimal(n as nat) + "="@ + decimal((k * n) as nat) + ", got "@ + decimal(input.len()))))
    } else {
        let weight_shape = TensorShape::of(m, k, 1, 1);
        let input_shape = TensorShape::of(k, n, 1, 1);
        let output_shape = TensorShape::of(m, n, 1, 1);
        let d_weight = s.fresh(weight_shape);
        let s = s.filled(DataSpec::F32(weight), weight_shape, MemoryType::Device);
        let d_input = s.fresh(input_shape);
        let s = s.filled(DataSpec::F32(input), input_shape, MemoryType::Device);
        let d_output = s.fresh(output_shape);
        let s = s.allocated(Elem::F32, output_shape, MemoryType::Device, false);
        s.call(sgemm_f32_call(d_weight, d_input, d_output)).download::<F32>(d_output)
    }
}

/// The product of host matrices stored by columns, on the device; the answer is what the last command downloads.
pub fn hip_sgemm(
    weight: &[u32],
    input: &[u32],
    m: usize,
    k: usize,
    n: usize,
    stream: &mut Stream,
) -> (r: Result<(), HipErrorKind>)
    requires
        m * k <= usize::MAX,
        k * n <= usize::MAX,
        m * n <= usize::MAX,
    ensures
        hip_sgemm_run(Run::start(old(stream)@), weight@, input@, m, k, n).agrees(final(stream)@, r),
{
    if weight.len() != m * k {
        return Err(HipErrorKind::host(text("Weight size mismatch: expected ").num(m).lit("×").num(k).lit("=").num(m * k).lit(", got ").num(weight.len())));
    }
    if input.len() != k * n {
        return Err(HipErrorKind::host(text("Input size mismatch: expected ").num(k).lit("×").num(n).lit("=").num(k * n).lit(", got ").num(input.len())));
    }
    proof {
        lemma_matrix_fits(m, k);
        lemma_matrix_fits(k, n);
        lemma_matrix_fits(m, n);
    }
    let weight_shape = TensorShape::new(m, k, 1, 1);
    let input_shape = TensorShape::new(k, n, 1, 1);
    let output_shape = TensorShape::new(m, n, 1, 1);
    let d_weight: TensorHip<F32> = TensorHip::from_host(HostData::F32(slice_to_vec(weight)), weight_shape, stream)?;
    let d_input: TensorHip<F32> = TensorHip::from_host(HostData::F32(slice_to_vec(input)), input_shape, stream)?;
    let d_output: TensorHip<F32> = TensorHip::new(output_shape, stream)?;
    sgemm_f32(&d_weight, &d_input, &d_output, stream)?;
    d_output.download(stream);
    Ok(())
}

/// The product with weights stored by rows.
pub open spec fn transposed_launch(
    m: usize,
    k: usize,
    n: usize,
    weight: TensorSpec,
    input: TensorSpec,
    output: TensorSpec,
) -> CommandSpec {
    CommandOf::Launch(
        Launch::Gemm {
            kernel: Gemm::SingleTransposed,
            m: m as i32,
            n: n as i32,
            k: k as i32,
            weight: weight.ptr(),
            input: input.ptr(),
            output: output.ptr(),
        },
    )
}

/// The product of host matrices, the weights stored by rows, on the device.
pub open spec fn hip_sgemm_ta_run(
    s: Run,
    weight: Seq<u32>,
    input: Seq<u32>,
    m: usize,
    k: usize,
    n: usize,
) -> Run {
    if weight.len() != m * k {
        s.check(Some(host_error("Weight size mismatch: expected "@ + decimal(m as nat) + "×"@ + decimal(k as nat) + "="@ + decimal((m * k) as nat) + ", got "@ + decimal(weight.len()))))
    } else if input.len() != k * n {
        s.check(Some(host_error("Input size mismatch: expected "@ + decimal(k as nat) + "×"@ + decimal(n as nat) + "="@ + decimal((k * n) as nat) + ", got "@ + decimal(input.len()))))
    } else {
        let weight_shape = TensorShape::of(k, m, 1, 1);
        let input_shape = TensorShape::of(k, n, 1, 1);
        let output_shape = TensorShape::of(m, n, 1, 1);
        let d_weight = s.fresh(weight_shape);
        let s = s.filled(DataSpec::F32(weight), weight_shape, MemoryType::Device);
        let d_input = s.fresh(input_shape);
        let s = s.filled(DataSpec::F32(input), input_shape, MemoryType::Device);
        let d_output = s.fresh(output_shape);
        let s = s.allocated(Elem::F32, output_shape, MemoryType::Device, false);
        s.emit(transposed_launch(m, k, n, d_weight, d_input, d_output)).download::<F32>(d_output)
    }
}

/// The product of host matrices, the weights stored by rows, on the device; the answer is what the last command downloads.
pub fn hip_sgemm_ta(
    weight: &[u32],
    input: &[u32],
    m: usize,
    k: usize,
    n: usize,
    stream: &mut Stream,
) -> (r: Result<(), HipErrorKind>)
    requires
        m * k <= usize::MAX,
        k * n <= usize::MAX,
        m * n <= usize::MAX,
    ensures
        hip_sgemm_ta_run(Run::start(old(stream)@), weight@, input@, m, k, n).agrees(final(stream)@, r),
{
    if weight.len() != m * k {
        return Err(HipErrorKind::host(text("Weight size mismatch: expected ").num(m).lit("×").num(k).lit("=").num(m * k).lit(", got ").num(weight.len())));
    }
    if input.len() != k * n {
        return Err(HipErrorKind::host(text("Input size mismatch: expected ").num(k).lit("×").num(n).lit("=").num(k * n).lit(", got ").num(input.len())));
    }
    proof {
        assert(k * m == m * k) by (nonlinear_arith);
        lemma_matrix_fits(k, m);
        lemma_matrix_fits(k, n);
        lemma_matrix_fits(m, n);
    }
    let weight_shape = TensorShape::new(k, m, 1, 1);
    let input_shape = TensorShape::new(k, n, 1, 1);
    let output_shape = TensorShape::new(m, n, 1, 1);
    let d_weight: TensorHip<F32> = TensorHip::from_host(HostData::F32(slice_to_vec(weight)), weight_shape, stream)?;
    let d_input: TensorHip<F32> = TensorHip::from_host(HostData::F32(slice_to_vec(input)), input_shape, stream)?;
    let d_output: TensorHip<F32> = TensorHip::new(output_shape, stream)?;
    stream.launch(
        Launch::Gemm {
            kernel: Gemm::SingleTransposed,
            m: m as i32,
            n: n as i32,
            k: k as i32,
            weight: d_weight.as_ptr(),
            input: d_input.as_ptr(),
            output: d_output.as_ptr(),
        },
    );
    d_output.download(stream);
    Ok(())
}

/// The product of host matrices in half precision, on the device.
pub open spec fn hip_hgemm_run(
    s: Run,
    weight: Seq<u16>,
    input: Seq<u16>,
    m: usize,
    k: usize,
    n: usize,
) -> Run {
    if weight.len() != m * k {
        s.check(Some(host_error("Weight size mismatch: expected "@ + decimal(m as nat) + "×"@ + decimal(k as nat) + "="@ + decimal((m * k) as nat) + ", got "@ + decimal(weight.len()))))
    } else if input.len() != k * n {
        s.check(Some(host_error("Input size mismatch: expected "@ + decimal(k as nat) + "×"@ + decimal(n as nat) + "="@ + decimal((k * n) as nat) + ", got "@ + decimal(input.len()))))
    } else {
        let weight_shape = TensorShape::of(m, k, 1, 1);
        let input_shape = TensorShape::of(k, n, 1, 1);
        let output_shape = TensorShape::of(m, n, 1, 1);
        let d_weight = s.fresh(weight_shape);
        let s = s.filled(DataSpec::F16(weight), weight_shape, MemoryType::Device);
        let d_input = s.fresh(input_shape);
        let s = s.filled(DataSpec::F16(input), input_shape, MemoryType::Device);
        let d_output = s.fresh(output_shape);
        let s = s.allocated(Elem::F16, output_shape, MemoryType::Device, false);
        s.call(hgemm_f16_call(d_weight, d_input, d_output)).download::<F16>(d_output)
    }
}

/// The product of host matrices in half precision, on the device; the answer is what the last command downloads.
pub fn hip_hgemm(
    weight: &[u16],
    input: &[u16],
    m: usize,
    k: usize,
    n: usize,
    stream: &mut Stream,
) -> (r: Result<(), HipErrorKind>)
    requires
        m * k <= usize::MAX,
        k * n <= usize::MAX,
        m * n <= usize::MAX,
    ensures
        hip_hgemm_run(Run::start(old(stream)@), weight@, input@, m, k, n).agrees(final(stream)@, r),
{
    if weight.len() != m * k {
        return Err(HipErrorKind::host(text("Weight size mismatch: expected ").num(m).lit("×").num(k).lit("=").num(m * k).lit(", got ").num(weight.len())));
    }
    if input.len() != k * n {
        return Err(HipErrorKind::host(text("Input size mismatch: expected ").num(k).lit("×").num(n).lit("=").num(k * n).lit(", got ").num(input.len())));
    }
    proof {
        lemma_matrix_fits(m, k);
        lemma_matrix_fits(k, n);
        lemma_matrix_fits(m, n);
    }
    let weight_shape = TensorShape::new(m, k, 1, 1);
    let input_shape = TensorShape::new(k, n, 1, 1);
    let output_shape = TensorShape::new(m, n, 1, 1);
    let d_weight: TensorHip<F16> = TensorHip::from_host(HostData::F16(slice_to_vec(weight)), weight_shape, stream)?;
    let d_input: TensorHip<F16> = TensorHip::from_host(HostData::F16(slice_to_vec(input)), input_shape, stream)?;
    let d_output: TensorHip<F16> = TensorHip::new(output_shape, stream)?;
    hgemm_f16(&d_weight, &d_input, &d_output, stream)?;
    d_output.download(stream);
    Ok(())
}

/// A stream for matrix products, and the tensors that go through it.
pub struct HipBlasContext {
    stream: Stream,
}

impl HipBlasContext {
    pub closed spec fn queue(&self) -> StreamSpec {
        self.stream@
    }

    /// A context on a stream of its own.
    pub fn new() -> (c: HipBlasContext)
        ensures
            c.queue() == own_stream(),
    {
        HipBlasContext { stream: Stream::new() }
    }

    /// A context on the null stream.
    pub fn with_null_stream() -> (c: HipBlasContext)
        ensures
            c.queue() == null_stream(),
    {
        HipBlasContext { stream: Stream::null() }
    }

    /// The stream that the work goes to.
    pub fn stream(&self) -> (s: &Stream)
        ensures
            s@ == self.queue(),
    {
        &self.stream
    }

    /// Waits for everything recorded so far.
    pub fn synchronize(&mut self)
        ensures
            final(self).queue() == Run::start(old(self).queue()).emit(
                CommandOf::Synchronize,
            ).stream,
    {
        self.stream.synchronize();
    }

    /// `output = weight * input` in single precision. The columns of `weight` are the rows of
    /// `input`.
    pub fn sgemm_into(
        &mut self,
        weight: &TensorHip<F32>,
        input: &TensorHip<F32>,
        output: &TensorHip<F32>,
    ) -> (r: Result<(), HipErrorKind>)
        requires
            weight@.shape().d1 == input@.shape().d0,
        ensures
            r is Ok,
            Run::start(old(self).queue()).call(sgemm_f32_call(weight@, input@, output@)).agrees(
                final(self).queue(),
                r,
            ),
    {
        reveal(gemm_call);
        sgemm_f32(weight, input, output, &mut self.stream)
    }

    /// `output = weight * input` in half precision.
    pub fn hgemm_into(
        &mut self,
        weight: &TensorHip<F16>,
        input: &TensorHip<F16>,
        output: &TensorHip<F16>,
    ) -> (r: Result<(), HipErrorKind>)
        ensures
            Run::start(old(self).queue()).call(hgemm_f16_call(weight@, input@, output@)).agrees(
                final(self).queue(),
                r,
            ),
    {
        hgemm_f16(weight, input, output, &mut self.stream)
    }

    /// Copies host values to a tensor of the same size.
    pub fn upload_to_tensor(&mut self, data: &[u32], tensor: &TensorHip<F32>) -> (r: Result<
        (),
        HipErrorKind,
    >)
        ensures
            Run::start(old(self).queue()).call(upload_call(data@, tensor@)).agrees(
                final(self).queue(),
                r,
            ),
    {
        reveal(fill_error);
        if data.len() != tensor.len() {
            return Err(
                HipErrorKind::host(
                    text("Upload size mismatch: data has ").num(data.len()).lit(
                        " elements, tensor has ",
                    ).num(tensor.len()),
                ),
            );
        }
        tensor.copy_from_host(HostData::F32(slice_to_vec(data)), &mut self.stream)
    }

    /// Asks for the values of a tensor.
    pub fn download_from_tensor(&mut self, tensor: &TensorHip<F32>)
        ensures
            final(self).queue() == Run::start(old(self).queue()).download::<F32>(tensor@).stream,
    {
        tensor.download(&mut self.stream);
    }
}

/// Copies host values to a tensor of the same size.
pub open spec fn upload_call(data: Seq<u32>, tensor: TensorSpec) -> Outcome {
    if data.len() != tensor.len() {
        Err(
            host_error(
                "Upload size mismatch: data has "@ + decimal(data.len())
                    + " elements, tensor has "@ + decimal(tensor.len()),
            ),
        )
    } else {
        Ok(CommandOf::Upload { dst: tensor.ptr(), data: DataSpec::F32(data) })
    }
}

} // verus!
