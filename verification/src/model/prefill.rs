//! The recurrent attention kernels that a pass chooses from.
use crate::error::HipErrorKind;
use crate::kernels::wkv::{
    wkv7_fused_t1, wkv7_fused_t1_call, wkv7_wave_reduce, wkv7_wave_reduce_call, WkvTensors,
};
use crate::stream::{Outcome, Run, Stream};
use crate::tensor::{TensorHip, TensorSpec, F16, F32, I32};
use vstd::prelude::*;

verus! {

/// The inputs of a recurrent attention kernel.
pub struct WkvInput<'a> {
    pub w_decay: &'a TensorHip<F16>,
    pub r: &'a TensorHip<F16>,
    pub k: &'a TensorHip<F16>,
    pub v: &'a TensorHip<F16>,
    pub a: &'a TensorHip<F16>,
    pub b: &'a TensorHip<F16>,
    pub lengths: &'a TensorHip<I32>,
}

impl<'a> WkvInput<'a> {
    /// The inputs together with the output.
    pub open spec fn with_output(&self, output: TensorSpec) -> WkvTensors {
        WkvTensors {
            w_decay: self.w_decay@,
            q: self.r@,
            k: self.k@,
            v: self.v@,
            a: self.a@,
            b: self.b@,
            output,
        }
    }
}

/// A recurrent attention kernel.
pub trait WkvKernel {
    /// What the kernel asks of the device.
    spec fn call(&self, x: WkvTensors, state: TensorSpec, lengths: TensorSpec) -> Outcome;

    /// Whether it takes more than one token per sequence.
    spec fn multi_token(&self) -> bool;

    spec fn label(&self) -> Seq<char>;

    /// Starts the kernel; the state is updated in place.
    fn compute(
        &self,
        input: &WkvInput<'_>,
        state: &TensorHip<F32>,
        output: &TensorHip<F16>,
        stream: &mut Stream,
    ) -> (r: Result<(), HipErrorKind>)
        ensures
            Run::start(old(stream)@).call(
                self.call(input.with_output(output@), state@, input.lengths@),
            ).agrees(final(stream)@, r),
    ;

    fn supports_multi_token(&self) -> (b: bool)
        ensures
            b == self.multi_token(),
    ;

    fn name(&self) -> (s: &str)
        ensures
            s@ == self.label(),
    ;
}

/// The kernel with wave-cooperative reductions, for any number of tokens.
#[derive(Debug)]
pub struct WaveReduceWkv;

impl WkvKernel for WaveReduceWkv {
    open spec fn call(&self, x: WkvTensors, state: TensorSpec, lengths: TensorSpec) -> Outcome {
        wkv7_wave_reduce_call(x, state, lengths)
    }

    open spec fn multi_token(&self) -> bool {
        true
    }

    open spec fn label(&self) -> Seq<char> {
        "wave_reduce"@
    }

    fn compute(
        &self,
        input: &WkvInput<'_>,
        state: &TensorHip<F32>,
        output: &TensorHip<F16>,
        stream: &mut Stream,
    ) -> (r: Result<(), HipErrorKind>) {
        wkv7_wave_reduce(
            input.w_decay,
            input.r,
            input.k,
            input.v,
            input.a,
            input.b,
            state,
            output,
            input.lengths,
            stream,
        )
    }

    fn supports_multi_token(&self) -> (b: bool) {
        true
    }

    fn name(&self) -> (s: &str) {
        "wave_reduce"
    }
}

/// The fused kernel for one token per sequence.
#[derive(Debug)]
pub struct FusedT1Wkv;

impl WkvKernel for FusedT1Wkv {
    open spec fn call(&self, x: WkvTensors, state: TensorSpec, lengths: TensorSpec) -> Outcome {
        wkv7_fused_t1_call(x, state, lengths)
    }

    open spec fn multi_token(&self) -> bool {
        false
    }

    open spec fn label(&self) -> Seq<char> {
        "fused_t1"@
    }

    fn compute(
        &self,
        input: &WkvInput<'_>,
        state: &TensorHip<F32>,
        output: &TensorHip<F16>,
        stream: &mut Stream,
    ) -> (r: Result<(), HipErrorKind>) {
        wkv7_fused_t1(
            input.w_decay,
            input.r,
            input.k,
            input.v,
            input.a,
            input.b,
            state,
            output,
            input.lengths,
            stream,
        )
    }

    fn supports_multi_token(&self) -> (b: bool) {
        false
    }

    fn name(&self) -> (s: &str) {
        "fused_t1"
    }
}

/// A kernel for one token refuses every other number of tokens.
pub proof fn law_fused_refuses_more_tokens(
    x: WkvTensors,
    state: TensorSpec,
    lengths: TensorSpec,
)
    requires
        x.w_decay.shape().d2 != 1,
    ensures
        FusedT1Wkv.call(x, state, lengths) is Err,
{
    reveal(wkv7_fused_t1_call);
}

} // verus!
