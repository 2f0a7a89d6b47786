//! What single kernels do: the elements of their output, from those of their inputs, under the
//! name that the kernel goes by.
use crate::kernels::elementwise::{
    add_f16_call, add_f32_call, broadcast_add_f16_call, broadcast_add_f32_call,
    broadcast_mul_f16_call, broadcast_mul_f32_call, copy_tensor_f16_call, copy_tensor_f32_call,
    decay_exp_f16_call, decay_exp_f32_call, exp_f16_call, exp_f32_call, lerp_f16_call,
    lerp_f32_call, mul_f16_call, mul_f32_call, negate_f16_call, negate_f32_call, sigmoid_f16_call,
    sigmoid_f32_call, softplus_decay_f16_call, softplus_decay_f32_call, squared_relu_f16_call,
    squared_relu_f32_call, tanh_f16_call, tanh_f32_call,
};
use crate::kernels::mix::{
    channel_mix_state_f16_call, channel_mix_state_f16_masked_call, shift_state,
};
use crate::kernels::wkv::{wkv7_wave_reduce_call, WkvTensors};
use crate::launch::{Binary, Unary, Wkv7};
use crate::meaning::{group_calls, lemma_cut, Contents, Device, Recurrent};
use crate::run::{Outcome, Run};
use crate::stream::Elem;
use crate::tensor::TensorSpec;
use vstd::prelude::*;

verus! {

/// Whether a call that went through wrote to each element of `y` the function `op` of that of `x`.
pub open spec fn maps(
    d: Device,
    s: Run,
    outcome: Outcome,
    op: Unary,
    elem: Elem,
    x: TensorSpec,
    y: TensorSpec,
) -> bool {
    s.call(outcome).error is None ==> forall|i: int|
        0 <= i < x.len() <= i32::MAX ==> #[trigger] d.at(s.call(outcome), y)(i) == (
        d.kernels.unary)(op, elem, d.at(s, x)(i))
}

/// Whether a call that went through wrote to each element of `y` the function `op` of those of
/// `a` and `b`.
pub open spec fn combines(
    d: Device,
    s: Run,
    outcome: Outcome,
    op: Binary,
    elem: Elem,
    a: TensorSpec,
    b: TensorSpec,
    y: TensorSpec,
) -> bool {
    s.call(outcome).error is None ==> forall|i: int|
        0 <= i < a.len() <= i32::MAX ==> #[trigger] d.at(s.call(outcome), y)(i) == (
        d.kernels.binary)(op, elem, d.at(s, a)(i), d.at(s, b)(i))
}

/// Whether a call that went through wrote to each element of `y` the function `op` of that of `x`
/// and of that of `v`, which is repeated along `x`.
pub open spec fn repeats(
    d: Device,
    s: Run,
    outcome: Outcome,
    op: Binary,
    elem: Elem,
    x: TensorSpec,
    v: TensorSpec,
    y: TensorSpec,
) -> bool {
    s.call(outcome).error is None ==> forall|i: int|
        0 <= i < x.len() <= i32::MAX && v.len() <= i32::MAX ==> #[trigger] d.at(
            s.call(outcome),
            y,
        )(i) == (d.kernels.binary)(op, elem, d.at(s, x)(i), d.at(s, v)(i % (v.len() as int)))
}

/// The kernels that take one tensor compute what they are named for, in the precision that they
/// are named for.
pub proof fn law_unary_kernels(d: Device, s: Run, x: TensorSpec, y: TensorSpec)
    ensures
        maps(d, s, exp_f32_call(x, y), Unary::Exp, Elem::F32, x, y),
        maps(d, s, exp_f16_call(x, y), Unary::Exp, Elem::F16, x, y),
        maps(d, s, negate_f32_call(x, y), Unary::Negate, Elem::F32, x, y),
        maps(d, s, negate_f16_call(x, y), Unary::Negate, Elem::F16, x, y),
        maps(d, s, tanh_f32_call(x, y), Unary::Tanh, Elem::F32, x, y),
        maps(d, s, tanh_f16_call(x, y), Unary::Tanh, Elem::F16, x, y),
        maps(d, s, sigmoid_f32_call(x, y), Unary::Sigmoid, Elem::F32, x, y),
        maps(d, s, sigmoid_f16_call(x, y), Unary::Sigmoid, Elem::F16, x, y),
        maps(d, s, squared_relu_f32_call(x, y), Unary::SquaredRelu, Elem::F32, x, y),
        maps(d, s, squared_relu_f16_call(x, y), Unary::SquaredRelu, Elem::F16, x, y),
        maps(d, s, softplus_decay_f32_call(x, y), Unary::SoftplusDecay, Elem::F32, x, y),
        maps(d, s, softplus_decay_f16_call(x, y), Unary::SoftplusDecay, Elem::F16, x, y),
        maps(d, s, decay_exp_f32_call(x, y), Unary::DecayExp, Elem::F32, x, y),
        maps(d, s, decay_exp_f16_call(x, y), Unary::DecayExp, Elem::F16, x, y),
{
    broadcast use {group_calls, lemma_cut, Contents::lemma_set};

}

/// A copy is the tensor that was copied.
pub proof fn law_copies(d: Device, s: Run, x: TensorSpec, y: TensorSpec, i: int)
    requires
        0 <= i < x.len() <= i32::MAX,
    ensures
        s.call(copy_tensor_f32_call(x, y)).error is None ==> d.at(
            s.call(copy_tensor_f32_call(x, y)),
            y,
        )(i) == d.at(s, x)(i),
        s.call(copy_tensor_f16_call(x, y)).error is None ==> d.at(
            s.call(copy_tensor_f16_call(x, y)),
            y,
        )(i) == d.at(s, x)(i),
{
    broadcast use {group_calls, lemma_cut, Contents::lemma_set};

}

/// The kernels that take two tensors compute what they are named for, in the precision that they
/// are named for.
pub proof fn law_binary_kernels(d: Device, s: Run, a: TensorSpec, b: TensorSpec, y: TensorSpec)
    ensures
        combines(d, s, add_f32_call(a, b, y), Binary::Add, Elem::F32, a, b, y),
        combines(d, s, add_f16_call(a, b, y), Binary::Add, Elem::F16, a, b, y),
        combines(d, s, mul_f32_call(a, b, y), Binary::Mul, Elem::F32, a, b, y),
        combines(d, s, mul_f16_call(a, b, y), Binary::Mul, Elem::F16, a, b, y),
        repeats(
            d,
            s,
            broadcast_add_f32_call(a, b, y),
            Binary::Add,
            Elem::F32,
            a,
            b,
            y,
        ),
        repeats(
            d,
            s,
            broadcast_add_f16_call(a, b, y),
            Binary::Add,
            Elem::F16,
            a,
            b,
            y,
        ),
        repeats(
            d,
            s,
            broadcast_mul_f32_call(a, b, y),
            Binary::Mul,
            Elem::F32,
            a,
            b,
            y,
        ),
        repeats(
            d,
            s,
            broadcast_mul_f16_call(a, b, y),
            Binary::Mul,
            Elem::F16,
            a,
            b,
            y,
        ),
{
    broadcast use {group_calls, lemma_cut, Contents::lemma_set};

}

/// Interpolation goes from the first tensor to the second, as far as the third says.
pub proof fn law_lerp_kernels(
    d: Device,
    s: Run,
    a: TensorSpec,
    b: TensorSpec,
    t: TensorSpec,
    y: TensorSpec,
    i: int,
)
    requires
        0 <= i < a.len() <= i32::MAX,
    ensures
        s.call(lerp_f32_call(a, b, t, y)).error is None ==> d.at(
            s.call(lerp_f32_call(a, b, t, y)),
            y,
        )(i) == (d.kernels.lerp)(
            Elem::F32,
            d.at(s, a)(i),
            d.at(s, b)(i),
            d.at(s, t)(i),
        ),
        s.call(lerp_f16_call(a, b, t, y)).error is None ==> d.at(
            s.call(lerp_f16_call(a, b, t, y)),
            y,
        )(i) == (d.kernels.lerp)(
            Elem::F16,
            d.at(s, a)(i),
            d.at(s, b)(i),
            d.at(s, t)(i),
        ),
{
    broadcast use {group_calls, lemma_cut, Contents::lemma_set};

}

/// The channel mixes in half precision: tokens mixed with those before them, and the last token of
/// each sequence, the last real one where lengths are given.
pub proof fn law_channel_mix_kernels(
    d: Device,
    s: Run,
    x: TensorSpec,
    state: TensorSpec,
    mix: TensorSpec,
    y: TensorSpec,
    z: TensorSpec,
    lengths: TensorSpec,
)
    requires
        y.buffer != z.buffer,
    ensures
        ({
            let c = d.after(s);
            let size = (x.shape().d0 as i32, x.shape().d1 as i32, x.shape().d2 as i32);
            let r = s.call(channel_mix_state_f16_call(x, state, mix, y, z));
            let m = s.call(channel_mix_state_f16_masked_call(x, state, mix, y, z, lengths));
            &&& r.error is None ==> d.at(r, y) == (d.kernels.token_mix)(
                Elem::F16,
                size,
                d.at(s, x),
                d.at(s, state),
                d.at(s, mix),
            ) && d.at(r, z) == (d.kernels.last_token)(
                Elem::F16,
                size,
                d.at(s, x),
                d.at(s, state),
                None,
            )
            &&& m.error is None ==> d.at(m, y) == (d.kernels.token_mix)(
                Elem::F16,
                size,
                d.at(s, x),
                d.at(s, state),
                d.at(s, mix),
            ) && d.at(m, z) == (d.kernels.last_token)(
                Elem::F16,
                size,
                d.at(s, x),
                d.at(s, state),
                Some(d.at(s, lengths)),
            )
        }),
{
    broadcast use {group_calls, Contents::lemma_set};

}

/// The wave-cooperative attention takes its state from where it puts the new one.
pub proof fn law_wave_reduce_kernel(
    d: Device,
    s: Run,
    x: WkvTensors,
    state: TensorSpec,
    lengths: TensorSpec,
)
    requires
        s.call(wkv7_wave_reduce_call(x, state, lengths)).error is None,
        x.output.buffer != state.buffer,
    ensures
        ({
            let r = s.call(wkv7_wave_reduce_call(x, state, lengths));
            let shape = x.w_decay.shape();
            let both = (d.kernels.wkv)(
                Wkv7::WaveReduce,
                (shape.d0 as i32, shape.d1 as i32, shape.d2 as i32, shape.d3 as i32),
                (Recurrent {
                    w: d.at(s, x.w_decay),
                    r: d.at(s, x.q),
                    k: d.at(s, x.k),
                    v: d.at(s, x.v),
                    a: d.at(s, x.a),
                    b: d.at(s, x.b),
                }),
                d.at(s, state),
                Some(d.at(s, lengths)),
            );
            d.at(r, x.output) == both.0 && d.at(r, state) == both.1
        }),
{
    broadcast use {Device::lemma_emit, Contents::lemma_set};

    reveal(wkv7_wave_reduce_call);
}

/// The state that is left behind is, for each sequence, the token that stands at its length.
pub proof fn law_shift_state_is_the_last_token(
    x: Seq<u32>,
    lengths: Seq<usize>,
    c: nat,
    t: nat,
    b: nat,
    sequence: int,
    channel: int,
)
    requires
        0 <= sequence < b,
        0 <= channel < c,
    ensures
        0 <= sequence * c + channel < shift_state(x, lengths, c, t, b).len(),
        shift_state(x, lengths, c, t, b)[sequence * c + channel] == x[sequence * t * c + (
        lengths[sequence] - 1) * c + channel],
{
    let i = sequence * c + channel;
    vstd::arithmetic::div_mod::lemma_fundamental_div_mod_converse(i, c as int, sequence, channel);
    assert(0 <= i < c * b) by (nonlinear_arith)
        requires
            0 <= sequence < b,
            0 <= channel < c,
            i == sequence * c + channel,
    ;
}

} // verus!
