//! What the functions that run one kernel on host values answer: the kernel's function of those
//! values.
use crate::buffer::MemoryType;
use crate::blas::{gemm_call, hgemm_f16_call, hip_hgemm_run, hip_sgemm_run, hip_sgemm_ta_run};
use crate::kernels::elementwise::{
    copy_f32_call, decay_exp_f32_call, hip_copy_kernel_run, hip_lerp_run, map_host,
    sigmoid_f32_call, softplus_decay_f32_call, squared_relu_f32_call, tanh_f32_call,
};
use crate::kernels::mix::{
    channel_mix_call, channel_mix_state_f32_call, control_k_call, hip_channel_mix_state_run,
    hip_control_k_run, hip_token_shift_run, token_shift_f32_call,
};
use crate::kernels::norm::{
    group_norm_f32_call, hip_group_norm_run, hip_l2_norm_run, hip_layer_norm_run, l2_norm_f32_call,
    layer_norm_f32_call,
};
use crate::kernels::wkv::{
    hip_wkv7_masked_run, hip_wkv7_run, hip_wkv_bonus_run, wkv7_call, wkv_bonus_f32_call,
};
use crate::launch::{Gemm, Unary, Wkv7};
use crate::meaning::{
    group_calls, host_cells, lemma_cut, Cells, Contents, Device, Recurrent,
};
use crate::run::Run;
use crate::stream::{CommandOf, DataSpec, Elem};
use crate::tensor::{TensorShape, TensorSpec};
use vstd::prelude::*;

verus! {

/// Whether the command before the last `behind` ones asks for `n` elements, and they are `x`.
pub open spec fn answers(d: Device, r: Run, behind: int, elem: Elem, n: int, x: Cells) -> bool {
    match r.stream.log[r.stream.log.len() - 1 - behind] {
        CommandOf::Download { src, elem: kind, len } => {
            &&& kind == elem
            &&& len == n
            &&& d.after(r).at(src) == x
        },
        _ => false,
    }
}

/// Host values in single precision, as elements of a tensor.
pub open spec fn single(x: Seq<u32>) -> Cells {
    host_cells(DataSpec::F32(x))
}

/// A line of `n` elements has `n` elements.
proof fn lemma_line(n: usize)
    ensures
        TensorShape::of(n, 1, 1, 1).spec_len() == n,
{
    assert(n * 1 * 1 * 1 == n) by (nonlinear_arith);
}

/// A plane of `c` by `n` elements has `n` vectors of `c` elements each.
proof fn lemma_plane(c: usize, n: usize)
    ensures
        TensorShape::of(c, n, 1, 1).spec_len() == c * n,
        TensorShape::of(c, n, 1, 1).vectors() == n,
{
    assert(c * n * 1 * 1 == c * n) by (nonlinear_arith);
    assert(n * 1 * 1 == n) by (nonlinear_arith);
}

/// The host gets `exp(-exp(x))` of each of its values.
pub proof fn law_decay_exp_answers(d: Device, s: Run, input: Seq<u32>, i: int)
    requires
        map_host(
            s,
            input,
            |x: TensorSpec, y: TensorSpec| decay_exp_f32_call(x, y),
        ).error is None,
        0 <= i < input.len() <= i32::MAX,
    ensures
        ({
            let r = map_host(s, input, |x: TensorSpec, y: TensorSpec| decay_exp_f32_call(x, y));
            r.stream.log.last() matches CommandOf::Download { src, elem, len } && elem == Elem::F32
                && len == input.len() && d.after(r).at(src)(i) == (d.kernels.unary)(
                Unary::DecayExp,
                Elem::F32,
                input[i],
            )
        }),
{
    broadcast use {Device::lemma_emit, Device::lemma_filled, Device::lemma_made};
    broadcast use {Run::lemma_allocated, Contents::lemma_set, lemma_cut, group_calls};

    lemma_line(input.len() as usize);
}

/// The host gets the sigmoid of each of its values.
pub proof fn law_sigmoid_answers(d: Device, s: Run, input: Seq<u32>, i: int)
    requires
        map_host(
            s,
            input,
            |x: TensorSpec, y: TensorSpec| sigmoid_f32_call(x, y),
        ).error is None,
        0 <= i < input.len() <= i32::MAX,
    ensures
        ({
            let r = map_host(s, input, |x: TensorSpec, y: TensorSpec| sigmoid_f32_call(x, y));
            r.stream.log.last() matches CommandOf::Download { src, elem, len } && elem == Elem::F32
                && len == input.len() && d.after(r).at(src)(i) == (d.kernels.unary)(
                Unary::Sigmoid,
                Elem::F32,
                input[i],
            )
        }),
{
    broadcast use {Device::lemma_emit, Device::lemma_filled, Device::lemma_made};
    broadcast use {Run::lemma_allocated, Contents::lemma_set, lemma_cut, group_calls};

    lemma_line(input.len() as usize);
}

/// The host gets `max(x, 0)^2` of each of its values.
pub proof fn law_squared_relu_answers(d: Device, s: Run, input: Seq<u32>, i: int)
    requires
        map_host(
            s,
            input,
            |x: TensorSpec, y: TensorSpec| squared_relu_f32_call(x, y),
        ).error is None,
        0 <= i < input.len() <= i32::MAX,
    ensures
        ({
            let r = map_host(s, input, |x: TensorSpec, y: TensorSpec| squared_relu_f32_call(x, y));
            r.stream.log.last() matches CommandOf::Download { src, elem, len } && elem == Elem::F32
                && len == input.len() && d.after(r).at(src)(i) == (d.kernels.unary)(
                Unary::SquaredRelu,
                Elem::F32,
                input[i],
            )
        }),
{
    broadcast use {Device::lemma_emit, Device::lemma_filled, Device::lemma_made};
    broadcast use {Run::lemma_allocated, Contents::lemma_set, lemma_cut, group_calls};

    lemma_line(input.len() as usize);
}

/// The host gets the decay of each of its values.
pub proof fn law_softplus_decay_answers(d: Device, s: Run, input: Seq<u32>, i: int)
    requires
        map_host(
            s,
            input,
            |x: TensorSpec, y: TensorSpec| softplus_decay_f32_call(x, y),
        ).error is None,
        0 <= i < input.len() <= i32::MAX,
    ensures
        ({
            let r = map_host(s, input, |x: TensorSpec, y: TensorSpec| softplus_decay_f32_call(x, y));
            r.stream.log.last() matches CommandOf::Download { src, elem, len } && elem == Elem::F32
                && len == input.len() && d.after(r).at(src)(i) == (d.kernels.unary)(
                Unary::SoftplusDecay,
                Elem::F32,
                input[i],
            )
        }),
{
    broadcast use {Device::lemma_emit, Device::lemma_filled, Device::lemma_made};
    broadcast use {Run::lemma_allocated, Contents::lemma_set, lemma_cut, group_calls};

    lemma_line(input.len() as usize);
}

/// The host gets the hyperbolic tangent of each of its values.
pub proof fn law_tanh_answers(d: Device, s: Run, input: Seq<u32>, i: int)
    requires
        map_host(
            s,
            input,
            |x: TensorSpec, y: TensorSpec| tanh_f32_call(x, y),
        ).error is None,
        0 <= i < input.len() <= i32::MAX,
    ensures
        ({
            let r = map_host(s, input, |x: TensorSpec, y: TensorSpec| tanh_f32_call(x, y));
            r.stream.log.last() matches CommandOf::Download { src, elem, len } && elem == Elem::F32
                && len == input.len() && d.after(r).at(src)(i) == (d.kernels.unary)(
                Unary::Tanh,
                Elem::F32,
                input[i],
            )
        }),
{
    broadcast use {Device::lemma_emit, Device::lemma_filled, Device::lemma_made};
    broadcast use {Run::lemma_allocated, Contents::lemma_set, lemma_cut, group_calls};

    lemma_line(input.len() as usize);
}

/// The host gets the number between each two of its values.
pub proof fn law_lerp_answers(
    d: Device,
    s: Run,
    a: Seq<u32>,
    b: Seq<u32>,
    t: Seq<u32>,
    i: int,
)
    requires
        hip_lerp_run(s, a, b, t).error is None,
        0 <= i < a.len() <= i32::MAX,
    ensures
        a.len() == b.len() == t.len(),
        ({
            let r = hip_lerp_run(s, a, b, t);
            r.stream.log.last() matches CommandOf::Download { src, elem, len } && elem == Elem::F32
                && len == a.len() && d.after(r).at(src)(i) == (d.kernels.lerp)(
                Elem::F32,
                a[i],
                b[i],
                t[i],
            )
        }),
{
    broadcast use {Device::lemma_emit, Device::lemma_filled, Device::lemma_made};
    broadcast use {Run::lemma_allocated, Contents::lemma_set, lemma_cut, group_calls};

    lemma_line(a.len() as usize);
}

/// The host gets its own values back.
pub proof fn law_copy_answers(d: Device, s: Run, input: Seq<u32>, i: int)
    requires
        hip_copy_kernel_run(s, input).error is None,
        0 <= i < input.len() <= i32::MAX,
    ensures
        ({
            let r = hip_copy_kernel_run(s, input);
            r.stream.log[r.stream.log.len() - 2] matches CommandOf::Download { src, elem, len }
                && elem == Elem::F32 && len == input.len() && d.after(r).at(src)(i) == input[i]
        }),
{
    broadcast use {Device::lemma_emit, Device::lemma_made, Device::lemma_check};
    broadcast use {Run::lemma_allocated, Contents::lemma_set, lemma_cut};

    reveal(copy_f32_call);
}

/// The host gets the layer norm of its input, with scale and shift each in its place.
pub proof fn law_layer_norm_answers(
    d: Device,
    s: Run,
    input: Seq<u32>,
    weight: Seq<u32>,
    bias: Seq<u32>,
    c: usize,
    n: usize,
    eps: u32,
)
    requires
        hip_layer_norm_run(s, input, weight, bias, c, n, eps).error is None,
        input.len() <= usize::MAX,
    ensures
        ({
            let r = hip_layer_norm_run(s, input, weight, bias, c, n, eps);
            let k = d.kernels;
            answers(
                d,
                r,
                0,
                Elem::F32,
                input.len() as int,
                (k.layer_norm)(
                    Elem::F32,
                    (c as i32, n as i32, eps),
                    single(input),
                    single(weight),
                    single(bias),
                ),
            )
        }),
{
    broadcast use {
        Device::lemma_emit, Device::lemma_filled, Device::lemma_made, Run::lemma_allocated,
        Contents::lemma_set,
    };

    reveal(layer_norm_f32_call);
    lemma_plane(c, n);
    let shape = TensorShape::of(c, n, 1, 1);
    let param = TensorShape::of(c, 1, 1, 1);
    let x = s.fresh(shape);
    let s1 = s.filled(DataSpec::F32(input), shape, MemoryType::Device);
    let w = s1.fresh(param);
    let s2 = s1.filled(DataSpec::F32(weight), param, MemoryType::Device);
    let b = s2.fresh(param);
    let s3 = s2.filled(DataSpec::F32(bias), param, MemoryType::Device);
    let y = s3.fresh(shape);
    let s4 = s3.allocated(Elem::F32, shape, MemoryType::Device, false);
    let command = layer_norm_f32_call(x, w, b, y, eps)->Ok_0;
    d.lemma_emit(s4, command);
    let e = d.after(s4.emit(command));
    let c = d.after(s4);
    assert(c.at(x.ptr()) == host_cells(DataSpec::F32(input)));
    assert(c.at(w.ptr()) == host_cells(DataSpec::F32(weight)));
    assert(c.at(b.ptr()) == host_cells(DataSpec::F32(bias)));
}

/// The host gets the group norm of its input, with scale and shift each in its place.
pub proof fn law_group_norm_answers(
    d: Device,
    s: Run,
    input: Seq<u32>,
    weight: Seq<u32>,
    bias: Seq<u32>,
    c: usize,
    n: usize,
    groups: usize,
    eps: u32,
)
    requires
        hip_group_norm_run(s, input, weight, bias, c, n, groups, eps).error is None,
        input.len() <= usize::MAX,
    ensures
        ({
            let r = hip_group_norm_run(s, input, weight, bias, c, n, groups, eps);
            let k = d.kernels;
            answers(
                d,
                r,
                0,
                Elem::F32,
                input.len() as int,
                (k.group_norm)(
                    Elem::F32,
                    (c as i32, n as i32, groups as i32, eps),
                    single(input),
                    single(weight),
                    single(bias),
                ),
            )
        }),
{
    broadcast use {
        Device::lemma_emit, Device::lemma_filled, Device::lemma_made, Run::lemma_allocated,
        Contents::lemma_set,
    };

    reveal(group_norm_f32_call);
    lemma_plane(c, n);
    let shape = TensorShape::of(c, n, 1, 1);
    let param = TensorShape::of(c, 1, 1, 1);
    let x = s.fresh(shape);
    let s1 = s.filled(DataSpec::F32(input), shape, MemoryType::Device);
    let w = s1.fresh(param);
    let s2 = s1.filled(DataSpec::F32(weight), param, MemoryType::Device);
    let b = s2.fresh(param);
    let s3 = s2.filled(DataSpec::F32(bias), param, MemoryType::Device);
    let y = s3.fresh(shape);
    let s4 = s3.allocated(Elem::F32, shape, MemoryType::Device, false);
    let command = group_norm_f32_call(x, w, b, y, groups, eps)->Ok_0;
    d.lemma_emit(s4, command);
    let e = d.after(s4.emit(command));
    let c = d.after(s4);
    assert(c.at(x.ptr()) == host_cells(DataSpec::F32(input)));
    assert(c.at(w.ptr()) == host_cells(DataSpec::F32(weight)));
    assert(c.at(b.ptr()) == host_cells(DataSpec::F32(bias)));
}

/// The host gets its input with every head brought to length one.
pub proof fn law_l2_norm_answers(
    d: Device,
    s: Run,
    input: Seq<u32>,
    c: usize,
    n: usize,
    head_size: usize,
    eps: u32,
)
    requires
        hip_l2_norm_run(s, input, c, n, head_size, eps).error is None,
        input.len() <= usize::MAX,
    ensures
        ({
            let r = hip_l2_norm_run(s, input, c, n, head_size, eps);
            let k = d.kernels;
            answers(
                d,
                r,
                0,
                Elem::F32,
                input.len() as int,
                (k.l2_norm)(
                    Elem::F32,
                    (c as i32, n as i32, head_size as i32, eps),
                    single(input),
                ),
            )
        }),
{
    broadcast use {
        Device::lemma_emit, Device::lemma_filled, Device::lemma_made, Run::lemma_allocated,
        Contents::lemma_set,
    };

    reveal(l2_norm_f32_call);
    lemma_plane(c, n);
    let shape = TensorShape::of(c, n, 1, 1);
    let x = s.fresh(shape);
    let s1 = s.filled(DataSpec::F32(input), shape, MemoryType::Device);
    let y = s1.fresh(shape);
    let s2 = s1.allocated(Elem::F32, shape, MemoryType::Device, false);
    let command = l2_norm_f32_call(x, y, head_size, eps)->Ok_0;
    d.lemma_emit(s2, command);
    let e = d.after(s2.emit(command));
    let c = d.after(s2);
    assert(c.at(x.ptr()) == host_cells(DataSpec::F32(input)));
}

/// The host gets every token mixed with the one before it, and then the last token.
pub proof fn law_token_shift_answers(
    d: Device,
    s: Run,
    x: Seq<u32>,
    state: Seq<u32>,
    mix: Seq<u32>,
    c: usize,
    t: usize,
)
    requires
        hip_token_shift_run(s, x, state, mix, c, t).error is None,
        x.len() <= usize::MAX,
    ensures
        ({
            let r = hip_token_shift_run(s, x, state, mix, c, t);
            let k = d.kernels;
            let size = (c as i32, t as i32, 1i32);
            &&& answers(
                d,
                r,
                1,
                Elem::F32,
                x.len() as int,
                (k.token_mix)(Elem::F32, size, single(x), single(state), single(mix)),
            )
            &&& answers(
                d,
                r,
                0,
                Elem::F32,
                state.len() as int,
                (k.last_token)(Elem::F32, size, single(x), single(state), None),
            )
        }),
{
    broadcast use {
        Device::lemma_emit, Device::lemma_filled, Device::lemma_made, Run::lemma_allocated,
        Contents::lemma_set,
    };

    reveal(token_shift_f32_call);
    lemma_plane(c, t);
    lemma_plane(c, 1);
    let shape = TensorShape::of(c, t, 1, 1);
    let param = TensorShape::of(c, 1, 1, 1);
    let x0 = s.fresh(shape);
    let s1 = s.filled(DataSpec::F32(x), shape, MemoryType::Device);
    let x1 = s1.fresh(param);
    let s2 = s1.filled(DataSpec::F32(state), param, MemoryType::Device);
    let x2 = s2.fresh(param);
    let s3 = s2.filled(DataSpec::F32(mix), param, MemoryType::Device);
    let y = s3.fresh(shape);
    let s4 = s3.allocated(Elem::F32, shape, MemoryType::Device, false);
    let z = s4.fresh(param);
    let s5 = s4.allocated(Elem::F32, param, MemoryType::Device, false);
    let command = token_shift_f32_call(x0, x1, x2, y, z)->Ok_0;
    d.lemma_emit(s5, command);
    let e = d.after(s5.emit(command));
    let before = d.after(s5);
    assert(before.at(x0.ptr()) == host_cells(DataSpec::F32(x)));
    assert(before.at(x1.ptr()) == host_cells(DataSpec::F32(state)));
    assert(before.at(x2.ptr()) == host_cells(DataSpec::F32(mix)));
}

/// The host gets every token mixed with the one before it, and then the last token of each
/// sequence.
pub proof fn law_channel_mix_answers(
    d: Device,
    s: Run,
    x: Seq<u32>,
    state: Seq<u32>,
    x_k: Seq<u32>,
    c: usize,
    t: usize,
    b: usize,
)
    requires
        hip_channel_mix_state_run(s, x, state, x_k, c, t, b).error is None,
        x.len() <= usize::MAX,
        state.len() <= usize::MAX,
    ensures
        ({
            let r = hip_channel_mix_state_run(s, x, state, x_k, c, t, b);
            let k = d.kernels;
            let size = (c as i32, t as i32, b as i32);
            &&& answers(
                d,
                r,
                1,
                Elem::F32,
                x.len() as int,
                (k.token_mix)(Elem::F32, size, single(x), single(state), single(x_k)),
            )
            &&& answers(
                d,
                r,
                0,
                Elem::F32,
                state.len() as int,
                (k.last_token)(Elem::F32, size, single(x), single(state), None),
            )
        }),
{
    broadcast use {
        Device::lemma_emit, Device::lemma_filled, Device::lemma_made, Run::lemma_allocated,
        Contents::lemma_set,
    };

    reveal(channel_mix_state_f32_call);
    reveal(channel_mix_call);
    assert(c * t * b * 1 == c * t * b) by (nonlinear_arith);
    lemma_plane(c, b);
}

/// The host gets its keys under the control of the adaptation.
pub proof fn law_control_k_answers(
    d: Device,
    s: Run,
    k_a: Seq<u32>,
    a: Seq<u32>,
    key: Seq<u32>,
    c: usize,
    t: usize,
    b: usize,
)
    requires
        hip_control_k_run(s, k_a, a, key, c, t, b).error is None,
        key.len() <= usize::MAX,
    ensures
        ({
            let r = hip_control_k_run(s, k_a, a, key, c, t, b);
            let k = d.kernels;
            answers(
                d,
                r,
                0,
                Elem::F32,
                key.len() as int,
                k.controlled(
                    Elem::F32,
                    (c as i32, t as i32, b as i32),
                    single(k_a),
                    single(a),
                    single(key),
                ),
            )
        }),
{
    broadcast use {
        Device::lemma_emit, Device::lemma_filled, Device::lemma_made, Run::lemma_allocated,
        Contents::lemma_set,
    };

    reveal(control_k_call);
    assert(c * t * b * 1 == c * t * b) by (nonlinear_arith);
}

/// The host gets the bonus of receptance, key and value.
pub proof fn law_bonus_answers(
    d: Device,
    s: Run,
    rec: Seq<u32>,
    key: Seq<u32>,
    v: Seq<u32>,
    r_k: Seq<u32>,
    n: usize,
    h: usize,
    t: usize,
    b: usize,
)
    requires
        hip_wkv_bonus_run(s, rec, key, v, r_k, n, h, t, b).error is None,
        rec.len() <= usize::MAX,
    ensures
        ({
            let r = hip_wkv_bonus_run(s, rec, key, v, r_k, n, h, t, b);
            let k = d.kernels;
            answers(
                d,
                r,
                0,
                Elem::F32,
                rec.len() as int,
                (k.bonus)(
                    Elem::F32,
                    (n as i32, h as i32, t as i32, b as i32),
                    single(rec),
                    single(key),
                    single(v),
                    single(r_k),
                ),
            )
        }),
{
    broadcast use {
        Device::lemma_emit, Device::lemma_filled, Device::lemma_made, Run::lemma_allocated,
        Contents::lemma_set,
    };

    reveal(wkv_bonus_f32_call);
}

/// The host gets output and new state of the recurrence on its values.
pub proof fn law_recurrence_answers(
    d: Device,
    s: Run,
    w: Seq<u32>,
    rec: Seq<u32>,
    key: Seq<u32>,
    v: Seq<u32>,
    a: Seq<u32>,
    b: Seq<u32>,
    state: Seq<u32>,
    n: usize,
    h: usize,
    t: usize,
    batch: usize,
)
    requires
        hip_wkv7_run(s, w, rec, key, v, a, b, state, n, h, t, batch).error is None,
        rec.len() <= usize::MAX,
        state.len() <= usize::MAX,
    ensures
        ({
            let r = hip_wkv7_run(s, w, rec, key, v, a, b, state, n, h, t, batch);
            let k = d.kernels;
            let both = (k.wkv)(
                Wkv7::F32,
                (n as i32, h as i32, t as i32, batch as i32),
                (Recurrent {
                    w: single(w),
                    r: single(rec),
                    k: single(key),
                    v: single(v),
                    a: single(a),
                    b: single(b),
                }),
                single(state),
                None,
            );
            &&& answers(d, r, 1, Elem::F32, rec.len() as int, both.0)
            &&& answers(d, r, 0, Elem::F32, state.len() as int, both.1)
        }),
{
    broadcast use {
        Device::lemma_emit, Device::lemma_filled, Device::lemma_made, Run::lemma_allocated,
        Contents::lemma_set,
    };

    reveal(wkv7_call);
}

/// The host gets output and new state of the recurrence on its values, each sequence up to its length.
pub proof fn law_masked_recurrence_answers(
    d: Device,
    s: Run,
    w: Seq<u32>,
    rec: Seq<u32>,
    key: Seq<u32>,
    v: Seq<u32>,
    a: Seq<u32>,
    b: Seq<u32>,
    state: Seq<u32>,
    lengths: Seq<i32>,
    n: usize,
    h: usize,
    t: usize,
    batch: usize,
)
    requires
        hip_wkv7_masked_run(s, w, rec, key, v, a, b, state, lengths, n, h, t, batch).error is None,
        rec.len() <= usize::MAX,
        state.len() <= usize::MAX,
    ensures
        ({
            let r = hip_wkv7_masked_run(s, w, rec, key, v, a, b, state, lengths, n, h, t, batch);
            let k = d.kernels;
            let both = (k.wkv)(
                Wkv7::F32Masked,
                (n as i32, h as i32, t as i32, batch as i32),
                (Recurrent {
                    w: single(w),
                    r: single(rec),
                    k: single(key),
                    v: single(v),
                    a: single(a),
                    b: single(b),
                }),
                single(state),
                Some(host_cells(DataSpec::I32(lengths))),
            );
            &&& answers(d, r, 1, Elem::F32, rec.len() as int, both.0)
            &&& answers(d, r, 0, Elem::F32, state.len() as int, both.1)
        }),
{
    broadcast use {
        Device::lemma_emit, Device::lemma_filled, Device::lemma_made, Run::lemma_allocated,
        Contents::lemma_set,
    };

    reveal(wkv7_call);
}

/// The host gets the product of its matrices.
pub proof fn law_sgemm_answers(
    d: Device,
    s: Run,
    weight: Seq<u32>,
    input: Seq<u32>,
    m: usize,
    cols: usize,
    n: usize,
)
    requires
        hip_sgemm_run(s, weight, input, m, cols, n).error is None,
        m * n <= usize::MAX,
    ensures
        ({
            let r = hip_sgemm_run(s, weight, input, m, cols, n);
            let k = d.kernels;
            answers(
                d,
                r,
                0,
                Elem::F32,
                m * n,
                (k.product)(
                    Gemm::Single,
                    (m as i32, n as i32, cols as i32),
                    host_cells(DataSpec::F32(weight)),
                    host_cells(DataSpec::F32(input)),
                ),
            )
        }),
{
    broadcast use {
        Device::lemma_emit, Device::lemma_filled, Device::lemma_made, Run::lemma_allocated,
        Contents::lemma_set,
    };

    lemma_plane(m, n);
    reveal(gemm_call);
}

/// The host gets the product of its matrices, the weights stored by rows.
pub proof fn law_sgemm_ta_answers(
    d: Device,
    s: Run,
    weight: Seq<u32>,
    input: Seq<u32>,
    m: usize,
    cols: usize,
    n: usize,
)
    requires
        hip_sgemm_ta_run(s, weight, input, m, cols, n).error is None,
        m * n <= usize::MAX,
    ensures
        ({
            let r = hip_sgemm_ta_run(s, weight, input, m, cols, n);
            let k = d.kernels;
            answers(
                d,
                r,
                0,
                Elem::F32,
                m * n,
                (k.product)(
                    Gemm::SingleTransposed,
                    (m as i32, n as i32, cols as i32),
                    host_cells(DataSpec::F32(weight)),
                    host_cells(DataSpec::F32(input)),
                ),
            )
        }),
{
    broadcast use {
        Device::lemma_emit, Device::lemma_filled, Device::lemma_made, Run::lemma_allocated,
        Contents::lemma_set,
    };

    lemma_plane(m, n);
}

/// The host gets the product of its matrices in half precision.
pub proof fn law_hgemm_answers(
    d: Device,
    s: Run,
    weight: Seq<u16>,
    input: Seq<u16>,
    m: usize,
    cols: usize,
    n: usize,
)
    requires
        hip_hgemm_run(s, weight, input, m, cols, n).error is None,
        m * n <= usize::MAX,
    ensures
        ({
            let r = hip_hgemm_run(s, weight, input, m, cols, n);
            let k = d.kernels;
            answers(
                d,
                r,
                0,
                Elem::F16,
                m * n,
                (k.product)(
                    Gemm::Half,
                    (m as i32, n as i32, cols as i32),
                    host_cells(DataSpec::F16(weight)),
                    host_cells(DataSpec::F16(input)),
                ),
            )
        }),
{
    broadcast use {
        Device::lemma_emit, Device::lemma_filled, Device::lemma_made, Run::lemma_allocated,
        Contents::lemma_set,
    };

    lemma_plane(m, n);
    let a = TensorShape::of(m, cols, 1, 1);
    let b = TensorShape::of(cols, n, 1, 1);
    let o = TensorShape::of(m, n, 1, 1);
    let x = s.fresh(a);
    let s1 = s.filled(DataSpec::F16(weight), a, MemoryType::Device);
    let w = s1.fresh(b);
    let s2 = s1.filled(DataSpec::F16(input), b, MemoryType::Device);
    let y = s2.fresh(o);
    let s3 = s2.allocated(Elem::F16, o, MemoryType::Device, false);
    let command = hgemm_f16_call(x, w, y)->Ok_0;
    d.lemma_emit(s3, command);
    let e = d.after(s3.emit(command));
    let c = d.after(s3);
    assert(c.at(x.ptr()) == host_cells(DataSpec::F16(weight)));
    assert(c.at(w.ptr()) == host_cells(DataSpec::F16(input)));
    reveal(gemm_call);
}

} // verus!
