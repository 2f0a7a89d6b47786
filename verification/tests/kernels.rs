use rwkv_hip::blas::{hgemm_f16, hip_hgemm, hip_sgemm, hip_sgemm_ta, sgemm_f32, HipBlasContext};
use rwkv_hip::error::HipErrorKind;
use rwkv_hip::kernels::elementwise::{
    add_f16, add_f32, broadcast_add_f16, broadcast_mul_f32, copy_f16_to_f32, copy_tensor_f16,
    decay_exp_f32, exp_f16, hip_copy_kernel, hip_decay_exp, hip_lerp, hip_sigmoid,
    hip_softplus_decay, hip_squared_relu, hip_tanh, lerp_f32, mul_f32, negate_f32, sigmoid_f16,
    softplus_decay_f32, squared_relu_f16, tanh_f32,
};
use rwkv_hip::kernels::fla::fla_cumsum;
use rwkv_hip::kernels::mix::{
    channel_mix_state_f32, control_k_f32, extract_shift_state_at_lengths, hip_channel_mix_state,
    hip_control_k, hip_token_shift, token_shift_f32,
};
use rwkv_hip::kernels::norm::{
    group_norm_f16, hip_group_norm, hip_l2_norm, hip_layer_norm, l2_norm_f16, layer_norm_f16,
    layer_norm_f32,
};
use rwkv_hip::kernels::wkv::{
    hip_wkv7, hip_wkv7_masked, hip_wkv_bonus, wkv7_f32, wkv7_f32_masked, wkv7_fused_t1,
    wkv7_wave_reduce, wkv_bonus_f32,
};
use rwkv_hip::launch::{Binary, Gemm, Launch, Unary, Wkv7};
use rwkv_hip::stream::{CommandOf, Elem, HostData, Stream};
use rwkv_hip::tensor::{Element, TensorHip, TensorShape, F16, F32, I32};

fn tensor<T: Element>(shape: [usize; 4], stream: &mut Stream) -> TensorHip<T> {
    let shape = TensorShape::new(shape[0], shape[1], shape[2], shape[3]);
    TensorHip::new(shape, stream).unwrap()
}

/// A tensor of the given shape with a gap between its vectors.
fn gapped<T: Element>(shape: [usize; 4], stream: &mut Stream) -> TensorHip<T> {
    let wide = tensor::<T>([shape[0] + 1, shape[1], shape[2], shape[3]], stream);
    wide.sub_view((0, shape[0]), (0, shape[1]), (0, shape[2]), (0, shape[3])).unwrap()
}

fn said(r: Result<(), HipErrorKind>) -> String {
    let e = r.unwrap_err();
    assert_eq!(e.code, -1);
    e.message
}

/// The kernel that the last command launches.
fn last(stream: &Stream) -> Launch {
    match stream.commands().last().unwrap() {
        CommandOf::Launch(l) => *l,
        _ => panic!("a kernel expected"),
    }
}

fn kernels(stream: &mut Stream) -> Vec<Launch> {
    stream
        .take()
        .iter()
        .filter_map(|c| match c {
            CommandOf::Launch(l) => Some(*l),
            _ => None,
        })
        .collect()
}

#[test]
fn elementwise_kernels_take_their_operands() {
    let s = &mut Stream::new();
    let x = tensor::<F32>([4, 3, 1, 1], s);
    let y = tensor::<F32>([12, 1, 1, 1], s);
    let (input, output) = (x.as_ptr(), y.as_ptr());
    decay_exp_f32(&x, &y, s).unwrap();
    assert_eq!(
        last(s),
        Launch::Unary { op: Unary::DecayExp, elem: Elem::F32, input, output, n: 12 }
    );
    softplus_decay_f32(&x, &y, s).unwrap();
    assert_eq!(
        last(s),
        Launch::Unary { op: Unary::SoftplusDecay, elem: Elem::F32, input, output, n: 12 }
    );
    tanh_f32(&x, &y, s).unwrap();
    assert_eq!(last(s), Launch::Unary { op: Unary::Tanh, elem: Elem::F32, input, output, n: 12 });
    negate_f32(&x, &y, s).unwrap();
    assert_eq!(
        last(s),
        Launch::Unary { op: Unary::Negate, elem: Elem::F32, input, output, n: 12 }
    );
    add_f32(&x, &y, &y, s).unwrap();
    assert_eq!(
        last(s),
        Launch::Binary {
            op: Binary::Add,
            elem: Elem::F32,
            a: input,
            b: output,
            output,
            n: 12,
        }
    );
    let scale = tensor::<F32>([4, 1, 1, 1], s);
    broadcast_mul_f32(&x, &scale, &y, s).unwrap();
    assert_eq!(
        last(s),
        Launch::Broadcast {
            op: Binary::Mul,
            elem: Elem::F32,
            input,
            operand: scale.as_ptr(),
            output,
            n: 12,
            operand_len: 4,
        }
    );
    lerp_f32(&x, &y, &x, &y, s).unwrap();
    assert_eq!(
        last(s),
        Launch::Lerp { elem: Elem::F32, a: input, b: output, t: input, output, n: 12 }
    );
}

#[test]
fn elementwise_kernels_refuse_other_sizes() {
    let s = &mut Stream::new();
    let x = tensor::<F32>([4, 3, 1, 1], s);
    let y = tensor::<F32>([10, 1, 1, 1], s);
    let h = tensor::<F16>([4, 3, 1, 1], s);
    let g = tensor::<F16>([10, 1, 1, 1], s);
    s.take();
    assert_eq!(said(tanh_f32(&x, &y, s)), "Size mismatch: input 12 vs output 10");
    assert_eq!(said(sigmoid_f16(&h, &g, s)), "Size mismatch: input 12 vs output 10");
    assert_eq!(said(copy_tensor_f16(&g, &h, s)), "Size mismatch: input 10 vs output 12");
    assert_eq!(said(negate_f32(&x, &y, s)), "Size mismatch: input=12, output=10");
    assert_eq!(said(exp_f16(&h, &g, s)), "Size mismatch: input=12, output=10");
    assert_eq!(said(mul_f32(&x, &y, &x, s)), "Size mismatch: a=12, b=10, output=12");
    assert_eq!(said(add_f16(&h, &h, &g, s)), "Size mismatch: a=12, b=12, output=10");
    assert_eq!(said(lerp_f32(&x, &x, &y, &x, s)), "Size mismatch: a=12, b=12, t=10, output=12");
    assert_eq!(said(broadcast_add_f16(&h, &h, &g, s)), "Size mismatch: input=12, output=10");
    assert_eq!(
        said(broadcast_add_f16(&h, &g, &h, s)),
        "Broadcast incompatible: input len 12 not divisible by bias len 10"
    );
    assert_eq!(
        said(broadcast_mul_f32(&x, &y, &x, s)),
        "Broadcast incompatible: input len 12 not divisible by scale len 10"
    );
    assert_eq!(said(hip_lerp(&[1, 2], &[3, 4], &[5], s)), "Size mismatch: a=2, b=2, t=1");
    assert!(s.commands().is_empty());
}

#[test]
fn kernels_refuse_gaps() {
    let s = &mut Stream::new();
    let x = gapped::<F32>([4, 3, 1, 1], s);
    let y = tensor::<F32>([4, 3, 1, 1], s);
    let h = gapped::<F16>([4, 3, 1, 1], s);
    let g = tensor::<F16>([4, 3, 1, 1], s);
    s.take();
    assert!(!x.is_contiguous());
    assert_eq!(said(tanh_f32(&x, &y, s)), "tanh_f32 requires contiguous tensors");
    assert_eq!(said(squared_relu_f16(&g, &h, s)), "squared_relu_f16 requires contiguous tensors");
    assert_eq!(said(add_f32(&y, &y, &x, s)), "add_f32 requires contiguous tensors");
    assert_eq!(said(lerp_f32(&y, &x, &y, &y, s)), "lerp_f32 requires contiguous tensors");
    assert_eq!(
        said(broadcast_mul_f32(&y, &y, &x, s)),
        "broadcast_mul_f32 requires contiguous tensors"
    );
    assert_eq!(said(group_norm_f16(&h, &g, &g, &g, 2, 0, s)), "group_norm_f16 requires contiguous tensors");
    assert_eq!(said(l2_norm_f16(&h, &g, 2, 0, s)), "l2_norm_f16 requires contiguous tensors");
    assert!(s.commands().is_empty());
}

#[test]
fn half_precision_is_widened_on_the_device() {
    let s = &mut Stream::new();
    let x = tensor::<F16>([5, 1, 1, 1], s);
    let y = tensor::<F32>([5, 1, 1, 1], s);
    copy_f16_to_f32(&x, &y, s).unwrap();
    assert_eq!(last(s), Launch::CopyF16ToF32 { input: x.as_ptr(), output: y.as_ptr(), n: 5 });
}

#[test]
fn host_values_go_through_the_device() {
    let s = &mut Stream::new();
    hip_copy_kernel(&[7, 8, 9], s).unwrap();
    let commands = s.take();
    assert!(matches!(&commands[2], CommandOf::Upload { dst, data: HostData::F32(v) }
        if dst.buffer == 1 && *v == vec![7, 8, 9]));
    assert!(matches!(&commands[3], CommandOf::Launch(Launch::Unary { op: Unary::Copy, n: 3, .. })));
    assert!(matches!(&commands[4], CommandOf::Download { src, elem: Elem::F32, len: 3 }
        if src.buffer == 2));
    assert!(matches!(&commands[5], CommandOf::Synchronize));
    hip_sigmoid(&[1, 2], s).unwrap();
    assert!(matches!(kernels(s)[0], Launch::Unary { op: Unary::Sigmoid, n: 2, .. }));
    s.take();
    hip_decay_exp(&[1, 2, 3], s).unwrap();
    hip_squared_relu(&[1, 2], s).unwrap();
    hip_softplus_decay(&[1], s).unwrap();
    hip_tanh(&[1, 2, 3, 4], s).unwrap();
    let run = kernels(s);
    assert!(matches!(run[0], Launch::Unary { op: Unary::DecayExp, n: 3, .. }));
    assert!(matches!(run[1], Launch::Unary { op: Unary::SquaredRelu, n: 2, .. }));
    assert!(matches!(run[2], Launch::Unary { op: Unary::SoftplusDecay, n: 1, .. }));
    assert!(matches!(run[3], Launch::Unary { op: Unary::Tanh, n: 4, .. }));
}

#[test]
fn norms_take_every_vector() {
    let s = &mut Stream::new();
    let eps = 1e-5f32.to_bits();
    let x = tensor::<F16>([8, 3, 2, 1], s);
    let y = tensor::<F16>([8, 3, 2, 1], s);
    let w = tensor::<F16>([8, 1, 1, 1], s);
    layer_norm_f16(&x, &w, &w, &y, eps, s).unwrap();
    assert_eq!(
        last(s),
        Launch::LayerNorm {
            elem: Elem::F16,
            input: x.as_ptr(),
            weight: w.as_ptr(),
            bias: w.as_ptr(),
            output: y.as_ptr(),
            c: 8,
            n: 6,
            eps,
        }
    );
    group_norm_f16(&x, &w, &w, &y, 4, eps, s).unwrap();
    assert!(matches!(last(s), Launch::GroupNorm { c: 8, n: 6, groups: 4, .. }));
    l2_norm_f16(&x, &y, 2, eps, s).unwrap();
    assert!(matches!(last(s), Launch::L2Norm { c: 8, n: 6, head_size: 2, .. }));
}

#[test]
fn norms_refuse_other_shapes() {
    let s = &mut Stream::new();
    let x = tensor::<F32>([8, 3, 1, 1], s);
    let y = tensor::<F32>([8, 2, 1, 1], s);
    let w = tensor::<F32>([8, 1, 1, 1], s);
    let v = tensor::<F32>([4, 1, 1, 1], s);
    let h = tensor::<F16>([8, 3, 1, 1], s);
    let g = tensor::<F16>([8, 2, 1, 1], s);
    let u = tensor::<F16>([8, 1, 1, 1], s);
    s.take();
    assert_eq!(
        said(layer_norm_f32(&x, &w, &w, &y, 0, s)),
        "Output shape mismatch: expected C=8 with 3 vectors, got [8, 2, 1, 1] with 2 vectors"
    );
    assert_eq!(
        said(layer_norm_f32(&x, &w, &v, &x, 0, s)),
        "Weight/bias shape mismatch: expected [8, 1, 1, 1], got weight=[8, 1, 1, 1], bias=[4, 1, 1, 1]"
    );
    assert_eq!(said(layer_norm_f16(&h, &u, &u, &g, 0, s)), "layer_norm_f16 shape mismatch");
    assert_eq!(
        said(group_norm_f16(&h, &u, &u, &h, 3, 0, s)),
        "Channel count 8 must be divisible by num_groups 3"
    );
    assert_eq!(
        said(l2_norm_f16(&h, &h, 3, 0, s)),
        "Channel count 8 must be divisible by head_size 3"
    );
    assert_eq!(
        said(l2_norm_f16(&h, &g, 4, 0, s)),
        "Output shape mismatch: expected C=8 with 3 vectors, got [8, 2, 1, 1] with 2 vectors"
    );
    assert_eq!(
        said(hip_layer_norm(&[0; 5], &[0; 2], &[0; 2], 2, 3, 0, s)),
        "Input size mismatch: expected 6 (2*3), got 5"
    );
    assert_eq!(
        said(hip_layer_norm(&[0; 6], &[0; 2], &[0; 3], 2, 3, 0, s)),
        "Weight/bias size mismatch: expected 2, got weight=2, bias=3"
    );
    assert_eq!(
        said(hip_group_norm(&[0; 5], &[0; 2], &[0; 2], 2, 3, 1, 0, s)),
        "Input size mismatch: expected 6, got 5"
    );
    assert_eq!(said(hip_l2_norm(&[0; 5], 2, 3, 1, 0, s)), "Input size mismatch: expected 6, got 5");
    assert!(s.commands().is_empty());
}

#[test]
fn shifts_and_mixes_refuse_other_shapes() {
    let s = &mut Stream::new();
    let x = tensor::<F32>([4, 3, 1, 1], s);
    let y = tensor::<F32>([4, 2, 1, 1], s);
    let c = tensor::<F32>([4, 1, 1, 1], s);
    let d = tensor::<F32>([5, 1, 1, 1], s);
    token_shift_f32(&x, &c, &c, &x, &c, s).unwrap();
    assert!(matches!(last(s), Launch::TokenShift { c: 4, t: 3, .. }));
    channel_mix_state_f32(&x, &c, &c, &x, &c, s).unwrap();
    assert!(matches!(last(s), Launch::ChannelMix { c: 4, t: 3, b: 1, lengths: None, .. }));
    control_k_f32(&c, &x, &x, &x, s).unwrap();
    assert!(matches!(last(s), Launch::ControlK { c: 4, t: 3, b: 1, .. }));
    s.take();
    assert_eq!(
        said(token_shift_f32(&x, &c, &c, &y, &c, s)),
        "Output shape mismatch: expected [4, 3, 1, 1], got [4, 2, 1, 1]"
    );
    assert_eq!(
        said(token_shift_f32(&x, &d, &c, &x, &c, s)),
        "State shape mismatch: expected [4, 1, 1, 1]"
    );
    assert_eq!(
        said(token_shift_f32(&x, &c, &d, &x, &c, s)),
        "Mix shape mismatch: expected [4, 1, 1, 1], got [5, 1, 1, 1]"
    );
    assert_eq!(
        said(channel_mix_state_f32(&x, &c, &c, &y, &c, s)),
        "Output shape mismatch: expected [4, 3, 1, 1], got [4, 2, 1, 1]"
    );
    assert_eq!(
        said(channel_mix_state_f32(&x, &y, &c, &x, &c, s)),
        "State shape mismatch: expected [4, 1, 1, 1], got [4, 2, 1, 1]"
    );
    assert_eq!(
        said(channel_mix_state_f32(&x, &c, &d, &x, &c, s)),
        "x_k shape mismatch: expected [4, 1, 1, 1], got [5, 1, 1, 1]"
    );
    assert_eq!(
        said(control_k_f32(&c, &y, &x, &x, s)),
        "a shape mismatch: expected [4, 3, 1, 1], got [4, 2, 1, 1]"
    );
    assert_eq!(
        said(control_k_f32(&d, &x, &x, &x, s)),
        "k_a shape mismatch: expected [4, 1, 1, 1], got [5, 1, 1, 1]"
    );
    assert_eq!(
        said(hip_token_shift(&[0; 5], &[0; 2], &[0; 2], 2, 3, s)),
        "x size mismatch: expected 6, got 5"
    );
    assert_eq!(
        said(hip_token_shift(&[0; 6], &[0; 3], &[0; 2], 2, 3, s)),
        "state/mix size mismatch: expected 2"
    );
    assert_eq!(
        said(hip_channel_mix_state(&[0; 6], &[0; 3], &[0; 2], 2, 3, 1, s)),
        "state_in size mismatch: expected 2, got 3"
    );
    assert_eq!(
        said(hip_control_k(&[0; 2], &[0; 5], &[0; 6], 2, 3, 1, s)),
        "Input size mismatch: expected 6, got k=6, a=5"
    );
    assert!(s.commands().is_empty());
}

#[test]
fn shift_states_are_those_of_the_last_real_tokens() {
    // Two sequences of three tokens of two channels.
    let x: Vec<u32> = (0..12).collect();
    assert_eq!(extract_shift_state_at_lengths(&x, &[3, 1], 2, 3, 2), vec![4, 5, 6, 7]);
    assert_eq!(extract_shift_state_at_lengths(&x, &[2, 3], 2, 3, 2), vec![2, 3, 10, 11]);
}

#[test]
fn attention_refuses_other_shapes() {
    let s = &mut Stream::new();
    let x = tensor::<F32>([4, 2, 3, 1], s);
    let y = tensor::<F32>([4, 2, 2, 1], s);
    let state = tensor::<F32>([4, 4, 2, 1], s);
    let r_k = tensor::<F32>([4, 2, 1, 1], s);
    let lens = tensor::<I32>([1, 1, 1, 1], s);
    let two = tensor::<I32>([2, 1, 1, 1], s);
    wkv7_f32(&x, &x, &x, &x, &x, &x, &state, &x, &state, s).unwrap();
    assert!(matches!(
        last(s),
        Launch::Wkv7 { kernel: Wkv7::F32, lengths: None, n: 4, h: 2, t: 3, b_size: 1, .. }
    ));
    wkv7_f32_masked(&x, &x, &x, &x, &x, &x, &state, &x, &state, &lens, s).unwrap();
    assert!(matches!(
        last(s),
        Launch::Wkv7 { kernel: Wkv7::F32Masked, lengths: Some(_), n: 4, h: 2, t: 3, b_size: 1, .. }
    ));
    wkv_bonus_f32(&x, &x, &x, &r_k, &x, s).unwrap();
    assert!(matches!(last(s), Launch::WkvBonus { n: 4, h: 2, t: 3, b: 1, .. }));
    s.take();
    assert_eq!(
        said(wkv7_f32(&x, &x, &y, &x, &x, &x, &state, &x, &state, s)),
        "Input shape mismatch: w_decay=[4, 2, 3, 1], q=[4, 2, 3, 1], k=[4, 2, 2, 1], \
         v=[4, 2, 3, 1], a=[4, 2, 3, 1], b=[4, 2, 3, 1]"
    );
    assert_eq!(
        said(wkv7_f32(&x, &x, &x, &x, &x, &x, &state, &y, &state, s)),
        "Output shape mismatch: expected [4, 2, 3, 1], got [4, 2, 2, 1]"
    );
    assert_eq!(
        said(wkv7_f32(&x, &x, &x, &x, &x, &x, &r_k, &x, &state, s)),
        "state_in shape mismatch: expected [4, 4, 2, 1], got [4, 2, 1, 1]"
    );
    assert_eq!(
        said(wkv7_f32(&x, &x, &x, &x, &x, &x, &state, &x, &r_k, s)),
        "state_out shape mismatch: expected [4, 4, 2, 1], got [4, 2, 1, 1]"
    );
    assert_eq!(
        said(wkv7_f32_masked(&x, &x, &x, &x, &x, &x, &state, &x, &state, &two, s)),
        "lengths size mismatch: expected 1, got 2"
    );
    assert_eq!(
        said(wkv_bonus_f32(&x, &y, &x, &r_k, &x, s)),
        "Shape mismatch: r=[4, 2, 3, 1], k=[4, 2, 2, 1], v=[4, 2, 3, 1]"
    );
    assert_eq!(
        said(wkv_bonus_f32(&x, &x, &x, &state, &x, s)),
        "r_k shape mismatch: expected [4, 2, 1, 1], got [4, 4, 2, 1]"
    );
    assert_eq!(
        said(hip_wkv7(&[0; 6], &[0; 6], &[0; 5], &[0; 6], &[0; 6], &[0; 6], &[0; 4], 2, 1, 3, 1, s)),
        "Input size mismatch: expected 6, got w=6, q=6, k=5, v=6, a=6, b=6"
    );
    assert_eq!(
        said(hip_wkv7(&[0; 6], &[0; 6], &[0; 6], &[0; 6], &[0; 6], &[0; 6], &[0; 3], 2, 1, 3, 1, s)),
        "state_in size mismatch: expected 4, got 3"
    );
    assert_eq!(
        said(hip_wkv7_masked(
            &[0; 6], &[0; 6], &[0; 6], &[0; 6], &[0; 6], &[0; 6], &[0; 4], &[1, 1], 2, 1, 3, 1, s
        )),
        "lengths size mismatch: expected 1, got 2"
    );
    assert_eq!(
        said(hip_wkv_bonus(&[0; 6], &[0; 6], &[0; 6], &[0; 3], 2, 1, 3, 1, s)),
        "r_k size mismatch: expected 2, got 3"
    );
    assert!(s.commands().is_empty());
}

#[test]
fn fused_attention_takes_one_token() {
    let s = &mut Stream::new();
    let x = tensor::<F16>([4, 2, 1, 1], s);
    let y = tensor::<F16>([4, 2, 2, 1], s);
    let state = tensor::<F32>([4, 4, 2, 1], s);
    let lens = tensor::<I32>([1, 1, 1, 1], s);
    wkv7_fused_t1(&x, &x, &x, &x, &x, &x, &state, &x, &lens, s).unwrap();
    assert!(matches!(last(s), Launch::Wkv7FusedT1 { n: 4, h: 2, b_size: 1, .. }));
    wkv7_wave_reduce(&y, &y, &y, &y, &y, &y, &state, &y, &lens, s).unwrap();
    assert!(matches!(
        last(s),
        Launch::Wkv7 { kernel: Wkv7::WaveReduce, n: 4, h: 2, t: 2, b_size: 1, .. }
    ));
    s.take();
    assert_eq!(
        said(wkv7_fused_t1(&y, &y, &y, &y, &y, &y, &state, &y, &lens, s)),
        "wkv7_fused_t1 requires T=1"
    );
    assert_eq!(
        said(wkv7_fused_t1(&x, &y, &x, &x, &x, &x, &state, &x, &lens, s)),
        "Input shape mismatch"
    );
    assert!(s.commands().is_empty());
}

#[test]
fn chunked_sums_check_their_lists() {
    let s = &mut Stream::new();
    let x = tensor::<F32>([4, 2, 3, 1], s);
    let y = tensor::<F32>([4, 2, 2, 1], s);
    let list = tensor::<I32>([2, 1, 1, 1], s);
    fla_cumsum(&x, &x, &x, &list, &list, 16, 1, s).unwrap();
    assert!(matches!(last(s), Launch::FlaCumsum { k: 4, h: 2, c: 16, total_chunks: 1, .. }));
    s.take();
    assert_eq!(
        said(fla_cumsum(&x, &y, &x, &list, &list, 16, 1, s)),
        "fla_cumsum: gi shape mismatch: expected [4, 2, 3, 1], got [4, 2, 2, 1]"
    );
    assert_eq!(
        said(fla_cumsum(&x, &x, &y, &list, &list, 16, 1, s)),
        "fla_cumsum: ge shape mismatch: expected [4, 2, 3, 1], got [4, 2, 2, 1]"
    );
    assert_eq!(
        said(fla_cumsum(&x, &x, &x, &list, &list, 16, 2, s)),
        "fla_cumsum: chunk_indices length mismatch: expected 4 (total_chunks=2 * 2), got 2"
    );
    assert!(s.commands().is_empty());
}

#[test]
fn products_take_matching_matrices() {
    let s = &mut Stream::new();
    let w = tensor::<F16>([6, 4, 1, 1], s);
    let x = tensor::<F16>([4, 3, 1, 1], s);
    let y = tensor::<F16>([6, 3, 1, 1], s);
    hgemm_f16(&w, &x, &y, s).unwrap();
    assert_eq!(
        last(s),
        Launch::Gemm {
            kernel: Gemm::Half,
            m: 6,
            n: 3,
            k: 4,
            weight: w.as_ptr(),
            input: x.as_ptr(),
            output: y.as_ptr(),
        }
    );
    s.take();
    assert_eq!(
        said(hgemm_f16(&w, &y, &y, s)),
        "HGEMM dimension mismatch: weight has K=4, input has K=6"
    );
    let v = tensor::<F32>([6, 4, 1, 1], s);
    let z = tensor::<F32>([6, 3, 1, 1], s);
    s.take();
    assert_eq!(
        said(sgemm_f32(&v, &z, &z, s)),
        "SGEMM dimension mismatch: weight has K=4, input has K=6"
    );
    assert_eq!(
        said(hip_sgemm(&[0; 5], &[0; 6], 2, 3, 2, s)),
        "Weight size mismatch: expected 2\u{d7}3=6, got 5"
    );
    assert_eq!(
        said(hip_sgemm_ta(&[0; 6], &[0; 5], 2, 3, 2, s)),
        "Input size mismatch: expected 3\u{d7}2=6, got 5"
    );
    assert_eq!(
        said(hip_hgemm(&[0; 6], &[0; 7], 2, 3, 2, s)),
        "Input size mismatch: expected 3\u{d7}2=6, got 7"
    );
    assert!(s.commands().is_empty());
    hip_sgemm_ta(&[0; 6], &[0; 6], 2, 3, 2, s).unwrap();
    assert!(matches!(
        kernels(s)[0],
        Launch::Gemm { kernel: Gemm::SingleTransposed, m: 2, n: 2, k: 3, .. }
    ));
}

#[test]
fn a_product_context_moves_its_tensors() {
    let mut context = HipBlasContext::new();
    let s = &mut Stream::new();
    let t = tensor::<F32>([3, 1, 1, 1], s);
    let e = context.upload_to_tensor(&[1, 2], &t).unwrap_err();
    assert_eq!(e.message, "Upload size mismatch: data has 2 elements, tensor has 3");
    context.upload_to_tensor(&[1, 2, 3], &t).unwrap();
    context.download_from_tensor(&t);
    let commands = context.stream().commands();
    assert!(matches!(&commands[0], CommandOf::Upload { data: HostData::F32(v), .. }
        if *v == vec![1, 2, 3]));
    assert!(commands.iter().any(|c| matches!(c, CommandOf::Download { len: 3, .. })));
}

#[test]
fn a_product_context_multiplies_its_tensors() {
    let mut context = HipBlasContext::new();
    let s = &mut Stream::new();
    let w = tensor::<F32>([6, 4, 1, 1], s);
    let x = tensor::<F32>([4, 3, 1, 1], s);
    let y = tensor::<F32>([6, 3, 1, 1], s);
    context.sgemm_into(&w, &x, &y).unwrap();
    assert!(matches!(
        last(context.stream()),
        Launch::Gemm { kernel: Gemm::Single, m: 6, n: 3, k: 4, .. }
    ));
    let w = tensor::<F16>([5, 2, 1, 1], s);
    let x = tensor::<F16>([2, 1, 1, 1], s);
    let y = tensor::<F16>([5, 1, 1, 1], s);
    context.hgemm_into(&w, &x, &y).unwrap();
    assert!(matches!(
        last(context.stream()),
        Launch::Gemm { kernel: Gemm::Half, m: 5, n: 1, k: 2, .. }
    ));
    assert!(context.hgemm_into(&x, &w, &y).is_err());
}
