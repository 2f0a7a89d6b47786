//! Kernels of the device and their arguments.
use crate::stream::Elem;
use crate::tensor::DevicePtr;
use vstd::prelude::*;

verus! {

/// Kernels that map one tensor elementwise.
#[derive(Debug, Clone, Copy, PartialEq, Eq, Structural)]
pub enum Unary {
    Copy,
    DecayExp,
    Sigmoid,
    SquaredRelu,
    SoftplusDecay,
    Tanh,
    Negate,
    Exp,
}

/// Kernels that combine two tensors elementwise.
#[derive(Debug, Clone, Copy, PartialEq, Eq, Structural)]
pub enum Binary {
    Add,
    Mul,
}

/// The recurrent attention kernels.
#[derive(Debug, Clone, Copy, PartialEq, Eq, Structural)]
pub enum Wkv7 {
    /// Single precision.
    F32,
    /// Single precision; padding leaves the state alone.
    F32Masked,
    /// Half precision; padding leaves the state alone.
    F16Masked,
    /// Half precision with wave-cooperative reductions.
    WaveReduce,
}

/// The matrix products.
#[derive(Debug, Clone, Copy, PartialEq, Eq, Structural)]
pub enum Gemm {
    /// Half precision.
    Half,
    /// Single precision.
    Single,
    /// Single precision, with the weights stored by rows.
    SingleTransposed,
}

/// A kernel and its arguments. Sizes are the 32-bit integers that the device takes;
/// `eps` holds the bits of a single-precision number.
#[derive(Debug, Clone, Copy, PartialEq, Eq)]
pub enum Launch {
    Unary { op: Unary, elem: Elem, input: DevicePtr, output: DevicePtr, n: i32 },
    CopyF16ToF32 { input: DevicePtr, output: DevicePtr, n: i32 },
    Binary { op: Binary, elem: Elem, a: DevicePtr, b: DevicePtr, output: DevicePtr, n: i32 },
    Broadcast {
        op: Binary,
        elem: Elem,
        input: DevicePtr,
        operand: DevicePtr,
        output: DevicePtr,
        n: i32,
        operand_len: i32,
    },
    Lerp {
        elem: Elem,
        a: DevicePtr,
        b: DevicePtr,
        t: DevicePtr,
        output: DevicePtr,
        n: i32,
    },
    LayerNorm {
        elem: Elem,
        input: DevicePtr,
        weight: DevicePtr,
        bias: DevicePtr,
        output: DevicePtr,
        c: i32,
        n: i32,
        eps: u32,
    },
    GroupNorm {
        elem: Elem,
        input: DevicePtr,
        weight: DevicePtr,
        bias: DevicePtr,
        output: DevicePtr,
        c: i32,
        n: i32,
        groups: i32,
        eps: u32,
    },
    L2Norm {
        elem: Elem,
        input: DevicePtr,
        output: DevicePtr,
        c: i32,
        n: i32,
        head_size: i32,
        eps: u32,
    },
    TokenShift {
        x: DevicePtr,
        state_in: DevicePtr,
        mix: DevicePtr,
        output: DevicePtr,
        state_out: DevicePtr,
        c: i32,
        t: i32,
    },
    /// With `lengths`, the state is taken at the last real token of each sequence.
    ChannelMix {
        elem: Elem,
        x: DevicePtr,
        state_in: DevicePtr,
        x_k: DevicePtr,
        output: DevicePtr,
        state_out: DevicePtr,
        lengths: Option<DevicePtr>,
        c: i32,
        t: i32,
        b: i32,
    },
    ControlK {
        elem: Elem,
        k_a: DevicePtr,
        a: DevicePtr,
        k: DevicePtr,
        output: DevicePtr,
        c: i32,
        t: i32,
        b: i32,
    },
    WkvBonus {
        elem: Elem,
        r: DevicePtr,
        k: DevicePtr,
        v: DevicePtr,
        r_k: DevicePtr,
        output: DevicePtr,
        n: i32,
        h: i32,
        t: i32,
        b: i32,
    },
    Wkv7 {
        kernel: Wkv7,
        w_decay: DevicePtr,
        q: DevicePtr,
        k: DevicePtr,
        v: DevicePtr,
        a: DevicePtr,
        b: DevicePtr,
        state_in: DevicePtr,
        output: DevicePtr,
        state_out: DevicePtr,
        lengths: Option<DevicePtr>,
        n: i32,
        h: i32,
        t: i32,
        b_size: i32,
    },
    /// One token per sequence; the state is updated in place.
    Wkv7FusedT1 {
        w_decay: DevicePtr,
        q: DevicePtr,
        k: DevicePtr,
        v: DevicePtr,
        a: DevicePtr,
        b: DevicePtr,
        state: DevicePtr,
        output: DevicePtr,
        lengths: DevicePtr,
        n: i32,
        h: i32,
        b_size: i32,
    },
    /// `output = weight * input`, with `weight` of `m` rows and `k` columns, `input` of
    /// `n` columns.
    Gemm {
        kernel: Gemm,
        m: i32,
        n: i32,
        k: i32,
        weight: DevicePtr,
        input: DevicePtr,
        output: DevicePtr,
    },
    /// `output = -exp(input)`, widened to single precision.
    FlaNegExp { input: DevicePtr, output: DevicePtr, n: i32 },
    FlaCumsum {
        gk: DevicePtr,
        gi: DevicePtr,
        ge: DevicePtr,
        chunk_indices: DevicePtr,
        cu_seqlens: DevicePtr,
        k: i32,
        h: i32,
        c: i32,
        total_chunks: i32,
    },
    FlaIntra {
        q: DevicePtr,
        k: DevicePtr,
        a: DevicePtr,
        b: DevicePtr,
        gi: DevicePtr,
        ge: DevicePtr,
        qg: DevicePtr,
        kg: DevicePtr,
        ag: DevicePtr,
        bg: DevicePtr,
        a_qk: DevicePtr,
        a_qb: DevicePtr,
        a_ak: DevicePtr,
        a_ab: DevicePtr,
        chunk_indices: DevicePtr,
        cu_seqlens: DevicePtr,
        k_dim: i32,
        h: i32,
        c: i32,
        total_chunks: i32,
    },
    FlaWyRepr {
        a_ab: DevicePtr,
        a_ak: DevicePtr,
        a_ab_inv: DevicePtr,
        ag: DevicePtr,
        v: DevicePtr,
        w_wy: DevicePtr,
        u_wy: DevicePtr,
        chunk_indices: DevicePtr,
        cu_seqlens: DevicePtr,
        k: i32,
        h: i32,
        c: i32,
        total_chunks: i32,
    },
    FlaChunkH {
        kg: DevicePtr,
        bg: DevicePtr,
        v: DevicePtr,
        w_wy: DevicePtr,
        u_wy: DevicePtr,
        gi: DevicePtr,
        state: DevicePtr,
        h_out: DevicePtr,
        v_new: DevicePtr,
        chunk_offsets: DevicePtr,
        cu_seqlens: DevicePtr,
        k: i32,
        h: i32,
        c: i32,
        n_seq: i32,
    },
    FlaChunkO {
        qg: DevicePtr,
        v: DevicePtr,
        v_new: DevicePtr,
        a_qk: DevicePtr,
        a_qb: DevicePtr,
        h_in: DevicePtr,
        output: DevicePtr,
        chunk_indices: DevicePtr,
        cu_seqlens: DevicePtr,
        k: i32,
        h: i32,
        c: i32,
        total_chunks: i32,
    },
}

} // verus!
