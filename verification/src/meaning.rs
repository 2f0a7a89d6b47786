//! What recorded commands do to device memory, whatever the kernels compute.
use crate::blas::gemm_call;
use crate::buffer::MemoryType;
use crate::kernels::elementwise::{
    binary_call, broadcast_call, copy_f16_to_f32_call, lerp_call, unary_call,
};
use crate::kernels::fla::{
    fla_chunk_h_call, fla_chunk_o_call, fla_intra_call, fla_neg_exp_call, fla_wy_repr_call,
};
use crate::kernels::mix::{channel_mix_call, control_k_call};
use crate::kernels::norm::{group_norm_f16_call, l2_norm_f16_call, layer_norm_f16_call};
use crate::kernels::wkv::{wkv7_call, wkv7_fused_t1_call, wkv_bonus_f16_call, WkvTensors};
use crate::launch::{Binary, Gemm, Launch, Unary, Wkv7};
use crate::memory::bits_of;
use crate::probe::{HipHook, ProbeFrame, ProbeSource};
use crate::run::Run;
use crate::error::ErrorSpec;
use crate::stream::{CommandOf, CommandSpec, DataSpec, Elem};
use crate::tensor::{DevicePtr, TensorShape, TensorSpec};
use vstd::prelude::*;

verus! {

/// The elements of a tensor, by position; what lies beyond its size has no meaning.
pub type Cells = spec_fn(int) -> u32;

/// What the kernels of a device compute. Arithmetic is left open: every function here may be any
/// function at all, so that what holds for all of them holds for every way of rounding.
pub struct Kernels {
    /// A function of one number.
    pub unary: spec_fn(Unary, Elem, u32) -> u32,
    /// Half precision to single precision.
    pub widen: spec_fn(u32) -> u32,
    /// A function of two numbers.
    pub binary: spec_fn(Binary, Elem, u32, u32) -> u32,
    /// The number between `a` and `b` at `t`, in this order.
    pub lerp: spec_fn(Elem, u32, u32, u32) -> u32,
    /// A key from its channel's factor, the adaptation and the key, in this order.
    pub control: spec_fn(Elem, u32, u32, u32) -> u32,
    /// Channels, vectors and epsilon; then input, scale and shift.
    pub layer_norm: spec_fn(Elem, (i32, i32, u32), Cells, Cells, Cells) -> Cells,
    /// Channels, vectors, groups and epsilon; then input, scale and shift.
    pub group_norm: spec_fn(Elem, (i32, i32, i32, u32), Cells, Cells, Cells) -> Cells,
    /// Channels, vectors, head size and epsilon; then input.
    pub l2_norm: spec_fn(Elem, (i32, i32, i32, u32), Cells) -> Cells,
    /// Channels, tokens and sequences; then tokens, the state before them and the mix.
    pub token_mix: spec_fn(Elem, (i32, i32, i32), Cells, Cells, Cells) -> Cells,
    /// Channels, tokens and sequences; then tokens, the state before them and, where padding is
    /// left out, the lengths.
    pub last_token: spec_fn(Elem, (i32, i32, i32), Cells, Cells, Option<Cells>) -> Cells,
    /// Head size, heads, tokens and sequences; then receptance, key, value and the factor.
    pub bonus: spec_fn(Elem, (i32, i32, i32, i32), Cells, Cells, Cells, Cells) -> Cells,
    /// Rows, columns of the input and columns of the weight; then weight and input.
    pub product: spec_fn(Gemm, (i32, i32, i32), Cells, Cells) -> Cells,
    /// Output and new state of the recurrent attention.
    pub wkv: spec_fn(Wkv7, (i32, i32, i32, i32), Recurrent, Cells, Option<Cells>) -> (Cells, Cells),
    /// Output and new state of the recurrent attention over one token, with the lengths.
    pub wkv_one: spec_fn((i32, i32, i32), Recurrent, Cells, Cells) -> (Cells, Cells),
    /// The negative exponential of a number, widened.
    pub neg_exp: spec_fn(u32) -> u32,
    /// Inclusive and exclusive sums of the decay within chunks.
    pub cumsum: spec_fn((i32, i32, i32, i32), Cells, Cells, Cells) -> (Cells, Cells),
    /// Inputs scaled by decay, and the matrices of the chunks.
    pub intra: spec_fn((i32, i32, i32, i32), Intra, Cells, Cells) -> IntraOut,
    /// The inverse of a chunk matrix and what it is folded into.
    pub wy_repr: spec_fn((i32, i32, i32, i32), WyRepr, Cells, Cells) -> (Cells, Cells, Cells),
    /// New state, states between chunks, and corrected values.
    pub chunk_h: spec_fn((i32, i32, i32, i32), ChunkH, Cells, Cells) -> (Cells, Cells, Cells),
    /// The output of the chunks.
    pub chunk_o: spec_fn((i32, i32, i32, i32), ChunkO, Cells, Cells) -> Cells,
}

/// The inputs of the recurrent attention: decay, receptance, key, value, and the two vectors that
/// take from the state and give back to it.
#[verifier::ext_equal]
pub struct Recurrent {
    pub w: Cells,
    pub r: Cells,
    pub k: Cells,
    pub v: Cells,
    pub a: Cells,
    pub b: Cells,
}

/// What the attention within chunks reads.
#[verifier::ext_equal]
pub struct Intra {
    pub q: Cells,
    pub k: Cells,
    pub a: Cells,
    pub b: Cells,
    pub gi: Cells,
    pub ge: Cells,
}

/// What the attention within chunks gives.
#[verifier::ext_equal]
pub struct IntraOut {
    pub qg: Cells,
    pub kg: Cells,
    pub ag: Cells,
    pub bg: Cells,
    pub a_qk: Cells,
    pub a_qb: Cells,
    pub a_ak: Cells,
    pub a_ab: Cells,
}

/// What the inversion of the chunk matrices reads.
#[verifier::ext_equal]
pub struct WyRepr {
    pub a_ab: Cells,
    pub a_ak: Cells,
    pub ag: Cells,
    pub v: Cells,
}

/// What carrying the state from chunk to chunk reads.
#[verifier::ext_equal]
pub struct ChunkH {
    pub kg: Cells,
    pub bg: Cells,
    pub v: Cells,
    pub w: Cells,
    pub u: Cells,
    pub gi: Cells,
    pub state: Cells,
}

/// What the output of the chunks is made of.
#[verifier::ext_equal]
pub struct ChunkO {
    pub qg: Cells,
    pub v: Cells,
    pub v_new: Cells,
    pub a_qk: Cells,
    pub a_qb: Cells,
    pub h: Cells,
}

/// The first `n` elements of a tensor; what lies behind them is not said.
pub closed spec fn cut(n: int, x: Cells) -> Cells {
    |i: int|
        if 0 <= i < n {
            x(i)
        } else {
            arbitrary()
        }
}

/// The elements that a tensor was cut to.
pub broadcast proof fn lemma_cut(n: int, x: Cells, i: int)
    requires
        0 <= i < n,
    ensures
        #[trigger] cut(n, x)(i) == x(i),
{
}

/// Cutting twice is cutting once.
pub broadcast proof fn lemma_cut_twice(n: int, x: Cells)
    ensures
        #[trigger] cut(n, cut(n, x)) == cut(n, x),
{
    assert(cut(n, cut(n, x)) =~= cut(n, x));
}

/// Host data as elements of a tensor.
pub open spec fn host_cells(data: DataSpec) -> Cells {
    |i: int| bits_of(data, i)
}

/// A tensor of zeros.
pub open spec fn zero_cells() -> Cells {
    |i: int| 0u32
}

impl Kernels {
    /// `n` elements, each by itself; a copy is the tensor itself.
    pub open spec fn mapped(self, op: Unary, elem: Elem, n: i32, x: Cells) -> Cells {
        if op == Unary::Copy {
            cut(n as int, x)
        } else {
            cut(n as int, |i: int| (self.unary)(op, elem, x(i)))
        }
    }

    /// `n` elements of two tensors, element by element.
    pub open spec fn zipped(self, op: Binary, elem: Elem, n: i32, x: Cells, y: Cells) -> Cells {
        cut(n as int, |i: int| (self.binary)(op, elem, x(i), y(i)))
    }

    /// `n` elements of a tensor with one of `m` elements repeated along it.
    pub open spec fn spread(
        self,
        op: Binary,
        elem: Elem,
        n: i32,
        x: Cells,
        y: Cells,
        m: i32,
    ) -> Cells {
        cut(n as int, |i: int| (self.binary)(op, elem, x(i), y(i % (m as int))))
    }

    /// The numbers between `n` elements of two tensors, at those of a third.
    pub open spec fn blended(self, elem: Elem, n: i32, a: Cells, b: Cells, t: Cells) -> Cells {
        cut(n as int, |i: int| (self.lerp)(elem, a(i), b(i), t(i)))
    }

    /// Keys under the control of the adaptation, with one factor for each of `c` channels.
    pub open spec fn controlled(
        self,
        elem: Elem,
        size: (i32, i32, i32),
        k_a: Cells,
        a: Cells,
        k: Cells,
    ) -> Cells {
        let c = size.0 as int;
        cut(
            c * size.1 as int * size.2 as int,
            |i: int| (self.control)(elem, k_a(i % c), a(i), k(i)),
        )
    }

    /// `n` elements widened.
    pub open spec fn widened(self, n: i32, x: Cells) -> Cells {
        cut(n as int, |i: int| (self.widen)(x(i)))
    }

    /// The negative exponential of `n` elements, widened.
    pub open spec fn neg_exped(self, n: i32, x: Cells) -> Cells {
        cut(n as int, |i: int| (self.neg_exp)(x(i)))
    }
}

/// What the tensors of a device hold, by address.
pub struct Contents {
    pub of: spec_fn(DevicePtr) -> Cells,
}

impl Contents {
    pub closed spec fn at(self, p: DevicePtr) -> Cells {
        (self.of)(p)
    }

    /// With a tensor written. What other addresses of its buffer hold is not said.
    pub closed spec fn set(self, p: DevicePtr, v: Cells) -> Contents {
        Contents {
            of: |q: DevicePtr|
                if q == p {
                    v
                } else if q.buffer != p.buffer {
                    (self.of)(q)
                } else {
                    arbitrary()
                },
        }
    }

    pub broadcast proof fn lemma_set(self, p: DevicePtr, v: Cells, q: DevicePtr)
        ensures
            q == p ==> #[trigger] self.set(p, v).at(q) == v,
            q.buffer != p.buffer ==> self.set(p, v).at(q) == self.at(q),
    {
    }

    /// After a kernel.
    pub open spec fn launched(self, k: Kernels, launch: Launch) -> Contents {
        match launch {
            Launch::Unary { op, elem, input, output, n } => self.set(
                output,
                k.mapped(op, elem, n, self.at(input)),
            ),
            Launch::CopyF16ToF32 { input, output, n } => self.set(
                output,
                k.widened(n, self.at(input)),
            ),
            Launch::Binary { op, elem, a, b, output, n } => self.set(
                output,
                k.zipped(op, elem, n, self.at(a), self.at(b)),
            ),
            Launch::Broadcast { op, elem, input, operand, output, n, operand_len } => self.set(
                output,
                k.spread(op, elem, n, self.at(input), self.at(operand), operand_len),
            ),
            Launch::Lerp { elem, a, b, t, output, n } => self.set(
                output,
                k.blended(elem, n, self.at(a), self.at(b), self.at(t)),
            ),
            Launch::LayerNorm { elem, input, weight, bias, output, c, n, eps } => self.set(
                output,
                (k.layer_norm)(elem, (c, n, eps), self.at(input), self.at(weight), self.at(bias)),
            ),
            Launch::GroupNorm { elem, input, weight, bias, output, c, n, groups, eps } => self.set(
                output,
                (k.group_norm)(
                    elem,
                    (c, n, groups, eps),
                    self.at(input),
                    self.at(weight),
                    self.at(bias),
                ),
            ),
            Launch::L2Norm { elem, input, output, c, n, head_size, eps } => self.set(
                output,
                (k.l2_norm)(elem, (c, n, head_size, eps), self.at(input)),
            ),
            Launch::TokenShift { x, state_in, mix, output, state_out, c, t } => self.set(
                output,
                (k.token_mix)(
                    Elem::F32,
                    (c, t, 1i32),
                    self.at(x),
                    self.at(state_in),
                    self.at(mix),
                ),
            ).set(
                state_out,
                (k.last_token)(Elem::F32, (c, t, 1i32), self.at(x), self.at(state_in), None),
            ),
            Launch::ChannelMix { elem, x, state_in, x_k, output, state_out, lengths, c, t, b } =>
            self.set(
                output,
                (k.token_mix)(elem, (c, t, b), self.at(x), self.at(state_in), self.at(x_k)),
            ).set(
                state_out,
                (k.last_token)(
                    elem,
                    (c, t, b),
                    self.at(x),
                    self.at(state_in),
                    match lengths {
                        Some(l) => Some(self.at(l)),
                        None => None,
                    },
                ),
            ),
            Launch::ControlK { elem, k_a, a, k: key, output, c, t, b } => self.set(
                output,
                k.controlled(elem, (c, t, b), self.at(k_a), self.at(a), self.at(key)),
            ),
            Launch::WkvBonus { elem, r, k: key, v, r_k, output, n, h, t, b } => self.set(
                output,
                (k.bonus)(
                    elem,
                    (n, h, t, b),
                    self.at(r),
                    self.at(key),
                    self.at(v),
                    self.at(r_k),
                ),
            ),
            Launch::Wkv7 {
                kernel,
                w_decay,
                q,
                k: key,
                v,
                a,
                b,
                state_in,
                output,
                state_out,
                lengths,
                n,
                h,
                t,
                b_size,
            } => {
                let x = Recurrent {
                    w: self.at(w_decay),
                    r: self.at(q),
                    k: self.at(key),
                    v: self.at(v),
                    a: self.at(a),
                    b: self.at(b),
                };
                let both = (k.wkv)(
                    kernel,
                    (n, h, t, b_size),
                    x,
                    self.at(state_in),
                    match lengths {
                        Some(l) => Some(self.at(l)),
                        None => None,
                    },
                );
                self.set(output, both.0).set(state_out, both.1)
            },
            Launch::Wkv7FusedT1 {
                w_decay,
                q,
                k: key,
                v,
                a,
                b,
                state,
                output,
                lengths,
                n,
                h,
                b_size,
            } => {
                let x = Recurrent {
                    w: self.at(w_decay),
                    r: self.at(q),
                    k: self.at(key),
                    v: self.at(v),
                    a: self.at(a),
                    b: self.at(b),
                };
                let both = (k.wkv_one)((n, h, b_size), x, self.at(state), self.at(lengths));
                self.set(output, both.0).set(state, both.1)
            },
            Launch::Gemm { kernel, m, n, k: cols, weight, input, output } => self.set(
                output,
                (k.product)(kernel, (m, n, cols), self.at(weight), self.at(input)),
            ),
            Launch::FlaNegExp { input, output, n } => self.set(
                output,
                k.neg_exped(n, self.at(input)),
            ),
            Launch::FlaCumsum { gk, gi, ge, chunk_indices, cu_seqlens, k: n, h, c, total_chunks } => {
                let both = (k.cumsum)(
                    (n, h, c, total_chunks),
                    self.at(gk),
                    self.at(chunk_indices),
                    self.at(cu_seqlens),
                );
                self.set(gi, both.0).set(ge, both.1)
            },
            Launch::FlaIntra {
                q,
                k: key,
                a,
                b,
                gi,
                ge,
                qg,
                kg,
                ag,
                bg,
                a_qk,
                a_qb,
                a_ak,
                a_ab,
                chunk_indices,
                cu_seqlens,
                k_dim,
                h,
                c,
                total_chunks,
            } => {
                let x = Intra {
                    q: self.at(q),
                    k: self.at(key),
                    a: self.at(a),
                    b: self.at(b),
                    gi: self.at(gi),
                    ge: self.at(ge),
                };
                let y = (k.intra)(
                    (k_dim, h, c, total_chunks),
                    x,
                    self.at(chunk_indices),
                    self.at(cu_seqlens),
                );
                self.set(qg, y.qg).set(kg, y.kg).set(ag, y.ag).set(bg, y.bg).set(a_qk, y.a_qk).set(
                    a_qb,
                    y.a_qb,
                ).set(a_ak, y.a_ak).set(a_ab, y.a_ab)
            },
            Launch::FlaWyRepr {
                a_ab,
                a_ak,
                a_ab_inv,
                ag,
                v,
                w_wy,
                u_wy,
                chunk_indices,
                cu_seqlens,
                k: n,
                h,
                c,
                total_chunks,
            } => {
                let x = WyRepr {
                    a_ab: self.at(a_ab),
                    a_ak: self.at(a_ak),
                    ag: self.at(ag),
                    v: self.at(v),
                };
                let y = (k.wy_repr)(
                    (n, h, c, total_chunks),
                    x,
                    self.at(chunk_indices),
                    self.at(cu_seqlens),
                );
                self.set(a_ab_inv, y.0).set(w_wy, y.1).set(u_wy, y.2)
            },
            Launch::FlaChunkH {
                kg,
                bg,
                v,
                w_wy,
                u_wy,
                gi,
                state,
                h_out,
                v_new,
                chunk_offsets,
                cu_seqlens,
                k: n,
                h,
                c,
                n_seq,
            } => {
                let x = ChunkH {
                    kg: self.at(kg),
                    bg: self.at(bg),
                    v: self.at(v),
                    w: self.at(w_wy),
                    u: self.at(u_wy),
                    gi: self.at(gi),
                    state: self.at(state),
                };
                let y = (k.chunk_h)(
                    (n, h, c, n_seq),
                    x,
                    self.at(chunk_offsets),
                    self.at(cu_seqlens),
                );
                self.set(state, y.0).set(h_out, y.1).set(v_new, y.2)
            },
            Launch::FlaChunkO {
                qg,
                v,
                v_new,
                a_qk,
                a_qb,
                h_in,
                output,
                chunk_indices,
                cu_seqlens,
                k: n,
                h,
                c,
                total_chunks,
            } => {
                let x = ChunkO {
                    qg: self.at(qg),
                    v: self.at(v),
                    v_new: self.at(v_new),
                    a_qk: self.at(a_qk),
                    a_qb: self.at(a_qb),
                    h: self.at(h_in),
                };
                self.set(
                    output,
                    (k.chunk_o)(
                        (n, h, c, total_chunks),
                        x,
                        self.at(chunk_indices),
                        self.at(cu_seqlens),
                    ),
                )
            },
        }
    }

    /// After a command.
    pub open spec fn after(self, k: Kernels, command: CommandSpec) -> Contents {
        match command {
            CommandOf::Upload { dst, data } => self.set(dst, host_cells(data)),
            CommandOf::Zero { dst, elem, len } => self.set(dst, zero_cells()),
            CommandOf::Alloc { buffer, elem, len, memory, zeroed } => self.set(
                DevicePtr { buffer, offset: 0 },
                if zeroed {
                    zero_cells()
                } else {
                    arbitrary()
                },
            ),
            CommandOf::Launch(launch) => self.launched(k, launch),
            _ => self,
        }
    }

    /// After commands, in order.
    pub open spec fn after_all(self, k: Kernels, commands: Seq<CommandSpec>) -> Contents
        decreases commands.len(),
    {
        if commands.len() == 0 {
            self
        } else {
            self.after_all(k, commands.drop_last()).after(k, commands.last())
        }
    }
}

/// One more command.
pub proof fn lemma_pushed(c: Contents, k: Kernels, commands: Seq<CommandSpec>, last: CommandSpec)
    ensures
        c.after_all(k, commands.push(last)) == c.after_all(k, commands).after(k, last),
{
    assert(commands.push(last).drop_last() =~= commands);
}

/// A device: what its kernels compute, and what its memory holds before a stream is played.
pub struct Device {
    pub kernels: Kernels,
    pub start: Contents,
}

impl Device {
    /// The memory after everything that a run has recorded.
    pub closed spec fn after(self, s: Run) -> Contents {
        self.start.after_all(self.kernels, s.stream.log)
    }

    /// What a tensor holds after everything that a run has recorded.
    pub open spec fn at(self, s: Run, t: TensorSpec) -> Cells {
        self.after(s).at(t.ptr())
    }

    pub broadcast proof fn lemma_emit(self, s: Run, command: CommandSpec)
        requires
            s.error is None,
        ensures
            #[trigger] self.after(s.emit(command)) == self.after(s).after(self.kernels, command),
    {
        let log = s.stream.log;
        assert(log.push(command).drop_last() =~= log);
    }

    pub broadcast proof fn lemma_check(self, s: Run, e: Option<ErrorSpec>)
        ensures
            #[trigger] self.after(s.check(e)) == self.after(s),
    {
    }

    pub broadcast proof fn lemma_probe(
        self,
        s: Run,
        map: Map<HipHook, usize>,
        hook: HipHook,
        frame: ProbeFrame,
        source: ProbeSource,
        shape: TensorShape,
        rank: usize,
    )
        ensures
            #[trigger] self.after(s.probe(map, hook, frame, source, shape, rank)) == self.after(s),
            s.probe(map, hook, frame, source, shape, rank).error == s.error,
            s.probe(map, hook, frame, source, shape, rank).stream.next == s.stream.next,
    {
        let log = s.stream.log;
        let r = s.probe(map, hook, frame, source, shape, rank);
        if map.dom().contains(hook) && s.error is None {
            assert(r.stream.log.drop_last() =~= log);
        }
    }

    /// A buffer that was made and filled from the host holds the data; others stay.
    pub broadcast proof fn lemma_filled(
        self,
        s: Run,
        data: DataSpec,
        shape: TensorShape,
        memory: MemoryType,
        q: DevicePtr,
    )
        ensures
            s.filled(data, shape, memory).error is None ==> {
                &&& s.error is None
                &&& s.filled(data, shape, memory).stream.next == s.stream.next + 1
                &&& q.buffer != s.stream.next ==> #[trigger] self.after(
                    s.filled(data, shape, memory),
                ).at(q) == self.after(s).at(q)
                &&& q == s.fresh(shape).ptr() ==> self.after(
                    s.filled(data, shape, memory),
                ).at(q) == host_cells(data)
            },
    {
        broadcast use Contents::lemma_set;

        reveal(Run::allocated);
        let r = s.filled(data, shape, memory);
        if r.error is None {
            let made: CommandSpec = CommandOf::Alloc {
                buffer: s.stream.next,
                elem: data.kind(),
                len: shape.spec_len() as usize,
                memory,
                zeroed: false,
            };
            let up: CommandSpec = CommandOf::Upload { dst: s.fresh(shape).ptr(), data };
            let log = s.stream.log;
            assert(r.stream.log == log.push(made).push(up));
            assert(log.push(made).push(up).drop_last() =~= log.push(made));
            assert(log.push(made).drop_last() =~= log);
            let c = self.start.after_all(self.kernels, log);
            let d = self.start.after_all(self.kernels, log.push(made));
            assert(d == c.after(self.kernels, made));
            assert(self.after(r) == d.after(self.kernels, up));
        }
    }

    /// A buffer that was made leaves the others as they are.
    pub broadcast proof fn lemma_made(
        self,
        s: Run,
        elem: Elem,
        shape: TensorShape,
        memory: MemoryType,
        zeroed: bool,
        q: DevicePtr,
    )
        requires
            s.allocated(elem, shape, memory, zeroed).error is None,
            q.buffer != s.stream.next,
        ensures
            #[trigger] self.after(s.allocated(elem, shape, memory, zeroed)).at(q) == self.after(
                s,
            ).at(q),
    {
        broadcast use Contents::lemma_set;

        reveal(Run::allocated);
        let r = s.allocated(elem, shape, memory, zeroed);
        let made: CommandSpec = CommandOf::Alloc {
            buffer: s.stream.next,
            elem,
            len: shape.spec_len() as usize,
            memory,
            zeroed,
        };
        assert(r.stream.log == s.stream.log.push(made));
        lemma_pushed(self.start, self.kernels, s.stream.log, made);
    }

    pub broadcast proof fn lemma_unary(
        self,
        s: Run,
        op: Unary,
        elem: Elem,
        name: Seq<char>,
        equals: bool,
        x: TensorSpec,
        y: TensorSpec,
    )
        ensures
            ({
                let done = s.call(unary_call(op, elem, name, equals, x, y));
                done.error is None ==> s.error is None && #[trigger] self.after(
                    s.call(unary_call(op, elem, name, equals, x, y)),
                ) == ({
                    let c = self.after(s);
                    let k = self.kernels;
                    c.set(y.ptr(), k.mapped(op, elem, x.len() as i32, c.at(x.ptr())))
                })
            }),
    {
        reveal(unary_call);
        if s.call(unary_call(op, elem, name, equals, x, y)).error is None {
            self.lemma_emit(s, unary_call(op, elem, name, equals, x, y)->Ok_0);
        }
    }

    pub broadcast proof fn lemma_binary(
        self,
        s: Run,
        op: Binary,
        elem: Elem,
        name: Seq<char>,
        a: TensorSpec,
        b: TensorSpec,
        y: TensorSpec,
    )
        ensures
            ({
                let done = s.call(binary_call(op, elem, name, a, b, y));
                done.error is None ==> s.error is None && #[trigger] self.after(
                    s.call(binary_call(op, elem, name, a, b, y)),
                ) == ({
                    let c = self.after(s);
                    let k = self.kernels;
                    c.set(y.ptr(), k.zipped(op, elem, a.len() as i32, c.at(a.ptr()), c.at(b.ptr())))
                })
            }),
    {
        reveal(binary_call);
        if s.call(binary_call(op, elem, name, a, b, y)).error is None {
            self.lemma_emit(s, binary_call(op, elem, name, a, b, y)->Ok_0);
        }
    }

    pub broadcast proof fn lemma_broadcast(
        self,
        s: Run,
        op: Binary,
        elem: Elem,
        name: Seq<char>,
        role: Seq<char>,
        x: TensorSpec,
        o: TensorSpec,
        y: TensorSpec,
    )
        ensures
            ({
                let done = s.call(broadcast_call(op, elem, name, role, x, o, y));
                done.error is None ==> s.error is None && #[trigger] self.after(
                    s.call(broadcast_call(op, elem, name, role, x, o, y)),
                ) == ({
                    let c = self.after(s);
                    let k = self.kernels;
                    c.set(y.ptr(), k.spread(op, elem, x.len() as i32, c.at(x.ptr()), c.at(o.ptr()), o.len() as i32))
                })
            }),
    {
        reveal(broadcast_call);
        if s.call(broadcast_call(op, elem, name, role, x, o, y)).error is None {
            self.lemma_emit(s, broadcast_call(op, elem, name, role, x, o, y)->Ok_0);
        }
    }

    pub broadcast proof fn lemma_lerp(
        self,
        s: Run,
        elem: Elem,
        name: Seq<char>,
        a: TensorSpec,
        b: TensorSpec,
        t: TensorSpec,
        y: TensorSpec,
    )
        ensures
            ({
                let done = s.call(lerp_call(elem, name, a, b, t, y));
                done.error is None ==> s.error is None && #[trigger] self.after(
                    s.call(lerp_call(elem, name, a, b, t, y)),
                ) == ({
                    let c = self.after(s);
                    let k = self.kernels;
                    c.set(y.ptr(), k.blended(elem, a.len() as i32, c.at(a.ptr()), c.at(b.ptr()), c.at(t.ptr())))
                })
            }),
    {
        reveal(lerp_call);
        if s.call(lerp_call(elem, name, a, b, t, y)).error is None {
            self.lemma_emit(s, lerp_call(elem, name, a, b, t, y)->Ok_0);
        }
    }

    pub broadcast proof fn lemma_widen(
        self,
        s: Run,
        x: TensorSpec,
        y: TensorSpec,
    )
        ensures
            ({
                let done = s.call(copy_f16_to_f32_call(x, y));
                done.error is None ==> s.error is None && #[trigger] self.after(
                    s.call(copy_f16_to_f32_call(x, y)),
                ) == ({
                    let c = self.after(s);
                    let k = self.kernels;
                    c.set(y.ptr(), k.widened(x.len() as i32, c.at(x.ptr())))
                })
            }),
    {
        reveal(copy_f16_to_f32_call);
        if s.call(copy_f16_to_f32_call(x, y)).error is None {
            self.lemma_emit(s, copy_f16_to_f32_call(x, y)->Ok_0);
        }
    }

    pub broadcast proof fn lemma_layer_norm(
        self,
        s: Run,
        x: TensorSpec,
        w: TensorSpec,
        b: TensorSpec,
        y: TensorSpec,
        eps: u32,
    )
        ensures
            ({
                let done = s.call(layer_norm_f16_call(x, w, b, y, eps));
                done.error is None ==> s.error is None && #[trigger] self.after(
                    s.call(layer_norm_f16_call(x, w, b, y, eps)),
                ) == ({
                    let c = self.after(s);
                    let k = self.kernels;
                    c.set(y.ptr(), (k.layer_norm)(Elem::F16, (x.shape().d0 as i32, x.shape().vectors() as i32, eps), c.at(x.ptr()), c.at(w.ptr()), c.at(b.ptr())))
                })
            }),
    {
        reveal(layer_norm_f16_call);
        if s.call(layer_norm_f16_call(x, w, b, y, eps)).error is None {
            self.lemma_emit(s, layer_norm_f16_call(x, w, b, y, eps)->Ok_0);
        }
    }

    pub broadcast proof fn lemma_group_norm(
        self,
        s: Run,
        x: TensorSpec,
        w: TensorSpec,
        b: TensorSpec,
        y: TensorSpec,
        groups: usize,
        eps: u32,
    )
        ensures
            ({
                let done = s.call(group_norm_f16_call(x, w, b, y, groups, eps));
                done.error is None ==> s.error is None && #[trigger] self.after(
                    s.call(group_norm_f16_call(x, w, b, y, groups, eps)),
                ) == ({
                    let c = self.after(s);
                    let k = self.kernels;
                    c.set(y.ptr(), (k.group_norm)(Elem::F16, (x.shape().d0 as i32, x.shape().vectors() as i32, groups as i32, eps), c.at(x.ptr()), c.at(w.ptr()), c.at(b.ptr())))
                })
            }),
    {
        reveal(group_norm_f16_call);
        if s.call(group_norm_f16_call(x, w, b, y, groups, eps)).error is None {
            self.lemma_emit(s, group_norm_f16_call(x, w, b, y, groups, eps)->Ok_0);
        }
    }

    pub broadcast proof fn lemma_l2_norm(
        self,
        s: Run,
        x: TensorSpec,
        y: TensorSpec,
        head_size: usize,
        eps: u32,
    )
        ensures
            ({
                let done = s.call(l2_norm_f16_call(x, y, head_size, eps));
                done.error is None ==> s.error is None && #[trigger] self.after(
                    s.call(l2_norm_f16_call(x, y, head_size, eps)),
                ) == ({
                    let c = self.after(s);
                    let k = self.kernels;
                    c.set(y.ptr(), (k.l2_norm)(Elem::F16, (x.shape().d0 as i32, x.shape().vectors() as i32, head_size as i32, eps), c.at(x.ptr())))
                })
            }),
    {
        reveal(l2_norm_f16_call);
        if s.call(l2_norm_f16_call(x, y, head_size, eps)).error is None {
            self.lemma_emit(s, l2_norm_f16_call(x, y, head_size, eps)->Ok_0);
        }
    }

    pub broadcast proof fn lemma_channel_mix(
        self,
        s: Run,
        elem: Elem,
        x: TensorSpec,
        state: TensorSpec,
        x_k: TensorSpec,
        y: TensorSpec,
        state_out: TensorSpec,
        lengths: Option<TensorSpec>,
    )
        ensures
            ({
                let done = s.call(channel_mix_call(elem, x, state, x_k, y, state_out, lengths));
                done.error is None ==> s.error is None && #[trigger] self.after(
                    s.call(channel_mix_call(elem, x, state, x_k, y, state_out, lengths)),
                ) == ({
                    let c = self.after(s);
                    let k = self.kernels;
                    let size = (x.shape().d0 as i32, x.shape().d1 as i32, x.shape().d2 as i32);
                    c.set(y.ptr(), (k.token_mix)(elem, size, c.at(x.ptr()), c.at(state.ptr()), c.at(x_k.ptr()))).set(state_out.ptr(), (k.last_token)(elem, size, c.at(x.ptr()), c.at(state.ptr()), match lengths { Some(l) => Some(c.at(l.ptr())), None => None }))
                })
            }),
    {
        reveal(channel_mix_call);
        if s.call(channel_mix_call(elem, x, state, x_k, y, state_out, lengths)).error is None {
            self.lemma_emit(s, channel_mix_call(elem, x, state, x_k, y, state_out, lengths)->Ok_0);
        }
    }

    pub broadcast proof fn lemma_control_k(
        self,
        s: Run,
        elem: Elem,
        name: Seq<char>,
        k_a: TensorSpec,
        a: TensorSpec,
        key: TensorSpec,
        y: TensorSpec,
    )
        ensures
            ({
                let done = s.call(control_k_call(elem, name, k_a, a, key, y));
                done.error is None ==> s.error is None && #[trigger] self.after(
                    s.call(control_k_call(elem, name, k_a, a, key, y)),
                ) == ({
                    let c = self.after(s);
                    let k = self.kernels;
                    c.set(y.ptr(), k.controlled(elem, (key.shape().d0 as i32, key.shape().d1 as i32, key.shape().d2 as i32), c.at(k_a.ptr()), c.at(a.ptr()), c.at(key.ptr())))
                })
            }),
    {
        reveal(control_k_call);
        if s.call(control_k_call(elem, name, k_a, a, key, y)).error is None {
            self.lemma_emit(s, control_k_call(elem, name, k_a, a, key, y)->Ok_0);
        }
    }

    pub broadcast proof fn lemma_bonus(
        self,
        s: Run,
        r: TensorSpec,
        key: TensorSpec,
        v: TensorSpec,
        r_k: TensorSpec,
        y: TensorSpec,
    )
        ensures
            ({
                let done = s.call(wkv_bonus_f16_call(r, key, v, r_k, y));
                done.error is None ==> s.error is None && #[trigger] self.after(
                    s.call(wkv_bonus_f16_call(r, key, v, r_k, y)),
                ) == ({
                    let c = self.after(s);
                    let k = self.kernels;
                    c.set(y.ptr(), (k.bonus)(Elem::F16, (r.shape().d0 as i32, r.shape().d1 as i32, r.shape().d2 as i32, r.shape().d3 as i32), c.at(r.ptr()), c.at(key.ptr()), c.at(v.ptr()), c.at(r_k.ptr())))
                })
            }),
    {
        reveal(wkv_bonus_f16_call);
        if s.call(wkv_bonus_f16_call(r, key, v, r_k, y)).error is None {
            self.lemma_emit(s, wkv_bonus_f16_call(r, key, v, r_k, y)->Ok_0);
        }
    }

    pub broadcast proof fn lemma_wkv7(
        self,
        s: Run,
        kernel: Wkv7,
        name: Seq<char>,
        x: WkvTensors,
        state: TensorSpec,
        state_out: TensorSpec,
        lengths: Option<TensorSpec>,
    )
        ensures
            ({
                let done = s.call(wkv7_call(kernel, name, x, state, state_out, lengths));
                done.error is None ==> s.error is None && #[trigger] self.after(
                    s.call(wkv7_call(kernel, name, x, state, state_out, lengths)),
                ) == ({
                    let c = self.after(s);
                    let k = self.kernels;
                    let z = x.w_decay.shape();
                    let n = Recurrent { w: c.at(x.w_decay.ptr()), r: c.at(x.q.ptr()), k: c.at(x.k.ptr()), v: c.at(x.v.ptr()), a: c.at(x.a.ptr()), b: c.at(x.b.ptr()) };
                    let y = (k.wkv)(kernel, (z.d0 as i32, z.d1 as i32, z.d2 as i32, z.d3 as i32), n, c.at(state.ptr()), match lengths { Some(l) => Some(c.at(l.ptr())), None => None });
                    c.set(x.output.ptr(), y.0).set(state_out.ptr(), y.1)
                })
            }),
    {
        reveal(wkv7_call);
        if s.call(wkv7_call(kernel, name, x, state, state_out, lengths)).error is None {
            self.lemma_emit(s, wkv7_call(kernel, name, x, state, state_out, lengths)->Ok_0);
        }
    }

    pub broadcast proof fn lemma_wkv_one(
        self,
        s: Run,
        x: WkvTensors,
        state: TensorSpec,
        lengths: TensorSpec,
    )
        ensures
            ({
                let done = s.call(wkv7_fused_t1_call(x, state, lengths));
                done.error is None ==> s.error is None && #[trigger] self.after(
                    s.call(wkv7_fused_t1_call(x, state, lengths)),
                ) == ({
                    let c = self.after(s);
                    let k = self.kernels;
                    let z = x.w_decay.shape();
                    let n = Recurrent { w: c.at(x.w_decay.ptr()), r: c.at(x.q.ptr()), k: c.at(x.k.ptr()), v: c.at(x.v.ptr()), a: c.at(x.a.ptr()), b: c.at(x.b.ptr()) };
                    let y = (k.wkv_one)((z.d0 as i32, z.d1 as i32, z.d3 as i32), n, c.at(state.ptr()), c.at(lengths.ptr()));
                    c.set(x.output.ptr(), y.0).set(state.ptr(), y.1)
                })
            }),
    {
        reveal(wkv7_fused_t1_call);
        if s.call(wkv7_fused_t1_call(x, state, lengths)).error is None {
            self.lemma_emit(s, wkv7_fused_t1_call(x, state, lengths)->Ok_0);
        }
    }

    pub broadcast proof fn lemma_gemm(
        self,
        s: Run,
        kernel: Gemm,
        name: Seq<char>,
        w: TensorSpec,
        x: TensorSpec,
        y: TensorSpec,
    )
        ensures
            ({
                let done = s.call(gemm_call(kernel, name, w, x, y));
                done.error is None ==> s.error is None && #[trigger] self.after(
                    s.call(gemm_call(kernel, name, w, x, y)),
                ) == ({
                    let c = self.after(s);
                    let k = self.kernels;
                    c.set(y.ptr(), (k.product)(kernel, (w.shape().d0 as i32, x.shape().d1 as i32, w.shape().d1 as i32), c.at(w.ptr()), c.at(x.ptr())))
                })
            }),
    {
        reveal(gemm_call);
        if s.call(gemm_call(kernel, name, w, x, y)).error is None {
            self.lemma_emit(s, gemm_call(kernel, name, w, x, y)->Ok_0);
        }
    }

    pub broadcast proof fn lemma_neg_exp(
        self,
        s: Run,
        x: TensorSpec,
        y: TensorSpec,
    )
        ensures
            ({
                let done = s.call(fla_neg_exp_call(x, y));
                done.error is None ==> s.error is None && #[trigger] self.after(
                    s.call(fla_neg_exp_call(x, y)),
                ) == ({
                    let c = self.after(s);
                    let k = self.kernels;
                    c.set(y.ptr(), k.neg_exped(x.len() as i32, c.at(x.ptr())))
                })
            }),
    {
        reveal(fla_neg_exp_call);
        if s.call(fla_neg_exp_call(x, y)).error is None {
            self.lemma_emit(s, fla_neg_exp_call(x, y)->Ok_0);
        }
    }

    pub broadcast proof fn lemma_intra(
        self,
        s: Run,
        q: TensorSpec,
        key: TensorSpec,
        a: TensorSpec,
        b: TensorSpec,
        gi: TensorSpec,
        ge: TensorSpec,
        qg: TensorSpec,
        kg: TensorSpec,
        ag: TensorSpec,
        bg: TensorSpec,
        a_qk: TensorSpec,
        a_qb: TensorSpec,
        a_ak: TensorSpec,
        a_ab: TensorSpec,
        indices: TensorSpec,
        bounds: TensorSpec,
        size: usize,
        total: usize,
    )
        ensures
            ({
                let done = s.call(fla_intra_call(q, key, a, b, gi, ge, qg, kg, ag, bg, a_qk, a_qb, a_ak, a_ab, indices, bounds, size, total));
                done.error is None ==> s.error is None && #[trigger] self.after(
                    s.call(fla_intra_call(q, key, a, b, gi, ge, qg, kg, ag, bg, a_qk, a_qb, a_ak, a_ab, indices, bounds, size, total)),
                ) == ({
                    let c = self.after(s);
                    let k = self.kernels;
                    let x = Intra { q: c.at(q.ptr()), k: c.at(key.ptr()), a: c.at(a.ptr()), b: c.at(b.ptr()), gi: c.at(gi.ptr()), ge: c.at(ge.ptr()) };
                    let y = (k.intra)((q.shape().d0 as i32, q.shape().d1 as i32, size as i32, total as i32), x, c.at(indices.ptr()), c.at(bounds.ptr()));
                    c.set(qg.ptr(), y.qg).set(kg.ptr(), y.kg).set(ag.ptr(), y.ag).set(bg.ptr(), y.bg).set(a_qk.ptr(), y.a_qk).set(a_qb.ptr(), y.a_qb).set(a_ak.ptr(), y.a_ak).set(a_ab.ptr(), y.a_ab)
                })
            }),
    {
        reveal(fla_intra_call);
        if s.call(fla_intra_call(q, key, a, b, gi, ge, qg, kg, ag, bg, a_qk, a_qb, a_ak, a_ab, indices, bounds, size, total)).error is None {
            self.lemma_emit(s, fla_intra_call(q, key, a, b, gi, ge, qg, kg, ag, bg, a_qk, a_qb, a_ak, a_ab, indices, bounds, size, total)->Ok_0);
        }
    }

    pub broadcast proof fn lemma_wy_repr(
        self,
        s: Run,
        a_ab: TensorSpec,
        a_ak: TensorSpec,
        a_ab_inv: TensorSpec,
        ag: TensorSpec,
        v: TensorSpec,
        w_wy: TensorSpec,
        u_wy: TensorSpec,
        indices: TensorSpec,
        bounds: TensorSpec,
        size: usize,
        total: usize,
    )
        ensures
            ({
                let done = s.call(fla_wy_repr_call(a_ab, a_ak, a_ab_inv, ag, v, w_wy, u_wy, indices, bounds, size, total));
                done.error is None ==> s.error is None && #[trigger] self.after(
                    s.call(fla_wy_repr_call(a_ab, a_ak, a_ab_inv, ag, v, w_wy, u_wy, indices, bounds, size, total)),
                ) == ({
                    let c = self.after(s);
                    let k = self.kernels;
                    let x = WyRepr { a_ab: c.at(a_ab.ptr()), a_ak: c.at(a_ak.ptr()), ag: c.at(ag.ptr()), v: c.at(v.ptr()) };
                    let y = (k.wy_repr)((v.shape().d0 as i32, v.shape().d1 as i32, size as i32, total as i32), x, c.at(indices.ptr()), c.at(bounds.ptr()));
                    c.set(a_ab_inv.ptr(), y.0).set(w_wy.ptr(), y.1).set(u_wy.ptr(), y.2)
                })
            }),
    {
        reveal(fla_wy_repr_call);
        if s.call(fla_wy_repr_call(a_ab, a_ak, a_ab_inv, ag, v, w_wy, u_wy, indices, bounds, size, total)).error is None {
            self.lemma_emit(s, fla_wy_repr_call(a_ab, a_ak, a_ab_inv, ag, v, w_wy, u_wy, indices, bounds, size, total)->Ok_0);
        }
    }

    pub broadcast proof fn lemma_chunk_h(
        self,
        s: Run,
        kg: TensorSpec,
        bg: TensorSpec,
        v: TensorSpec,
        w_wy: TensorSpec,
        u_wy: TensorSpec,
        gi: TensorSpec,
        state: TensorSpec,
        h_out: TensorSpec,
        v_new: TensorSpec,
        offsets: TensorSpec,
        bounds: TensorSpec,
        size: usize,
        n_seq: usize,
    )
        ensures
            ({
                let done = s.call(fla_chunk_h_call(kg, bg, v, w_wy, u_wy, gi, state, h_out, v_new, offsets, bounds, size, n_seq));
                done.error is None ==> s.error is None && #[trigger] self.after(
                    s.call(fla_chunk_h_call(kg, bg, v, w_wy, u_wy, gi, state, h_out, v_new, offsets, bounds, size, n_seq)),
                ) == ({
                    let c = self.after(s);
                    let k = self.kernels;
                    let x = ChunkH { kg: c.at(kg.ptr()), bg: c.at(bg.ptr()), v: c.at(v.ptr()), w: c.at(w_wy.ptr()), u: c.at(u_wy.ptr()), gi: c.at(gi.ptr()), state: c.at(state.ptr()) };
                    let y = (k.chunk_h)((v.shape().d0 as i32, v.shape().d1 as i32, size as i32, n_seq as i32), x, c.at(offsets.ptr()), c.at(bounds.ptr()));
                    c.set(state.ptr(), y.0).set(h_out.ptr(), y.1).set(v_new.ptr(), y.2)
                })
            }),
    {
        reveal(fla_chunk_h_call);
        if s.call(fla_chunk_h_call(kg, bg, v, w_wy, u_wy, gi, state, h_out, v_new, offsets, bounds, size, n_seq)).error is None {
            self.lemma_emit(s, fla_chunk_h_call(kg, bg, v, w_wy, u_wy, gi, state, h_out, v_new, offsets, bounds, size, n_seq)->Ok_0);
        }
    }

    pub broadcast proof fn lemma_chunk_o(
        self,
        s: Run,
        qg: TensorSpec,
        v: TensorSpec,
        v_new: TensorSpec,
        a_qk: TensorSpec,
        a_qb: TensorSpec,
        h_in: TensorSpec,
        out: TensorSpec,
        indices: TensorSpec,
        bounds: TensorSpec,
        size: usize,
        total: usize,
    )
        ensures
            ({
                let done = s.call(fla_chunk_o_call(qg, v, v_new, a_qk, a_qb, h_in, out, indices, bounds, size, total));
                done.error is None ==> s.error is None && #[trigger] self.after(
                    s.call(fla_chunk_o_call(qg, v, v_new, a_qk, a_qb, h_in, out, indices, bounds, size, total)),
                ) == ({
                    let c = self.after(s);
                    let k = self.kernels;
                    let x = ChunkO { qg: c.at(qg.ptr()), v: c.at(v.ptr()), v_new: c.at(v_new.ptr()), a_qk: c.at(a_qk.ptr()), a_qb: c.at(a_qb.ptr()), h: c.at(h_in.ptr()) };
                    c.set(out.ptr(), (k.chunk_o)((v.shape().d0 as i32, v.shape().d1 as i32, size as i32, total as i32), x, c.at(indices.ptr()), c.at(bounds.ptr())))
                })
            }),
    {
        reveal(fla_chunk_o_call);
        if s.call(fla_chunk_o_call(qg, v, v_new, a_qk, a_qb, h_in, out, indices, bounds, size, total)).error is None {
            self.lemma_emit(s, fla_chunk_o_call(qg, v, v_new, a_qk, a_qb, h_in, out, indices, bounds, size, total)->Ok_0);
        }
    }

}

pub broadcast group group_calls {
    Contents::lemma_set,
    Device::lemma_check,
    Device::lemma_probe,
    Device::lemma_unary,
    Device::lemma_binary,
    Device::lemma_broadcast,
    Device::lemma_lerp,
    Device::lemma_layer_norm,
    Device::lemma_group_norm,
    Device::lemma_l2_norm,
    Device::lemma_channel_mix,
    Device::lemma_control_k,
    Device::lemma_bonus,
    Device::lemma_gemm,
    Device::lemma_widen,
}

} // verus!
