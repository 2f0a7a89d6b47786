//! The chunked linear attention over a whole prompt.
use crate::buffer::MemoryType;
use crate::buffers::{fla_view, fla_view_error, FlaBuffers, FlaSpec};
use crate::error::{ErrorSpec, HipErrorKind};
use crate::kernels::fla::{
    fla_chunk_h, fla_chunk_h_call, fla_chunk_o, fla_chunk_o_call, fla_cumsum, fla_cumsum_run,
    fla_intra, fla_intra_call, fla_neg_exp_call, fla_neg_exp_f16_to_f32, fla_wy_repr,
    fla_wy_repr_call,
};
use crate::model::chunks::{
    ceil_div, chunk_list, chunks_before, lemma_ceil_div, prepare_chunk_indices,
    prepare_chunk_offsets, rising,
};
use crate::scratch::{fla_of, spec_ceil_div, HipScratch, ScratchSpec};
use crate::shapes::FlaShapes;
use crate::stream::{DataSpec, HostData, Run, Stream};
use crate::tensor::{
    lemma_matrix_fits, resize_error, TensorHip, TensorShape, TensorSpec, F16, F32, I32,
};
use vstd::prelude::*;

verus! {

broadcast use Run::lemma_allocated;

/// Prompts of at least this many tokens pay for the chunked linear attention.
pub const FLA_CHUNK_THRESHOLD: usize = 32;

/// The chunked linear attention for `seq_len` tokens of each of `batch_size` sequences.
#[derive(Debug)]
pub struct FlaChunkedWkv {
    pub chunk_size: usize,
    pub batch_size: usize,
    pub seq_len: usize,
    pub head_size: usize,
    pub n_head: usize,
    pub bufs: FlaBuffers,
}

/// What the chunked linear attention stands for.
pub struct FlaWkvSpec {
    pub chunk_size: usize,
    pub batch_size: usize,
    pub seq_len: usize,
    pub head_size: usize,
    pub n_head: usize,
    pub bufs: FlaSpec,
}

impl View for FlaChunkedWkv {
    type V = FlaWkvSpec;

    open spec fn view(&self) -> FlaWkvSpec {
        FlaWkvSpec {
            chunk_size: self.chunk_size,
            batch_size: self.batch_size,
            seq_len: self.seq_len,
            head_size: self.head_size,
            n_head: self.n_head,
            bufs: self.bufs@,
        }
    }
}

/// Shapes of the chunked linear attention for one pass.
pub open spec fn fla_pass_shapes(
    head_size: usize,
    n_head: usize,
    c: usize,
    t: usize,
    b: usize,
) -> FlaShapes {
    FlaShapes::of(
        head_size,
        n_head,
        c,
        (b * spec_ceil_div(t as int, c as int)) as usize,
        t,
        b,
    )
}

/// Whether the sizes of the chunked linear attention for one pass are machine integers.
pub open spec fn fla_pass_fits(
    head_size: usize,
    n_head: usize,
    c: usize,
    t: usize,
    b: usize,
) -> bool {
    &&& c > 0
    &&& t + c <= usize::MAX
    &&& b * spec_ceil_div(t as int, c as int) <= usize::MAX
    &&& fla_pass_shapes(head_size, n_head, c, t, b).fits()
}

/// The chunked linear attention that a pass gets from the working memory.
pub open spec fn fla_for(
    scratch: ScratchSpec,
    head_size: usize,
    n_head: usize,
    t: usize,
    b: usize,
) -> FlaWkvSpec {
    let c = scratch.config.fla_chunk_size;
    FlaWkvSpec {
        chunk_size: c,
        batch_size: b,
        seq_len: t,
        head_size,
        n_head,
        bufs: fla_view(scratch.fla, fla_pass_shapes(head_size, n_head, c, t, b)),
    }
}

/// Why a pass gets no chunked linear attention from the working memory, where it gets none.
pub open spec fn fla_new_error(
    scratch: ScratchSpec,
    head_size: usize,
    n_head: usize,
    t: usize,
    b: usize,
) -> Option<ErrorSpec> {
    fla_view_error(
        scratch.fla,
        fla_pass_shapes(head_size, n_head, scratch.config.fla_chunk_size, t, b),
    )
}

/// Where each sequence starts, and the last one ends. A single sequence ends at its real
/// length; of several, each takes its padded length.
pub open spec fn cu_seqlens(lengths: Seq<usize>, t: usize, b: usize) -> Seq<u32> {
    if b == 1 {
        seq![0u32, lengths[0] as u32]
    } else {
        Seq::new((b + 1) as nat, |i: int| (i * t) as u32)
    }
}

/// Where each sequence starts, and the last one ends.
pub fn sequence_bounds(lengths: &[usize], t: usize, b: usize) -> (v: Vec<u32>)
    requires
        b >= 1,
        b == 1 ==> lengths@.len() >= 1,
        b > 1 ==> b * t <= u32::MAX,
    ensures
        v@ == cu_seqlens(lengths@, t, b),
        rising(v@),
{
    let mut v: Vec<u32> = Vec::new();
    if b == 1 {
        v.push(0u32);
        v.push(lengths[0] as u32);
        assert(v@ =~= cu_seqlens(lengths@, t, b));
        return v;
    }
    v.push(0u32);
    assert(0 * t == 0) by (nonlinear_arith);
    let mut i: usize = 0;
    while i < b
        invariant
            i <= b,
            b > 1,
            b * t <= u32::MAX,
            v@.len() == i + 1,
            forall|k: int| 0 <= k <= i ==> #[trigger] v@[k] == k * t,
        decreases b - i,
    {
        assert((i + 1) * t <= b * t) by (nonlinear_arith)
            requires
                i + 1 <= b,
        ;
        let end: usize = (i + 1) * t;
        v.push(end as u32);
        i += 1;
    }
    proof {
        assert forall|k: int| 0 <= k <= b implies 0 <= #[trigger] (k * t) <= u32::MAX by {
            assert(0 <= k * t <= b * t) by (nonlinear_arith)
                requires
                    0 <= k <= b,
            ;
        }
        assert(v@ =~= cu_seqlens(lengths@, t, b));
        assert forall|k: int, l: int| 0 <= k <= l < v@.len() implies #[trigger] v@[k]
            <= #[trigger] v@[l] by {
            assert(k * t <= l * t) by (nonlinear_arith)
                requires
                    k <= l,
            ;
        }
    }
    v
}

/// The pairs of a list, one after the other, as the device takes them.
pub open spec fn flat_pairs(list: Seq<(u32, u32)>) -> Seq<i32> {
    Seq::new(
        list.len() * 2,
        |i: int|
            if i % 2 == 0 {
                list[i / 2].0 as i32
            } else {
                list[i / 2].1 as i32
            },
    )
}

/// Numbers as the device takes them.
pub open spec fn as_i32(list: Seq<u32>) -> Seq<i32> {
    Seq::new(list.len(), |i: int| list[i] as i32)
}

fn flatten_pairs(pairs: &Vec<[u32; 2]>, Ghost(list): Ghost<Seq<(u32, u32)>>) -> (v: Vec<i32>)
    requires
        pairs@.len() == list.len(),
        forall|k: int|
            0 <= k < pairs@.len() ==> (#[trigger] pairs@[k])@ =~= seq![list[k].0, list[k].1],
    ensures
        v@ == flat_pairs(list),
{
    let mut v: Vec<i32> = Vec::new();
    let mut k: usize = 0;
    while k < pairs.len()
        invariant
            k <= pairs@.len(),
            pairs@.len() == list.len(),
            forall|k: int|
                0 <= k < pairs@.len() ==> (#[trigger] pairs@[k])@ =~= seq![list[k].0, list[k].1],
            v@ == flat_pairs(list.take(k as int)),
        decreases pairs@.len() - k,
    {
        let ghost before = v@;
        assert(pairs@[k as int]@ =~= seq![list[k as int].0, list[k as int].1]);
        v.push(pairs[k][0] as i32);
        v.push(pairs[k][1] as i32);
        proof {
            let longer = flat_pairs(list.take(k + 1));
            assert forall|i: int| 0 <= i < longer.len() implies v@[i] == longer[i] by {
                if i < before.len() {
                    assert(list.take(k + 1)[i / 2] == list.take(k as int)[i / 2]);
                }
            }
            assert(v@ =~= longer);
        }
        k += 1;
    }
    assert(list.take(k as int) =~= list);
    v
}

fn to_i32(list: &Vec<u32>) -> (v: Vec<i32>)
    ensures
        v@ == as_i32(list@),
{
    let mut v: Vec<i32> = Vec::new();
    let mut k: usize = 0;
    while k < list.len()
        invariant
            k <= list@.len(),
            v@ == as_i32(list@.take(k as int)),
        decreases list@.len() - k,
    {
        v.push(list[k] as i32);
        assert(v@ =~= as_i32(list@.take(k + 1)));
        k += 1;
    }
    assert(list@.take(k as int) =~= list@);
    v
}

/// The chunks of a pass: what goes to the device to describe them.
pub struct ChunkPlan {
    pub total: nat,
    pub indices: Seq<i32>,
    pub offsets: Seq<i32>,
    pub bounds: Seq<i32>,
}

/// The chunks of a pass over sequences with the given bounds.
pub open spec fn chunk_plan(cu: Seq<u32>, c: int) -> ChunkPlan {
    let n = (cu.len() - 1) as nat;
    let list = chunk_list(cu, c, n);
    ChunkPlan {
        total: list.len(),
        indices: flat_pairs(list),
        offsets: Seq::new(cu.len(), |i: int| chunks_before(cu, c, i as nat) as u32 as i32),
        bounds: as_i32(cu),
    }
}

/// The tensors of one layer that the chunked linear attention reads and writes.
pub struct FlaArgs {
    pub att_w: TensorSpec,
    pub r: TensorSpec,
    pub k: TensorSpec,
    pub v: TensorSpec,
    pub a: TensorSpec,
    pub b: TensorSpec,
    pub state: TensorSpec,
    pub output: TensorSpec,
}

/// The stages, once the chunks are described on the device.
pub open spec fn fla_stages_run(
    s: Run,
    f: FlaWkvSpec,
    x: FlaArgs,
    total: usize,
    indices: TensorSpec,
    offsets: TensorSpec,
    bounds: TensorSpec,
) -> Run {
    let c = f.chunk_size;
    let w = f.bufs;
    let token = TensorShape::of(f.head_size, f.n_head, f.seq_len, f.batch_size);
    let gk = w.gi.with_shape(token);
    let s = s.check(resize_error(w.gi, token)).call(fla_neg_exp_call(x.att_w, gk));
    fla_cumsum_run(s, gk, w.gi, w.ge, indices, bounds, c, total).call(
        fla_intra_call(
            x.r,
            x.k,
            x.a,
            x.b,
            w.gi,
            w.ge,
            w.qg,
            w.kg,
            w.ag,
            w.bg,
            w.a_qk,
            w.a_qb,
            w.a_ak,
            w.a_ab,
            indices,
            bounds,
            c,
            total,
        ),
    ).call(
        fla_wy_repr_call(
            w.a_ab,
            w.a_ak,
            w.a_ab_inv,
            w.ag,
            x.v,
            w.w_wy,
            w.u_wy,
            indices,
            bounds,
            c,
            total,
        ),
    ).call(
        fla_chunk_h_call(
            w.kg,
            w.bg,
            x.v,
            w.w_wy,
            w.u_wy,
            w.gi,
            x.state,
            w.h,
            w.v_new,
            offsets,
            bounds,
            c,
            f.batch_size,
        ),
    ).call(
        fla_chunk_o_call(
            w.qg,
            x.v,
            w.v_new,
            w.a_qk,
            w.a_qb,
            w.h,
            x.output,
            indices,
            bounds,
            c,
            total,
        ),
    )
}

/// Describes the chunks on the device, then runs the stages. Without chunks there is nothing
/// to do.
#[verifier::opaque]
pub open spec fn fla_compute_run(s: Run, f: FlaWkvSpec, x: FlaArgs, lengths: Seq<usize>) -> Run {
    let plan = chunk_plan(cu_seqlens(lengths, f.seq_len, f.batch_size), f.chunk_size as int);
    if plan.total == 0 {
        s
    } else {
        let ci_shape = TensorShape::of((plan.total * 2) as usize, 1, 1, 1);
        let list_shape = TensorShape::of((f.batch_size + 1) as usize, 1, 1, 1);
        let indices = s.fresh(ci_shape);
        let s = s.filled(DataSpec::I32(plan.indices), ci_shape, MemoryType::Device);
        let offsets = s.fresh(list_shape);
        let s = s.filled(DataSpec::I32(plan.offsets), list_shape, MemoryType::Device);
        let bounds = s.fresh(list_shape);
        let s = s.filled(DataSpec::I32(plan.bounds), list_shape, MemoryType::Device);
        s.step(
            |s: Run|
                fla_stages_run(s, f, x, plan.total as usize, indices, offsets, bounds),
        )
    }
}

/// What the chunked linear attention asks of its sizes.
pub open spec fn fla_sizes_fit(c: usize, t: usize, b: usize, lengths: Seq<usize>) -> bool {
    let cu = cu_seqlens(lengths, t, b);
    &&& c > 0
    &&& b >= 1
    &&& b < usize::MAX
    &&& b == 1 ==> lengths.len() >= 1
    &&& b > 1 ==> b * t <= u32::MAX
    &&& chunk_plan(cu, c as int).total * 2 <= usize::MAX
}

impl FlaChunkedWkv {
    /// Takes the chunked linear attention for a pass out of the working memory.
    pub fn new(
        scratch: &HipScratch,
        head_size: usize,
        n_head: usize,
        seq_len: usize,
        batch_size: usize,
    ) -> (r: Result<FlaChunkedWkv, HipErrorKind>)
        requires
            fla_pass_fits(
                head_size,
                n_head,
                scratch.config.fla_chunk_size,
                seq_len,
                batch_size,
            ),
        ensures
            match r {
                Ok(f) => fla_new_error(scratch@, head_size, n_head, seq_len, batch_size) is None
                    && f@ == fla_for(scratch@, head_size, n_head, seq_len, batch_size),
                Err(e) => fla_new_error(scratch@, head_size, n_head, seq_len, batch_size) == Some(
                    e@,
                ),
            },
    {
        let chunk_size: usize = scratch.config.fla_chunk_size;
        let chunks: usize = ceil_div(seq_len, chunk_size);
        let total: usize = batch_size * chunks;
        let sh = FlaShapes::new(head_size, n_head, chunk_size, total, seq_len, batch_size);
        reveal(fla_of);
        let bufs = scratch.fla.resized(&sh)?;
        Ok(FlaChunkedWkv { chunk_size, batch_size, seq_len, head_size, n_head, bufs })
    }

    fn stages(
        &self,
        att_w: &TensorHip<F16>,
        r: &TensorHip<F16>,
        k: &TensorHip<F16>,
        v: &TensorHip<F16>,
        a: &TensorHip<F16>,
        b: &TensorHip<F16>,
        state: &TensorHip<F32>,
        output: &TensorHip<F16>,
        total: usize,
        indices: &TensorHip<I32>,
        offsets: &TensorHip<I32>,
        bounds: &TensorHip<I32>,
        stream: &mut Stream,
    ) -> (res: Result<(), HipErrorKind>)
        requires
            TensorShape::of(self.head_size, self.n_head, self.seq_len, self.batch_size).fits(),
            total * 2 <= usize::MAX,
        ensures
            fla_stages_run(
                Run::start(old(stream)@),
                self@,
                (FlaArgs {
                    att_w: att_w@,
                    r: r@,
                    k: k@,
                    v: v@,
                    a: a@,
                    b: b@,
                    state: state@,
                    output: output@,
                }),
                total,
                indices@,
                offsets@,
                bounds@,
            ).agrees(final(stream)@, res),
    {
        let c: usize = self.chunk_size;
        let w = &self.bufs;
        let token = TensorShape::new(self.head_size, self.n_head, self.seq_len, self.batch_size);
        let gk = w.gi.resized_view(token)?;
        fla_neg_exp_f16_to_f32(att_w, &gk, stream)?;
        fla_cumsum(&gk, &w.gi, &w.ge, indices, bounds, c, total, stream)?;
        fla_intra(
            r,
            k,
            a,
            b,
            &w.gi,
            &w.ge,
            &w.qg,
            &w.kg,
            &w.ag,
            &w.bg,
            &w.a_qk,
            &w.a_qb,
            &w.a_ak,
            &w.a_ab,
            indices,
            bounds,
            c,
            total,
            stream,
        )?;
        fla_wy_repr(
            &w.a_ab,
            &w.a_ak,
            &w.a_ab_inv,
            &w.ag,
            v,
            &w.w_wy,
            &w.u_wy,
            indices,
            bounds,
            c,
            total,
            stream,
        )?;
        fla_chunk_h(
            &w.kg,
            &w.bg,
            v,
            &w.w_wy,
            &w.u_wy,
            &w.gi,
            state,
            &w.h,
            &w.v_new,
            offsets,
            bounds,
            c,
            self.batch_size,
            stream,
        )?;
        fla_chunk_o(
            &w.qg,
            v,
            &w.v_new,
            &w.a_qk,
            &w.a_qb,
            &w.h,
            output,
            indices,
            bounds,
            c,
            total,
            stream,
        )?;
        Ok(())
    }

    /// Runs the chunked linear attention of one layer; the state is updated in place.
    pub fn compute(
        &self,
        att_w: &TensorHip<F16>,
        r: &TensorHip<F16>,
        k: &TensorHip<F16>,
        v: &TensorHip<F16>,
        a: &TensorHip<F16>,
        b: &TensorHip<F16>,
        state: &TensorHip<F32>,
        output: &TensorHip<F16>,
        lengths: &[usize],
        stream: &mut Stream,
    ) -> (res: Result<(), HipErrorKind>)
        requires
            TensorShape::of(self.head_size, self.n_head, self.seq_len, self.batch_size).fits(),
            fla_sizes_fit(self.chunk_size, self.seq_len, self.batch_size, lengths@),
        ensures
            fla_compute_run(
                Run::start(old(stream)@),
                self@,
                (FlaArgs {
                    att_w: att_w@,
                    r: r@,
                    k: k@,
                    v: v@,
                    a: a@,
                    b: b@,
                    state: state@,
                    output: output@,
                }),
                lengths@,
            ).agrees(final(stream)@, res),
    {
        reveal(fla_compute_run);
        let c: usize = self.chunk_size;
        let cu = sequence_bounds(lengths, self.seq_len, self.batch_size);
        let ghost plan = chunk_plan(cu@, c as int);
        let pairs = prepare_chunk_indices(cu.as_slice(), c);
        let chunk_offsets = prepare_chunk_offsets(cu.as_slice(), c);
        let total: usize = pairs.len();
        if total == 0 {
            return Ok(());
        }
        let flat = flatten_pairs(
            &pairs,
            Ghost(chunk_list(cu@, c as int, (cu@.len() - 1) as nat)),
        );
        let offsets_flat = to_i32(&chunk_offsets);
        let bounds_flat = to_i32(&cu);
        proof {
            assert forall|i: int| 0 <= i < chunk_offsets@.len() implies chunks_before(
                cu@,
                c as int,
                i as nat,
            ) as u32 == #[trigger] chunk_offsets@[i] by {}
            assert(offsets_flat@ =~= plan.offsets);
            assert(flat@ == plan.indices);
            lemma_matrix_fits((total * 2) as usize, 1);
            lemma_matrix_fits((self.batch_size + 1) as usize, 1);
        }
        let ci_shape = TensorShape::new(total * 2, 1, 1, 1);
        let list_shape = TensorShape::new(self.batch_size + 1, 1, 1, 1);
        let indices: TensorHip<I32> = TensorHip::from_host(HostData::I32(flat), ci_shape, stream)?;
        let offsets: TensorHip<I32> = TensorHip::from_host(
            HostData::I32(offsets_flat),
            list_shape,
            stream,
        )?;
        let bounds: TensorHip<I32> = TensorHip::from_host(
            HostData::I32(bounds_flat),
            list_shape,
            stream,
        )?;
        self.stages(
            att_w,
            r,
            k,
            v,
            a,
            b,
            state,
            output,
            total,
            &indices,
            &offsets,
            &bounds,
            stream,
        )
    }
}

/// A single sequence without a token records nothing: state and output stay as they are.
pub proof fn law_no_tokens_no_work(s: Run, f: FlaWkvSpec, x: FlaArgs, lengths: Seq<usize>)
    requires
        f.batch_size == 1,
        f.chunk_size > 0,
        lengths.len() >= 1,
        lengths[0] == 0,
    ensures
        fla_compute_run(s, f, x, lengths) == s,
{
    reveal(fla_compute_run);
    let cu = cu_seqlens(lengths, f.seq_len, 1);
    lemma_ceil_div(0, f.chunk_size as int);
    reveal_with_fuel(chunk_list, 2);
    reveal_with_fuel(chunks_before, 2);
    assert(cu[0] == 0 && cu[1] == 0);
    assert(cu.len() == 2);
    assert(chunks_before(cu, f.chunk_size as int, 1) == 0);
    assert(chunk_list(cu, f.chunk_size as int, 1).len() == 0);
}

/// Of a single sequence only its real tokens are described to the device: the padding behind
/// them, however long, is in none of the chunks.
pub proof fn law_padding_is_in_no_chunk(lengths: Seq<usize>, t: usize, c: int, k: int)
    requires
        c > 0,
        lengths.len() >= 1,
        lengths[0] <= t <= u32::MAX,
        0 <= k < chunk_list(cu_seqlens(lengths, t, 1), c, 1).len(),
    ensures
        cu_seqlens(lengths, t, 1) == seq![0u32, lengths[0] as u32],
        chunk_list(cu_seqlens(lengths, t, 1), c, 1)[k] == (0u32, k as u32),
        k * c < lengths[0],
{
    let cu = cu_seqlens(lengths, t, 1);
    let len = lengths[0] as int;
    lemma_ceil_div(len, c);
    reveal_with_fuel(chunk_list, 2);
    let q = spec_ceil_div(len, c);
    assert(cu[0] == 0 && cu[1] == len);
    assert(k < q);
    assert(k * c <= (q - 1) * c) by (nonlinear_arith)
        requires
            k <= q - 1,
            c > 0,
    ;
}

} // verus!
