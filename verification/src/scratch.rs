//! Working memory of the forward pass, allocated once.
use crate::buffer::MemoryType;
use crate::buffers::{
    fla_alloc_run, fla_at, temp_alloc_run, temp_at, work_alloc_run, work_at, FlaBuffers, FlaSpec,
    TempBuffers, TempSpec, WorkBuffers, WorkSpec,
};
use crate::error::HipErrorKind;
use crate::model::Rwkv7ModelInfo;
use crate::shapes::{FlaShapes, PassShapes};
use crate::stream::{CommandSpec, Elem, Run, Stream, StreamSpec};
use crate::tensor::{
    lemma_matrix_fits, zero_command, Element, TensorHip, TensorShape, TensorSpec, F16, F32, I32,
    U32,
};
use vstd::prelude::*;

verus! {

broadcast use Run::lemma_allocated;

/// Tokens in one chunk of the chunked linear attention.
pub const FLA_CHUNK_SIZE: usize = 16;

/// How much the working memory holds.
#[derive(Debug, Clone, Copy, PartialEq, Eq)]
pub struct HipRuntimeConfig {
    /// Most tokens of a sequence in one pass.
    pub max_prefill_chunk: usize,
    /// Most sequences in one pass.
    pub batch_size: usize,
    /// Tokens in one chunk of the chunked linear attention; not zero.
    pub fla_chunk_size: usize,
    /// Whether `forward` leaves the state on the device between calls.
    pub resident_state: bool,
}

impl Default for HipRuntimeConfig {
    fn default() -> (c: HipRuntimeConfig)
        ensures
            c == HipRuntimeConfig::of(256, 1),
    {
        HipRuntimeConfig::new(256, 1)
    }
}

impl HipRuntimeConfig {
    /// The configuration for the given pass size.
    pub open spec fn of(max_prefill_chunk: usize, batch_size: usize) -> HipRuntimeConfig {
        HipRuntimeConfig {
            max_prefill_chunk,
            batch_size,
            fla_chunk_size: FLA_CHUNK_SIZE,
            resident_state: false,
        }
    }

    pub fn new(max_prefill_chunk: usize, batch_size: usize) -> (c: HipRuntimeConfig)
        ensures
            c == HipRuntimeConfig::of(max_prefill_chunk, batch_size),
    {
        HipRuntimeConfig {
            max_prefill_chunk,
            batch_size,
            fla_chunk_size: FLA_CHUNK_SIZE,
            resident_state: false,
        }
    }

    /// One token of one sequence.
    pub fn decode() -> (c: HipRuntimeConfig)
        ensures
            c == HipRuntimeConfig::of(1, 1),
    {
        HipRuntimeConfig::new(1, 1)
    }

    /// Up to `max_chunk` tokens of one sequence.
    pub fn prefill(max_chunk: usize) -> (c: HipRuntimeConfig)
        ensures
            c == HipRuntimeConfig::of(max_chunk, 1),
    {
        HipRuntimeConfig::new(max_chunk, 1)
    }
}

/// Ranks of the low-rank factors.
#[derive(Debug, Clone, Copy, PartialEq, Eq)]
pub struct LoraDims {
    /// Rank of the decay.
    pub w_dim: usize,
    /// Rank of the adaptation.
    pub a_dim: usize,
    /// Rank of the gating factors.
    pub g_dim: usize,
    /// Rank of the value residual, where there is one.
    pub v_dim: Option<usize>,
}

impl LoraDims {
    /// Rank of the value residual; one where there is none.
    pub open spec fn v_rank(self) -> usize {
        match self.v_dim {
            Some(v) => v,
            None => 1,
        }
    }
}

/// Recurrent and token-shift states of every layer, on the device.
#[derive(Debug)]
pub struct StateBuffers {
    pub att_shift: Vec<TensorHip<F16>>,
    pub ffn: Vec<TensorHip<F16>>,
    pub wkv: Vec<TensorHip<F32>>,
}

/// What the states stand for.
#[verifier::ext_equal]
pub struct StateSpec {
    pub att_shift: Seq<TensorSpec>,
    pub ffn: Seq<TensorSpec>,
    pub wkv: Seq<TensorSpec>,
}

/// What a list of tensors stands for.
pub open spec fn tensor_list<T>(tensors: Seq<TensorHip<T>>) -> Seq<TensorSpec> {
    Seq::new(tensors.len(), |i: int| tensors[i]@)
}

impl View for StateBuffers {
    type V = StateSpec;

    open spec fn view(&self) -> StateSpec {
        StateSpec {
            att_shift: tensor_list(self.att_shift@),
            ffn: tensor_list(self.ffn@),
            wkv: tensor_list(self.wkv@),
        }
    }
}

impl StateSpec {
    /// Whether there is a state for each of `n` layers, and no other.
    pub open spec fn covers(self, n: nat) -> bool {
        self.att_shift.len() == n && self.ffn.len() == n && self.wkv.len() == n
    }

    /// Whether there is a state for each of `n` layers.
    pub open spec fn reaches(self, n: nat) -> bool {
        n <= self.att_shift.len() && n <= self.ffn.len() && n <= self.wkv.len()
    }
}

/// Allocates zeroed states for `n` layers.
pub open spec fn state_alloc_run(s: Run, n: nat, sh: PassShapes) -> Run
    decreases n,
{
    if n == 0 {
        s
    } else {
        state_alloc_run(s, (n - 1) as nat, sh).allocated(
            Elem::F16,
            sh.state,
            MemoryType::Device,
            true,
        ).allocated(Elem::F16, sh.state, MemoryType::Device, true).allocated(
            Elem::F32,
            sh.wkv_state,
            MemoryType::Device,
            true,
        )
    }
}

/// The states that `state_alloc_run` makes, from the first free buffer number on.
#[verifier::opaque]
pub open spec fn state_at(next: usize, n: nat, sh: PassShapes) -> StateSpec {
    StateSpec {
        att_shift: Seq::new(n, |i: int| TensorSpec::whole((next + 3 * i) as usize, sh.state)),
        ffn: Seq::new(n, |i: int| TensorSpec::whole((next + 3 * i + 1) as usize, sh.state)),
        wkv: Seq::new(n, |i: int| TensorSpec::whole((next + 3 * i + 2) as usize, sh.wkv_state)),
    }
}

/// A failure among the first `k` layers stays.
proof fn lemma_state_alloc_sticky(s: Run, k: nat, n: nat, sh: PassShapes)
    requires
        k <= n,
    ensures
        state_alloc_run(s, k, sh).error is Some ==> state_alloc_run(s, n, sh) == state_alloc_run(
            s,
            k,
            sh,
        ),
    decreases n - k,
{
    if k < n {
        lemma_state_alloc_sticky(s, k, (n - 1) as nat, sh);
    }
}

impl StateBuffers {
    /// Allocates zeroed states for `n` layers.
    pub fn allocate(n: usize, sh: &PassShapes, stream: &mut Stream) -> (r: Result<
        StateBuffers,
        HipErrorKind,
    >)
        requires
            sh.fits(),
        ensures
            state_alloc_run(Run::start(old(stream)@), n as nat, *sh).agrees(final(stream)@, r),
            r matches Ok(w) ==> w@ == state_at(old(stream)@.next, n as nat, *sh)
                && final(stream)@.next == old(stream)@.next + 3 * n,
    {
        reveal(state_at);
        let ghost s = Run::start(stream@);
        let ghost next = stream@.next;
        let mut att_shift: Vec<TensorHip<F16>> = Vec::new();
        let mut ffn: Vec<TensorHip<F16>> = Vec::new();
        let mut wkv: Vec<TensorHip<F32>> = Vec::new();
        let mut i: usize = 0;
        while i < n
            invariant
                i <= n,
                sh.fits(),
                s == Run::start(old(stream)@),
                next == old(stream)@.next,
                stream@.next == next + 3 * i,
                att_shift@.len() == i,
                ffn@.len() == i,
                wkv@.len() == i,
                state_alloc_run(s, i as nat, *sh) == Run::start(stream@),
                tensor_list(att_shift@) == state_at(next, i as nat, *sh).att_shift,
                tensor_list(ffn@) == state_at(next, i as nat, *sh).ffn,
                tensor_list(wkv@) == state_at(next, i as nat, *sh).wkv,
            decreases n - i,
        {
            proof {
                lemma_state_alloc_sticky(s, (i + 1) as nat, n as nat, *sh);
            }
            let ghost before = (tensor_list(att_shift@), tensor_list(ffn@), tensor_list(wkv@));
            let a: TensorHip<F16> = TensorHip::zeros(sh.state, stream)?;
            let f: TensorHip<F16> = TensorHip::zeros(sh.state, stream)?;
            let w: TensorHip<F32> = TensorHip::zeros(sh.wkv_state, stream)?;
            att_shift.push(a);
            ffn.push(f);
            wkv.push(w);
            proof {
                assert(tensor_list(att_shift@) =~= before.0.push(a@));
                assert(tensor_list(ffn@) =~= before.1.push(f@));
                assert(tensor_list(wkv@) =~= before.2.push(w@));
                reveal(state_at);
                let after = state_at(next, (i + 1) as nat, *sh);
                assert(before.0.push(a@) =~= after.att_shift);
                assert(before.1.push(f@) =~= after.ffn);
                assert(before.2.push(w@) =~= after.wkv);
            }
            i += 1;
        }
        Ok(StateBuffers { att_shift, ffn, wkv })
    }
}

/// The commands that set a list of tensors to zero.
pub open spec fn zero_list<T: Element>(tensors: Seq<TensorSpec>) -> Seq<CommandSpec> {
    Seq::new(tensors.len(), |i: int| zero_command::<T>(tensors[i]))
}

/// Sets a list of tensors to zero.
fn zero_all<T: Element>(tensors: &Vec<TensorHip<T>>, stream: &mut Stream)
    ensures
        final(stream)@ == (StreamSpec { log: final(stream)@.log, ..old(stream)@ }),
        final(stream)@.log == old(stream)@.log + zero_list::<T>(tensor_list(tensors@)),
{
    let ghost list = tensor_list(tensors@);
    let mut i: usize = 0;
    assert(stream@.log =~= old(stream)@.log + zero_list::<T>(list).take(0));
    while i < tensors.len()
        invariant
            i <= tensors@.len(),
            list == tensor_list(tensors@),
            stream@ == (StreamSpec { log: stream@.log, ..old(stream)@ }),
            stream@.log == old(stream)@.log + zero_list::<T>(list).take(i as int),
        decreases tensors@.len() - i,
    {
        tensors[i].fill_zero(stream);
        assert(zero_list::<T>(list).take(i + 1) =~= zero_list::<T>(list).take(i as int).push(
            zero_command::<T>(list[i as int]),
        ));
        assert(stream@.log =~= old(stream)@.log + zero_list::<T>(list).take(i + 1));
        i += 1;
    }
    assert(zero_list::<T>(list).take(i as int) =~= zero_list::<T>(list));
}

/// The working memory of a model.
#[derive(Debug)]
pub struct HipScratch {
    pub config: HipRuntimeConfig,
    pub n_embd: usize,
    pub n_hidden: usize,
    pub n_vocab: usize,
    pub lora_dims: LoraDims,
    pub state: StateBuffers,
    pub work: WorkBuffers,
    pub temp: TempBuffers,
    /// Recurrent state on its way out.
    pub new_wkv_state: TensorHip<F32>,
    pub fla: FlaBuffers,
    pub logits: TensorHip<F16>,
    /// Logits widened for the way to the host.
    pub logits_f32: TensorHip<F32>,
    /// Size of the host memory for logits.
    pub logits_staging: usize,
    /// Tokens of one chunk.
    pub token_staging: TensorHip<U32>,
    /// Real lengths of the sequences.
    pub lens_gpu: TensorHip<I32>,
    /// Host memory for embeddings on their way to the device.
    pub emb_staging: Vec<u16>,
}

/// What the working memory stands for.
pub struct ScratchSpec {
    pub config: HipRuntimeConfig,
    pub n_embd: usize,
    pub n_hidden: usize,
    pub n_vocab: usize,
    pub lora_dims: LoraDims,
    pub state: StateSpec,
    pub work: WorkSpec,
    pub temp: TempSpec,
    pub new_wkv_state: TensorSpec,
    pub fla: FlaSpec,
    pub logits: TensorSpec,
    pub logits_f32: TensorSpec,
    pub logits_staging: usize,
    pub token_staging: TensorSpec,
    pub lens_gpu: TensorSpec,
    pub emb_staging: Seq<u16>,
}

impl View for HipScratch {
    type V = ScratchSpec;

    open spec fn view(&self) -> ScratchSpec {
        ScratchSpec {
            config: self.config,
            n_embd: self.n_embd,
            n_hidden: self.n_hidden,
            n_vocab: self.n_vocab,
            lora_dims: self.lora_dims,
            state: self.state@,
            work: work_of(self.work),
            temp: temp_of(self.temp),
            new_wkv_state: self.new_wkv_state@,
            fla: fla_of(self.fla),
            logits: self.logits@,
            logits_f32: self.logits_f32@,
            logits_staging: self.logits_staging,
            token_staging: self.token_staging@,
            lens_gpu: self.lens_gpu@,
            emb_staging: self.emb_staging@,
        }
    }
}

/// The tensors of a pass in working memory.
#[verifier::opaque]
pub open spec fn work_of(work: WorkBuffers) -> WorkSpec {
    work@
}

/// The tensors for values in between in working memory.
#[verifier::opaque]
pub open spec fn temp_of(temp: TempBuffers) -> TempSpec {
    temp@
}

/// The tensors of the chunked linear attention in working memory.
#[verifier::opaque]
pub open spec fn fla_of(fla: FlaBuffers) -> FlaSpec {
    fla@
}

/// Most chunks of the chunked linear attention that a configuration leads to.
pub open spec fn max_total_chunks(config: HipRuntimeConfig) -> int {
    config.batch_size * spec_ceil_div(config.max_prefill_chunk as int, config.fla_chunk_size as int)
}

/// `a / b`, rounded up.
pub open spec fn spec_ceil_div(a: int, b: int) -> int {
    (a + b - 1) / b
}

/// Shapes of the whole working memory.
pub open spec fn full_shapes(
    info: Rwkv7ModelInfo,
    lora: LoraDims,
    config: HipRuntimeConfig,
) -> PassShapes {
    PassShapes::of(info, lora, config.max_prefill_chunk, config.batch_size)
}

/// Shapes of the chunked linear attention in the whole working memory.
pub open spec fn full_fla_shapes(info: Rwkv7ModelInfo, config: HipRuntimeConfig) -> FlaShapes {
    FlaShapes::of(
        info.head_size,
        info.n_head,
        config.fla_chunk_size,
        max_total_chunks(config) as usize,
        config.max_prefill_chunk,
        config.batch_size,
    )
}

/// Whether the sizes of the working memory are machine integers.
pub open spec fn scratch_fits(
    info: Rwkv7ModelInfo,
    lora: LoraDims,
    config: HipRuntimeConfig,
) -> bool {
    &&& config.fla_chunk_size > 0
    &&& config.max_prefill_chunk + config.fla_chunk_size <= usize::MAX
    &&& max_total_chunks(config) <= usize::MAX
    &&& config.max_prefill_chunk * config.batch_size <= usize::MAX
    &&& full_shapes(info, lora, config).fits()
    &&& full_fla_shapes(info, config).fits()
}

/// Allocates the working memory.
pub open spec fn scratch_run(
    s: Run,
    info: Rwkv7ModelInfo,
    lora: LoraDims,
    config: HipRuntimeConfig,
) -> Run {
    let sh = full_shapes(info, lora, config);
    let fla = full_fla_shapes(info, config);
    let tokens = TensorShape::of(config.max_prefill_chunk, config.batch_size, 1, 1);
    s.step(|s: Run| state_alloc_run(s, info.n_layer as nat, sh)).step(
        |s: Run| work_alloc_run(s, sh),
    ).step(|s: Run| temp_alloc_run(s, sh)).allocated(
        Elem::F32,
        sh.wkv_state,
        MemoryType::Device,
        false,
    ).step(|s: Run| fla_alloc_run(s, fla)).allocated(
        Elem::F16,
        sh.out,
        MemoryType::Device,
        false,
    ).allocated(Elem::F32, sh.out, MemoryType::Device, false).allocated(
        Elem::U32,
        tokens,
        MemoryType::Device,
        false,
    ).allocated(Elem::I32, sh.lens, MemoryType::Device, false)
}

/// The working memory that `scratch_run` makes, from the first free buffer number on.
pub open spec fn scratch_at(
    next: usize,
    info: Rwkv7ModelInfo,
    lora: LoraDims,
    config: HipRuntimeConfig,
) -> ScratchSpec {
    let sh = full_shapes(info, lora, config);
    let base = next + 3 * info.n_layer;
    ScratchSpec {
        config,
        n_embd: info.n_embd,
        n_hidden: info.n_hidden,
        n_vocab: info.n_vocab,
        lora_dims: lora,
        state: state_at(next, info.n_layer as nat, sh),
        work: work_at(base as usize, sh),
        temp: temp_at((base + 36) as usize, sh),
        new_wkv_state: TensorSpec::whole((base + 40) as usize, sh.wkv_state),
        fla: fla_at((base + 41) as usize, full_fla_shapes(info, config)),
        logits: TensorSpec::whole((base + 56) as usize, sh.out),
        logits_f32: TensorSpec::whole((base + 57) as usize, sh.out),
        logits_staging: sh.out.spec_len() as usize,
        token_staging: TensorSpec::whole(
            (base + 58) as usize,
            TensorShape::of(config.max_prefill_chunk, config.batch_size, 1, 1),
        ),
        lens_gpu: TensorSpec::whole((base + 59) as usize, sh.lens),
        emb_staging: Seq::new(sh.std.spec_len(), |i: int| 0u16),
    }
}

impl ScratchSpec {
    /// Whether this is the working memory of a model, with its buffers numbered from `next`
    /// on, whatever the staging memory of embeddings holds.
    #[verifier::opaque]
    pub open spec fn placed_at(self, next: usize, info: Rwkv7ModelInfo) -> bool {
        &&& next + 3 * info.n_layer + 60 <= usize::MAX
        &&& self == (ScratchSpec {
            emb_staging: self.emb_staging,
            ..scratch_at(next, info, self.lora_dims, self.config)
        })
    }

    /// Whether this is the working memory of a model.
    pub open spec fn made_for(self, info: Rwkv7ModelInfo) -> bool {
        &&& scratch_fits(info, self.lora_dims, self.config)
        &&& self.emb_staging.len() == full_shapes(
            info,
            self.lora_dims,
            self.config,
        ).std.spec_len()
        &&& exists|next: usize| #[trigger] self.placed_at(next, info)
    }
}

/// The states in the working memory of a model: one of each kind for every layer, in buffers
/// of their own.
pub proof fn lemma_made_for_states(sc: ScratchSpec, info: Rwkv7ModelInfo)
    requires
        sc.made_for(info),
    ensures
        sc.state.covers(info.n_layer as nat),
        sc.token_staging.view.offset == 0,
        forall|i: int|
            0 <= i < info.n_layer ==> (#[trigger] sc.state.att_shift[i]) == TensorSpec::whole(
                sc.state.att_shift[i].buffer,
                full_shapes(info, sc.lora_dims, sc.config).state,
            ),
        forall|i: int|
            0 <= i < info.n_layer ==> (#[trigger] sc.state.ffn[i]) == TensorSpec::whole(
                sc.state.ffn[i].buffer,
                full_shapes(info, sc.lora_dims, sc.config).state,
            ),
        forall|i: int|
            0 <= i < info.n_layer ==> (#[trigger] sc.state.wkv[i]) == TensorSpec::whole(
                sc.state.wkv[i].buffer,
                full_shapes(info, sc.lora_dims, sc.config).wkv_state,
            ),
{
    reveal(ScratchSpec::placed_at);
    reveal(state_at);
}

impl HipScratch {
    /// Allocates the working memory for a model and a configuration.
    pub fn new(
        info: &Rwkv7ModelInfo,
        lora_dims: LoraDims,
        config: HipRuntimeConfig,
        stream: &mut Stream,
    ) -> (r: Result<HipScratch, HipErrorKind>)
        requires
            scratch_fits(*info, lora_dims, config),
        ensures
            scratch_run(Run::start(old(stream)@), *info, lora_dims, config).agrees(
                final(stream)@,
                r,
            ),
            r matches Ok(s) ==> {
                &&& s@ == scratch_at(old(stream)@.next, *info, lora_dims, config)
                &&& s@.made_for(*info)
                &&& final(stream)@.next == old(stream)@.next + 3 * info.n_layer + 60
            },
    {
        let t: usize = config.max_prefill_chunk;
        let b: usize = config.batch_size;
        let c: usize = config.fla_chunk_size;
        let sh = PassShapes::new(info, &lora_dims, t, b);
        let chunks: usize = (t + c - 1) / c;
        let total: usize = b * chunks;
        let fla_sh = FlaShapes::new(info.head_size, info.n_head, c, total, t, b);
        let tokens = TensorShape::new(t, b, 1, 1);
        proof {
            lemma_matrix_fits(t, b);
        }
        reveal(work_of);
        reveal(temp_of);
        reveal(fla_of);
        let ghost s = Run::start(stream@);
        let state = StateBuffers::allocate(info.n_layer, &sh, stream)?;
        let work = WorkBuffers::allocate(&sh, stream)?;
        let temp = TempBuffers::allocate(&sh, stream)?;
        let new_wkv_state: TensorHip<F32> = TensorHip::new(sh.wkv_state, stream)?;
        let fla = FlaBuffers::allocate(&fla_sh, stream)?;
        let logits: TensorHip<F16> = TensorHip::new(sh.out, stream)?;
        let logits_f32: TensorHip<F32> = TensorHip::new(sh.out, stream)?;
        let token_staging: TensorHip<U32> = TensorHip::new(tokens, stream)?;
        let lens_gpu: TensorHip<I32> = TensorHip::new(sh.lens, stream)?;
        let emb_staging: Vec<u16> = vec![0u16; sh.std.len()];
        assert(emb_staging@ =~= Seq::new(sh.std.spec_len(), |i: int| 0u16));
        proof {
            reveal(ScratchSpec::placed_at);
            let made = scratch_at(old(stream)@.next, *info, lora_dims, config);
            assert(made.placed_at(old(stream)@.next, *info));
        }
        Ok(
            HipScratch {
                config,
                n_embd: info.n_embd,
                n_hidden: info.n_hidden,
                n_vocab: info.n_vocab,
                lora_dims,
                state,
                work,
                temp,
                new_wkv_state,
                fla,
                logits,
                logits_f32,
                logits_staging: sh.out.len(),
                token_staging,
                lens_gpu,
                emb_staging,
            },
        )
    }

    /// Sets the states of all layers to zero.
    pub fn reset_state_gpu(&self, stream: &mut Stream)
        ensures
            final(stream)@ == reset_run(Run::start(old(stream)@), self.state@).stream,
    {
        zero_all(&self.state.att_shift, stream);
        zero_all(&self.state.ffn, stream);
        zero_all(&self.state.wkv, stream);
    }

    /// Whether a pass over `seq_len` tokens of each of `batch_size` sequences has room.
    pub fn supports(&self, seq_len: usize, batch_size: usize) -> (b: bool)
        ensures
            b == (seq_len <= self.config.max_prefill_chunk && batch_size
                <= self.config.batch_size),
    {
        seq_len <= self.config.max_prefill_chunk && batch_size <= self.config.batch_size
    }
}

/// Sets the states of all layers to zero.
pub open spec fn reset_run(s: Run, state: StateSpec) -> Run {
    if s.error is Some {
        s
    } else {
        Run::start(
            StreamSpec {
                log: s.stream.log + zero_list::<F16>(state.att_shift) + zero_list::<F16>(
                    state.ffn,
                ) + zero_list::<F32>(state.wkv),
                ..s.stream
            },
        )
    }
}

} // verus!
