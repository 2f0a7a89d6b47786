//! What the forward passes have in common: the views of the working memory, and the loop over
//! the layers.
use crate::buffers::{work_view, work_view_error, WorkBuffers};
use crate::error::HipErrorKind;
use crate::model::dispatch_helpers::{
    attention_block, attention_run, ffn_block, ffn_run, DecayForms, WkvChoice, WkvChoiceSpec,
};
use crate::model::layer::{embed_norm, Pass, PassSpec};
use crate::model::Rwkv7Model;
use crate::probe::{ProbeFrame, Prober, ProberSpec};
use crate::scratch::{work_of, HipScratch, ScratchSpec, StateBuffers, StateSpec};
use crate::shapes::PassShapes;
use crate::stream::{CommandOf, DataSpec, HostData, Run, Stream};
use crate::tensor::{fill_error, resize_error, TensorHip, F16, I32};
use vstd::prelude::*;

verus! {

/// Lengths as the device takes them.
pub open spec fn lens_i32(lens: Seq<usize>) -> Seq<i32> {
    Seq::new(lens.len(), |i: int| lens[i] as i32)
}

fn lens_to_i32(lens: &[usize]) -> (v: Vec<i32>)
    ensures
        v@ == lens_i32(lens@),
{
    let mut v: Vec<i32> = Vec::new();
    let mut k: usize = 0;
    while k < lens.len()
        invariant
            k <= lens@.len(),
            v@ == lens_i32(lens@.take(k as int)),
        decreases lens@.len() - k,
    {
        v.push(lens[k] as i32);
        assert(v@ =~= lens_i32(lens@.take(k + 1)));
        k += 1;
    }
    assert(lens@.take(k as int) =~= lens@);
    v
}

/// The longest of some lengths; zero where there are none.
pub open spec fn longest(lens: Seq<usize>) -> usize
    decreases lens.len(),
{
    if lens.len() == 0 {
        0
    } else {
        let rest = longest(lens.drop_last());
        if lens.last() > rest {
            lens.last()
        } else {
            rest
        }
    }
}

/// The longest of some lengths is one of them, and none is longer.
pub proof fn lemma_longest(lens: Seq<usize>)
    ensures
        forall|i: int| 0 <= i < lens.len() ==> #[trigger] lens[i] <= longest(lens),
        lens.len() > 0 ==> exists|i: int| 0 <= i < lens.len() && #[trigger] lens[i] == longest(lens),
    decreases lens.len(),
{
    if lens.len() > 0 {
        let rest = lens.drop_last();
        lemma_longest(rest);
        assert forall|i: int| 0 <= i < lens.len() implies #[trigger] lens[i] <= longest(lens) by {
            if i < rest.len() {
                assert(rest[i] == lens[i]);
            }
        }
        if lens.last() > longest(rest) {
            assert(lens[lens.len() - 1] == longest(lens));
        } else if rest.len() > 0 {
            let i = choose|i: int| 0 <= i < rest.len() && #[trigger] rest[i] == longest(rest);
            assert(lens[i] == longest(lens));
        } else {
            assert(lens[lens.len() - 1] == longest(lens));
        }
    }
}

/// The longest of some lengths; zero where there are none.
pub fn longest_of(lens: &[usize]) -> (m: usize)
    ensures
        m == longest(lens@),
{
    let mut m: usize = 0;
    let mut k: usize = 0;
    while k < lens.len()
        invariant
            k <= lens@.len(),
            m == longest(lens@.take(k as int)),
        decreases lens@.len() - k,
    {
        assert(lens@.take(k + 1).drop_last() =~= lens@.take(k as int));
        if lens[k] > m {
            m = lens[k];
        }
        k += 1;
    }
    assert(lens@.take(k as int) =~= lens@);
    m
}

/// The working memory in the shapes of one pass.
pub struct PassViews {
    pub lens: TensorHip<I32>,
    pub work: WorkBuffers,
    pub logits: TensorHip<F16>,
}

/// Uploads the lengths and sees the working memory in the shapes of one pass.
#[verifier::opaque]
pub open spec fn views_run(s: Run, sc: ScratchSpec, sh: PassShapes, lens: Seq<usize>) -> Run {
    s.check(resize_error(sc.lens_gpu, sh.lens)).check(fill_error(lens.len(), sh.lens)).emit(
        CommandOf::Upload {
            dst: sc.lens_gpu.with_shape(sh.lens).ptr(),
            data: DataSpec::I32(lens_i32(lens)),
        },
    ).check(work_view_error(sc.work, sh)).check(resize_error(sc.logits, sh.out))
}

impl PassViews {
    /// Whether these are the views of the working memory.
    pub open spec fn of(&self, sc: ScratchSpec, sh: PassShapes) -> bool {
        &&& self.lens@ == sc.lens_gpu.with_shape(sh.lens)
        &&& self.work@ == work_view(sc.work, sh)
        &&& self.logits@ == sc.logits.with_shape(sh.out)
    }

    /// Uploads the lengths and sees the working memory in the shapes of one pass.
    pub fn new(scratch: &HipScratch, sh: &PassShapes, lens: &[usize], stream: &mut Stream) -> (r:
        Result<PassViews, HipErrorKind>)
        requires
            sh.fits(),
        ensures
            views_run(Run::start(old(stream)@), scratch@, *sh, lens@).agrees(final(stream)@, r),
            r matches Ok(v) ==> v.of(scratch@, *sh),
    {
        reveal(views_run);
        let data = lens_to_i32(lens);
        let lens = scratch.lens_gpu.resized_view(sh.lens)?;
        lens.copy_from_host(HostData::I32(data), stream)?;
        reveal(work_of);
        let work = scratch.work.resized(sh)?;
        let logits = scratch.logits.resized_view(sh.out)?;
        Ok(PassViews { lens, work, logits })
    }
}

impl PassSpec {
    /// The pass as its probes see it in one layer.
    pub open spec fn in_layer(self, layer: usize) -> PassSpec {
        PassSpec {
            prober: ProberSpec {
                frame: ProbeFrame { layer: Some(layer), ..self.prober.frame },
                ..self.prober
            },
            ..self
        }
    }
}

impl<'a> Pass<'a> {
    /// The pass as its probes see it in one layer.
    pub fn in_layer(&self, layer: usize) -> (p: Pass<'a>)
        ensures
            p@ == self@.in_layer(layer),
    {
        let f = self.prober.frame;
        Pass {
            info: self.info,
            sh: self.sh,
            w: self.w,
            tmp: self.tmp,
            lens: self.lens,
            prober: Prober {
                map: self.prober.map,
                frame: ProbeFrame {
                    layer: Some(layer),
                    batch_size: f.batch_size,
                    seq_len: f.seq_len,
                    chunk_size: f.chunk_size,
                    n_embd: f.n_embd,
                    n_head: f.n_head,
                    head_size: f.head_size,
                    n_layer: f.n_layer,
                },
            },
        }
    }
}

/// One layer. It works on the states of the sequences of the pass, which stand first in the
/// memory of all sequences, and replaces its token-shift states by copies. The first layer
/// starts with the norm of the embedding.
#[verifier::opaque]
pub open spec fn layer_run(
    s: Run,
    p: PassSpec,
    model: Rwkv7Model,
    idx: usize,
    forms: DecayForms,
    choice: WkvChoiceSpec,
    state: StateSpec,
) -> Run {
    let p = p.in_layer(idx);
    let layer = model.layers@[idx as int];
    let att_shift = state.att_shift[idx as int];
    let ffn_shift = state.ffn[idx as int];
    let wkv = state.wkv[idx as int];
    let s = s.check(resize_error(att_shift, p.sh.state)).check(
        resize_error(ffn_shift, p.sh.state),
    ).check(resize_error(wkv, p.sh.wkv_state));
    let s = if idx == 0 {
        s.step(|s: Run| embed_norm(s, p, model.embed.ln))
    } else {
        s
    };
    s.step(
        |s: Run|
            attention_run(
                s,
                p,
                idx,
                layer,
                forms,
                choice,
                att_shift.with_shape(p.sh.state),
                wkv.with_shape(p.sh.wkv_state),
            ),
    ).step(|s: Run| ffn_run(s, p, layer, ffn_shift.with_shape(p.sh.state)))
}

/// The first `n` layers.
pub open spec fn layers_run(
    s: Run,
    p: PassSpec,
    model: Rwkv7Model,
    n: nat,
    forms: DecayForms,
    choice: WkvChoiceSpec,
    state: StateSpec,
) -> Run
    decreases n,
{
    if n == 0 {
        s
    } else {
        layers_run(s, p, model, (n - 1) as nat, forms, choice, state).step(
            |s: Run| layer_run(s, p, model, (n - 1) as usize, forms, choice, state),
        )
    }
}

/// A failure among the first `k` layers stays.
proof fn lemma_layers_sticky(
    s: Run,
    p: PassSpec,
    model: Rwkv7Model,
    k: nat,
    n: nat,
    forms: DecayForms,
    choice: WkvChoiceSpec,
    state: StateSpec,
)
    requires
        k <= n,
    ensures
        layers_run(s, p, model, k, forms, choice, state).error is Some ==> layers_run(
            s,
            p,
            model,
            n,
            forms,
            choice,
            state,
        ) == layers_run(s, p, model, k, forms, choice, state),
    decreases n - k,
{
    if k < n {
        lemma_layers_sticky(s, p, model, k, (n - 1) as nat, forms, choice, state);
    }
}

/// Runs one layer.
fn run_layer(
    p: &Pass<'_>,
    model: &Rwkv7Model,
    idx: usize,
    forms: DecayForms,
    choice: &WkvChoice<'_>,
    state: &StateBuffers,
    stream: &mut Stream,
) -> (r: Result<(), HipErrorKind>)
    requires
        p@.sound(),
        model.sound(),
        idx < model.info.n_layer,
        state@.reaches(model.info.n_layer as nat),
        choice@.sound(),
        choice@.reads_raw() ==> forms.raw,
        !choice@.reads_raw() ==> forms.exponential,
    ensures
        layer_run(Run::start(old(stream)@), p@, *model, idx, forms, choice@, state@).agrees(
            final(stream)@,
            r,
        ),
{
    reveal(layer_run);
    let q = p.in_layer(idx);
    let layer = &model.layers[idx];
    assert(state@.att_shift[idx as int] == state.att_shift@[idx as int]@);
    assert(state@.ffn[idx as int] == state.ffn@[idx as int]@);
    assert(state@.wkv[idx as int] == state.wkv@[idx as int]@);
    let att_shift = state.att_shift[idx].resized_view(p.sh.state)?;
    let ffn_shift = state.ffn[idx].resized_view(p.sh.state)?;
    let wkv = state.wkv[idx].resized_view(p.sh.wkv_state)?;
    if idx == 0 {
        q.embed_norm(&model.embed.ln, stream)?;
    }
    attention_block(&q, idx, layer, forms, choice, &att_shift, &wkv, stream)?;
    ffn_block(&q, layer, &ffn_shift, stream)
}

/// Runs all layers.
pub fn run_layers(
    p: &Pass<'_>,
    model: &Rwkv7Model,
    forms: DecayForms,
    choice: &WkvChoice<'_>,
    state: &StateBuffers,
    stream: &mut Stream,
) -> (r: Result<(), HipErrorKind>)
    requires
        p@.sound(),
        model.sound(),
        state@.reaches(model.info.n_layer as nat),
        choice@.sound(),
        choice@.reads_raw() ==> forms.raw,
        !choice@.reads_raw() ==> forms.exponential,
    ensures
        layers_run(
            Run::start(old(stream)@),
            p@,
            *model,
            model.info.n_layer as nat,
            forms,
            choice@,
            state@,
        ).agrees(final(stream)@, r),
{
    let n: usize = model.info.n_layer;
    let ghost s = Run::start(stream@);
    let mut idx: usize = 0;
    while idx < n
        invariant
            idx <= n == model.info.n_layer,
            s == Run::start(old(stream)@),
            p@.sound(),
            model.sound(),
            state@.reaches(n as nat),
            choice@.sound(),
            choice@.reads_raw() ==> forms.raw,
            !choice@.reads_raw() ==> forms.exponential,
            layers_run(s, p@, *model, idx as nat, forms, choice@, state@) == Run::start(stream@),
        decreases n - idx,
    {
        proof {
            lemma_layers_sticky(
                s,
                p@,
                *model,
                (idx + 1) as nat,
                n as nat,
                forms,
                choice@,
                state@,
            );
        }
        run_layer(p, model, idx, forms, choice, state, stream)?;
        idx += 1;
    }
    Ok(())
}

} // verus!
