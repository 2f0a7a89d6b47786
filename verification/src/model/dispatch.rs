//! The forward pass with its state on the device.
use crate::buffers::{temp_view, temp_view_error, work_view, work_view_error};
use crate::error::{first_error, ErrorSpec, HipErrorKind};
use crate::model::dispatch_helpers::{
    embed_upload, embeddable, output_head, output_head_run, stage_embeddings, staged, token_rows,
    upload_embeddings, DecayForms, WkvChoice, WkvChoiceSpec,
};
use crate::model::fla::{
    fla_for, fla_new_error, fla_pass_fits, fla_sizes_fit, FlaChunkedWkv,
};
use crate::model::layer::{Pass, PassSpec};
use crate::model::pass::{layers_run, longest, longest_of, run_layers, views_run, PassViews};
use crate::model::{Rwkv7Model, Rwkv7ModelInfo};
use crate::probe::{HipHook, HipProbeMap, ProbeFrame, Prober, ProberSpec};
use crate::scratch::{temp_of, HipScratch, ScratchSpec};
use crate::shapes::PassShapes;
use crate::stream::{Run, Stream};
use crate::tensor::{fill_error, resize_error};
use vstd::prelude::*;

verus! {

/// Which recurrent attention a pass uses.
#[derive(Debug, Clone, Copy, PartialEq, Eq)]
pub enum DispatchMode {
    /// Fused for one token per sequence, chunked for more.
    ByLength,
    /// Chunked for any number of tokens.
    AlwaysFla,
}

impl DispatchMode {
    /// Whether a pass over `t` tokens is chunked.
    pub open spec fn chunked(self, t: usize) -> bool {
        self is AlwaysFla || t > 1
    }

    /// Which forms of the decay are prepared.
    pub open spec fn forms(self) -> DecayForms {
        DecayForms { raw: true, exponential: self is ByLength }
    }
}

/// What the probes of a pass over `t` tokens of each of `b` sequences are told.
pub open spec fn pass_frame(
    info: Rwkv7ModelInfo,
    lens: Seq<usize>,
    t: usize,
    b: usize,
) -> ProbeFrame {
    ProbeFrame {
        layer: None,
        batch_size: b,
        seq_len: if lens.len() == 0 {
            t
        } else {
            longest(lens)
        },
        chunk_size: t,
        n_embd: info.n_embd,
        n_head: info.n_head,
        head_size: info.head_size,
        n_layer: info.n_layer,
    }
}

/// The tensors of a pass, and what its probes are told.
pub open spec fn pass_of(
    info: Rwkv7ModelInfo,
    map: Map<HipHook, usize>,
    sc: ScratchSpec,
    lens: Seq<usize>,
    t: usize,
    b: usize,
) -> PassSpec {
    let sh = PassShapes::of(info, sc.lora_dims, t, b);
    PassSpec {
        info,
        sh,
        w: work_view(sc.work, sh),
        tmp: temp_view(sc.temp, sh),
        lens: sc.lens_gpu.with_shape(sh.lens),
        prober: ProberSpec { map, frame: pass_frame(info, lens, t, b) },
    }
}

/// The recurrent attention of a pass.
pub open spec fn choice_of(
    info: Rwkv7ModelInfo,
    mode: DispatchMode,
    sc: ScratchSpec,
    lens: Seq<usize>,
    t: usize,
    b: usize,
) -> WkvChoiceSpec {
    if mode.chunked(t) {
        WkvChoiceSpec::Fla {
            kernel: fla_for(sc, info.head_size, info.n_head, t, b),
            lengths: lens,
        }
    } else {
        WkvChoiceSpec::FusedT1
    }
}

/// Why the working memory has no room for a pass, where it has none.
#[verifier::opaque]
pub open spec fn open_error(
    info: Rwkv7ModelInfo,
    mode: DispatchMode,
    sc: ScratchSpec,
    lens: Seq<usize>,
    t: usize,
    b: usize,
) -> Option<ErrorSpec> {
    let sh = PassShapes::of(info, sc.lora_dims, t, b);
    let fla = if mode.chunked(t) {
        fla_new_error(sc, info.head_size, info.n_head, t, b)
    } else {
        None
    };
    first_error(
        fla,
        first_error(
            resize_error(sc.lens_gpu, sh.lens),
            first_error(
                fill_error(lens.len(), sh.lens),
                first_error(
                    work_view_error(sc.work, sh),
                    first_error(
                        resize_error(sc.logits, sh.out),
                        resize_error(sc.logits_f32, sh.out),
                    ),
                ),
            ),
        ),
    )
}

/// The first part of a pass fails where the working memory has no room for it.
pub proof fn lemma_open_error(
    s: Run,
    info: Rwkv7ModelInfo,
    mode: DispatchMode,
    sc: ScratchSpec,
    lens: Seq<usize>,
    t: usize,
    b: usize,
)
    requires
        s.error is None,
    ensures
        open_run(s, info, mode, sc, lens, t, b).error == open_error(info, mode, sc, lens, t, b),
{
    reveal(open_run);
    reveal(open_error);
    reveal(views_run);
}

/// Sees the working memory in the shapes of the pass and uploads the lengths.
#[verifier::opaque]
pub open spec fn open_run(
    s: Run,
    info: Rwkv7ModelInfo,
    mode: DispatchMode,
    sc: ScratchSpec,
    lens: Seq<usize>,
    t: usize,
    b: usize,
) -> Run {
    let sh = PassShapes::of(info, sc.lora_dims, t, b);
    s.check(
        if mode.chunked(t) {
            fla_new_error(sc, info.head_size, info.n_head, t, b)
        } else {
            None
        },
    ).step(|s: Run| views_run(s, sc, sh, lens)).check(resize_error(sc.logits_f32, sh.out))
}

/// The staging memory of embeddings after a pass.
pub open spec fn staging_after(
    model: Rwkv7Model,
    mode: DispatchMode,
    sc: ScratchSpec,
    rows: Seq<Seq<u32>>,
    lens: Seq<usize>,
) -> Seq<u16> {
    let t = rows[0].len() as usize;
    if open_error(model.info, mode, sc, lens, t, rows.len() as usize) is None {
        staged(
            sc.emb_staging,
            model.embed.w@,
            model.embed.n_embd as int,
            rows,
            model.info.n_embd as int,
            t as int,
        )
    } else {
        sc.emb_staging
    }
}

/// A whole pass: views, embeddings, layers, head.
#[verifier::opaque]
pub open spec fn dispatch_run(
    s: Run,
    model: Rwkv7Model,
    map: Map<HipHook, usize>,
    mode: DispatchMode,
    sc: ScratchSpec,
    rows: Seq<Seq<u32>>,
    lens: Seq<usize>,
) -> Run {
    let t = rows[0].len() as usize;
    let b = rows.len() as usize;
    let info = model.info;
    let p = pass_of(info, map, sc, lens, t, b);
    let staging = staging_after(model, mode, sc, rows, lens);
    let s = embed_upload(
        open_run(s, info, mode, sc, lens, t, b),
        staging,
        p.w.shift.x,
    ).check(temp_view_error(sc.temp, p.sh));
    let s = p.prober.channels(s, HipHook::PostEmbed, p.w.shift.x, info.n_embd);
    s.step(
        |s: Run|
            layers_run(
                s,
                p,
                model,
                info.n_layer as nat,
                mode.forms(),
                choice_of(info, mode, sc, lens, t, b),
                sc.state,
            ),
    ).step(
        |s: Run|
            output_head_run(
                s,
                p,
                model.head,
                sc.logits.with_shape(p.sh.out),
                sc.logits_f32.with_shape(p.sh.out),
            ),
    )
}

/// What a pass asks: machine-sized shapes, a state for every layer, and a row of the embedding
/// table for every token that is looked up.
#[verifier::opaque]
pub open spec fn dispatch_ready(
    model: Rwkv7Model,
    mode: DispatchMode,
    sc: ScratchSpec,
    rows: Seq<Seq<u32>>,
    lens: Seq<usize>,
) -> bool {
    let t = rows[0].len() as usize;
    let b = rows.len() as usize;
    let info = model.info;
    &&& model.sound()
    &&& rows.len() > 0
    &&& sc.state.covers(info.n_layer as nat)
    &&& PassShapes::of(info, sc.lora_dims, t, b).fits()
    &&& mode.chunked(t) ==> {
        &&& fla_pass_fits(info.head_size, info.n_head, sc.config.fla_chunk_size, t, b)
        &&& fla_sizes_fit(sc.config.fla_chunk_size, t, b, lens)
    }
    &&& open_error(info, mode, sc, lens, t, b) is None ==> embeddable(
        rows,
        model.embed.w@.len() as int,
        model.embed.n_embd as int,
        info.n_embd as int,
        t as int,
        sc.emb_staging.len() as int,
    )
}

/// Runs a whole pass with the state on the device; the logits are what the last command
/// downloads.
pub fn dispatch(
    model: &Rwkv7Model,
    probes: &HipProbeMap,
    mode: DispatchMode,
    tokens: &[&[u32]],
    scratch: &mut HipScratch,
    lens: &[usize],
    stream: &mut Stream,
) -> (r: Result<(), HipErrorKind>)
    requires
        dispatch_ready(*model, mode, old(scratch)@, token_rows(tokens@), lens@),
    ensures
        dispatch_run(
            Run::start(old(stream)@),
            *model,
            probes@,
            mode,
            old(scratch)@,
            token_rows(tokens@),
            lens@,
        ).agrees(final(stream)@, r),
        final(scratch)@ == (ScratchSpec {
            emb_staging: staging_after(
                *model,
                mode,
                old(scratch)@,
                token_rows(tokens@),
                lens@,
            ),
            ..old(scratch)@
        }),
{
    reveal(dispatch_ready);
    reveal(dispatch_run);
    reveal(open_run);
    let b: usize = tokens.len();
    let t: usize = tokens[0].len();
    proof {
        assert(token_rows(tokens@)[0].len() == t);
        lemma_open_error(Run::start(stream@), model.info, mode, scratch@, lens@, t, b);
    }
    let info = model.info;
    let chunked = match mode {
        DispatchMode::ByLength => t > 1,
        DispatchMode::AlwaysFla => true,
    };
    let forms = DecayForms {
        raw: true,
        exponential: match mode {
            DispatchMode::ByLength => true,
            DispatchMode::AlwaysFla => false,
        },
    };
    let fla: Option<FlaChunkedWkv> = if chunked {
        Some(FlaChunkedWkv::new(scratch, info.head_size, info.n_head, t, b)?)
    } else {
        None
    };
    let sh = PassShapes::new(&info, &scratch.lora_dims, t, b);
    let views = PassViews::new(scratch, &sh, lens, stream)?;
    let logits_f32 = scratch.logits_f32.resized_view(sh.out)?;
    stage_embeddings(tokens, t, &model.embed, info.n_embd, &mut scratch.emb_staging);
    upload_embeddings(&scratch.emb_staging, &views.work.shift.x, stream);
    reveal(temp_of);
    let tmp = scratch.temp.resized(&sh)?;
    let frame = ProbeFrame {
        layer: None,
        batch_size: b,
        seq_len: if lens.len() == 0 {
            t
        } else {
            longest_of(lens)
        },
        chunk_size: t,
        n_embd: info.n_embd,
        n_head: info.n_head,
        head_size: info.head_size,
        n_layer: info.n_layer,
    };
    let p = Pass {
        info,
        sh,
        w: &views.work,
        tmp: &tmp,
        lens: &views.lens,
        prober: Prober { map: probes, frame },
    };
    p.prober.channels(HipHook::PostEmbed, &views.work.shift.x, info.n_embd, stream);
    let choice = match &fla {
        Some(kernel) => WkvChoice::Fla { kernel, lengths: lens },
        None => WkvChoice::FusedT1,
    };
    run_layers(&p, model, forms, &choice, &scratch.state, stream)?;
    output_head(&p, &model.head, &views.logits, &logits_f32, stream)
}

} // verus!
