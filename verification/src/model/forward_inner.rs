//! A whole forward pass with the masked attention, over sequences padded to one length.
use crate::buffers::{temp_view, work_view, work_view_error, TempBuffers};
use crate::error::{first_error, ErrorSpec, HipErrorKind};
use crate::kernels::elementwise::{copy_f16_to_f32, copy_f16_to_f32_call};
use crate::model::dispatch::pass_of;
use crate::model::dispatch_helpers::{
    embed_upload, embeddable, head_logits, head_part, stage_embeddings, staged, token_rows,
    upload_embeddings, DecayForms, WkvChoice, WkvChoiceSpec,
};
use crate::model::forward::{masked_forms, place_state_run, state_placed};
use crate::model::layer::Pass;
use crate::model::pass::{layers_run, longest_of, run_layers, views_run, PassViews};
use crate::model::state::{lists, HipState, StateData};
use crate::model::{Rwkv7Model, Rwkv7ModelInfo};
use crate::probe::{HipProbeMap, ProbeFrame, Prober};
use crate::scratch::{temp_of, tensor_list, HipScratch, ScratchSpec, StateBuffers, StateSpec};
use crate::shapes::PassShapes;
use crate::stream::{CommandOf, CommandSpec, Elem, Run, Stream, StreamSpec};
use crate::tensor::{fill_error, resize_error, Element, TensorHip, TensorSpec, F16, F32};
use vstd::prelude::*;

verus! {

/// How the logits of a forward pass go to the host.
#[derive(Debug, Clone, Copy, PartialEq, Eq, Structural)]
pub enum LogitsPath {
    /// Widened to single precision on the device.
    Widened,
    /// In half precision.
    Half,
}

/// Sees the working memory in the shapes of the pass and uploads the lengths.
#[verifier::opaque]
pub open spec fn forward_open_run(
    s: Run,
    info: Rwkv7ModelInfo,
    sc: ScratchSpec,
    lens: Seq<usize>,
    t: usize,
    b: usize,
    path: LogitsPath,
) -> Run {
    let sh = PassShapes::of(info, sc.lora_dims, t, b);
    let s = views_run(s, sc, sh, lens);
    match path {
        LogitsPath::Widened => s.check(resize_error(sc.logits_f32, sh.out)),
        LogitsPath::Half => s,
    }
}

/// Why the working memory has no room for a pass, where it has none.
#[verifier::opaque]
pub open spec fn forward_open_error(
    info: Rwkv7ModelInfo,
    sc: ScratchSpec,
    lens: Seq<usize>,
    t: usize,
    b: usize,
    path: LogitsPath,
) -> Option<ErrorSpec> {
    let sh = PassShapes::of(info, sc.lora_dims, t, b);
    let wide = match path {
        LogitsPath::Widened => resize_error(sc.logits_f32, sh.out),
        LogitsPath::Half => None,
    };
    first_error(
        resize_error(sc.lens_gpu, sh.lens),
        first_error(
            fill_error(lens.len(), sh.lens),
            first_error(
                work_view_error(sc.work, sh),
                first_error(resize_error(sc.logits, sh.out), wide),
            ),
        ),
    )
}

/// The first part of a pass fails where the working memory has no room for it.
pub proof fn lemma_forward_open_error(
    s: Run,
    info: Rwkv7ModelInfo,
    sc: ScratchSpec,
    lens: Seq<usize>,
    t: usize,
    b: usize,
    path: LogitsPath,
)
    requires
        s.error is None,
    ensures
        forward_open_run(s, info, sc, lens, t, b, path).error == forward_open_error(
            info,
            sc,
            lens,
            t,
            b,
            path,
        ),
{
    reveal(forward_open_run);
    reveal(forward_open_error);
    reveal(views_run);
}

/// The staging memory of embeddings after a pass.
pub open spec fn forward_staging(
    model: Rwkv7Model,
    sc: ScratchSpec,
    rows: Seq<Seq<u32>>,
    lens: Seq<usize>,
    path: LogitsPath,
) -> Seq<u16> {
    let t = rows[0].len() as usize;
    if forward_open_error(model.info, sc, lens, t, rows.len() as usize, path) is None {
        staged(
            sc.emb_staging,
            model.embed.w@,
            model.embed.n_embd as int,
            rows,
            model.info.n_embd as int,
            t as int,
        )
    } else {
        sc.emb_staging
    }
}

/// Why there is no room for the tensors that the new states are written to, where there is
/// none.
#[verifier::opaque]
pub open spec fn spare_view_error(sc: ScratchSpec, sh: PassShapes) -> Option<ErrorSpec> {
    first_error(
        resize_error(sc.temp.new_att_shift, sh.state),
        first_error(
            resize_error(sc.temp.new_ffn_shift, sh.state),
            first_error(
                resize_error(sc.new_wkv_state, sh.wkv_state),
                first_error(
                    resize_error(sc.temp.temp1, sh.std),
                    resize_error(sc.temp.temp2, sh.std),
                ),
            ),
        ),
    )
}

/// The masked attention, with the spare tensor of the working memory.
pub open spec fn masked_choice(sc: ScratchSpec, sh: PassShapes) -> WkvChoiceSpec {
    WkvChoiceSpec::Masked { state_out: sc.new_wkv_state.with_shape(sh.wkv_state) }
}

/// The layers and the head, up to the logits in half precision.
#[verifier::opaque]
pub open spec fn forward_head(
    s: Run,
    model: Rwkv7Model,
    sc: ScratchSpec,
    lens: Seq<usize>,
    t: usize,
    b: usize,
    state: StateSpec,
) -> Run {
    let info = model.info;
    let p = pass_of(info, Map::empty(), sc, lens, t, b);
    s.check(spare_view_error(sc, p.sh)).step(
        |s: Run|
            layers_run(
                s,
                p,
                model,
                info.n_layer as nat,
                masked_forms(),
                masked_choice(sc, p.sh),
                state,
            ),
    ).step(|s: Run| head_part(s, p, model.head, sc.logits.with_shape(p.sh.out)))
}

/// The way of the logits to the host.
pub open spec fn logits_sent(s: Run, sc: ScratchSpec, sh: PassShapes, path: LogitsPath) -> Run {
    let logits = sc.logits.with_shape(sh.out);
    let wide = sc.logits_f32.with_shape(sh.out);
    match path {
        LogitsPath::Widened => s.call(copy_f16_to_f32_call(logits, wide)).download::<F32>(wide),
        LogitsPath::Half => s.download::<F16>(logits),
    }
}

/// The layers and the head, up to the logits on their way to the host.
pub open spec fn forward_rest(
    s: Run,
    model: Rwkv7Model,
    sc: ScratchSpec,
    lens: Seq<usize>,
    t: usize,
    b: usize,
    state: StateSpec,
    path: LogitsPath,
) -> Run {
    logits_sent(
        forward_head(s, model, sc, lens, t, b, state),
        sc,
        PassShapes::of(model.info, sc.lora_dims, t, b),
        path,
    )
}

/// The commands that ask for tensors, each as long as what the host holds of it.
pub open spec fn list_downloads<D>(tensors: Seq<TensorSpec>, elem: Elem, data: Seq<Seq<D>>) -> Seq<
    CommandSpec,
> {
    Seq::new(
        tensors.len(),
        |i: int|
            CommandOf::Download {
                src: tensors[i].ptr(),
                elem,
                len: data[i].len() as usize,
            },
    )
}

/// The commands that ask for the states, each as long as what the host holds of it.
pub open spec fn host_downloads(state: StateSpec, data: StateData) -> Seq<CommandSpec> {
    list_downloads(state.att_shift, Elem::F16, data.att_shift_states) + list_downloads(
        state.ffn,
        Elem::F16,
        data.ffn_states,
    ) + list_downloads(state.wkv, Elem::F32, data.att_states)
}

/// A whole forward pass. A resident state stays on the device; any other goes there and comes
/// back.
#[verifier::opaque]
pub open spec fn forward_inner_run(
    s: Run,
    model: Rwkv7Model,
    sc: ScratchSpec,
    rows: Seq<Seq<u32>>,
    lens: Seq<usize>,
    data: StateData,
    path: LogitsPath,
) -> Run {
    let info = model.info;
    let t = rows[0].len() as usize;
    let b = rows.len() as usize;
    let sh = PassShapes::of(info, sc.lora_dims, t, b);
    let resident = sc.config.resident_state;
    let s = embed_upload(
        forward_open_run(s, info, sc, lens, t, b, path),
        forward_staging(model, sc, rows, lens, path),
        work_view(sc.work, sh).shift.x,
    );
    let state = if resident {
        sc.state
    } else {
        state_placed(s.stream.next, sh, data)
    };
    let s = if resident {
        s
    } else {
        s.step(|s: Run| place_state_run(s, sh, data))
    };
    let s = s.step(|s: Run| forward_rest(s, model, sc, lens, t, b, state, path));
    if resident {
        s
    } else {
        s.emit_all(host_downloads(state, data))
    }
}

/// What a forward pass asks: machine-sized shapes, a state for every layer, and a row of the
/// embedding table for every token that is looked up.
#[verifier::opaque]
pub open spec fn forward_ready(
    model: Rwkv7Model,
    sc: ScratchSpec,
    rows: Seq<Seq<u32>>,
    lens: Seq<usize>,
    data: StateData,
    path: LogitsPath,
) -> bool {
    let t = rows[0].len() as usize;
    let b = rows.len() as usize;
    let n = model.info.n_layer as nat;
    &&& model.sound()
    &&& rows.len() > 0
    &&& PassShapes::of(model.info, sc.lora_dims, t, b).fits()
    &&& if sc.config.resident_state {
        sc.state.covers(n)
    } else {
        data.covers(n)
    }
    &&& forward_open_error(model.info, sc, lens, t, b, path) is None ==> embeddable(
        rows,
        model.embed.w@.len() as int,
        model.embed.n_embd as int,
        model.info.n_embd as int,
        t as int,
        sc.emb_staging.len() as int,
    )
}

/// Working memory after a forward pass: only the staging memory of embeddings changes.
pub open spec fn forward_scratch(
    model: Rwkv7Model,
    sc: ScratchSpec,
    rows: Seq<Seq<u32>>,
    lens: Seq<usize>,
    path: LogitsPath,
) -> ScratchSpec {
    ScratchSpec { emb_staging: forward_staging(model, sc, rows, lens, path), ..sc }
}

/// The tensors that the new states are written to, and those for values in between.
struct Spares {
    wkv: TensorHip<F32>,
    tmp: TempBuffers,
}

impl Spares {
    fn of(scratch: &HipScratch, sh: &PassShapes) -> (r: Result<Spares, HipErrorKind>)
        requires
            sh.fits(),
        ensures
            match r {
                Ok(v) => {
                    &&& spare_view_error(scratch@, *sh) is None
                    &&& v.wkv@ == scratch@.new_wkv_state.with_shape(sh.wkv_state)
                    &&& v.tmp@ == temp_view(scratch@.temp, *sh)
                },
                Err(e) => spare_view_error(scratch@, *sh) == Some(e@),
            },
    {
        reveal(spare_view_error);
        reveal(temp_view);
        reveal(temp_of);
        let new_att_shift = scratch.temp.new_att_shift.resized_view(sh.state)?;
        let new_ffn_shift = scratch.temp.new_ffn_shift.resized_view(sh.state)?;
        let wkv = scratch.new_wkv_state.resized_view(sh.wkv_state)?;
        let temp1 = scratch.temp.temp1.resized_view(sh.std)?;
        let temp2 = scratch.temp.temp2.resized_view(sh.std)?;
        Ok(Spares { wkv, tmp: TempBuffers { temp1, temp2, new_att_shift, new_ffn_shift } })
    }
}

/// Runs the layers and the head.
fn forward_held(
    model: &Rwkv7Model,
    scratch: &HipScratch,
    views: &PassViews,
    logits_f32: &Option<TensorHip<F32>>,
    sh: PassShapes,
    lens: &[usize],
    t: usize,
    b: usize,
    state: &StateBuffers,
    path: LogitsPath,
    stream: &mut Stream,
) -> (r: Result<(), HipErrorKind>)
    requires
        model.sound(),
        sh.fits(),
        sh == PassShapes::of(model.info, scratch@.lora_dims, t, b),
        views.of(scratch@, sh),
        logits_f32 is Some == (path is Widened),
        logits_f32 matches Some(w) ==> w@ == scratch@.logits_f32.with_shape(sh.out),
        state@.reaches(model.info.n_layer as nat),
    ensures
        forward_rest(
            Run::start(old(stream)@),
            *model,
            scratch@,
            lens@,
            t,
            b,
            state@,
            path,
        ).agrees(final(stream)@, r),
{
    reveal(forward_head);
    let spares = Spares::of(scratch, &sh)?;
    let probes = HipProbeMap::empty();
    let frame = ProbeFrame {
        layer: None,
        batch_size: b,
        seq_len: if lens.len() == 0 {
            t
        } else {
            longest_of(lens)
        },
        chunk_size: t,
        n_embd: model.info.n_embd,
        n_head: model.info.n_head,
        head_size: model.info.head_size,
        n_layer: model.info.n_layer,
    };
    let p = Pass {
        info: model.info,
        sh,
        w: &views.work,
        tmp: &spares.tmp,
        lens: &views.lens,
        prober: Prober { map: &probes, frame },
    };
    assert(p@ == pass_of(model.info, Map::empty(), scratch@, lens@, t, b));
    let forms = DecayForms { raw: false, exponential: true };
    let choice = WkvChoice::Masked { state_out: &spares.wkv };
    run_layers(&p, model, forms, &choice, state, stream)?;
    send_logits(&p, model, views, logits_f32, stream)
}

/// Runs the head and asks for the logits.
fn send_logits(
    p: &Pass<'_>,
    model: &Rwkv7Model,
    views: &PassViews,
    logits_f32: &Option<TensorHip<F32>>,
    stream: &mut Stream,
) -> (r: Result<(), HipErrorKind>)
    ensures
        ({
            let head = head_part(Run::start(old(stream)@), p@, model.head, views.logits@);
            match logits_f32 {
                Some(wide) => head.call(
                    copy_f16_to_f32_call(views.logits@, wide@),
                ).download::<F32>(wide@),
                None => head.download::<F16>(views.logits@),
            }
        }).agrees(final(stream)@, r),
{
    head_logits(p, &model.head, &views.logits, stream)?;
    match logits_f32 {
        Some(wide) => {
            copy_f16_to_f32(&views.logits, wide, stream)?;
            wide.download(stream);
        },
        None => {
            views.logits.download(stream);
        },
    }
    Ok(())
}

impl StateBuffers {
    /// Asks for the states, each as long as what the host holds of it.
    pub fn download_into(&self, data: &HipState, stream: &mut Stream)
        requires
            self@.att_shift.len() <= data@.att_shift_states.len(),
            self@.ffn.len() <= data@.ffn_states.len(),
            self@.wkv.len() <= data@.att_states.len(),
        ensures
            final(stream)@ == Run::start(old(stream)@).emit_all(
                host_downloads(self@, data@),
            ).stream,
    {
        let ghost log = stream@.log;
        download_list(&self.att_shift, &data.att_shift_states, stream);
        download_list(&self.ffn, &data.ffn_states, stream);
        download_list(&self.wkv, &data.att_states, stream);
        assert(stream@.log =~= log + host_downloads(self@, data@));
    }
}

/// Asks for tensors, each as long as what the host holds of it.
fn download_list<T: Element, D>(
    tensors: &Vec<TensorHip<T>>,
    data: &Vec<Vec<D>>,
    stream: &mut Stream,
)
    requires
        tensors@.len() <= data@.len(),
    ensures
        final(stream)@ == Run::start(old(stream)@).emit_all(
            list_downloads(tensor_list(tensors@), T::kind(), lists(data@)),
        ).stream,
{
    let ghost commands = list_downloads(tensor_list(tensors@), T::kind(), lists(data@));
    let mut i: usize = 0;
    assert(stream@.log =~= old(stream)@.log + commands.take(0));
    while i < tensors.len()
        invariant
            i <= tensors@.len() <= data@.len(),
            commands == list_downloads(tensor_list(tensors@), T::kind(), lists(data@)),
            stream@ == (StreamSpec { log: stream@.log, ..old(stream)@ }),
            stream@.log == old(stream)@.log + commands.take(i as int),
        decreases tensors@.len() - i,
    {
        stream.push(
            CommandOf::Download { src: tensors[i].as_ptr(), elem: T::elem(), len: data[i].len() },
        );
        assert(commands.take(i + 1) =~= commands.take(i as int).push(commands[i as int]));
        assert(stream@.log =~= old(stream)@.log + commands.take(i + 1));
        i += 1;
    }
    assert(commands.take(i as int) =~= commands);
}

/// A whole forward pass: its commands are recorded. A resident state stays on the device; any
/// other goes there, and is asked for at the end.
pub fn forward_inner(
    model: &Rwkv7Model,
    tokens: &[&[u32]],
    state: &HipState,
    scratch: &mut HipScratch,
    lens: &[usize],
    path: LogitsPath,
    stream: &mut Stream,
) -> (r: Result<(), HipErrorKind>)
    requires
        forward_ready(*model, old(scratch)@, token_rows(tokens@), lens@, state@, path),
    ensures
        forward_inner_run(
            Run::start(old(stream)@),
            *model,
            old(scratch)@,
            token_rows(tokens@),
            lens@,
            state@,
            path,
        ).agrees(final(stream)@, r),
        final(scratch)@ == forward_scratch(
            *model,
            old(scratch)@,
            token_rows(tokens@),
            lens@,
            path,
        ),
{
    reveal(forward_ready);
    reveal(forward_inner_run);
    reveal(forward_open_run);
    let b: usize = tokens.len();
    let t: usize = tokens[0].len();
    let ghost sc = scratch@;
    let ghost rows = token_rows(tokens@);
    proof {
        assert(rows[0].len() == t);
        lemma_forward_open_error(Run::start(stream@), model.info, sc, lens@, t, b, path);
    }
    let sh = PassShapes::new(&model.info, &scratch.lora_dims, t, b);
    let views = PassViews::new(scratch, &sh, lens, stream)?;
    let logits_f32: Option<TensorHip<F32>> = match path {
        LogitsPath::Widened => Some(scratch.logits_f32.resized_view(sh.out)?),
        LogitsPath::Half => None,
    };
    stage_embeddings(tokens, t, &model.embed, model.info.n_embd, &mut scratch.emb_staging);
    upload_embeddings(&scratch.emb_staging, &views.work.shift.x, stream);
    let resident = scratch.config.resident_state;
    let placed: Option<StateBuffers> = if resident {
        None
    } else {
        Some(StateBuffers::place(state, &sh, stream)?)
    };
    let held = match &placed {
        Some(own) => own,
        None => &scratch.state,
    };
    proof {
        lemma_rest_reads(Run::start(stream@), *model, scratch@, sc, lens@, t, b, held@, path);
    }
    forward_held(
        model,
        scratch,
        &views,
        &logits_f32,
        sh,
        lens,
        t,
        b,
        held,
        path,
        stream,
    )?;
    match &placed {
        Some(own) => {
            own.download_into(state, stream);
        },
        None => {},
    }
    Ok(())
}

/// The layers and the head do not read the staging memory of embeddings.
proof fn lemma_rest_reads(
    s: Run,
    model: Rwkv7Model,
    a: ScratchSpec,
    c: ScratchSpec,
    lens: Seq<usize>,
    t: usize,
    b: usize,
    state: StateSpec,
    path: LogitsPath,
)
    requires
        a == (ScratchSpec { emb_staging: a.emb_staging, ..c }),
    ensures
        forward_rest(s, model, a, lens, t, b, state, path) == forward_rest(
            s,
            model,
            c,
            lens,
            t,
            b,
            state,
            path,
        ),
{
    reveal(forward_head);
    reveal(spare_view_error);
}

} // verus!
