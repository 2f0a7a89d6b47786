//! One inference step over a batch of token sequences.
use crate::error::{host_error, ErrorSpec, HipErrorKind};
use crate::model::batch::{
    batch_error, check_batch, lemma_accepted, lens_of, no_scratch, padded_total, pass_rows,
    row_lens, row_refs, rows_for_pass, total,
};
use crate::model::dispatch::{
    dispatch, dispatch_ready, dispatch_run, staging_after, DispatchMode,
};
use crate::model::dispatch_helpers::token_rows;
use crate::model::pending::{LogitsPlan, PendingLogits, PendingStep, StatePlaces, StatePlan};
use crate::model::state::{shift_len, state_fits, wkv_len, HipState, StateData, StateLayout};
use crate::model::{Rwkv7Hip, Rwkv7Model, Rwkv7ModelInfo};
use crate::probe::HipHook;
use crate::scratch::{
    reset_run, HipRuntimeConfig, HipScratch, ScratchSpec, StateBuffers, StateSpec,
};
use crate::stream::{CommandOf, CommandSpec, DataSpec, Elem, HostData, Run, Stream, StreamSpec};
use crate::tensor::TensorShape;
use crate::text::{decimal, text};
use vstd::prelude::*;
use vstd::slice::slice_to_vec;

verus! {

/// The commands that copy the states of `n` layers to the device.
pub open spec fn state_uploads(state: StateSpec, data: StateData, n: nat) -> Seq<CommandSpec>
    decreases n,
{
    if n == 0 {
        Seq::empty()
    } else {
        let i = n - 1;
        state_uploads(state, data, i as nat).push(
            CommandOf::Upload {
                dst: state.att_shift[i].ptr(),
                data: DataSpec::F16(data.att_shift_states[i]),
            },
        ).push(
            CommandOf::Upload { dst: state.ffn[i].ptr(), data: DataSpec::F16(data.ffn_states[i]) },
        ).push(
            CommandOf::Upload { dst: state.wkv[i].ptr(), data: DataSpec::F32(data.att_states[i]) },
        )
    }
}

/// The commands that ask for the states of `n` layers.
pub open spec fn state_downloads(state: StateSpec, shift: usize, wkv: usize, n: nat) -> Seq<
    CommandSpec,
>
    decreases n,
{
    if n == 0 {
        Seq::empty()
    } else {
        let i = n - 1;
        state_downloads(state, shift, wkv, i as nat).push(
            CommandOf::Download { src: state.att_shift[i].ptr(), elem: Elem::F16, len: shift },
        ).push(
            CommandOf::Download { src: state.ffn[i].ptr(), elem: Elem::F16, len: shift },
        ).push(CommandOf::Download { src: state.wkv[i].ptr(), elem: Elem::F32, len: wkv })
    }
}

/// Brings a state to the device; without one, the states are set to zero.
pub open spec fn load_state_run(
    s: Run,
    state: StateSpec,
    data: Option<StateData>,
    n: nat,
) -> Run {
    match data {
        Some(d) => s.emit_all(state_uploads(state, d, n)),
        None => reset_run(s, state),
    }
}

/// The error where a state of `held` sequences meets a batch of another size.
pub open spec fn batch_size_error(held: usize, batch_size: nat) -> ErrorSpec {
    host_error(
        "State batch_size mismatch: state has "@ + decimal(held as nat) + " but input has "@
            + decimal(batch_size) + " sequences"@,
    )
}

/// Why a state is refused for a batch, where it is.
pub open spec fn state_error(data: Option<StateData>, batch_size: nat) -> Option<ErrorSpec> {
    match data {
        Some(d) => if d.batch_size != batch_size {
            Some(batch_size_error(d.batch_size, batch_size))
        } else {
            None
        },
        None => None,
    }
}

/// What working memory stands for, where there is any.
pub open spec fn scratch_view(scratch: Option<HipScratch>) -> Option<ScratchSpec> {
    match scratch {
        Some(s) => Some(s@),
        None => None,
    }
}

/// The configuration of working memory, where there is any.
pub open spec fn config_of(scratch: Option<ScratchSpec>) -> Option<HipRuntimeConfig> {
    match scratch {
        Some(s) => Some(s.config),
        None => None,
    }
}

/// What a state holds, where there is one.
pub open spec fn data_of(state: Option<HipState>) -> Option<StateData> {
    match state {
        Some(s) => Some(s@),
        None => None,
    }
}

/// Working memory after a pass over a batch: only the staging memory of embeddings changes.
pub open spec fn scratch_after(
    model: Rwkv7Model,
    mode: DispatchMode,
    sc: ScratchSpec,
    rows: Seq<Seq<u32>>,
) -> ScratchSpec {
    ScratchSpec {
        emb_staging: staging_after(model, mode, sc, pass_rows(rows), lens_of(rows)),
        ..sc
    }
}

/// What a batch asks of the machine, of the model and of the working memory, where it is not
/// refused.
pub open spec fn request_ready(
    name: Seq<char>,
    model: Rwkv7Model,
    mode: DispatchMode,
    scratch: Option<ScratchSpec>,
    rows: Seq<Seq<u32>>,
) -> bool {
    let lens = lens_of(rows);
    &&& total(lens) <= usize::MAX
    &&& padded_total(lens) <= usize::MAX
    &&& batch_error(name, config_of(scratch), lens) is None ==> dispatch_ready(
        model,
        mode,
        scratch->0,
        pass_rows(rows),
        lens,
    )
}

/// Number of logits that a pass over a batch asks for.
pub open spec fn asked_logits(info: Rwkv7ModelInfo, rows: Seq<Seq<u32>>) -> usize {
    TensorShape::of(
        info.n_vocab,
        pass_rows(rows)[0].len() as usize,
        rows.len() as usize,
        1,
    ).spec_len() as usize
}

/// How the logits of a batch are read.
pub open spec fn logits_plan(info: Rwkv7ModelInfo, rows: Seq<Seq<u32>>) -> LogitsPlan {
    LogitsPlan { lens: lens_of(rows), n_vocab: info.n_vocab, asked: asked_logits(info, rows) }
}

/// How the states of a batch are read after a step: they follow the logits, layer by layer.
pub open spec fn step_plan(info: Rwkv7ModelInfo, batch_size: usize) -> StatePlan {
    StatePlan {
        batch_size,
        n_layer: info.n_layer,
        shift: shift_len(info, batch_size as int) as usize,
        wkv: wkv_len(info, batch_size as int) as usize,
        places: StatePlaces { att_shift: 1, ffn: 2, wkv: 3, step: 3 },
        layout: StateLayout::Decode,
    }
}

/// One step: the state goes to the device, the pass runs, and the new state is asked for.
pub open spec fn step_run(
    s: Run,
    model: Rwkv7Model,
    probes: Map<HipHook, usize>,
    scratch: Option<ScratchSpec>,
    rows: Seq<Seq<u32>>,
    data: Option<StateData>,
) -> Run {
    let lens = lens_of(rows);
    let sc = scratch->0;
    let n = model.info.n_layer as nat;
    let plan = step_plan(model.info, rows.len() as usize);
    s.check(batch_error("step"@, config_of(scratch), lens)).check(
        state_error(data, rows.len()),
    ).step(|s: Run| load_state_run(s, sc.state, data, n)).step(
        |s: Run|
            dispatch_run(s, model, probes, DispatchMode::ByLength, sc, pass_rows(rows), lens),
    ).emit_all(state_downloads(sc.state, plan.shift, plan.wkv, n)).emit(CommandOf::Synchronize)
}

/// A pass that leaves the state on the device.
pub open spec fn resident_run(
    s: Run,
    name: Seq<char>,
    model: Rwkv7Model,
    probes: Map<HipHook, usize>,
    mode: DispatchMode,
    scratch: Option<ScratchSpec>,
    rows: Seq<Seq<u32>>,
) -> Run {
    let lens = lens_of(rows);
    s.check(batch_error(name, config_of(scratch), lens)).step(
        |s: Run| dispatch_run(s, model, probes, mode, scratch->0, pass_rows(rows), lens),
    ).emit(CommandOf::Synchronize)
}

/// What a step asks for, where it is not refused.
pub open spec fn step_ready(
    model: Rwkv7Model,
    scratch: Option<ScratchSpec>,
    rows: Seq<Seq<u32>>,
    data: Option<StateData>,
) -> bool {
    &&& request_ready("step"@, model, DispatchMode::ByLength, scratch, rows)
    &&& batch_error("step"@, config_of(scratch), lens_of(rows)) is None ==> state_fits(
        model.info,
        rows.len() as int,
    )
    &&& data is Some ==> data->0.covers(model.info.n_layer as nat)
}

impl StateBuffers {
    /// Copies the states of `n` layers to the device.
    pub fn upload(&self, data: &HipState, n: usize, stream: &mut Stream)
        requires
            self@.covers(n as nat),
            data@.covers(n as nat),
        ensures
            final(stream)@ == Run::start(old(stream)@).emit_all(
                state_uploads(self@, data@, n as nat),
            ).stream,
    {
        let mut i: usize = 0;
        assert(stream@.log =~= old(stream)@.log + state_uploads(self@, data@, 0));
        while i < n
            invariant
                i <= n,
                self@.covers(n as nat),
                data@.covers(n as nat),
                stream@ == (StreamSpec { log: stream@.log, ..old(stream)@ }),
                stream@.log == old(stream)@.log + state_uploads(self@, data@, i as nat),
            decreases n - i,
        {
            let ghost before = stream@.log;
            let a = slice_to_vec(data.att_shift_states[i].as_slice());
            let f = slice_to_vec(data.ffn_states[i].as_slice());
            let w = slice_to_vec(data.att_states[i].as_slice());
            assert(data@.att_shift_states[i as int] == a@);
            assert(data@.ffn_states[i as int] == f@);
            assert(data@.att_states[i as int] == w@);
            stream.push(
                CommandOf::Upload { dst: self.att_shift[i].as_ptr(), data: HostData::F16(a) },
            );
            stream.push(CommandOf::Upload { dst: self.ffn[i].as_ptr(), data: HostData::F16(f) });
            stream.push(CommandOf::Upload { dst: self.wkv[i].as_ptr(), data: HostData::F32(w) });
            assert(stream@.log =~= old(stream)@.log + state_uploads(
                self@,
                data@,
                (i + 1) as nat,
            ));
            i += 1;
        }
    }

    /// Asks for the states of `n` layers.
    pub fn download(&self, shift: usize, wkv: usize, n: usize, stream: &mut Stream)
        requires
            self@.covers(n as nat),
        ensures
            final(stream)@ == Run::start(old(stream)@).emit_all(
                state_downloads(self@, shift, wkv, n as nat),
            ).stream,
    {
        let mut i: usize = 0;
        assert(stream@.log =~= old(stream)@.log + state_downloads(self@, shift, wkv, 0));
        while i < n
            invariant
                i <= n,
                self@.covers(n as nat),
                stream@ == (StreamSpec { log: stream@.log, ..old(stream)@ }),
                stream@.log == old(stream)@.log + state_downloads(self@, shift, wkv, i as nat),
            decreases n - i,
        {
            stream.push(
                CommandOf::Download {
                    src: self.att_shift[i].as_ptr(),
                    elem: Elem::F16,
                    len: shift,
                },
            );
            stream.push(
                CommandOf::Download { src: self.ffn[i].as_ptr(), elem: Elem::F16, len: shift },
            );
            stream.push(
                CommandOf::Download { src: self.wkv[i].as_ptr(), elem: Elem::F32, len: wkv },
            );
            assert(stream@.log =~= old(stream)@.log + state_downloads(
                self@,
                shift,
                wkv,
                (i + 1) as nat,
            ));
            i += 1;
        }
    }
}

/// Checks that a state is of the given number of sequences.
pub fn check_state(state: &Option<HipState>, batch_size: usize) -> (r: Result<(), HipErrorKind>)
    ensures
        match r {
            Ok(_) => state_error(data_of(*state), batch_size as nat) is None,
            Err(e) => state_error(data_of(*state), batch_size as nat) == Some(e@),
        },
{
    match state {
        Some(s) => check_batch_size(s.batch_size, batch_size),
        None => Ok(()),
    }
}

/// Checks that a state of `held` sequences is for a batch of `batch_size`.
pub fn check_batch_size(held: usize, batch_size: usize) -> (r: Result<(), HipErrorKind>)
    ensures
        match r {
            Ok(_) => held == batch_size,
            Err(e) => held != batch_size && e@ == batch_size_error(held, batch_size as nat),
        },
{
    if held != batch_size {
        Err(
            HipErrorKind::host(
                text("State batch_size mismatch: state has ").num(held).lit(" but input has ").num(
                    batch_size,
                ).lit(" sequences"),
            ),
        )
    } else {
        Ok(())
    }
}

/// Runs a pass over a batch that passed its checks.
pub fn pass_over(
    model: &Rwkv7Model,
    probes: &crate::probe::HipProbeMap,
    mode: DispatchMode,
    scratch: &mut HipScratch,
    x: &[&[u32]],
    lens: &Vec<usize>,
    stream: &mut Stream,
) -> (r: Result<PendingLogits, HipErrorKind>)
    requires
        lens@ == lens_of(token_rows(x@)),
        padded_total(lens@) <= usize::MAX,
        dispatch_ready(*model, mode, old(scratch)@, pass_rows(token_rows(x@)), lens@),
    ensures
        dispatch_run(
            Run::start(old(stream)@),
            *model,
            probes@,
            mode,
            old(scratch)@,
            pass_rows(token_rows(x@)),
            lens@,
        ).agrees(final(stream)@, r),
        final(scratch)@ == scratch_after(*model, mode, old(scratch)@, token_rows(x@)),
        r matches Ok(p) ==> p@ == logits_plan(model.info, token_rows(x@)),
{
    let rows = rows_for_pass(x, lens.as_slice());
    let refs = row_refs(&rows);
    assert(token_rows(refs@) == pass_rows(token_rows(x@)));
    proof {
        lemma_ready_sizes(model, mode, scratch@, token_rows(refs@), lens@);
    }
    let t: usize = refs[0].len();
    assert(token_rows(refs@)[0].len() == t);
    let asked: usize = TensorShape::new(model.info.n_vocab, t, refs.len(), 1).len();
    dispatch(model, probes, mode, refs.as_slice(), scratch, lens.as_slice(), stream)?;
    Ok(PendingLogits::new(slice_to_vec(lens.as_slice()), model.info.n_vocab, asked))
}

/// What a pass that can run has: sequences, a state for every layer, and a machine integer of
/// logits.
proof fn lemma_ready_sizes(
    model: &Rwkv7Model,
    mode: DispatchMode,
    sc: ScratchSpec,
    rows: Seq<Seq<u32>>,
    lens: Seq<usize>,
)
    requires
        dispatch_ready(*model, mode, sc, rows, lens),
    ensures
        rows.len() > 0,
        sc.state.covers(model.info.n_layer as nat),
        TensorShape::of(
            model.info.n_vocab,
            rows[0].len() as usize,
            rows.len() as usize,
            1,
        ).fits(),
{
    reveal(dispatch_ready);
}

impl Rwkv7Hip {
    /// One step over a batch of sequences, from a state on the host or from zero; its commands
    /// are recorded, and its results are still to come.
    pub fn step(
        &mut self,
        x: &[&[u32]],
        state: Option<HipState>,
        stream: &mut Stream,
    ) -> (r: Result<PendingStep, HipErrorKind>)
        requires
            step_ready(
                *old(self).model,
                scratch_view(old(self).scratch),
                token_rows(x@),
                data_of(state),
            ),
        ensures
            step_run(
                Run::start(old(stream)@),
                *old(self).model,
                old(self).probes@,
                scratch_view(old(self).scratch),
                token_rows(x@),
                data_of(state),
            ).agrees(final(stream)@, r),
            r matches Ok(p) ==> p.logits_plan() == logits_plan(old(self).model.info, token_rows(x@))
                && p.state_plan() == step_plan(old(self).model.info, x@.len() as usize),
            final(self).model == old(self).model,
            final(self).probes == old(self).probes,
            scratch_view(final(self).scratch) == (if batch_error(
                "step"@,
                config_of(scratch_view(old(self).scratch)),
                lens_of(token_rows(x@)),
            ) is None && state_error(data_of(state), x@.len()) is None {
                Some(
                    scratch_after(
                        *old(self).model,
                        DispatchMode::ByLength,
                        scratch_view(old(self).scratch)->0,
                        token_rows(x@),
                    ),
                )
            } else {
                scratch_view(old(self).scratch)
            }),
    {
        let lens = row_lens(x);
        let config = self.config();
        check_batch("step", &config, lens.as_slice())?;
        proof {
            lemma_accepted("step"@, config, lens@);
        }
        check_state(&state, x.len())?;
        let n: usize = self.model.info.n_layer;
        let info = self.model.info;
        let shift: usize = info.n_embd * x.len();
        let wkv: usize = info.head_size * info.head_size * info.n_head * x.len();
        let mut scratch = match self.scratch.take() {
            Some(s) => s,
            None => return Err(no_scratch()),
        };
        proof {
            lemma_ready_sizes(
                &self.model,
                DispatchMode::ByLength,
                scratch@,
                pass_rows(token_rows(x@)),
                lens@,
            );
        }
        match &state {
            Some(s) => {
                scratch.state.upload(s, n, stream);
            },
            None => {
                scratch.reset_state_gpu(stream);
            },
        }
        let passed = pass_over(
            &self.model,
            &self.probes,
            DispatchMode::ByLength,
            &mut scratch,
            x,
            &lens,
            stream,
        );
        if passed.is_ok() {
            scratch.state.download(shift, wkv, n, stream);
            stream.synchronize();
        }
        self.scratch = Some(scratch);
        let logits = passed?;
        Ok(
            PendingStep::new(
                logits,
                StatePlan {
                    batch_size: x.len(),
                    n_layer: n,
                    shift,
                    wkv,
                    places: StatePlaces { att_shift: 1, ffn: 2, wkv: 3, step: 3 },
                    layout: StateLayout::Decode,
                },
            ),
        )
    }

    /// One pass over a batch of sequences, from the state on the device; its commands are
    /// recorded, and its logits are still to come.
    pub fn infer_resident(&mut self, x: &[&[u32]], stream: &mut Stream) -> (r: Result<
        PendingLogits,
        HipErrorKind,
    >)
        requires
            request_ready(
                "infer_resident"@,
                *old(self).model,
                DispatchMode::ByLength,
                scratch_view(old(self).scratch),
                token_rows(x@),
            ),
        ensures
            resident_run(
                Run::start(old(stream)@),
                "infer_resident"@,
                *old(self).model,
                old(self).probes@,
                DispatchMode::ByLength,
                scratch_view(old(self).scratch),
                token_rows(x@),
            ).agrees(final(stream)@, r),
            r matches Ok(p) ==> p@ == logits_plan(old(self).model.info, token_rows(x@)),
            final(self).model == old(self).model,
            final(self).probes == old(self).probes,
            scratch_view(final(self).scratch) == (if batch_error(
                "infer_resident"@,
                config_of(scratch_view(old(self).scratch)),
                lens_of(token_rows(x@)),
            ) is None {
                Some(
                    scratch_after(
                        *old(self).model,
                        DispatchMode::ByLength,
                        scratch_view(old(self).scratch)->0,
                        token_rows(x@),
                    ),
                )
            } else {
                scratch_view(old(self).scratch)
            }),
    {
        let lens = row_lens(x);
        let config = self.config();
        check_batch("infer_resident", &config, lens.as_slice())?;
        proof {
            lemma_accepted("infer_resident"@, config, lens@);
        }
        let mut scratch = match self.scratch.take() {
            Some(s) => s,
            None => return Err(no_scratch()),
        };
        let passed = pass_over(
            &self.model,
            &self.probes,
            DispatchMode::ByLength,
            &mut scratch,
            x,
            &lens,
            stream,
        );
        self.scratch = Some(scratch);
        let logits = passed?;
        stream.synchronize();
        Ok(logits)
    }

    /// The configuration of the working memory, where there is any.
    pub fn config(&self) -> (c: Option<HipRuntimeConfig>)
        ensures
            c == config_of(scratch_view(self.scratch)),
    {
        match &self.scratch {
            Some(s) => Some(s.config),
            None => None,
        }
    }
}

} // verus!
