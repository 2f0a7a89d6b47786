//! Prefill on its own: always the chunked attention, never the fused one.
use crate::error::HipErrorKind;
use crate::model::batch::{batch_error, check_batch, lens_of, row_lens};
use crate::model::dispatch::DispatchMode;
use crate::model::dispatch_helpers::token_rows;
use crate::model::pending::{PendingLogits, PendingState, StatePlaces, StatePlan};
use crate::model::state::{shift_len, state_fits, wkv_len, StateLayout};
use crate::model::step::{logits_plan, pass_over, request_ready, resident_run, scratch_after};
use crate::model::{Rwkv7Model, Rwkv7ModelInfo};
use crate::probe::{HipHook, HipProbeMap};
use crate::scratch::{
    reset_run, scratch_at, scratch_fits, scratch_run, HipRuntimeConfig, HipScratch,
    StateBuffers, StateSpec,
};
use crate::stream::{CommandOf, CommandSpec, Elem, Run, Stream, StreamSpec};
use std::sync::Arc;
use vstd::prelude::*;

verus! {

/// The commands that ask for the states of `n` layers, each whole.
pub open spec fn whole_state_downloads(state: StateSpec, n: nat) -> Seq<CommandSpec>
    decreases n,
{
    if n == 0 {
        Seq::empty()
    } else {
        let i = n - 1;
        whole_state_downloads(state, i as nat).push(
            CommandOf::Download {
                src: state.wkv[i].ptr(),
                elem: Elem::F32,
                len: state.wkv[i].len() as usize,
            },
        ).push(
            CommandOf::Download {
                src: state.att_shift[i].ptr(),
                elem: Elem::F16,
                len: state.att_shift[i].len() as usize,
            },
        ).push(
            CommandOf::Download {
                src: state.ffn[i].ptr(),
                elem: Elem::F16,
                len: state.ffn[i].len() as usize,
            },
        )
    }
}

/// How the states are read after prefill: layer by layer, the recurrent state first.
pub open spec fn prefill_plan(info: Rwkv7ModelInfo, batch_size: usize) -> StatePlan {
    StatePlan {
        batch_size,
        n_layer: info.n_layer,
        shift: shift_len(info, batch_size as int) as usize,
        wkv: wkv_len(info, batch_size as int) as usize,
        places: StatePlaces { att_shift: 1, ffn: 2, wkv: 0, step: 3 },
        layout: StateLayout::Fla,
    }
}

impl StateBuffers {
    /// Asks for the states of `n` layers, each whole.
    pub fn download_whole(&self, n: usize, stream: &mut Stream)
        requires
            self@.covers(n as nat),
        ensures
            final(stream)@ == Run::start(old(stream)@).emit_all(
                whole_state_downloads(self@, n as nat),
            ).stream,
    {
        let mut i: usize = 0;
        assert(stream@.log =~= old(stream)@.log + whole_state_downloads(self@, 0));
        while i < n
            invariant
                i <= n,
                self@.covers(n as nat),
                stream@ == (StreamSpec { log: stream@.log, ..old(stream)@ }),
                stream@.log == old(stream)@.log + whole_state_downloads(self@, i as nat),
            decreases n - i,
        {
            self.wkv[i].download(stream);
            self.att_shift[i].download(stream);
            self.ffn[i].download(stream);
            assert(stream@.log =~= old(stream)@.log + whole_state_downloads(
                self@,
                (i + 1) as nat,
            ));
            i += 1;
        }
    }
}

/// Prefill with its own working memory; the state stays on the device between calls.
#[derive(Debug)]
pub struct HipPrefill {
    pub model: Arc<Rwkv7Model>,
    pub scratch: HipScratch,
}

/// Asks for the whole state on the device.
pub open spec fn get_state_run(s: Run, state: StateSpec, n: nat) -> Run {
    s.emit_all(whole_state_downloads(state, n)).emit(CommandOf::Synchronize)
}

impl HipPrefill {
    /// Allocates the working memory; the state starts at zero.
    pub fn new(model: Arc<Rwkv7Model>, config: HipRuntimeConfig, stream: &mut Stream) -> (r: Result<
        HipPrefill,
        HipErrorKind,
    >)
        requires
            model.layers@.len() > 0,
            scratch_fits(model.info, model.spec_lora_dims(), config),
        ensures
            scratch_run(Run::start(old(stream)@), model.info, model.spec_lora_dims(), config).agrees(
                final(stream)@,
                r,
            ),
            r matches Ok(h) ==> {
                &&& h.model == model
                &&& h.scratch@ == scratch_at(
                    old(stream)@.next,
                    model.info,
                    model.spec_lora_dims(),
                    config,
                )
                &&& h.scratch@.made_for(model.info)
            },
    {
        let lora_dims = model.lora_dims();
        let scratch = HipScratch::new(&model.info, lora_dims, config, stream)?;
        Ok(HipPrefill { model, scratch })
    }

    /// Dimensions of the model.
    pub fn info(&self) -> (i: &Rwkv7ModelInfo)
        ensures
            *i == self.model.info,
    {
        &self.model.info
    }

    /// The shared weights.
    pub fn model(&self) -> (m: Arc<Rwkv7Model>)
        ensures
            m == self.model,
    {
        self.model.clone()
    }

    /// Sets the state on the device to zero.
    pub fn reset_state(&self, stream: &mut Stream)
        ensures
            final(stream)@ == reset_run(Run::start(old(stream)@), self.scratch.state@).stream,
    {
        self.scratch.reset_state_gpu(stream);
    }

    /// Asks for the state on the device.
    pub fn get_state(&self, stream: &mut Stream) -> (p: PendingState)
        requires
            self.scratch@.state.covers(self.model.info.n_layer as nat),
            state_fits(self.model.info, self.scratch.config.batch_size as int),
        ensures
            final(stream)@ == get_state_run(
                Run::start(old(stream)@),
                self.scratch.state@,
                self.model.info.n_layer as nat,
            ).stream,
            p@ == prefill_plan(self.model.info, self.scratch.config.batch_size),
    {
        let info = self.model.info;
        let b: usize = self.scratch.config.batch_size;
        self.scratch.state.download_whole(info.n_layer, stream);
        stream.synchronize();
        PendingState::new(
            StatePlan {
                batch_size: b,
                n_layer: info.n_layer,
                shift: info.n_embd * b,
                wkv: info.head_size * info.head_size * info.n_head * b,
                places: StatePlaces { att_shift: 1, ffn: 2, wkv: 0, step: 3 },
                layout: StateLayout::Fla,
            },
        )
    }

    /// Runs a batch of sequences through the model with the chunked attention; the commands
    /// are recorded, and the logits are still to come.
    pub fn prefill(&mut self, tokens: &[&[u32]], stream: &mut Stream) -> (r: Result<
        PendingLogits,
        HipErrorKind,
    >)
        requires
            request_ready(
                "prefill"@,
                *old(self).model,
                DispatchMode::AlwaysFla,
                Some(old(self).scratch@),
                token_rows(tokens@),
            ),
        ensures
            resident_run(
                Run::start(old(stream)@),
                "prefill"@,
                *old(self).model,
                Map::<HipHook, usize>::empty(),
                DispatchMode::AlwaysFla,
                Some(old(self).scratch@),
                token_rows(tokens@),
            ).agrees(final(stream)@, r),
            r matches Ok(p) ==> p@ == logits_plan(old(self).model.info, token_rows(tokens@)),
            final(self).model == old(self).model,
            final(self).scratch@ == (if batch_error(
                "prefill"@,
                Some(old(self).scratch@.config),
                lens_of(token_rows(tokens@)),
            ) is None {
                scratch_after(
                    *old(self).model,
                    DispatchMode::AlwaysFla,
                    old(self).scratch@,
                    token_rows(tokens@),
                )
            } else {
                old(self).scratch@
            }),
    {
        let lens = row_lens(tokens);
        let config = Some(self.scratch.config);
        check_batch("prefill", &config, lens.as_slice())?;
        let probes = HipProbeMap::empty();
        let logits = pass_over(
            &self.model,
            &probes,
            DispatchMode::AlwaysFla,
            &mut self.scratch,
            tokens,
            &lens,
            stream,
        )?;
        stream.synchronize();
        Ok(logits)
    }
}

} // verus!
