//! A forward pass over one chunk whose results are fetched later.
use crate::error::{host_error, ErrorSpec, HipErrorKind};
use crate::model::batch::{
    lens_of, no_scratch, pad_rows, padded_rows, row_lens, row_refs, strided_logits,
    strided_logits_of,
};
use crate::model::dispatch_helpers::token_rows;
use crate::model::forward_inner::{
    forward_inner, forward_inner_run, forward_ready, forward_scratch, LogitsPath,
};
use crate::model::forward_task::{
    check_forward_batch, forward_error, start_data,
};
use crate::model::pass::{lemma_longest, longest, longest_of};
use crate::model::replies::{
    as_f16, data_list, is_f16, like_state, read_state_like, state_count, state_from,
};
use crate::model::state::{state_fits, HipState, StateData};
use crate::model::step::{check_state, config_of, data_of, scratch_view, state_error};
use crate::model::{Rwkv7Hip, Rwkv7Model, Rwkv7ModelInfo};
use crate::scratch::{HipRuntimeConfig, ScratchSpec};
use crate::stream::{DataSpec, HostData, Run, Stream};
use crate::text::{decimal, text};
use vstd::prelude::*;

verus! {

/// Why a batch is refused, where it is: there is room for one chunk only.
pub open spec fn async_error(
    config: Option<HipRuntimeConfig>,
    lens: Seq<usize>,
    data: Option<StateData>,
) -> Option<ErrorSpec> {
    if forward_error(config, lens, None) is Some {
        forward_error(config, lens, None)
    } else if longest(lens) > config->0.max_prefill_chunk {
        Some(
            host_error(
                "forward_async() requires sequence length <= chunk_size ("@ + decimal(
                    longest(lens) as nat,
                ) + " vs "@ + decimal(config->0.max_prefill_chunk as nat)
                    + "). Use forward() for longer sequences."@,
            ),
        )
    } else {
        state_error(data, lens.len())
    }
}

/// A pass over one chunk, with its logits in half precision.
pub open spec fn async_run(
    s: Run,
    model: Rwkv7Model,
    scratch: Option<ScratchSpec>,
    rows: Seq<Seq<u32>>,
    data: Option<StateData>,
) -> Run {
    let sc = scratch->0;
    s.check(async_error(config_of(scratch), lens_of(rows), data)).step(
        |s: Run|
            forward_inner_run(
                s,
                model,
                sc,
                padded_rows(rows, sc.config.max_prefill_chunk),
                lens_of(rows),
                start_data(model.info, rows.len() as usize, data),
                LogitsPath::Half,
            ),
    )
}

/// What a pass over one chunk asks for, where it is not refused.
pub open spec fn async_ready(
    model: Rwkv7Model,
    scratch: Option<ScratchSpec>,
    rows: Seq<Seq<u32>>,
    data: Option<StateData>,
) -> bool {
    async_error(config_of(scratch), lens_of(rows), data) is None ==> {
        let sc = scratch->0;
        let c = sc.config.max_prefill_chunk;
        &&& rows.len() * c <= usize::MAX
        &&& rows.len() * c * model.info.n_vocab <= usize::MAX
        &&& state_fits(model.info, rows.len() as int)
        &&& forward_ready(
            model,
            sc,
            padded_rows(rows, c),
            lens_of(rows),
            start_data(model.info, rows.len() as usize, data),
            LogitsPath::Half,
        )
    }
}

/// What a pass that is under way will give.
#[verifier::ext_equal]
pub struct CompletionSpec {
    /// Real length of each sequence.
    pub lens: Seq<usize>,
    /// Tokens of a chunk.
    pub chunk: usize,
    pub n_vocab: usize,
    /// The state that the pass started from.
    pub data: StateData,
    /// Whether the state stays on the device.
    pub resident: bool,
}

impl CompletionSpec {
    /// Whether the replies are what the pass asked for: all logits, and the states.
    pub open spec fn answered_by(self, replies: Seq<DataSpec>) -> bool {
        &&& replies.len() >= 1
        &&& is_f16(replies[0], self.lens.len() * self.chunk * self.n_vocab)
        &&& if self.resident {
            replies.len() == 1
        } else {
            replies.len() == 1 + state_count(self.data) && like_state(replies, 1, self.data)
        }
    }

    /// The logits of the real tokens.
    pub open spec fn logits(self, replies: Seq<DataSpec>) -> Seq<u16> {
        strided_logits(
            replies[0]->F16_0,
            self.lens,
            self.chunk as int,
            self.n_vocab as int,
        )
    }

    /// The state after the pass.
    pub open spec fn state(self, replies: Seq<DataSpec>) -> StateData {
        if self.resident {
            self.data
        } else {
            state_from(replies, 1, self.data)
        }
    }
}

/// What a pass over one chunk will give.
pub open spec fn completion_of(
    info: Rwkv7ModelInfo,
    sc: ScratchSpec,
    rows: Seq<Seq<u32>>,
    data: Option<StateData>,
) -> CompletionSpec {
    CompletionSpec {
        lens: lens_of(rows),
        chunk: sc.config.max_prefill_chunk,
        n_vocab: info.n_vocab,
        data: start_data(info, rows.len() as usize, data),
        resident: sc.config.resident_state,
    }
}

/// A pass that is under way.
pub struct ForwardCompletion {
    lens: Vec<usize>,
    chunk_size: usize,
    n_vocab: usize,
    state: HipState,
    resident: bool,
}

impl View for ForwardCompletion {
    type V = CompletionSpec;

    closed spec fn view(&self) -> CompletionSpec {
        CompletionSpec {
            lens: self.lens@,
            chunk: self.chunk_size,
            n_vocab: self.n_vocab,
            data: self.state@,
            resident: self.resident,
        }
    }
}

impl ForwardCompletion {
    #[verifier::type_invariant]
    spec fn counted(self) -> bool {
        &&& longest(self.lens@) <= self.chunk_size
        &&& self.lens@.len() * self.chunk_size <= usize::MAX
        &&& self.lens@.len() * self.chunk_size * self.n_vocab <= usize::MAX
    }

    /// The logits of the real tokens, in half precision, and the new state. None where the
    /// replies are not what the pass asked for.
    pub fn wait(self, replies: Vec<HostData>) -> (r: Option<(Vec<u16>, HipState)>)
        ensures
            r is Some == self@.answered_by(data_list(replies@)),
            r matches Some((logits, state)) ==> {
                &&& logits@ == self@.logits(data_list(replies@))
                &&& state@ == self@.state(data_list(replies@))
            },
    {
        proof {
            use_type_invariant(&self);
            lemma_longest(self.lens@);
        }
        if replies.len() < 1 {
            return None;
        }
        assert(data_list(replies@)[0] == replies@[0]@);
        let asked: usize = self.lens.len() * self.chunk_size * self.n_vocab;
        let staging = match as_f16(&replies[0], asked) {
            Some(v) => v,
            None => {
                return None;
            },
        };
        let state = if self.resident {
            if replies.len() != 1 {
                return None;
            }
            self.state.duplicate()
        } else {
            if !self.state.count_is(replies.len() - 1) {
                return None;
            }
            match read_state_like(&self.state, &replies, 1) {
                Some(s) => s,
                None => {
                    return None;
                },
            }
        };
        let logits = strided_logits_of(
            staging.as_slice(),
            self.lens.as_slice(),
            self.chunk_size,
            self.n_vocab,
        );
        Some((logits, state))
    }
}

/// Checks a batch for a pass over one chunk.
fn check_async(
    config: &Option<HipRuntimeConfig>,
    lens: &[usize],
    state: &Option<HipState>,
) -> (r: Result<(), HipErrorKind>)
    ensures
        match r {
            Ok(_) => async_error(*config, lens@, data_of(*state)) is None,
            Err(e) => async_error(*config, lens@, data_of(*state)) == Some(e@),
        },
{
    check_forward_batch(config, lens)?;
    let c: usize = match config {
        Some(c) => c.max_prefill_chunk,
        None => 0,
    };
    let max_len: usize = longest_of(lens);
    if max_len > c {
        return Err(
            HipErrorKind::host(
                text("forward_async() requires sequence length <= chunk_size (").num(max_len).lit(
                    " vs ",
                ).num(c).lit("). Use forward() for longer sequences."),
            ),
        );
    }
    check_state(state, lens.len())
}

impl Rwkv7Hip {
    /// Starts a forward pass over one chunk, from a state on the host or from zero. Its commands
    /// are recorded; `ForwardCompletion::wait` reads its results.
    pub fn forward_async(
        &mut self,
        x: &[&[u32]],
        state: Option<HipState>,
        stream: &mut Stream,
    ) -> (r: Result<ForwardCompletion, HipErrorKind>)
        requires
            async_ready(
                *old(self).model,
                scratch_view(old(self).scratch),
                token_rows(x@),
                data_of(state),
            ),
        ensures
            async_run(
                Run::start(old(stream)@),
                *old(self).model,
                scratch_view(old(self).scratch),
                token_rows(x@),
                data_of(state),
            ).agrees(final(stream)@, r),
            r matches Ok(c) ==> c@ == completion_of(
                old(self).model.info,
                scratch_view(old(self).scratch)->0,
                token_rows(x@),
                data_of(state),
            ),
            final(self).model == old(self).model,
            final(self).probes == old(self).probes,
            scratch_view(final(self).scratch) == (if async_error(
                config_of(scratch_view(old(self).scratch)),
                lens_of(token_rows(x@)),
                data_of(state),
            ) is None {
                let sc = scratch_view(old(self).scratch)->0;
                Some(
                    forward_scratch(
                        *old(self).model,
                        sc,
                        padded_rows(token_rows(x@), sc.config.max_prefill_chunk),
                        lens_of(token_rows(x@)),
                        LogitsPath::Half,
                    ),
                )
            } else {
                scratch_view(old(self).scratch)
            }),
    {
        let lens = row_lens(x);
        let config = self.config();
        check_async(&config, lens.as_slice(), &state)?;
        let state = match state {
            Some(s) => s,
            None => HipState::zeros(&self.model.info, x.len()),
        };
        let scratch = match &mut self.scratch {
            Some(s) => s,
            None => return Err(no_scratch()),
        };
        let chunk_size: usize = scratch.config.max_prefill_chunk;
        let resident = scratch.config.resident_state;
        let rows = pad_rows(x, chunk_size);
        let refs = row_refs(&rows);
        forward_inner(
            &self.model,
            refs.as_slice(),
            &state,
            scratch,
            lens.as_slice(),
            LogitsPath::Half,
            stream,
        )?;
        Ok(
            ForwardCompletion {
                lens,
                chunk_size,
                n_vocab: self.model.info.n_vocab,
                state,
                resident,
            },
        )
    }
}

} // verus!
