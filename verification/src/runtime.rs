//! Inference over batches whose state is kept between calls.
use crate::error::{host_error, HipErrorKind};
use crate::model::batch::{
    append_range, lens_of, pad_rows, padded_rows, row_lens, strided_logits, vec_rows,
};
use crate::model::dispatch_helpers::token_rows;
use crate::model::forward_laws::{
    law_forward_ends_with_all_logits, law_forward_starts_counted, law_forward_stays_counted,
};
use crate::model::forward_task::{
    advance_result, advance_scratch, chunk_ready, first_task, joined_lists, padded_fits, padded_run,
    padded_scratch, padded_task, AdvanceSpec, ForwardTask, Progress, TaskSpec,
};
use crate::model::pass::{longest, longest_of};
use crate::model::replies::data_list;
use crate::model::state::{lists, state_fits, zero_state, HipState, StateData};
use crate::model::step::scratch_view;
use crate::model::{Rwkv7Hip, Rwkv7Model, Rwkv7ModelInfo};
use crate::scratch::{
    scratch_at, scratch_fits, scratch_run, HipRuntimeConfig, HipScratch, ScratchSpec,
};
use crate::stream::{HostData, Run, Stream, StreamSpec};
use crate::tensor::{lemma_matrix_fits, TensorShape};
use crate::text::text;
use vstd::prelude::*;

verus! {

/// A tensor on the host.
#[derive(Debug, Clone)]
pub struct TensorCpu<T> {
    shape: TensorShape,
    data: Vec<T>,
}

impl<T> TensorCpu<T> {
    pub closed spec fn spec_shape(&self) -> TensorShape {
        self.shape
    }

    pub closed spec fn spec_data(&self) -> Seq<T> {
        self.data@
    }

    /// A tensor of the given shape; none where the shape asks for another number of elements.
    pub fn from_data(shape: TensorShape, data: Vec<T>) -> (r: Option<TensorCpu<T>>)
        ensures
            r is Some == (shape.fits() && data@.len() == shape.spec_len()),
            r matches Some(t) ==> t.spec_shape() == shape && t.spec_data() == data@,
    {
        if shape.is_sized() && data.len() == shape.len() {
            Some(TensorCpu { shape, data })
        } else {
            None
        }
    }

    pub fn shape(&self) -> (s: TensorShape)
        ensures
            s == self.spec_shape(),
    {
        self.shape
    }

    pub fn data(&self) -> (d: &[T])
        ensures
            d@ == self.spec_data(),
    {
        self.data.as_slice()
    }
}

/// Where the logits of the last real token of a sequence start. A sequence without tokens
/// counts as one with one.
pub open spec fn last_offset(b: int, len: int, max_len: int, n_vocab: int) -> int {
    (b * max_len + (if len > 0 {
        len - 1
    } else {
        0
    })) * n_vocab
}

/// The logits of the last real token of each sequence.
pub open spec fn last_logits<T>(
    data: Seq<T>,
    lens: Seq<usize>,
    max_len: int,
    n_vocab: int,
) -> Seq<Seq<T>> {
    Seq::new(
        lens.len(),
        |b: int|
            data.subrange(
                last_offset(b, lens[b] as int, max_len, n_vocab),
                last_offset(b, lens[b] as int, max_len, n_vocab) + n_vocab,
            ),
    )
}

/// The logits of the real tokens of each sequence.
pub open spec fn all_logits<T>(
    data: Seq<T>,
    lens: Seq<usize>,
    max_len: int,
    n_vocab: int,
) -> Seq<Seq<T>> {
    Seq::new(
        lens.len(),
        |b: int|
            data.subrange(
                b * max_len * n_vocab,
                (b * max_len + lens[b]) * n_vocab,
            ),
    )
}

/// Put together, the logits of each sequence are the logits of all real tokens.
pub proof fn law_all_logits_join<T>(data: Seq<T>, lens: Seq<usize>, max_len: int, n_vocab: int)
    ensures
        joined_lists(all_logits(data, lens, max_len, n_vocab)) == strided_logits(
            data,
            lens,
            max_len,
            n_vocab,
        ),
    decreases lens.len(),
{
    let all = all_logits(data, lens, max_len, n_vocab);
    if lens.len() > 0 {
        let rest = lens.drop_last();
        assert(all.drop_last() =~= all_logits(data, rest, max_len, n_vocab));
        law_all_logits_join(data, rest, max_len, n_vocab);
    }
}

/// The logits of the last real token are the last ones of those of all real tokens, and both lie
/// where the sequence lies: no logits of padding are among them.
pub proof fn law_last_of_all<T>(
    data: Seq<T>,
    lens: Seq<usize>,
    max_len: int,
    n_vocab: int,
    b: int,
)
    requires
        0 <= b < lens.len(),
        0 < lens[b] <= max_len,
        0 <= n_vocab,
        lens.len() * max_len * n_vocab <= data.len(),
    ensures
        ({
            let all = all_logits(data, lens, max_len, n_vocab)[b];
            let last = last_logits(data, lens, max_len, n_vocab)[b];
            let from = b * max_len * n_vocab;
            &&& all == data.subrange(from, from + lens[b] * n_vocab)
            &&& last == data.subrange(
                (b * max_len + lens[b] - 1) * n_vocab,
                (b * max_len + lens[b] - 1) * n_vocab + n_vocab,
            )
            &&& last == all.subrange(all.len() - n_vocab, all.len() as int)
        }),
{
    let len = lens[b] as int;
    let n = lens.len() as int;
    let x = b * max_len;
    assert(0 <= x && x + max_len <= n * max_len) by (nonlinear_arith)
        requires
            0 <= b < n,
            0 <= max_len,
            x == b * max_len,
    ;
    let z = n * max_len;
    assert(0 <= x * n_vocab && (x + len) * n_vocab <= z * n_vocab && (x + len - 1) * n_vocab
        + n_vocab == (x + len) * n_vocab && x * n_vocab <= (x + len - 1) * n_vocab)
        by (nonlinear_arith)
        requires
            0 <= x,
            0 < len,
            x + len <= z,
            0 <= n_vocab,
    ;
    assert((x + len) * n_vocab == x * n_vocab + len * n_vocab) by (nonlinear_arith);
    let all = all_logits(data, lens, max_len, n_vocab)[b];
    assert(last_logits(data, lens, max_len, n_vocab)[b] =~= all.subrange(
        all.len() - n_vocab,
        all.len() as int,
    ));
}

/// Inference over batches of a fixed number of sequences; the state is kept between calls.
pub struct HipRuntime {
    pub model: Rwkv7Hip,
    pub state: HipState,
    pub num_batch: usize,
}

/// Most tokens of a sequence in one pass of a runtime whose model was not configured.
pub const DEFAULT_CHUNK: usize = 256;

/// The configuration that a runtime gives to a model without one.
pub open spec fn default_config(num_batch: usize) -> HipRuntimeConfig {
    HipRuntimeConfig::of(DEFAULT_CHUNK, num_batch)
}

/// The working memory of a runtime: that of the model, or one for the default configuration, with
/// its buffers numbered from `next` on.
#[verifier::opaque]
pub open spec fn infer_memory(
    next: usize,
    model: Rwkv7Model,
    scratch: Option<ScratchSpec>,
    num_batch: usize,
) -> ScratchSpec {
    match scratch {
        Some(sc) => sc,
        None => scratch_at(next, model.info, model.spec_lora_dims(), default_config(num_batch)),
    }
}

/// Makes the working memory for the default configuration, where there is none.
#[verifier::opaque]
pub open spec fn memory_run(
    s: Run,
    model: Rwkv7Model,
    scratch: Option<ScratchSpec>,
    num_batch: usize,
) -> Run {
    match scratch {
        Some(_) => s,
        None => scratch_run(s, model.info, model.spec_lora_dims(), default_config(num_batch)),
    }
}

/// Starts a pass over a batch from the kept state: working memory is made where there is none,
/// and the first chunk of the padded batch runs.
pub open spec fn infer_run(
    s: Run,
    model: Rwkv7Model,
    scratch: Option<ScratchSpec>,
    num_batch: usize,
    rows: Seq<Seq<u32>>,
    data: StateData,
) -> Run {
    let sc = infer_memory(s.stream.next, model, scratch, num_batch);
    if rows.len() == 0 {
        s.check(Some(host_error("Empty batch"@)))
    } else {
        memory_run(s, model, scratch, num_batch).step(
            |s: Run| padded_run(s, model, Some(sc), rows, data),
        )
    }
}

/// Working memory after a pass over a batch was started.
pub open spec fn infer_scratch(
    s: Run,
    model: Rwkv7Model,
    scratch: Option<ScratchSpec>,
    num_batch: usize,
    rows: Seq<Seq<u32>>,
    data: StateData,
) -> Option<ScratchSpec> {
    let sc = infer_memory(s.stream.next, model, scratch, num_batch);
    if rows.len() == 0 || memory_run(s, model, scratch, num_batch).error is Some {
        scratch
    } else {
        padded_scratch(model, Some(sc), rows, data)
    }
}

/// What a pass over a batch asks for, where it is not refused: for a model without working
/// memory, that its sizes for the default configuration are machine integers.
pub open spec fn infer_ready(
    s: StreamSpec,
    model: Rwkv7Model,
    scratch: Option<ScratchSpec>,
    num_batch: usize,
    rows: Seq<Seq<u32>>,
    data: StateData,
) -> bool {
    let max_len = longest(lens_of(rows));
    &&& scratch is None && rows.len() > 0 ==> model.layers@.len() > 0 && scratch_fits(
        model.info,
        model.spec_lora_dims(),
        default_config(num_batch),
    )
    &&& max_len * rows.len() <= usize::MAX
    &&& model.info.n_vocab * (max_len * rows.len()) <= usize::MAX
    &&& memory_run(Run::start(s), model, scratch, num_batch).error is None ==> padded_fits(
        model,
        Some(infer_memory(s.next, model, scratch, num_batch)),
        rows,
        data,
    )
}

impl TaskSpec {
    /// The shape of all logits of a pass over padded sequences.
    pub open spec fn logits_shape(self) -> TensorShape {
        TensorShape::of(
            self.n_vocab,
            (longest(lens_of(self.rows)) * self.rows.len()) as usize,
            1,
            1,
        )
    }
}

/// A pass over a batch, with one chunk on the device.
pub struct PendingInfer {
    task: ForwardTask,
    max_len: usize,
    batch_size: usize,
    n_vocab: usize,
}

impl View for PendingInfer {
    type V = TaskSpec;

    closed spec fn view(&self) -> TaskSpec {
        self.task@
    }
}

/// How far a pass over a batch is.
pub enum InferProgress {
    /// All chunks are done: the logits of all tokens, padding counted, by sequence.
    Done(TensorCpu<u32>),
    /// The next chunk is on the device.
    More(PendingInfer),
}

/// Whether a function that leaves `stream` behind and returns `r` went on with a pass over a
/// batch like this.
pub open spec fn infer_agrees(
    result: AdvanceSpec,
    stream: StreamSpec,
    shape: TensorShape,
    r: Option<Result<InferProgress, HipErrorKind>>,
) -> bool {
    match result {
        AdvanceSpec::Refused { stream: s } => stream == s.stream && r is None,
        AdvanceSpec::Done { stream: s, logits, data } => stream == s.stream && (r matches Some(
            Ok(InferProgress::Done(t)),
        ) && t.spec_shape() == shape && t.spec_data() == logits && shape.fits() && logits.len()
            == shape.spec_len()),
        AdvanceSpec::More { run, task } => match r {
            Some(result) => run.agrees(stream, result) && (result matches Ok(p) ==> (p matches
                InferProgress::More(q) && q@ == task)),
            None => false,
        },
    }
}

impl PendingInfer {
    #[verifier::type_invariant]
    spec fn counted(self) -> bool {
        let task = self.task@;
        &&& task.padded
        &&& task.kept_up()
        &&& self.max_len == longest(lens_of(task.rows))
        &&& self.batch_size == task.rows.len()
        &&& self.n_vocab == task.n_vocab
        &&& self.max_len * self.batch_size <= usize::MAX
        &&& self.n_vocab * (self.max_len * self.batch_size) <= usize::MAX
    }

    /// Goes on once the replies to the chunk on the device are there: ends the pass, or runs the
    /// next chunk. The runtime keeps the new state once the pass is done, and the one it had until
    /// then. None where the replies are not what the chunk asked for.
    pub fn advance(
        self,
        runtime: &mut HipRuntime,
        replies: Vec<HostData>,
        stream: &mut Stream,
    ) -> (r: Option<Result<InferProgress, HipErrorKind>>)
        requires
            self@.answered_by(data_list(replies@)) && self@.more() && old(
                runtime,
            ).model.scratch is Some ==> chunk_ready(
                *old(runtime).model.model,
                scratch_view(old(runtime).model.scratch)->0,
                self@.next(data_list(replies@)),
            ),
        ensures
            infer_agrees(
                advance_result(
                    Run::start(old(stream)@),
                    *old(runtime).model.model,
                    scratch_view(old(runtime).model.scratch),
                    self@,
                    data_list(replies@),
                ),
                final(stream)@,
                self@.logits_shape(),
                r,
            ),
            final(runtime).num_batch == old(runtime).num_batch,
            final(runtime).model.model == old(runtime).model.model,
            final(runtime).model.probes == old(runtime).model.probes,
            scratch_view(final(runtime).model.scratch) == advance_scratch(
                *old(runtime).model.model,
                scratch_view(old(runtime).model.scratch),
                self@,
                data_list(replies@),
            ),
            final(runtime).state@ == (if self@.answered_by(data_list(replies@)) && !self@.more() {
                self@.new_data(data_list(replies@))
            } else {
                old(runtime).state@
            }),
    {
        proof {
            use_type_invariant(&self);
        }
        let max_len: usize = self.max_len;
        let batch_size: usize = self.batch_size;
        let n_vocab: usize = self.n_vocab;
        let ghost task = self.task@;
        let ghost list = data_list(replies@);
        let progress = match self.task.advance(&mut runtime.model, replies, stream) {
            Some(Ok(p)) => p,
            Some(Err(e)) => {
                return Some(Err(e));
            },
            None => {
                return None;
            },
        };
        match progress {
            Progress::Done { logits, state } => {
                let tokens: usize = max_len * batch_size;
                let shape = TensorShape::new(n_vocab, tokens, 1, 1);
                proof {
                    law_forward_ends_with_all_logits(task, list);
                    lemma_matrix_fits(n_vocab, tokens);
                    let n = n_vocab as int * tokens as int;
                    assert(n * 1 * 1 == n);
                    assert(tokens as int * n_vocab as int == n) by (nonlinear_arith)
                        requires
                            n == n_vocab as int * tokens as int,
                    ;
                }
                runtime.state = state;
                Some(Ok(InferProgress::Done(TensorCpu { shape, data: logits })))
            },
            Progress::More(task) => {
                proof {
                    law_forward_stays_counted(self.task@, list);
                }
                Some(Ok(InferProgress::More(PendingInfer { task, max_len, batch_size, n_vocab })))
            },
        }
    }
}

impl Rwkv7Hip {
    /// Makes working memory for the default configuration, where there is none.
    pub fn configure_for(&mut self, num_batch: usize, stream: &mut Stream) -> (r: Result<
        (),
        HipErrorKind,
    >)
        requires
            old(self).scratch is None ==> old(self).model.layers@.len() > 0 && scratch_fits(
                old(self).model.info,
                old(self).model.spec_lora_dims(),
                default_config(num_batch),
            ),
        ensures
            memory_run(
                Run::start(old(stream)@),
                *old(self).model,
                scratch_view(old(self).scratch),
                num_batch,
            ).agrees(final(stream)@, r),
            final(self).model == old(self).model,
            final(self).probes == old(self).probes,
            scratch_view(final(self).scratch) == (if r is Ok {
                Some(
                    infer_memory(
                        old(stream)@.next,
                        *old(self).model,
                        scratch_view(old(self).scratch),
                        num_batch,
                    ),
                )
            } else {
                scratch_view(old(self).scratch)
            }),
    {
        reveal(memory_run);
        reveal(infer_memory);
        if self.scratch.is_none() {
            let lora_dims = self.model.lora_dims();
            let config = HipRuntimeConfig::new(DEFAULT_CHUNK, num_batch);
            let scratch = HipScratch::new(&self.model.info, lora_dims, config, stream)?;
            self.scratch = Some(scratch);
        }
        Ok(())
    }
}

impl HipRuntime {
    /// A runtime whose state is that before any token.
    pub fn new(model: Rwkv7Hip, num_batch: usize) -> (r: HipRuntime)
        requires
            state_fits(model.model.info, num_batch as int),
        ensures
            r.model == model,
            r.num_batch == num_batch,
            r.state@ == zero_state(model.model.info, num_batch),
    {
        let state = HipState::zeros(&model.model.info, num_batch);
        HipRuntime { model, state, num_batch }
    }

    /// Dimensions of the model.
    pub fn info(&self) -> (i: &Rwkv7ModelInfo)
        ensures
            *i == self.model.model.info,
    {
        &self.model.model.info
    }

    pub fn num_batch(&self) -> (n: usize)
        ensures
            n == self.num_batch,
    {
        self.num_batch
    }

    /// Sets the kept state to zero.
    pub fn reset_state(&mut self)
        ensures
            final(self).model == old(self).model,
            final(self).num_batch == old(self).num_batch,
            final(self).state@ == old(self).state@.reset(),
    {
        self.state.reset();
    }

    /// The kept state.
    pub fn get_state_snapshot(&self) -> (s: HipState)
        ensures
            s@ == self.state@,
    {
        self.state.duplicate()
    }

    /// The sequences padded to the longest one, and their real lengths.
    pub fn pad_sequences(&self, sequences: &[&[u32]]) -> (r: (Vec<Vec<u32>>, Vec<usize>))
        ensures
            vec_rows(r.0@) == padded_rows(
                token_rows(sequences@),
                longest(lens_of(token_rows(sequences@))),
            ),
            r.1@ == lens_of(token_rows(sequences@)),
    {
        let lens = row_lens(sequences);
        let max_len: usize = longest_of(lens.as_slice());
        (pad_rows(sequences, max_len), lens)
    }

    /// Starts a pass of a batch of sequences through the model, from the kept state. A model
    /// without working memory gets one for the default configuration. `PendingInfer::advance` goes
    /// on; the kept state stays until the pass is done.
    pub fn infer(&mut self, sequences: &[&[u32]], stream: &mut Stream) -> (r: Result<
        PendingInfer,
        HipErrorKind,
    >)
        requires
            infer_ready(
                old(stream)@,
                *old(self).model.model,
                scratch_view(old(self).model.scratch),
                old(self).num_batch,
                token_rows(sequences@),
                old(self).state@,
            ),
        ensures
            infer_run(
                Run::start(old(stream)@),
                *old(self).model.model,
                scratch_view(old(self).model.scratch),
                old(self).num_batch,
                token_rows(sequences@),
                old(self).state@,
            ).agrees(final(stream)@, r),
            r matches Ok(p) ==> p@ == padded_task(
                old(self).model.model.info,
                infer_memory(
                    old(stream)@.next,
                    *old(self).model.model,
                    scratch_view(old(self).model.scratch),
                    old(self).num_batch,
                ),
                token_rows(sequences@),
                old(self).state@,
            ),
            final(self).num_batch == old(self).num_batch,
            final(self).model.model == old(self).model.model,
            final(self).model.probes == old(self).model.probes,
            final(self).state@ == old(self).state@,
            scratch_view(final(self).model.scratch) == infer_scratch(
                Run::start(old(stream)@),
                *old(self).model.model,
                scratch_view(old(self).model.scratch),
                old(self).num_batch,
                token_rows(sequences@),
                old(self).state@,
            ),
    {
        if sequences.len() == 0 {
            return Err(HipErrorKind::host(text("Empty batch")));
        }
        self.model.configure_for(self.num_batch, stream)?;
        let max_len: usize = longest_of(row_lens(sequences).as_slice());
        let n_vocab: usize = self.model.model.info.n_vocab;
        let state = self.state.duplicate();
        let ghost sc = scratch_view(self.model.scratch)->0;
        let task = self.model.forward_padded(sequences, state, stream)?;
        proof {
            law_forward_starts_counted(
                self.model.model.info,
                sc,
                token_rows(sequences@),
                Some(self.state@),
            );
            reveal(first_task);
        }
        Ok(PendingInfer { task, max_len, batch_size: sequences.len(), n_vocab })
    }

    /// Starts a pass of one sequence through the model, from the kept state.
    pub fn infer_one(&mut self, tokens: &[u32], stream: &mut Stream) -> (r: Result<
        PendingInfer,
        HipErrorKind,
    >)
        requires
            infer_ready(
                old(stream)@,
                *old(self).model.model,
                scratch_view(old(self).model.scratch),
                old(self).num_batch,
                seq![tokens@],
                old(self).state@,
            ),
        ensures
            infer_run(
                Run::start(old(stream)@),
                *old(self).model.model,
                scratch_view(old(self).model.scratch),
                old(self).num_batch,
                seq![tokens@],
                old(self).state@,
            ).agrees(final(stream)@, r),
            r matches Ok(p) ==> p@ == padded_task(
                old(self).model.model.info,
                infer_memory(
                    old(stream)@.next,
                    *old(self).model.model,
                    scratch_view(old(self).model.scratch),
                    old(self).num_batch,
                ),
                seq![tokens@],
                old(self).state@,
            ),
            final(self).num_batch == old(self).num_batch,
            final(self).model.model == old(self).model.model,
            final(self).model.probes == old(self).model.probes,
            final(self).state@ == old(self).state@,
            scratch_view(final(self).model.scratch) == infer_scratch(
                Run::start(old(stream)@),
                *old(self).model.model,
                scratch_view(old(self).model.scratch),
                old(self).num_batch,
                seq![tokens@],
                old(self).state@,
            ),
    {
        let batch: [&[u32]; 1] = [tokens];
        let sequences: &[&[u32]] = batch.as_slice();
        assert(token_rows(sequences@) =~= seq![tokens@]);
        self.infer(sequences, stream)
    }

    /// The logits of the last real token of each sequence.
    pub fn extract_last_logits<T: Copy>(
        &self,
        logits: &TensorCpu<T>,
        lengths: &[usize],
        max_len: usize,
    ) -> (v: Vec<Vec<T>>)
        requires
            forall|b: int|
                0 <= b < lengths@.len() ==> last_fits(
                    b,
                    #[trigger] lengths@[b] as int,
                    max_len as int,
                    self.model.model.info.n_vocab as int,
                    logits.spec_data().len() as int,
                ),
        ensures
            lists(v@) == last_logits(
                logits.spec_data(),
                lengths@,
                max_len as int,
                self.model.model.info.n_vocab as int,
            ),
    {
        let n_vocab: usize = self.model.model.info.n_vocab;
        let data = logits.data();
        let ghost want = last_logits(data@, lengths@, max_len as int, n_vocab as int);
        let mut v: Vec<Vec<T>> = Vec::new();
        while v.len() < lengths.len()
            invariant
                v@.len() <= lengths@.len(),
                data@ == logits.spec_data(),
                want == last_logits(data@, lengths@, max_len as int, n_vocab as int),
                forall|b: int|
                    0 <= b < lengths@.len() ==> last_fits(
                        b,
                        #[trigger] lengths@[b] as int,
                        max_len as int,
                        n_vocab as int,
                        data@.len() as int,
                    ),
                lists(v@) == want.take(v@.len() as int),
            decreases lengths@.len() - v@.len(),
        {
            let b: usize = v.len();
            let len: usize = lengths[b];
            let last: usize = if len > 0 {
                len - 1
            } else {
                0
            };
            let size: usize = data.len();
            proof {
                let x = b as int * max_len as int;
                assert(0 <= x) by (nonlinear_arith)
                    requires
                        x == b as int * max_len as int,
                        b >= 0,
                        max_len >= 0,
                ;
                assert(0 <= (x + last) * n_vocab as int) by (nonlinear_arith)
                    requires
                        0 <= x,
                        0 <= last,
                        n_vocab >= 0,
                ;
            }
            let offset: usize = (b * max_len + last) * n_vocab;
            let ghost before = lists(v@);
            let mut list: Vec<T> = Vec::new();
            append_range(&mut list, data, offset, offset + n_vocab);
            assert(list@ =~= want[b as int]);
            v.push(list);
            assert(lists(v@) =~= before.push(list@));
            assert(before.push(list@) =~= want.take(v@.len() as int));
        }
        assert(want.take(v@.len() as int) =~= want);
        v
    }

    /// The logits of the real tokens of each sequence.
    pub fn extract_all_logits<T: Copy>(
        &self,
        logits: &TensorCpu<T>,
        lengths: &[usize],
        max_len: usize,
    ) -> (v: Vec<Vec<T>>)
        requires
            forall|b: int|
                0 <= b < lengths@.len() ==> all_fits(
                    b,
                    #[trigger] lengths@[b] as int,
                    max_len as int,
                    self.model.model.info.n_vocab as int,
                    logits.spec_data().len() as int,
                ),
        ensures
            lists(v@) == all_logits(
                logits.spec_data(),
                lengths@,
                max_len as int,
                self.model.model.info.n_vocab as int,
            ),
    {
        let n_vocab: usize = self.model.model.info.n_vocab;
        let data = logits.data();
        let ghost want = all_logits(data@, lengths@, max_len as int, n_vocab as int);
        let mut v: Vec<Vec<T>> = Vec::new();
        while v.len() < lengths.len()
            invariant
                v@.len() <= lengths@.len(),
                data@ == logits.spec_data(),
                want == all_logits(data@, lengths@, max_len as int, n_vocab as int),
                forall|b: int|
                    0 <= b < lengths@.len() ==> all_fits(
                        b,
                        #[trigger] lengths@[b] as int,
                        max_len as int,
                        n_vocab as int,
                        data@.len() as int,
                    ),
                lists(v@) == want.take(v@.len() as int),
            decreases lengths@.len() - v@.len(),
        {
            let b: usize = v.len();
            let len: usize = lengths[b];
            let size: usize = data.len();
            proof {
                let x = b as int * max_len as int;
                assert(0 <= x) by (nonlinear_arith)
                    requires
                        x == b as int * max_len as int,
                        b >= 0,
                        max_len >= 0,
                ;
                assert(0 <= x * n_vocab as int && x * n_vocab as int <= (x + len) * n_vocab as int)
                    by (nonlinear_arith)
                    requires
                        0 <= x,
                        0 <= len,
                        n_vocab >= 0,
                ;
            }
            let from: usize = b * max_len * n_vocab;
            let to: usize = (b * max_len + len) * n_vocab;
            let ghost before = lists(v@);
            let mut list: Vec<T> = Vec::new();
            append_range(&mut list, data, from, to);
            assert(list@ =~= want[b as int]);
            v.push(list);
            assert(lists(v@) =~= before.push(list@));
            assert(before.push(list@) =~= want.take(v@.len() as int));
        }
        assert(want.take(v@.len() as int) =~= want);
        v
    }
}

/// What a pass over a batch gives has the logits of every real token: both extractions meet what
/// they ask for.
pub proof fn law_extraction_is_ready(
    lens: Seq<usize>,
    max_len: int,
    n_vocab: int,
    size: int,
    b: int,
)
    requires
        0 <= b < lens.len(),
        0 < lens[b] <= max_len,
        0 < n_vocab,
        size == n_vocab * (max_len * lens.len()),
        size <= usize::MAX,
    ensures
        last_fits(b, lens[b] as int, max_len, n_vocab, size),
        all_fits(b, lens[b] as int, max_len, n_vocab, size),
{
    let n = lens.len() as int;
    let len = lens[b] as int;
    let x = b * max_len;
    let z = max_len * n;
    assert(0 <= x && x + max_len <= z) by (nonlinear_arith)
        requires
            0 <= b < n,
            0 <= max_len,
            x == b * max_len,
            z == max_len * n,
    ;
    assert(z <= size && (x + len) * n_vocab <= size && (x + len - 1) * n_vocab + n_vocab == (x
        + len) * n_vocab) by (nonlinear_arith)
        requires
            0 <= x,
            x + len <= z,
            0 < n_vocab,
            0 <= z,
            size == n_vocab * z,
    ;
}

/// Whether the logits of the last real token of a sequence lie within the data.
pub open spec fn last_fits(b: int, len: int, max_len: int, n_vocab: int, size: int) -> bool {
    let last = if len > 0 {
        len - 1
    } else {
        0
    };
    &&& b * max_len + last <= usize::MAX
    &&& last_offset(b, len, max_len, n_vocab) + n_vocab <= size
}

/// Whether the logits of the real tokens of a sequence lie within the data.
pub open spec fn all_fits(b: int, len: int, max_len: int, n_vocab: int, size: int) -> bool {
    b * max_len + len <= usize::MAX && (b * max_len + len) * n_vocab <= size
}

} // verus!
