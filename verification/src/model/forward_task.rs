//! A forward pass in chunks as a sequence of exchanges with the device: the commands of one
//! chunk are recorded, its results come back, and the next chunk goes on from there.
use crate::error::{host_error, ErrorSpec, HipErrorKind};
use crate::model::batch::{
    append_range, lens_of, no_scratch, no_scratch_error, row_lens, row_refs, vec_rows,
};
use crate::model::dispatch_helpers::token_rows;
use crate::model::forward_chunks::{
    check_chunk, chunk_error, chunk_lens, chunk_lens_of, chunk_of_rows, chunk_rows, stage_tokens,
    stage_tokens_run, staged_tokens,
};
use crate::model::forward_inner::{
    forward_inner, forward_inner_run, forward_ready, forward_scratch, LogitsPath,
};
use crate::model::pass::{longest, longest_of};
use crate::model::replies::{
    as_f32, data_list, is_f32, like_state, read_state_like, state_count, state_from,
};
use crate::model::state::{lists, state_fits, zero_state, HipState, StateData};
use crate::model::step::{check_batch_size, check_state, config_of, data_of, scratch_view, state_error};
use crate::model::{Rwkv7Hip, Rwkv7Model, Rwkv7ModelInfo};
use crate::scratch::{HipRuntimeConfig, HipScratch, ScratchSpec};
use crate::stream::{DataSpec, HostData, Run, Stream, StreamSpec};
use crate::text::{decimal, text};
use vstd::prelude::*;
use vstd::slice::slice_to_vec;

verus! {

/// Why a batch is refused, where it is.
pub open spec fn forward_error(
    config: Option<HipRuntimeConfig>,
    lens: Seq<usize>,
    data: Option<StateData>,
) -> Option<ErrorSpec> {
    if lens.len() == 0 {
        Some(host_error("Empty batch"@))
    } else if config is None {
        Some(no_scratch_error())
    } else if lens.len() > config->0.batch_size {
        Some(
            host_error(
                "Batch size "@ + decimal(lens.len()) + " exceeds configured max "@ + decimal(
                    config->0.batch_size as nat,
                ),
            ),
        )
    } else if longest(lens) == 0 {
        Some(host_error("All sequences are empty"@))
    } else {
        state_error(data, lens.len())
    }
}

/// The state that a pass starts from: the given one, or that before any token.
pub open spec fn start_data(
    info: Rwkv7ModelInfo,
    batch_size: usize,
    data: Option<StateData>,
) -> StateData {
    match data {
        Some(d) => d,
        None => zero_state(info, batch_size),
    }
}

/// A forward pass in chunks, with one chunk on the device.
#[verifier::ext_equal]
pub struct TaskSpec {
    /// The sequences.
    pub rows: Seq<Seq<u32>>,
    /// Tokens of a chunk.
    pub chunk: usize,
    /// Where the chunk on the device starts.
    pub start: usize,
    /// The state that the chunk started from.
    pub data: StateData,
    /// The logits of the chunks before, for each sequence.
    pub logits: Seq<Seq<u32>>,
    pub n_vocab: usize,
    /// Tokens that were staged on the device; none where the tokens went directly.
    pub staged: Option<usize>,
    /// Whether the state stays on the device.
    pub resident: bool,
    /// Whether every sequence counts as long as the longest: no chunk reaches beyond it, and the
    /// logits of padding are kept.
    pub padded: bool,
}

impl TaskSpec {
    /// Tokens of each sequence in the chunk on the device, padding counted.
    pub open spec fn width(self) -> usize {
        let end = longest(lens_of(self.rows));
        if self.padded && self.start < end && end - self.start < self.chunk {
            (end - self.start) as usize
        } else {
            self.chunk
        }
    }

    /// Tokens of each sequence whose logits are kept.
    pub open spec fn counts(self) -> Seq<usize> {
        let lens = lens_of(self.rows);
        if self.padded {
            Seq::new(lens.len(), |b: int| longest(lens))
        } else {
            lens
        }
    }

    /// Real tokens of each sequence in the chunk on the device.
    pub open spec fn lens(self) -> Seq<usize> {
        chunk_lens(lens_of(self.rows), self.start as int, self.width() as int)
    }

    /// Tokens of each sequence in the chunk on the device whose logits are kept.
    pub open spec fn kept(self) -> Seq<usize> {
        chunk_lens(self.counts(), self.start as int, self.width() as int)
    }

    /// The chunk on the device.
    pub open spec fn chunk_rows(self) -> Seq<Seq<u32>> {
        chunk_rows(self.rows, self.start as int, self.width() as int)
    }

    /// Place of the logits among the replies.
    pub open spec fn logits_at(self) -> int {
        if self.staged is Some {
            1
        } else {
            0
        }
    }

    /// Number of states that come back.
    pub open spec fn states(self) -> nat {
        if self.resident {
            0
        } else {
            state_count(self.data)
        }
    }

    /// Whether the replies are what the chunk asked for: the staged tokens as they were
    /// written, all logits, and the states.
    #[verifier::opaque]
    pub open spec fn answered_by(self, replies: Seq<DataSpec>) -> bool {
        let at = self.logits_at();
        &&& replies.len() == at + 1 + self.states()
        &&& self.staged matches Some(size) ==> replies[0] == DataSpec::U32(
            staged_tokens(self.rows, self.start as int, self.width() as int, size as nat),
        )
        &&& is_f32(replies[at], self.rows.len() * self.width() * self.n_vocab)
        &&& !self.resident ==> like_state(replies, at + 1, self.data)
    }

    /// The logits that are kept of one sequence in the chunk.
    pub open spec fn part(self, reply: DataSpec, b: int) -> Seq<u32> {
        reply->F32_0.subrange(
            b * self.width() * self.n_vocab,
            (b * self.width() + self.kept()[b]) * self.n_vocab,
        )
    }

    /// The state after the chunk.
    #[verifier::opaque]
    pub open spec fn new_data(self, replies: Seq<DataSpec>) -> StateData {
        if self.resident {
            self.data
        } else {
            state_from(replies, self.logits_at() + 1, self.data)
        }
    }

    /// The logits of each sequence after the chunk.
    #[verifier::opaque]
    pub open spec fn new_logits(self, reply: DataSpec) -> Seq<Seq<u32>> {
        Seq::new(self.rows.len(), |b: int| self.logits[b] + self.part(reply, b))
    }

    /// Whether another chunk follows.
    pub open spec fn more(self) -> bool {
        self.start + self.chunk < longest(lens_of(self.rows))
    }

    /// The pass with the next chunk on the device.
    pub open spec fn next(self, replies: Seq<DataSpec>) -> TaskSpec {
        TaskSpec {
            start: (self.start + self.chunk) as usize,
            data: self.new_data(replies),
            logits: self.new_logits(replies[self.logits_at()]),
            ..self
        }
    }
}

/// The lists of one sequence after the other.
pub open spec fn joined_lists<T>(v: Seq<Seq<T>>) -> Seq<T>
    decreases v.len(),
{
    if v.len() == 0 {
        Seq::empty()
    } else {
        joined_lists(v.drop_last()) + v.last()
    }
}

/// Stages the tokens of a chunk, unless they go directly.
pub open spec fn chunk_start(s: Run, sc: ScratchSpec, t: TaskSpec) -> Run {
    if t.staged is Some {
        stage_tokens_run(s, sc.token_staging, t.rows, t.start as int, t.width() as int)
    } else {
        s
    }
}

/// One chunk: its tokens are staged, unless they go directly, and the pass runs over it.
#[verifier::opaque]
pub open spec fn chunk_run(s: Run, model: Rwkv7Model, sc: ScratchSpec, t: TaskSpec) -> Run {
    chunk_start(s, sc, t).check(chunk_error(t.chunk_rows(), t.lens(), sc.config)).step(
        |s: Run|
            forward_inner_run(
                s,
                model,
                sc,
                t.chunk_rows(),
                t.lens(),
                t.data,
                LogitsPath::Widened,
            ),
    )
}

/// Working memory after a chunk.
#[verifier::opaque]
pub open spec fn chunk_scratch(model: Rwkv7Model, sc: ScratchSpec, t: TaskSpec) -> ScratchSpec {
    if chunk_error(t.chunk_rows(), t.lens(), sc.config) is None {
        forward_scratch(model, sc, t.chunk_rows(), t.lens(), LogitsPath::Widened)
    } else {
        sc
    }
}

/// What a chunk asks of the machine, the model and the working memory.
#[verifier::opaque]
pub open spec fn chunk_ready(model: Rwkv7Model, sc: ScratchSpec, t: TaskSpec) -> bool {
    &&& t.start + t.width() <= usize::MAX
    &&& sc.token_staging.view.offset + t.rows.len() * t.width() <= usize::MAX
    &&& chunk_error(t.chunk_rows(), t.lens(), sc.config) is None ==> forward_ready(
        model,
        sc,
        t.chunk_rows(),
        t.lens(),
        t.data,
        LogitsPath::Widened,
    )
}

/// The pass with its first chunk.
#[verifier::opaque]
pub open spec fn first_task(
    info: Rwkv7ModelInfo,
    sc: ScratchSpec,
    rows: Seq<Seq<u32>>,
    data: Option<StateData>,
) -> TaskSpec {
    let lens = lens_of(rows);
    let c = sc.config.max_prefill_chunk;
    TaskSpec {
        rows,
        chunk: c,
        start: 0,
        data: start_data(info, rows.len() as usize, data),
        logits: Seq::new(rows.len(), |b: int| Seq::empty()),
        n_vocab: info.n_vocab,
        staged: if direct(lens, c) {
            None
        } else {
            Some(sc.token_staging.len() as usize)
        },
        resident: sc.config.resident_state,
        padded: false,
    }
}

/// The pass over sequences padded to the longest, with its first chunk. Its tokens go directly.
pub open spec fn padded_task(
    info: Rwkv7ModelInfo,
    sc: ScratchSpec,
    rows: Seq<Seq<u32>>,
    data: StateData,
) -> TaskSpec {
    TaskSpec { staged: None, padded: true, ..first_task(info, sc, rows, Some(data)) }
}

/// Whether the tokens go to the pass directly: chunks of one token, and one token of each
/// sequence.
pub open spec fn direct(lens: Seq<usize>, c: usize) -> bool {
    c == 1 && forall|b: int| 0 <= b < lens.len() ==> #[trigger] lens[b] == 1
}

/// Starts a forward pass: checks the batch and runs the first chunk.
pub open spec fn forward_run(
    s: Run,
    model: Rwkv7Model,
    scratch: Option<ScratchSpec>,
    rows: Seq<Seq<u32>>,
    data: Option<StateData>,
) -> Run {
    s.check(forward_error(config_of(scratch), lens_of(rows), data)).step(
        |s: Run| chunk_run(s, model, scratch->0, first_task(model.info, scratch->0, rows, data)),
    )
}

/// Starts a forward pass over sequences padded to the longest.
pub open spec fn padded_run(
    s: Run,
    model: Rwkv7Model,
    scratch: Option<ScratchSpec>,
    rows: Seq<Seq<u32>>,
    data: StateData,
) -> Run {
    s.check(forward_error(config_of(scratch), lens_of(rows), Some(data))).step(
        |s: Run| chunk_run(s, model, scratch->0, padded_task(model.info, scratch->0, rows, data)),
    )
}

/// Working memory after a forward pass over sequences padded to the longest was started.
pub open spec fn padded_scratch(
    model: Rwkv7Model,
    scratch: Option<ScratchSpec>,
    rows: Seq<Seq<u32>>,
    data: StateData,
) -> Option<ScratchSpec> {
    if forward_error(config_of(scratch), lens_of(rows), Some(data)) is None {
        let sc = scratch->0;
        Some(chunk_scratch(model, sc, padded_task(model.info, sc, rows, data)))
    } else {
        scratch
    }
}

/// What a forward pass over sequences padded to the longest asks for, where it is not refused.
pub open spec fn padded_fits(
    model: Rwkv7Model,
    scratch: Option<ScratchSpec>,
    rows: Seq<Seq<u32>>,
    data: StateData,
) -> bool {
    forward_error(config_of(scratch), lens_of(rows), Some(data)) is None ==> {
        let sc = scratch->0;
        let c = sc.config.max_prefill_chunk;
        &&& c > 0
        &&& longest(lens_of(rows)) + c <= usize::MAX
        &&& rows.len() * c <= usize::MAX
        &&& rows.len() * c * model.info.n_vocab <= usize::MAX
        &&& chunk_ready(model, sc, padded_task(model.info, sc, rows, data))
    }
}

/// What a forward pass asks for, where it is not refused.
pub open spec fn forward_fits(
    model: Rwkv7Model,
    scratch: Option<ScratchSpec>,
    rows: Seq<Seq<u32>>,
    data: Option<StateData>,
) -> bool {
    forward_error(config_of(scratch), lens_of(rows), data) is None ==> {
        let sc = scratch->0;
        let c = sc.config.max_prefill_chunk;
        &&& c > 0
        &&& longest(lens_of(rows)) + c <= usize::MAX
        &&& rows.len() * c <= usize::MAX
        &&& rows.len() * c * model.info.n_vocab <= usize::MAX
        &&& state_fits(model.info, rows.len() as int)
        &&& chunk_ready(model, sc, first_task(model.info, sc, rows, data))
    }
}

/// A forward pass in chunks, with one chunk on the device.
pub struct ForwardTask {
    rows: Vec<Vec<u32>>,
    lens: Vec<usize>,
    chunk: usize,
    start: usize,
    state: HipState,
    logits: Vec<Vec<u32>>,
    n_vocab: usize,
    staged: Option<usize>,
    resident: bool,
    padded: bool,
}

impl View for ForwardTask {
    type V = TaskSpec;

    closed spec fn view(&self) -> TaskSpec {
        TaskSpec {
            rows: lists(self.rows@),
            chunk: self.chunk,
            start: self.start,
            data: self.state@,
            logits: lists(self.logits@),
            n_vocab: self.n_vocab,
            staged: self.staged,
            resident: self.resident,
            padded: self.padded,
        }
    }
}

impl ForwardTask {
    #[verifier::type_invariant]
    spec fn counted(self) -> bool {
        let rows = lists(self.rows@);
        &&& self.lens@ == lens_of(rows)
        &&& self.logits@.len() == self.rows@.len()
        &&& self.chunk > 0
        &&& longest(self.lens@) + self.chunk <= usize::MAX
        &&& self.start < longest(self.lens@)
        &&& self.rows@.len() * self.chunk <= usize::MAX
        &&& self.rows@.len() * self.chunk * self.n_vocab <= usize::MAX
    }

    /// Tokens of each sequence in the chunk on the device, padding counted.
    fn width(&self) -> (w: usize)
        ensures
            w == self@.width(),
            0 < w <= self@.chunk,
    {
        proof {
            use_type_invariant(self);
        }
        let left: usize = longest_of(self.lens.as_slice()) - self.start;
        if self.padded && left < self.chunk {
            left
        } else {
            self.chunk
        }
    }
}

/// Runs one chunk.
fn run_chunk(
    model: &Rwkv7Model,
    scratch: &mut HipScratch,
    task: &ForwardTask,
    stream: &mut Stream,
) -> (r: Result<(), HipErrorKind>)
    requires
        chunk_ready(*model, old(scratch)@, task@),
    ensures
        chunk_run(Run::start(old(stream)@), *model, old(scratch)@, task@).agrees(
            final(stream)@,
            r,
        ),
        final(scratch)@ == chunk_scratch(*model, old(scratch)@, task@),
{
    reveal(chunk_run);
    reveal(chunk_scratch);
    reveal(chunk_ready);
    proof {
        use_type_invariant(task);
    }
    let width: usize = task.width();
    if task.staged.is_some() {
        stage_tokens(&scratch.token_staging, &task.rows, task.start, width, stream);
    }
    let lens = chunk_lens_of(task.lens.as_slice(), task.start, width);
    let rows = chunk_of_rows(&task.rows, task.start, width);
    let refs = row_refs(&rows);
    assert(vec_rows(rows@) =~= lists(rows@));
    check_chunk(refs.as_slice(), lens.as_slice(), &scratch.config)?;
    forward_inner(
        model,
        refs.as_slice(),
        &task.state,
        scratch,
        lens.as_slice(),
        LogitsPath::Widened,
        stream,
    )
}

/// Checks a batch for a forward pass.
pub fn check_forward(
    config: &Option<HipRuntimeConfig>,
    lens: &[usize],
    state: &Option<HipState>,
) -> (r: Result<(), HipErrorKind>)
    ensures
        match r {
            Ok(_) => forward_error(*config, lens@, data_of(*state)) is None,
            Err(e) => forward_error(*config, lens@, data_of(*state)) == Some(e@),
        },
{
    check_forward_batch(config, lens)?;
    check_state(state, lens.len())
}

/// Checks the size of a batch and its lengths.
pub fn check_forward_batch(config: &Option<HipRuntimeConfig>, lens: &[usize]) -> (r: Result<
    (),
    HipErrorKind,
>)
    ensures
        match r {
            Ok(_) => forward_error(*config, lens@, None) is None,
            Err(e) => forward_error(*config, lens@, None) == Some(e@),
        },
{
    if lens.len() == 0 {
        return Err(HipErrorKind::host(text("Empty batch")));
    }
    let config = match config {
        Some(c) => c,
        None => {
            return Err(no_scratch());
        },
    };
    if lens.len() > config.batch_size {
        return Err(
            HipErrorKind::host(
                text("Batch size ").num(lens.len()).lit(" exceeds configured max ").num(
                    config.batch_size,
                ),
            ),
        );
    }
    if longest_of(lens) == 0 {
        return Err(HipErrorKind::host(text("All sequences are empty")));
    }
    Ok(())
}

/// Copies the sequences.
pub fn copy_rows(x: &[&[u32]]) -> (v: Vec<Vec<u32>>)
    ensures
        lists(v@) == token_rows(x@),
{
    let mut v: Vec<Vec<u32>> = Vec::new();
    let mut b: usize = 0;
    while b < x.len()
        invariant
            b <= x@.len(),
            v@.len() == b,
            lists(v@) == token_rows(x@).take(b as int),
        decreases x@.len() - b,
    {
        let ghost before = lists(v@);
        let row = slice_to_vec(x[b]);
        v.push(row);
        assert(lists(v@) =~= before.push(row@));
        assert(before.push(row@) =~= token_rows(x@).take(b + 1));
        b += 1;
    }
    assert(token_rows(x@).take(b as int) =~= token_rows(x@));
    v
}

/// `n` empty lists.
fn empty_lists(n: usize) -> (v: Vec<Vec<u32>>)
    ensures
        lists(v@) == Seq::new(n as nat, |b: int| Seq::<u32>::empty()),
        v@.len() == n,
{
    let mut v: Vec<Vec<u32>> = Vec::new();
    while v.len() < n
        invariant
            v@.len() <= n,
            lists(v@) == Seq::new(v@.len(), |b: int| Seq::<u32>::empty()),
        decreases n - v@.len(),
    {
        let ghost before = lists(v@);
        let list: Vec<u32> = Vec::new();
        v.push(list);
        assert(lists(v@) =~= before.push(list@));
        assert(lists(v@) =~= Seq::new(v@.len(), |b: int| Seq::<u32>::empty()));
    }
    v
}

/// Whether every sequence is a single token.
fn all_single(lens: &[usize]) -> (b: bool)
    ensures
        b == (forall|b: int| 0 <= b < lens@.len() ==> #[trigger] lens@[b] == 1),
{
    let mut i: usize = 0;
    while i < lens.len()
        invariant
            i <= lens@.len(),
            forall|b: int| 0 <= b < i ==> #[trigger] lens@[b] == 1,
        decreases lens@.len() - i,
    {
        if lens[i] != 1 {
            return false;
        }
        i += 1;
    }
    true
}

impl ForwardTask {
    /// The pass with its first chunk.
    fn first(
        info: &Rwkv7ModelInfo,
        scratch: &HipScratch,
        x: &[&[u32]],
        lens: Vec<usize>,
        state: Option<HipState>,
    ) -> (t: ForwardTask)
        requires
            lens@ == lens_of(token_rows(x@)),
            longest(lens@) > 0,
            scratch.config.max_prefill_chunk > 0,
            longest(lens@) + scratch.config.max_prefill_chunk <= usize::MAX,
            x@.len() * scratch.config.max_prefill_chunk <= usize::MAX,
            x@.len() * scratch.config.max_prefill_chunk * info.n_vocab <= usize::MAX,
            state_fits(*info, x@.len() as int),
        ensures
            t@ == first_task(*info, scratch@, token_rows(x@), data_of(state)),
    {
        reveal(first_task);
        let chunk: usize = scratch.config.max_prefill_chunk;
        let state = match state {
            Some(s) => s,
            None => HipState::zeros(info, x.len()),
        };
        let staged: Option<usize> = if chunk == 1 && all_single(lens.as_slice()) {
            None
        } else {
            Some(scratch.token_staging.len())
        };
        let rows = copy_rows(x);
        let logits = empty_lists(x.len());
        ForwardTask {
            rows,
            lens,
            chunk,
            start: 0,
            state,
            logits,
            n_vocab: info.n_vocab,
            staged,
            resident: scratch.config.resident_state,
            padded: false,
        }
    }

    /// The pass over sequences padded to the longest, with its first chunk.
    fn first_padded(
        info: &Rwkv7ModelInfo,
        scratch: &HipScratch,
        x: &[&[u32]],
        lens: Vec<usize>,
        state: HipState,
    ) -> (t: ForwardTask)
        requires
            lens@ == lens_of(token_rows(x@)),
            longest(lens@) > 0,
            scratch.config.max_prefill_chunk > 0,
            longest(lens@) + scratch.config.max_prefill_chunk <= usize::MAX,
            x@.len() * scratch.config.max_prefill_chunk <= usize::MAX,
            x@.len() * scratch.config.max_prefill_chunk * info.n_vocab <= usize::MAX,
        ensures
            t@ == padded_task(*info, scratch@, token_rows(x@), state@),
    {
        reveal(first_task);
        let rows = copy_rows(x);
        let logits = empty_lists(x.len());
        ForwardTask {
            rows,
            lens,
            chunk: scratch.config.max_prefill_chunk,
            start: 0,
            state,
            logits,
            n_vocab: info.n_vocab,
            staged: None,
            resident: scratch.config.resident_state,
            padded: true,
        }
    }
}

impl Rwkv7Hip {
    /// Starts a forward pass over sequences of any length, from a state on the host or from
    /// zero. The commands of its first chunk are recorded; `ForwardTask::advance` goes on.
    pub fn forward(
        &mut self,
        x: &[&[u32]],
        state: Option<HipState>,
        stream: &mut Stream,
    ) -> (r: Result<ForwardTask, HipErrorKind>)
        requires
            forward_fits(
                *old(self).model,
                scratch_view(old(self).scratch),
                token_rows(x@),
                data_of(state),
            ),
        ensures
            forward_run(
                Run::start(old(stream)@),
                *old(self).model,
                scratch_view(old(self).scratch),
                token_rows(x@),
                data_of(state),
            ).agrees(final(stream)@, r),
            r matches Ok(t) ==> t@ == first_task(
                old(self).model.info,
                scratch_view(old(self).scratch)->0,
                token_rows(x@),
                data_of(state),
            ),
            final(self).model == old(self).model,
            final(self).probes == old(self).probes,
            scratch_view(final(self).scratch) == (if forward_error(
                config_of(scratch_view(old(self).scratch)),
                lens_of(token_rows(x@)),
                data_of(state),
            ) is None {
                let sc = scratch_view(old(self).scratch)->0;
                Some(
                    chunk_scratch(
                        *old(self).model,
                        sc,
                        first_task(old(self).model.info, sc, token_rows(x@), data_of(state)),
                    ),
                )
            } else {
                scratch_view(old(self).scratch)
            }),
    {
        let lens = row_lens(x);
        let config = self.config();
        check_forward(&config, lens.as_slice(), &state)?;
        let scratch = match &mut self.scratch {
            Some(s) => s,
            None => return Err(no_scratch()),
        };
        let task = ForwardTask::first(&self.model.info, scratch, x, lens, state);
        run_chunk(&self.model, scratch, &task, stream)?;
        Ok(task)
    }

    /// Starts a forward pass over sequences padded to the longest, from a state on the host. The
    /// real lengths mask the padding, but its logits are kept.
    pub fn forward_padded(&mut self, x: &[&[u32]], state: HipState, stream: &mut Stream) -> (r:
        Result<ForwardTask, HipErrorKind>)
        requires
            padded_fits(
                *old(self).model,
                scratch_view(old(self).scratch),
                token_rows(x@),
                state@,
            ),
        ensures
            padded_run(
                Run::start(old(stream)@),
                *old(self).model,
                scratch_view(old(self).scratch),
                token_rows(x@),
                state@,
            ).agrees(final(stream)@, r),
            r matches Ok(t) ==> t@ == padded_task(
                old(self).model.info,
                scratch_view(old(self).scratch)->0,
                token_rows(x@),
                state@,
            ),
            r is Ok ==> forward_error(
                config_of(scratch_view(old(self).scratch)),
                lens_of(token_rows(x@)),
                Some(state@),
            ) is None,
            final(self).model == old(self).model,
            final(self).probes == old(self).probes,
            scratch_view(final(self).scratch) == padded_scratch(
                *old(self).model,
                scratch_view(old(self).scratch),
                token_rows(x@),
                state@,
            ),
    {
        let lens = row_lens(x);
        let config = self.config();
        check_forward_batch(&config, lens.as_slice())?;
        check_batch_size(state.batch_size, lens.len())?;
        let scratch = match &mut self.scratch {
            Some(s) => s,
            None => return Err(no_scratch()),
        };
        let task = ForwardTask::first_padded(&self.model.info, scratch, x, lens, state);
        run_chunk(&self.model, scratch, &task, stream)?;
        Ok(task)
    }
}

/// Whether a reply holds the tokens of a chunk as they were staged.
fn holds_tokens(
    reply: &HostData,
    rows: &Vec<Vec<u32>>,
    start: usize,
    c: usize,
    size: usize,
) -> (same: bool)
    requires
        c > 0,
        start + c <= usize::MAX,
    ensures
        same == (reply@ == DataSpec::U32(
            staged_tokens(lists(rows@), start as int, c as int, size as nat),
        )),
{
    let ghost all = lists(rows@);
    let ghost want = staged_tokens(all, start as int, c as int, size as nat);
    let tokens = match reply {
        HostData::U32(v) => v,
        _ => {
            return false;
        },
    };
    if tokens.len() != size {
        return false;
    }
    let mut i: usize = 0;
    while i < size
        invariant
            i <= size == tokens@.len(),
            c > 0,
            start + c <= usize::MAX,
            all == lists(rows@),
            want == staged_tokens(all, start as int, c as int, size as nat),
            reply@ == DataSpec::U32(tokens@),
            forall|j: int| 0 <= j < i ==> tokens@[j] == want[j],
        decreases size - i,
    {
        let b: usize = i / c;
        let k: usize = i % c;
        let token: u32 = if b < rows.len() && start + k < rows[b].len() {
            rows[b][start + k]
        } else {
            0
        };
        assert(want[i as int] == token);
        if tokens[i] != token {
            return false;
        }
        i += 1;
    }
    assert(tokens@ =~= want);
    true
}

/// One list after the other.
fn join_lists(v: &Vec<Vec<u32>>) -> (out: Vec<u32>)
    ensures
        out@ == joined_lists(lists(v@)),
{
    let ghost all = lists(v@);
    let mut out: Vec<u32> = Vec::new();
    let mut i: usize = 0;
    while i < v.len()
        invariant
            i <= v@.len(),
            all == lists(v@),
            out@ == joined_lists(all.take(i as int)),
        decreases v@.len() - i,
    {
        let n: usize = v[i].len();
        append_range(&mut out, v[i].as_slice(), 0, n);
        proof {
            assert(all.take(i + 1).drop_last() =~= all.take(i as int));
            assert(all.take(i + 1).last() =~= v@[i as int]@.subrange(0, n as int));
        }
        i += 1;
    }
    assert(all.take(i as int) =~= all);
    out
}

/// How far a forward pass is.
pub enum Progress {
    /// All chunks are done: the logits of all tokens, sequence by sequence, and the new state.
    Done { logits: Vec<u32>, state: HipState },
    /// The next chunk is on the device.
    More(ForwardTask),
}

impl ForwardTask {
    /// The logits of each sequence after the chunk.
    fn read_logits(&self, staging: &Vec<u32>) -> (v: Vec<Vec<u32>>)
        requires
            staging@.len() == self@.rows.len() * self@.width() * self@.n_vocab,
        ensures
            lists(v@) == self@.new_logits(DataSpec::F32(staging@)),
            v@.len() == self@.rows.len(),
    {
        reveal(TaskSpec::new_logits);
        proof {
            use_type_invariant(self);
        }
        let ghost want = self@.new_logits(DataSpec::F32(staging@));
        let c: usize = self.width();
        let lens = if self.padded {
            vec![c; self.lens.len()]
        } else {
            chunk_lens_of(self.lens.as_slice(), self.start, c)
        };
        assert(lens@ =~= self@.kept());
        let n_vocab: usize = self.n_vocab;
        let n: usize = self.rows.len();
        proof {
            lemma_narrower(n as int, c as int, self.chunk as int, n_vocab as int);
        }
        let mut v: Vec<Vec<u32>> = Vec::new();
        while v.len() < n
            invariant
                v@.len() <= n == self.rows@.len() == self.logits@.len(),
                n == self@.rows.len(),
                c == self@.width(),
                n_vocab == self@.n_vocab == self.n_vocab,
                lens@ == self@.kept(),
                lens@.len() == n,
                forall|b: int| 0 <= b < n ==> #[trigger] lens@[b] <= c,
                n * c <= usize::MAX,
                staging@.len() == n * c * n_vocab <= usize::MAX,
                self@.logits == lists(self.logits@),
                want == self@.new_logits(DataSpec::F32(staging@)),
                lists(v@) == want.take(v@.len() as int),
            decreases n - v@.len(),
        {
            let b: usize = v.len();
            let len: usize = lens[b];
            proof {
                reveal(TaskSpec::new_logits);
                lemma_part(n as int, c as int, n_vocab as int, b as int, len as int);
            }
            let from: usize = b * c * n_vocab;
            let to: usize = (b * c + len) * n_vocab;
            let ghost before = lists(v@);
            let mut list: Vec<u32> = Vec::new();
            let old_len: usize = self.logits[b].len();
            append_range(&mut list, self.logits[b].as_slice(), 0, old_len);
            append_range(&mut list, staging.as_slice(), from, to);
            proof {
                assert(self@.logits[b as int] == self.logits@[b as int]@);
                assert(list@ =~= want[b as int]);
            }
            v.push(list);
            assert(lists(v@) =~= before.push(list@));
            assert(before.push(list@) =~= want.take(v@.len() as int));
        }
        assert(want.take(n as int) =~= want);
        v
    }

    /// Goes on once the replies to the chunk on the device are there: ends the pass, or runs the
    /// next chunk. None where the replies are not what the chunk asked for.
    pub fn advance(self, hip: &mut Rwkv7Hip, replies: Vec<HostData>, stream: &mut Stream) -> (r:
        Option<Result<Progress, HipErrorKind>>)
        requires
            self@.answered_by(data_list(replies@)) && self@.more() && old(hip).scratch is Some
                ==> chunk_ready(
                *old(hip).model,
                scratch_view(old(hip).scratch)->0,
                self@.next(data_list(replies@)),
            ),
        ensures
            r is Some == self@.answered_by(data_list(replies@)),
            advance_result(
                Run::start(old(stream)@),
                *old(hip).model,
                scratch_view(old(hip).scratch),
                self@,
                data_list(replies@),
            ).agrees(final(stream)@, r),
            final(hip).model == old(hip).model,
            final(hip).probes == old(hip).probes,
            scratch_view(final(hip).scratch) == advance_scratch(
                *old(hip).model,
                scratch_view(old(hip).scratch),
                self@,
                data_list(replies@),
            ),
    {
        let (logits, state) = match self.absorb(&replies) {
            Some(read) => read,
            None => {
                return None;
            },
        };
        if !self.has_more() {
            return Some(Ok(Progress::Done { logits: join_lists(&logits), state }));
        }
        let next = self.with_next(logits, state);
        let scratch = match &mut hip.scratch {
            Some(s) => s,
            None => return Some(Err(no_scratch())),
        };
        match run_chunk(&hip.model, scratch, &next, stream) {
            Ok(_) => Some(Ok(Progress::More(next))),
            Err(e) => Some(Err(e)),
        }
    }

    /// Whether another chunk follows.
    pub fn has_more(&self) -> (b: bool)
        ensures
            b == self@.more(),
    {
        proof {
            use_type_invariant(self);
        }
        self.start + self.chunk < longest_of(self.lens.as_slice())
    }

    /// The pass with the next chunk.
    fn with_next(self, logits: Vec<Vec<u32>>, state: HipState) -> (t: ForwardTask)
        requires
            self@.more(),
            logits@.len() == self@.rows.len(),
        ensures
            t@ == (TaskSpec {
                start: (self@.start + self@.chunk) as usize,
                data: state@,
                logits: lists(logits@),
                ..self@
            }),
    {
        proof {
            use_type_invariant(&self);
        }
        ForwardTask {
            rows: self.rows,
            lens: self.lens,
            chunk: self.chunk,
            start: self.start + self.chunk,
            state,
            logits,
            n_vocab: self.n_vocab,
            staged: self.staged,
            resident: self.resident,
            padded: self.padded,
        }
    }

    /// The logits and the state after the chunk; none where the replies do not hold them.
    fn absorb(&self, replies: &Vec<HostData>) -> (r: Option<(Vec<Vec<u32>>, HipState)>)
        ensures
            r is Some == self@.answered_by(data_list(replies@)),
            r matches Some((logits, state)) ==> {
                &&& lists(logits@) == self@.new_logits(
                    data_list(replies@)[self@.logits_at()],
                )
                &&& logits@.len() == self@.rows.len()
                &&& state@ == self@.new_data(data_list(replies@))
            },
    {
        reveal(TaskSpec::answered_by);
        reveal(TaskSpec::new_data);
        proof {
            use_type_invariant(self);
        }
        let ghost list = data_list(replies@);
        let size: usize = replies.len();
        let first: usize = if self.staged.is_some() {
            2
        } else {
            1
        };
        if size < first {
            return None;
        }
        let counted = if self.resident {
            size == first
        } else {
            self.state.count_is(size - first)
        };
        if !counted {
            return None;
        }
        let width: usize = self.width();
        let at: usize = match self.staged {
            Some(size) => {
                if !holds_tokens(&replies[0], &self.rows, self.start, width, size) {
                    return None;
                }
                1
            },
            None => 0,
        };
        assert(list[at as int] == replies@[at as int]@);
        assert(list[0] == replies@[0]@);
        proof {
            lemma_narrower(
                self.rows@.len() as int,
                width as int,
                self.chunk as int,
                self.n_vocab as int,
            );
        }
        let asked: usize = self.rows.len() * width * self.n_vocab;
        let staging = match as_f32(&replies[at], asked) {
            Some(v) => v,
            None => {
                return None;
            },
        };
        let state = if self.resident {
            self.state.duplicate()
        } else {
            match read_state_like(&self.state, replies, at + 1) {
                Some(s) => s,
                None => {
                    return None;
                },
            }
        };
        let logits = self.read_logits(&staging);
        assert(list[at as int] == DataSpec::F32(staging@));
        Some((logits, state))
    }
}

/// The part of one sequence lies within the logits of a chunk.
pub proof fn lemma_part(n: int, c: int, n_vocab: int, b: int, len: int)
    requires
        0 <= b < n,
        0 <= len <= c,
        0 <= n_vocab,
    ensures
        0 <= b * c <= b * c + len <= n * c,
        0 <= b * c * n_vocab <= (b * c + len) * n_vocab <= n * c * n_vocab,
{
    assert(0 <= b * c && b * c + c <= n * c) by (nonlinear_arith)
        requires
            0 <= b < n,
            0 <= c,
    ;
    let x = b * c;
    let y = b * c + len;
    let z = n * c;
    assert(0 <= x * n_vocab <= y * n_vocab <= z * n_vocab) by (nonlinear_arith)
        requires
            0 <= x <= y <= z,
            0 <= n_vocab,
    ;
}

/// Fewer tokens of each sequence have fewer logits.
proof fn lemma_narrower(n: int, w: int, c: int, n_vocab: int)
    requires
        0 <= n,
        0 <= w <= c,
        0 <= n_vocab,
    ensures
        0 <= n * w <= n * c,
        0 <= n * w * n_vocab <= n * c * n_vocab,
{
    assert(0 <= n * w <= n * c) by (nonlinear_arith)
        requires
            0 <= n,
            0 <= w <= c,
    ;
    let x = n * w;
    let y = n * c;
    assert(0 <= x * n_vocab <= y * n_vocab) by (nonlinear_arith)
        requires
            0 <= x <= y,
            0 <= n_vocab,
    ;
}

/// What going on comes to.
pub enum AdvanceSpec {
    /// The replies are not what was asked for.
    Refused { stream: Run },
    /// The pass is done.
    Done { stream: Run, logits: Seq<u32>, data: StateData },
    /// The next chunk was run.
    More { run: Run, task: TaskSpec },
}

impl AdvanceSpec {
    /// Whether a function that leaves `stream` behind and returns `r` did this.
    pub open spec fn agrees(
        self,
        stream: StreamSpec,
        r: Option<Result<Progress, HipErrorKind>>,
    ) -> bool {
        match self {
            AdvanceSpec::Refused { stream: s } => stream == s.stream && r is None,
            AdvanceSpec::Done { stream: s, logits, data } => stream == s.stream && (r matches Some(
                Ok(Progress::Done { logits: l, state }),
            ) && l@ == logits && state@ == data),
            AdvanceSpec::More { run, task } => match r {
                Some(result) => run.agrees(stream, result) && (result matches Ok(p) ==> (p matches
                    Progress::More(t) && t@ == task)),
                None => false,
            },
        }
    }
}

/// What going on with a pass comes to.
pub open spec fn advance_result(
    s: Run,
    model: Rwkv7Model,
    scratch: Option<ScratchSpec>,
    task: TaskSpec,
    replies: Seq<DataSpec>,
) -> AdvanceSpec {
    if !task.answered_by(replies) {
        AdvanceSpec::Refused { stream: s }
    } else if !task.more() {
        AdvanceSpec::Done {
            stream: s,
            logits: joined_lists(task.new_logits(replies[task.logits_at()])),
            data: task.new_data(replies),
        }
    } else {
        let next = task.next(replies);
        AdvanceSpec::More {
            run: match scratch {
                None => s.check(Some(no_scratch_error())),
                Some(sc) => chunk_run(s, model, sc, next),
            },
            task: next,
        }
    }
}

/// Working memory after going on with a pass.
pub open spec fn advance_scratch(
    model: Rwkv7Model,
    scratch: Option<ScratchSpec>,
    task: TaskSpec,
    replies: Seq<DataSpec>,
) -> Option<ScratchSpec> {
    match scratch {
        Some(sc) => if task.answered_by(replies) && task.more() {
            Some(chunk_scratch(model, sc, task.next(replies)))
        } else {
            scratch
        },
        None => scratch,
    }
}

} // verus!
