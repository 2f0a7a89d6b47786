//! What a forward pass in chunks comes to, whatever the number of chunks.
use crate::model::batch::{lens_of, total};
use crate::model::forward_task::{first_task, joined_lists, lemma_part, padded_task, TaskSpec};
use crate::model::pass::{lemma_longest, longest};
use crate::model::state::StateData;
use crate::model::Rwkv7ModelInfo;
use crate::scratch::ScratchSpec;
use crate::stream::DataSpec;
use vstd::prelude::*;

verus! {

/// The smaller of two numbers.
pub open spec fn smaller(a: int, b: int) -> int {
    if a <= b {
        a
    } else {
        b
    }
}

/// Whether logits of sequences are just those of their first `done` tokens, in number.
pub open spec fn counted(logits: Seq<Seq<u32>>, lens: Seq<usize>, done: int, n_vocab: int) -> bool {
    &&& logits.len() == lens.len()
    &&& forall|b: int|
        0 <= b < lens.len() ==> (#[trigger] logits[b]).len() == smaller(lens[b] as int, done)
            * n_vocab
}

impl TaskSpec {
    /// Whether the pass holds the logits of all chunks before the one on the device.
    pub open spec fn kept_up(self) -> bool {
        counted(self.logits, self.counts(), self.start as int, self.n_vocab as int)
    }
}

/// A forward pass starts without logits, also one over padded sequences.
pub proof fn law_forward_starts_counted(
    info: Rwkv7ModelInfo,
    sc: ScratchSpec,
    rows: Seq<Seq<u32>>,
    data: Option<StateData>,
)
    ensures
        first_task(info, sc, rows, data).kept_up(),
        data matches Some(d) ==> padded_task(info, sc, rows, d).kept_up(),
{
    reveal(first_task);
    assert(0 * info.n_vocab == 0);
}

/// Every chunk adds the logits of its tokens that count, and no others: of its real tokens, or of
/// all tokens up to the end of the longest sequence where padding counts.
pub proof fn law_chunk_adds_its_logits(task: TaskSpec, replies: Seq<DataSpec>)
    requires
        task.kept_up(),
        task.answered_by(replies),
    ensures
        counted(
            task.new_logits(replies[task.logits_at()]),
            task.counts(),
            task.start + task.chunk,
            task.n_vocab as int,
        ),
{
    reveal(TaskSpec::answered_by);
    reveal(TaskSpec::new_logits);
    let lens = task.counts();
    let reply = replies[task.logits_at()];
    let after = task.new_logits(reply);
    let v = task.n_vocab as int;
    let c = task.chunk as int;
    let w = task.width() as int;
    let start = task.start as int;
    assert forall|b: int| 0 <= b < lens.len() implies (#[trigger] after[b]).len() == smaller(
        lens[b] as int,
        start + c,
    ) * v by {
        let len = task.kept()[b] as int;
        let before = smaller(lens[b] as int, start);
        assert(task.logits[b].len() == before * v);
        lemma_part(lens.len() as int, w, v, b, len);
        assert((b * w + len) * v - b * w * v == len * v) by (nonlinear_arith);
        assert(before + len == smaller(lens[b] as int, start + c));
        assert(before * v + len * v == (before + len) * v) by (nonlinear_arith);
    }
}

/// With the next chunk on the device, the pass still holds the logits of all chunks before.
pub proof fn law_forward_stays_counted(task: TaskSpec, replies: Seq<DataSpec>)
    requires
        task.kept_up(),
        task.answered_by(replies),
        task.start + task.chunk <= usize::MAX,
    ensures
        task.next(replies).kept_up(),
{
    law_chunk_adds_its_logits(task, replies);
}

/// Lists one after the other, in number.
proof fn lemma_joined_len(logits: Seq<Seq<u32>>, lens: Seq<usize>, n_vocab: int)
    requires
        logits.len() == lens.len(),
        forall|b: int|
            0 <= b < lens.len() ==> (#[trigger] logits[b]).len() == lens[b] * n_vocab,
    ensures
        joined_lists(logits).len() == total(lens) * n_vocab,
    decreases lens.len(),
{
    if lens.len() == 0 {
        assert(0 * n_vocab == 0);
    } else {
        let front = logits.drop_last();
        let short = lens.drop_last();
        assert forall|b: int| 0 <= b < short.len() implies (#[trigger] front[b]).len() == short[b]
            * n_vocab by {
            assert(front[b] == logits[b]);
        }
        lemma_joined_len(front, short, n_vocab);
        let before = total(short) as int;
        let len = lens.last() as int;
        assert(logits[logits.len() - 1].len() == lens[lens.len() - 1] * n_vocab);
        assert(before * n_vocab + len * n_vocab == (before + len) * n_vocab) by (nonlinear_arith);
    }
}

/// A forward pass ends with `n_vocab` logits for every token that counts of every sequence,
/// however many chunks it took.
pub proof fn law_forward_ends_with_all_logits(task: TaskSpec, replies: Seq<DataSpec>)
    requires
        task.kept_up(),
        task.answered_by(replies),
        !task.more(),
    ensures
        joined_lists(task.new_logits(replies[task.logits_at()])).len() == total(task.counts())
            * task.n_vocab,
        !task.padded ==> total(task.counts()) == total(lens_of(task.rows)),
        task.padded ==> total(task.counts()) == longest(lens_of(task.rows)) * task.rows.len(),
{
    let lens = task.counts();
    let after = task.new_logits(replies[task.logits_at()]);
    law_chunk_adds_its_logits(task, replies);
    lemma_longest(lens_of(task.rows));
    assert forall|b: int| 0 <= b < lens.len() implies (#[trigger] after[b]).len() == lens[b]
        * task.n_vocab by {
        assert(lens_of(task.rows)[b] <= longest(lens_of(task.rows)));
    }
    lemma_joined_len(after, lens, task.n_vocab as int);
    if task.padded {
        lemma_total_of_equal(lens, longest(lens_of(task.rows)));
    }
}

/// The sum of equal lengths.
proof fn lemma_total_of_equal(lens: Seq<usize>, n: usize)
    requires
        forall|b: int| 0 <= b < lens.len() ==> #[trigger] lens[b] == n,
    ensures
        total(lens) == n * lens.len(),
    decreases lens.len(),
{
    if lens.len() > 0 {
        let short = lens.drop_last();
        lemma_total_of_equal(short, n);
        assert(lens[lens.len() - 1] == n);
        assert(n * short.len() + n == n * (short.len() + 1)) by (nonlinear_arith);
    } else {
        assert(n * 0 == 0);
    }
}

} // verus!
