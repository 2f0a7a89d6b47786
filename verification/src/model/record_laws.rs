//! What passes of different kinds have in common in what they record.
use crate::memory::{recorded, Memory};
use crate::model::batch::{batch_error, lens_of, padded_rows, pass_rows, strided_logits};
use crate::model::dispatch::{dispatch_run, DispatchMode};
use crate::model::forward_async::{async_error, async_run, completion_of};
use crate::model::forward_chunks::{chunk_lens, chunk_rows};
use crate::model::forward_inner::{
    forward_head, forward_inner_run, forward_open_error, forward_open_run, forward_staging,
    host_downloads, logits_sent, LogitsPath,
};
use crate::model::forward::{place_state_run, state_placed};
use crate::model::dispatch_helpers::embed_upload;
use crate::model::forward_success::lemma_even;
use crate::model::forward_task::{
    chunk_run, chunk_start, first_task, forward_error, forward_run, joined_lists, lemma_part,
    start_data, TaskSpec,
};
use crate::model::pass::{lemma_longest, longest};
use crate::model::replies::{state_count, state_from, taken_f16, taken_f32};
use crate::model::state::StateData;
use crate::model::state_laws::{half_states, law_state_brought_back_changes_nothing};
use crate::model::step::{
    load_state_run, resident_run, state_downloads, state_error, step_plan, step_run,
};
use crate::model::{Rwkv7Model, Rwkv7ModelInfo};
use crate::probe::HipHook;
use crate::run::Run;
use crate::runtime::{all_logits, law_all_logits_join};
use crate::scratch::ScratchSpec;
use crate::buffers::work_view;
use crate::shapes::PassShapes;
use crate::stream::{CommandOf, DataSpec, StreamSpec};
use vstd::prelude::*;

verus! {

/// A step that is not refused brings the state to the device, records what a pass records that
/// leaves the state there, and asks for the new state before it waits. It fails just where that
/// pass fails.
pub proof fn law_step_is_a_resident_pass(
    s: StreamSpec,
    model: Rwkv7Model,
    map: Map<HipHook, usize>,
    sc: ScratchSpec,
    rows: Seq<Seq<u32>>,
    data: Option<StateData>,
)
    requires
        batch_error("step"@, Some(sc.config), lens_of(rows)) is None,
        state_error(data, rows.len()) is None,
    ensures
        ({
            let n = model.info.n_layer as nat;
            let plan = step_plan(model.info, rows.len() as usize);
            let loaded = load_state_run(Run::start(s), sc.state, data, n);
            let resident = resident_run(
                loaded,
                "infer_resident"@,
                model,
                map,
                DispatchMode::ByLength,
                Some(sc),
                rows,
            );
            let step = step_run(Run::start(s), model, map, Some(sc), rows, data);
            &&& loaded.error is None
            &&& step.error == resident.error
            &&& step.stream.next == resident.stream.next
            &&& step.error is None ==> step.stream.log == resident.stream.log.drop_last()
                + state_downloads(sc.state, plan.shift, plan.wkv, n).push(CommandOf::Synchronize)
            &&& step.error is Some ==> step.stream == resident.stream
        }),
{
    reveal(batch_error);
    let lens = lens_of(rows);
    let n = model.info.n_layer as nat;
    let plan = step_plan(model.info, rows.len() as usize);
    assert(batch_error("infer_resident"@, Some(sc.config), lens) is None);
    let loaded = load_state_run(Run::start(s), sc.state, data, n);
    assert(loaded.error is None);
    let ran = dispatch_run(
        loaded,
        model,
        map,
        DispatchMode::ByLength,
        sc,
        pass_rows(rows),
        lens,
    );
    let downloads = state_downloads(sc.state, plan.shift, plan.wkv, n);
    if ran.error is None {
        let log = ran.stream.log;
        assert(log.push(CommandOf::Synchronize).drop_last() =~= log);
        assert((log + downloads).push(CommandOf::Synchronize) =~= log + downloads.push(
            CommandOf::Synchronize,
        ));
    }
}

/// A forward pass up to its logits in half precision.
pub open spec fn forward_before_logits(
    s: Run,
    model: Rwkv7Model,
    sc: ScratchSpec,
    rows: Seq<Seq<u32>>,
    lens: Seq<usize>,
    data: StateData,
) -> Run {
    let t = rows[0].len() as usize;
    let b = rows.len() as usize;
    let sh = PassShapes::of(model.info, sc.lora_dims, t, b);
    let opened = embed_upload(
        forward_open_run(s, model.info, sc, lens, t, b, LogitsPath::Half),
        forward_staging(model, sc, rows, lens, LogitsPath::Half),
        work_view(sc.work, sh).shift.x,
    );
    let state = if sc.config.resident_state {
        sc.state
    } else {
        state_placed(opened.stream.next, sh, data)
    };
    let placed = if sc.config.resident_state {
        opened
    } else {
        opened.step(|s: Run| place_state_run(s, sh, data))
    };
    placed.step(|s: Run| forward_head(s, model, sc, lens, t, b, state))
}

/// However the logits go to the host, a forward pass records the same up to them, and asks for
/// the same states behind them.
pub proof fn law_paths_share_the_pass(
    s: Run,
    model: Rwkv7Model,
    sc: ScratchSpec,
    rows: Seq<Seq<u32>>,
    lens: Seq<usize>,
    data: StateData,
    path: LogitsPath,
)
    requires
        s.error is None,
        forward_open_error(
            model.info,
            sc,
            lens,
            rows[0].len() as usize,
            rows.len() as usize,
            LogitsPath::Widened,
        ) is None,
    ensures
        ({
            let t = rows[0].len() as usize;
            let b = rows.len() as usize;
            let sh = PassShapes::of(model.info, sc.lora_dims, t, b);
            let before = forward_before_logits(s, model, sc, rows, lens, data);
            let sent = logits_sent(before, sc, sh, path);
            forward_inner_run(s, model, sc, rows, lens, data, path) == (
            if sc.config.resident_state {
                sent
            } else {
                sent.emit_all(host_downloads(state_placed(s.stream.next, sh, data), data))
            })
        }),
{
    let info = model.info;
    let t = rows[0].len() as usize;
    let b = rows.len() as usize;
    let sh = PassShapes::of(info, sc.lora_dims, t, b);
    assert(forward_open_error(info, sc, lens, t, b, LogitsPath::Half) is None) by {
        reveal(forward_open_error);
    }
    assert(forward_open_run(s, info, sc, lens, t, b, LogitsPath::Widened) == forward_open_run(
        s,
        info,
        sc,
        lens,
        t,
        b,
        LogitsPath::Half,
    ) && forward_open_run(s, info, sc, lens, t, b, LogitsPath::Half).stream.next == s.stream.next
        && forward_open_run(s, info, sc, lens, t, b, LogitsPath::Half).error is None) by {
        reveal(forward_open_error);
        reveal(forward_open_run);
        reveal(crate::model::pass::views_run);
    }
    reveal(forward_inner_run);
    let before = forward_before_logits(s, model, sc, rows, lens, data);
    if before.error is Some {
        assert(logits_sent(before, sc, sh, path) == before);
    }
}

/// A forward pass over one chunk whose results are fetched later, and the first chunk of a
/// forward pass over the same sequences, are passes over the same rows from the same state. They
/// differ only in the way of the logits, and in the tokens that are staged before.
pub proof fn law_async_pass_is_one_chunk(
    s: Run,
    model: Rwkv7Model,
    sc: ScratchSpec,
    rows: Seq<Seq<u32>>,
    data: Option<StateData>,
)
    requires
        s.error is None,
        sc.config.max_prefill_chunk > 0,
        forall|i: int| 0 <= i < rows.len() ==> (#[trigger] rows[i]).len() <= usize::MAX,
        async_error(Some(sc.config), lens_of(rows), data) is None,
    ensures
        ({
            let even = padded_rows(rows, sc.config.max_prefill_chunk);
            let lens = lens_of(rows);
            let start = start_data(model.info, rows.len() as usize, data);
            let task = first_task(model.info, sc, rows, data);
            &&& !task.more()
            &&& async_run(s, model, Some(sc), rows, data) == forward_inner_run(
                s,
                model,
                sc,
                even,
                lens,
                start,
                LogitsPath::Half,
            )
            &&& forward_run(s, model, Some(sc), rows, data) == forward_inner_run(
                chunk_start(s, sc, task),
                model,
                sc,
                even,
                lens,
                start,
                LogitsPath::Widened,
            )
        }),
{
    reveal(first_task);
    reveal(chunk_run);
    let lens = lens_of(rows);
    let c = sc.config.max_prefill_chunk;
    let even = padded_rows(rows, c);
    let task = first_task(model.info, sc, rows, data);
    assert(forward_error(Some(sc.config), lens, data) is None);
    lemma_longest(lens);
    assert(chunk_rows(rows, 0, c as int) =~= even) by {
        assert forall|i: int| 0 <= i < rows.len() implies chunk_rows(rows, 0, c as int)[i]
            == even[i] by {
            assert(chunk_rows(rows, 0, c as int)[i] =~= even[i]);
        }
    }
    assert(chunk_lens(lens, 0, c as int) =~= lens);
    assert forall|k: int| 0 <= k < even.len() implies (#[trigger] even[k]).len()
        == even[0].len() by {}
    assert forall|k: int| 0 <= k < lens.len() implies #[trigger] lens[k] <= c by {}
    lemma_even(even, lens, c as nat, 0);
    assert(longest(lens) <= c);
}

/// Logits picked out of widened values are the widened logits picked out of the values.
proof fn lemma_widened_logits(
    half: Seq<u16>,
    widen: spec_fn(u16) -> u32,
    lens: Seq<usize>,
    n: int,
    c: int,
    n_vocab: int,
)
    requires
        lens.len() <= n,
        half.len() == n * c * n_vocab,
        0 <= n_vocab,
        forall|b: int| 0 <= b < lens.len() ==> #[trigger] lens[b] <= c,
    ensures
        strided_logits(half.map_values(widen), lens, c, n_vocab) == strided_logits(
            half,
            lens,
            c,
            n_vocab,
        ).map_values(widen),
    decreases lens.len(),
{
    let full = half.map_values(widen);
    if lens.len() > 0 {
        let b = lens.len() - 1;
        let short = lens.drop_last();
        assert forall|k: int| 0 <= k < short.len() implies #[trigger] short[k] <= c by {
            assert(short[k] == lens[k]);
        }
        lemma_widened_logits(half, widen, short, n, c, n_vocab);
        assert(lens[b] <= c);
        lemma_part(n, c, n_vocab, b, lens[b] as int);
        let from = b * c * n_vocab;
        let to = (b * c + lens[b]) * n_vocab;
        assert(full.subrange(from, to) =~= half.subrange(from, to).map_values(widen));
    }
    assert(strided_logits(full, lens, c, n_vocab) =~= strided_logits(
        half,
        lens,
        c,
        n_vocab,
    ).map_values(widen));
}

/// Where a forward pass takes one chunk, it ends with the logits of the real tokens of its only
/// reply, one sequence after the other.
pub proof fn law_one_chunk_gives_its_logits(
    info: Rwkv7ModelInfo,
    sc: ScratchSpec,
    rows: Seq<Seq<u32>>,
    data: Option<StateData>,
    reply: DataSpec,
)
    requires
        forall|i: int| 0 <= i < rows.len() ==> (#[trigger] rows[i]).len() <= usize::MAX,
        longest(lens_of(rows)) <= sc.config.max_prefill_chunk,
    ensures
        ({
            let task = first_task(info, sc, rows, data);
            &&& !task.more()
            &&& joined_lists(task.new_logits(reply)) == strided_logits(
                reply->F32_0,
                lens_of(rows),
                sc.config.max_prefill_chunk as int,
                info.n_vocab as int,
            )
        }),
{
    reveal(first_task);
    reveal(TaskSpec::new_logits);
    let lens = lens_of(rows);
    let c = sc.config.max_prefill_chunk as int;
    let task = first_task(info, sc, rows, data);
    lemma_longest(lens);
    assert(chunk_lens(lens, 0, c) =~= lens);
    let all = all_logits(reply->F32_0, lens, c, info.n_vocab as int);
    assert forall|b: int| 0 <= b < rows.len() implies #[trigger] task.new_logits(reply)[b]
        == all[b] by {
        assert(task.new_logits(reply)[b] =~= all[b]);
    }
    assert(task.new_logits(reply) =~= all);
    law_all_logits_join(reply->F32_0, lens, c, info.n_vocab as int);
}

/// A pass whose results are fetched later gives what a forward pass gives over the same
/// sequences: where the replies agree, the logits after widening, so do the results.
pub proof fn law_async_pass_gives_what_forward_gives(
    info: Rwkv7ModelInfo,
    sc: ScratchSpec,
    rows: Seq<Seq<u32>>,
    data: Option<StateData>,
    replies: Seq<DataSpec>,
    late: Seq<DataSpec>,
    widen: spec_fn(u16) -> u32,
)
    requires
        forall|i: int| 0 <= i < rows.len() ==> (#[trigger] rows[i]).len() <= usize::MAX,
        async_error(Some(sc.config), lens_of(rows), data) is None,
        ({
            let task = first_task(info, sc, rows, data);
            let done = completion_of(info, sc, rows, data);
            &&& task.answered_by(replies)
            &&& done.answered_by(late)
            &&& replies[task.logits_at()]->F32_0 == late[0]->F16_0.map_values(widen)
            &&& !done.resident ==> replies.skip(task.logits_at() + 1) == late.skip(1)
        }),
    ensures
        ({
            let task = first_task(info, sc, rows, data);
            let done = completion_of(info, sc, rows, data);
            &&& !task.more()
            &&& joined_lists(task.new_logits(replies[task.logits_at()])) == done.logits(
                late,
            ).map_values(widen)
            &&& task.new_data(replies) == done.state(late)
        }),
{
    let lens = lens_of(rows);
    let c = sc.config.max_prefill_chunk as int;
    let task = first_task(info, sc, rows, data);
    let done = completion_of(info, sc, rows, data);
    let at = task.logits_at();
    law_one_chunk_gives_its_logits(info, sc, rows, data, replies[at]);
    lemma_longest(lens);
    assert forall|b: int| 0 <= b < lens.len() implies #[trigger] lens[b] <= c by {}
    lemma_widened_logits(late[0]->F16_0, widen, lens, lens.len() as int, c, info.n_vocab as int);
    reveal(first_task);
    reveal(TaskSpec::new_data);
    reveal(TaskSpec::answered_by);
    if !done.resident {
        let start = done.data;
        assert(task.data == start);
        assert forall|i: int| 0 <= i < state_count(start) implies #[trigger] replies[at + 1 + i]
            == late[1 + i] by {
            assert(replies.skip(at + 1)[i] == late.skip(1)[i]);
        }
        let a = start.att_shift_states.len() as int;
        let f = start.ffn_states.len() as int;
        assert forall|i: int| 0 <= i < f implies #[trigger] replies[at + 1 + a + i] == late[1 + a
            + i] by {
            assert(replies[at + 1 + (a + i)] == late[1 + (a + i)]);
        }
        assert forall|i: int| 0 <= i < start.att_states.len() implies #[trigger] replies[at + 1 + a
            + f + i] == late[1 + a + f + i] by {
            assert(replies[at + 1 + (a + f + i)] == late[1 + (a + f + i)]);
        }
        assert(state_from(replies, at + 1, start) =~= state_from(late, 1, start)) by {
            assert(taken_f16(replies, at + 1, a as nat) =~= taken_f16(late, 1, a as nat));
            assert(taken_f16(replies, at + 1 + a, f as nat) =~= taken_f16(late, 1 + a, f as nat));
            assert(taken_f32(replies, at + 1 + a + f, start.att_states.len()) =~= taken_f32(
                late,
                1 + a + f,
                start.att_states.len(),
            ));
        }
    }
}

/// Keeping the state on the device changes no result. A step from the state that the step before
/// gave back first brings that state to the device, which leaves the memory as it was, and then
/// records just what a pass records that finds the state there.
pub proof fn law_kept_state_changes_no_result(
    s: StreamSpec,
    m: Memory,
    model: Rwkv7Model,
    map: Map<HipHook, usize>,
    sc: ScratchSpec,
    rows: Seq<Seq<u32>>,
    logits: DataSpec,
)
    requires
        sc.made_for(model.info),
        half_states(m, sc.state, model.info.n_layer as int),
        batch_error("step"@, Some(sc.config), lens_of(rows)) is None,
        0 < rows.len() <= sc.config.batch_size,
    ensures
        ({
            let n = model.info.n_layer as nat;
            let plan = step_plan(model.info, rows.len() as usize);
            let downloads = state_downloads(sc.state, plan.shift, plan.wkv, n);
            let data = plan.spec_read(seq![logits] + m.replies(downloads));
            let loaded = load_state_run(Run::start(s), sc.state, Some(data), n);
            let resident = resident_run(
                loaded,
                "infer_resident"@,
                model,
                map,
                DispatchMode::ByLength,
                Some(sc),
                rows,
            );
            let step = step_run(Run::start(s), model, map, Some(sc), rows, Some(data));
            &&& m.after_all(recorded(s, loaded.stream)) == m
            &&& step.error == resident.error
            &&& step.error is None ==> step.stream.log == resident.stream.log.drop_last()
                + downloads.push(CommandOf::Synchronize)
        }),
{
    reveal(batch_error);
    let n = model.info.n_layer as nat;
    let plan = step_plan(model.info, rows.len() as usize);
    let downloads = state_downloads(sc.state, plan.shift, plan.wkv, n);
    let data = plan.spec_read(seq![logits] + m.replies(downloads));
    law_state_brought_back_changes_nothing(
        s,
        m,
        sc,
        model.info,
        rows.len() as usize,
        logits,
    );
    law_step_is_a_resident_pass(s, model, map, sc, rows, Some(data));
}

} // verus!
