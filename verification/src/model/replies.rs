//! What comes back from the device: the data of the downloads, in the order in which they were
//! asked for.
use crate::model::state::{lists, HipState, StateData};
use crate::stream::{DataSpec, HostData};
use vstd::prelude::*;
use vstd::slice::slice_to_vec;

verus! {

/// What a list of host data holds.
pub open spec fn data_list(v: Seq<HostData>) -> Seq<DataSpec> {
    Seq::new(v.len(), |i: int| v[i]@)
}

/// The reply at every `step`th place from `start` on.
pub open spec fn reply(replies: Seq<DataSpec>, start: int, step: int, i: int) -> DataSpec {
    replies[start + step * i]
}

/// Whether data are `len` half precision values.
pub open spec fn is_f16(data: DataSpec, len: int) -> bool {
    data is F16 && data.len() == len
}

/// Whether data are `len` single precision values.
pub open spec fn is_f32(data: DataSpec, len: int) -> bool {
    data is F32 && data.len() == len
}

/// Whether every `step`th reply from `start` on, `n` of them, is `len` half precision values.
pub open spec fn all_f16(
    replies: Seq<DataSpec>,
    start: int,
    step: int,
    n: int,
    len: int,
) -> bool {
    forall|i: int| 0 <= i < n ==> is_f16(#[trigger] reply(replies, start, step, i), len)
}

/// Whether every `step`th reply from `start` on, `n` of them, is `len` single precision values.
pub open spec fn all_f32(
    replies: Seq<DataSpec>,
    start: int,
    step: int,
    n: int,
    len: int,
) -> bool {
    forall|i: int| 0 <= i < n ==> is_f32(#[trigger] reply(replies, start, step, i), len)
}

/// The half precision values of every `step`th reply from `start` on.
pub open spec fn picked_f16(replies: Seq<DataSpec>, start: int, step: int, n: int) -> Seq<
    Seq<u16>,
> {
    Seq::new(n as nat, |i: int| reply(replies, start, step, i)->F16_0)
}

/// The single precision values of every `step`th reply from `start` on.
pub open spec fn picked_f32(replies: Seq<DataSpec>, start: int, step: int, n: int) -> Seq<
    Seq<u32>,
> {
    Seq::new(n as nat, |i: int| reply(replies, start, step, i)->F32_0)
}

/// The values of data that are `len` half precision values.
pub fn as_f16(data: &HostData, len: usize) -> (r: Option<Vec<u16>>)
    ensures
        r is Some == is_f16(data@, len as int),
        r is Some ==> r->0@ == data@->F16_0,
{
    match data {
        HostData::F16(v) => {
            if v.len() == len {
                Some(slice_to_vec(v.as_slice()))
            } else {
                None
            }
        },
        _ => None,
    }
}

/// The values of data that are `len` single precision values.
pub fn as_f32(data: &HostData, len: usize) -> (r: Option<Vec<u32>>)
    ensures
        r is Some == is_f32(data@, len as int),
        r is Some ==> r->0@ == data@->F32_0,
{
    match data {
        HostData::F32(v) => {
            if v.len() == len {
                Some(slice_to_vec(v.as_slice()))
            } else {
                None
            }
        },
        _ => None,
    }
}

/// The place of a reply lies within the list.
proof fn lemma_place(start: int, step: int, n: int, i: int, len: int)
    requires
        0 <= i < n,
        0 <= start,
        1 <= step,
        start + step * n <= len + step - 1,
    ensures
        0 <= step * i,
        start + step * i < len,
{
    assert(step * i + step <= step * n && 0 <= step * i) by (nonlinear_arith)
        requires
            0 <= i < n,
            1 <= step,
    ;
}

/// The half precision values of every `step`th reply from `start` on.
pub fn pick_f16(replies: &Vec<HostData>, start: usize, step: usize, n: usize, len: usize) -> (r:
    Option<Vec<Vec<u16>>>)
    requires
        1 <= step,
        start + step * n <= replies@.len() + step - 1,
    ensures
        r is Some == all_f16(
            data_list(replies@),
            start as int,
            step as int,
            n as int,
            len as int,
        ),
        r is Some ==> lists(r->0@) == picked_f16(
            data_list(replies@),
            start as int,
            step as int,
            n as int,
        ),
{
    let ghost list = data_list(replies@);
    let mut v: Vec<Vec<u16>> = Vec::new();
    while v.len() < n
        invariant
            v@.len() <= n,
            1 <= step,
            start + step * n <= replies@.len() + step - 1,
            list == data_list(replies@),
            all_f16(list, start as int, step as int, v@.len() as int, len as int),
            lists(v@) == picked_f16(
                list,
                start as int,
                step as int,
                v@.len() as int,
            ),
        decreases n - v@.len(),
    {
        let i: usize = v.len();
        let size: usize = replies.len();
        proof {
            lemma_place(start as int, step as int, n as int, i as int, size as int);
        }
        let data = &replies[start + step * i];
        assert(reply(list, start as int, step as int, i as int) == data@);
        match as_f16(data, len) {
            Some(values) => {
                let ghost before = lists(v@);
                v.push(values);
                assert(lists(v@) =~= before.push(values@));
                assert(before.push(values@) =~= picked_f16(
                    list,
                    start as int,
                    step as int,
                    v@.len() as int,
                ));
            },
            None => {
                return None;
            },
        }
    }
    Some(v)
}

/// The single precision values of every `step`th reply from `start` on.
pub fn pick_f32(replies: &Vec<HostData>, start: usize, step: usize, n: usize, len: usize) -> (r:
    Option<Vec<Vec<u32>>>)
    requires
        1 <= step,
        start + step * n <= replies@.len() + step - 1,
    ensures
        r is Some == all_f32(
            data_list(replies@),
            start as int,
            step as int,
            n as int,
            len as int,
        ),
        r is Some ==> lists(r->0@) == picked_f32(
            data_list(replies@),
            start as int,
            step as int,
            n as int,
        ),
{
    let ghost list = data_list(replies@);
    let mut v: Vec<Vec<u32>> = Vec::new();
    while v.len() < n
        invariant
            v@.len() <= n,
            1 <= step,
            start + step * n <= replies@.len() + step - 1,
            list == data_list(replies@),
            all_f32(list, start as int, step as int, v@.len() as int, len as int),
            lists(v@) == picked_f32(
                list,
                start as int,
                step as int,
                v@.len() as int,
            ),
        decreases n - v@.len(),
    {
        let i: usize = v.len();
        let size: usize = replies.len();
        proof {
            lemma_place(start as int, step as int, n as int, i as int, size as int);
        }
        let data = &replies[start + step * i];
        assert(reply(list, start as int, step as int, i as int) == data@);
        match as_f32(data, len) {
            Some(values) => {
                let ghost before = lists(v@);
                v.push(values);
                assert(lists(v@) =~= before.push(values@));
                assert(before.push(values@) =~= picked_f32(
                    list,
                    start as int,
                    step as int,
                    v@.len() as int,
                ));
            },
            None => {
                return None;
            },
        }
    }
    Some(v)
}

/// Whether every reply from `start` on is half precision values, as many as the host holds.
pub open spec fn like_f16(replies: Seq<DataSpec>, start: int, like: Seq<Seq<u16>>) -> bool {
    forall|i: int|
        0 <= i < like.len() ==> is_f16(replies[start + i], (#[trigger] like[i]).len() as int)
}

/// Whether every reply from `start` on is single precision values, as many as the host holds.
pub open spec fn like_f32(replies: Seq<DataSpec>, start: int, like: Seq<Seq<u32>>) -> bool {
    forall|i: int|
        0 <= i < like.len() ==> is_f32(replies[start + i], (#[trigger] like[i]).len() as int)
}

/// The half precision values of `n` replies from `start` on.
pub open spec fn taken_f16(replies: Seq<DataSpec>, start: int, n: nat) -> Seq<Seq<u16>> {
    Seq::new(n, |i: int| replies[start + i]->F16_0)
}

/// The single precision values of `n` replies from `start` on.
pub open spec fn taken_f32(replies: Seq<DataSpec>, start: int, n: nat) -> Seq<Seq<u32>> {
    Seq::new(n, |i: int| replies[start + i]->F32_0)
}

/// Number of replies that hold a state.
pub open spec fn state_count(data: StateData) -> nat {
    data.att_shift_states.len() + data.ffn_states.len() + data.att_states.len()
}

/// Whether the replies from `at` on hold a state, each part as long as what the host holds of
/// it.
pub open spec fn like_state(replies: Seq<DataSpec>, at: int, data: StateData) -> bool {
    let a = data.att_shift_states.len();
    let f = data.ffn_states.len();
    &&& like_f16(replies, at, data.att_shift_states)
    &&& like_f16(replies, at + a, data.ffn_states)
    &&& like_f32(replies, at + a + f, data.att_states)
}

/// The state that the replies from `at` on hold.
pub open spec fn state_from(replies: Seq<DataSpec>, at: int, data: StateData) -> StateData {
    let a = data.att_shift_states.len();
    let f = data.ffn_states.len();
    StateData {
        att_shift_states: taken_f16(replies, at, a),
        ffn_states: taken_f16(replies, at + a, f),
        att_states: taken_f32(replies, at + a + f, data.att_states.len()),
        ..data
    }
}

/// Half precision replies from `start` on, each as long as what the host holds.
fn read_like_f16(replies: &Vec<HostData>, start: usize, like: &Vec<Vec<u16>>) -> (r: Option<
    Vec<Vec<u16>>,
>)
    requires
        start + like@.len() <= replies@.len(),
    ensures
        r is Some == like_f16(data_list(replies@), start as int, lists(like@)),
        r is Some ==> lists(r->0@) == taken_f16(
            data_list(replies@),
            start as int,
            like@.len(),
        ),
{
    let ghost list = data_list(replies@);
    let size: usize = replies.len();
    let mut v: Vec<Vec<u16>> = Vec::new();
    while v.len() < like.len()
        invariant
            size == replies@.len(),
            v@.len() <= like@.len(),
            start + like@.len() <= replies@.len(),
            list == data_list(replies@),
            forall|i: int|
                0 <= i < v@.len() ==> is_f16(
                    list[start + i],
                    (#[trigger] lists(like@)[i]).len() as int,
                ),
            lists(v@) == taken_f16(list, start as int, v@.len()),
        decreases like@.len() - v@.len(),
    {
        let i: usize = v.len();
        let ghost before = lists(v@);
        assert(lists(like@)[i as int] == like@[i as int]@);
        assert(list[start + i] == replies@[start + i]@);
        match as_f16(&replies[start + i], like[i].len()) {
            Some(values) => {
                v.push(values);
                assert(lists(v@) =~= before.push(values@));
                assert(before.push(values@) =~= taken_f16(list, start as int, v@.len()));
            },
            None => {
                return None;
            },
        }
    }
    Some(v)
}

/// Single precision replies from `start` on, each as long as what the host holds.
fn read_like_f32(replies: &Vec<HostData>, start: usize, like: &Vec<Vec<u32>>) -> (r: Option<
    Vec<Vec<u32>>,
>)
    requires
        start + like@.len() <= replies@.len(),
    ensures
        r is Some == like_f32(data_list(replies@), start as int, lists(like@)),
        r is Some ==> lists(r->0@) == taken_f32(
            data_list(replies@),
            start as int,
            like@.len(),
        ),
{
    let ghost list = data_list(replies@);
    let size: usize = replies.len();
    let mut v: Vec<Vec<u32>> = Vec::new();
    while v.len() < like.len()
        invariant
            size == replies@.len(),
            v@.len() <= like@.len(),
            start + like@.len() <= replies@.len(),
            list == data_list(replies@),
            forall|i: int|
                0 <= i < v@.len() ==> is_f32(
                    list[start + i],
                    (#[trigger] lists(like@)[i]).len() as int,
                ),
            lists(v@) == taken_f32(list, start as int, v@.len()),
        decreases like@.len() - v@.len(),
    {
        let i: usize = v.len();
        let ghost before = lists(v@);
        assert(lists(like@)[i as int] == like@[i as int]@);
        assert(list[start + i] == replies@[start + i]@);
        match as_f32(&replies[start + i], like[i].len()) {
            Some(values) => {
                v.push(values);
                assert(lists(v@) =~= before.push(values@));
                assert(before.push(values@) =~= taken_f32(list, start as int, v@.len()));
            },
            None => {
                return None;
            },
        }
    }
    Some(v)
}

/// The state that the replies from `at` on hold; none where they do not hold one.
pub fn read_state_like(state: &HipState, replies: &Vec<HostData>, at: usize) -> (r: Option<HipState>)
    requires
        at + state_count(state@) <= replies@.len(),
    ensures
        r is Some == like_state(data_list(replies@), at as int, state@),
        r is Some ==> r->0@ == state_from(data_list(replies@), at as int, state@),
{
    let a: usize = state.att_shift_states.len();
    let f: usize = state.ffn_states.len();
    let size: usize = replies.len();
    assert(at + a + f <= size);
    let att_shift_states = match read_like_f16(replies, at, &state.att_shift_states) {
        Some(v) => v,
        None => return None,
    };
    let ffn_states = match read_like_f16(replies, at + a, &state.ffn_states) {
        Some(v) => v,
        None => return None,
    };
    let att_states = match read_like_f32(replies, at + a + f, &state.att_states) {
        Some(v) => v,
        None => return None,
    };
    let v_first: Option<Vec<u16>> = match &state.v_first {
        Some(v) => Some(slice_to_vec(v.as_slice())),
        None => None,
    };
    Some(
        HipState {
            batch_size: state.batch_size,
            att_states,
            att_shift_states,
            ffn_states,
            v_first,
            layout: state.layout,
        },
    )
}

impl HipState {
    /// Whether a state takes `n` replies.
    pub fn count_is(&self, n: usize) -> (b: bool)
        ensures
            b == (state_count(self@) == n),
    {
        let a: usize = self.att_shift_states.len();
        let f: usize = self.ffn_states.len();
        let w: usize = self.att_states.len();
        a <= n && f <= n - a && w == n - a - f
    }
}

} // verus!
