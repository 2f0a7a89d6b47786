//! The state of a forward pass with the masked attention, in tensors of its own.
use crate::buffer::MemoryType;
use crate::error::HipErrorKind;
use crate::model::dispatch_helpers::DecayForms;
use crate::model::state::{lists, HipState, StateData};
use crate::scratch::{tensor_list, StateBuffers, StateSpec};
use crate::shapes::PassShapes;
use crate::stream::{CommandOf, DataSpec, Elem, HostData, Run, Stream};
use crate::tensor::{Element, TensorHip, TensorShape, TensorSpec, F16, F32};
use vstd::prelude::*;
use vstd::slice::slice_to_vec;

verus! {

broadcast use Run::lemma_allocated;

/// Only the exponential of the decay is prepared.
pub open spec fn masked_forms() -> DecayForms {
    DecayForms { raw: false, exponential: true }
}

/// Half precision values as data of their own.
pub open spec fn f16_data(v: Seq<Seq<u16>>) -> Seq<DataSpec> {
    Seq::new(v.len(), |i: int| DataSpec::F16(v[i]))
}

/// Single precision values as data of their own.
pub open spec fn f32_data(v: Seq<Seq<u32>>) -> Seq<DataSpec> {
    Seq::new(v.len(), |i: int| DataSpec::F32(v[i]))
}

/// Puts the first `n` of some host data into tensors of their own.
pub open spec fn place_run(
    s: Run,
    shape: TensorShape,
    elem: Elem,
    data: Seq<DataSpec>,
    n: nat,
) -> Run
    decreases n,
{
    if n == 0 {
        s
    } else {
        let before = place_run(s, shape, elem, data, (n - 1) as nat);
        before.allocated(elem, shape, MemoryType::Device, false).emit(
            CommandOf::Upload { dst: before.fresh(shape).ptr(), data: data[n - 1] },
        )
    }
}

/// The tensors that `place_run` makes, from the first free buffer number on.
pub open spec fn placed(next: usize, shape: TensorShape, n: nat) -> Seq<TensorSpec> {
    Seq::new(n, |i: int| TensorSpec::whole((next + i) as usize, shape))
}

/// A failure among the first `k` tensors stays.
proof fn lemma_place_sticky(
    s: Run,
    shape: TensorShape,
    elem: Elem,
    data: Seq<DataSpec>,
    k: nat,
    n: nat,
)
    requires
        k <= n,
    ensures
        place_run(s, shape, elem, data, k).error is Some ==> place_run(s, shape, elem, data, n)
            == place_run(s, shape, elem, data, k),
    decreases n - k,
{
    if k < n {
        lemma_place_sticky(s, shape, elem, data, k, (n - 1) as nat);
    }
}

/// Puts half precision values into tensors of their own.
fn place_f16(lists_in: &Vec<Vec<u16>>, shape: TensorShape, stream: &mut Stream) -> (r: Result<
    Vec<TensorHip<F16>>,
    HipErrorKind,
>)
    requires
        shape.fits(),
    ensures
        place_run(
            Run::start(old(stream)@),
            shape,
            Elem::F16,
            f16_data(lists(lists_in@)),
            lists_in@.len(),
        ).agrees(final(stream)@, r),
        r matches Ok(v) ==> tensor_list(v@) == placed(
            old(stream)@.next,
            shape,
            lists_in@.len(),
        ) && final(stream)@.next == old(stream)@.next + lists_in@.len(),
{
    let ghost s = Run::start(stream@);
    let ghost next = stream@.next;
    let ghost data = f16_data(lists(lists_in@));
    let n: usize = lists_in.len();
    let mut v: Vec<TensorHip<F16>> = Vec::new();
    while v.len() < n
        invariant
            v@.len() <= n == lists_in@.len(),
            shape.fits(),
            s == Run::start(old(stream)@),
            next == old(stream)@.next,
            data == f16_data(lists(lists_in@)),
            place_run(s, shape, Elem::F16, data, v@.len()) == Run::start(stream@),
            tensor_list(v@) == placed(next, shape, v@.len()),
            stream@.next == next + v@.len(),
        decreases n - v@.len(),
    {
        let i: usize = v.len();
        proof {
            lemma_place_sticky(s, shape, Elem::F16, data, (i + 1) as nat, n as nat);
        }
        let ghost before = tensor_list(v@);
        let tensor: TensorHip<F16> = TensorHip::new(shape, stream)?;
        let values = slice_to_vec(lists_in[i].as_slice());
        stream.push(CommandOf::Upload { dst: tensor.as_ptr(), data: HostData::F16(values) });
        v.push(tensor);
        assert(tensor_list(v@) =~= before.push(tensor@));
        assert(before.push(tensor@) =~= placed(next, shape, v@.len()));
    }
    Ok(v)
}

/// Puts single precision values into tensors of their own.
fn place_f32(lists_in: &Vec<Vec<u32>>, shape: TensorShape, stream: &mut Stream) -> (r: Result<
    Vec<TensorHip<F32>>,
    HipErrorKind,
>)
    requires
        shape.fits(),
    ensures
        place_run(
            Run::start(old(stream)@),
            shape,
            Elem::F32,
            f32_data(lists(lists_in@)),
            lists_in@.len(),
        ).agrees(final(stream)@, r),
        r matches Ok(v) ==> tensor_list(v@) == placed(
            old(stream)@.next,
            shape,
            lists_in@.len(),
        ) && final(stream)@.next == old(stream)@.next + lists_in@.len(),
{
    let ghost s = Run::start(stream@);
    let ghost next = stream@.next;
    let ghost data = f32_data(lists(lists_in@));
    let n: usize = lists_in.len();
    let mut v: Vec<TensorHip<F32>> = Vec::new();
    while v.len() < n
        invariant
            v@.len() <= n == lists_in@.len(),
            shape.fits(),
            s == Run::start(old(stream)@),
            next == old(stream)@.next,
            data == f32_data(lists(lists_in@)),
            place_run(s, shape, Elem::F32, data, v@.len()) == Run::start(stream@),
            tensor_list(v@) == placed(next, shape, v@.len()),
            stream@.next == next + v@.len(),
        decreases n - v@.len(),
    {
        let i: usize = v.len();
        proof {
            lemma_place_sticky(s, shape, Elem::F32, data, (i + 1) as nat, n as nat);
        }
        let ghost before = tensor_list(v@);
        let tensor: TensorHip<F32> = TensorHip::new(shape, stream)?;
        let values = slice_to_vec(lists_in[i].as_slice());
        stream.push(CommandOf::Upload { dst: tensor.as_ptr(), data: HostData::F32(values) });
        v.push(tensor);
        assert(tensor_list(v@) =~= before.push(tensor@));
        assert(before.push(tensor@) =~= placed(next, shape, v@.len()));
    }
    Ok(v)
}

/// Puts a state into tensors of its own.
pub open spec fn place_state_run(s: Run, sh: PassShapes, data: StateData) -> Run {
    let a = f16_data(data.att_shift_states);
    let f = f16_data(data.ffn_states);
    let w = f32_data(data.att_states);
    s.step(|s: Run| place_run(s, sh.state, Elem::F16, a, a.len())).step(
        |s: Run| place_run(s, sh.state, Elem::F16, f, f.len()),
    ).step(|s: Run| place_run(s, sh.wkv_state, Elem::F32, w, w.len()))
}

/// The tensors that `place_state_run` makes.
pub open spec fn state_placed(next: usize, sh: PassShapes, data: StateData) -> StateSpec {
    let a = data.att_shift_states.len();
    let f = data.ffn_states.len();
    StateSpec {
        att_shift: placed(next, sh.state, a),
        ffn: placed((next + a) as usize, sh.state, f),
        wkv: placed((next + a + f) as usize, sh.wkv_state, data.att_states.len()),
    }
}

impl StateBuffers {
    /// Puts a state into tensors of its own.
    pub fn place(state: &HipState, sh: &PassShapes, stream: &mut Stream) -> (r: Result<
        StateBuffers,
        HipErrorKind,
    >)
        requires
            sh.fits(),
        ensures
            place_state_run(Run::start(old(stream)@), *sh, state@).agrees(final(stream)@, r),
            r matches Ok(b) ==> b@ == state_placed(old(stream)@.next, *sh, state@),
    {
        let att_shift = place_f16(&state.att_shift_states, sh.state, stream)?;
        let ffn = place_f16(&state.ffn_states, sh.state, stream)?;
        let wkv = place_f32(&state.att_states, sh.wkv_state, stream)?;
        Ok(StateBuffers { att_shift, ffn, wkv })
    }
}

} // verus!
