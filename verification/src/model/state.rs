//! Recurrent and token-shift states on the host.
use crate::error::HipErrorKind;
use crate::model::Rwkv7ModelInfo;
use vstd::prelude::*;
use vstd::slice::slice_to_vec;

verus! {

/// Order of the elements of a recurrent state.
#[derive(Debug, Clone, Copy, PartialEq, Eq, Structural)]
pub enum StateLayout {
    /// As the fused and the masked kernel keep it.
    Decode,
    /// As the chunked kernel keeps it.
    Fla,
}

/// The state of a batch of sequences, for every layer.
///
/// Half and single precision values are held as bit patterns.
#[derive(Debug, Clone)]
pub struct HipState {
    /// Number of sequences.
    pub batch_size: usize,
    /// Recurrent state: `head_size * head_size * n_head * batch_size` values per layer.
    pub att_states: Vec<Vec<u32>>,
    /// Token-shift state of the attention: `n_embd * batch_size` values per layer.
    pub att_shift_states: Vec<Vec<u16>>,
    /// Token-shift state of the feed-forward part: `n_embd * batch_size` values per layer.
    pub ffn_states: Vec<Vec<u16>>,
    /// Value residual of the first layer.
    pub v_first: Option<Vec<u16>>,
    pub layout: StateLayout,
}

/// What a state holds.
#[verifier::ext_equal]
pub struct StateData {
    pub batch_size: usize,
    pub att_states: Seq<Seq<u32>>,
    pub att_shift_states: Seq<Seq<u16>>,
    pub ffn_states: Seq<Seq<u16>>,
    pub v_first: Option<Seq<u16>>,
    pub layout: StateLayout,
}

/// What a list of vectors holds.
pub open spec fn lists<T>(v: Seq<Vec<T>>) -> Seq<Seq<T>> {
    Seq::new(v.len(), |i: int| v[i]@)
}

impl View for HipState {
    type V = StateData;

    open spec fn view(&self) -> StateData {
        StateData {
            batch_size: self.batch_size,
            att_states: lists(self.att_states@),
            att_shift_states: lists(self.att_shift_states@),
            ffn_states: lists(self.ffn_states@),
            v_first: match self.v_first {
                Some(v) => Some(v@),
                None => None,
            },
            layout: self.layout,
        }
    }
}

/// Values of a recurrent state for `b` sequences.
pub open spec fn wkv_len(info: Rwkv7ModelInfo, b: int) -> int {
    info.head_size * info.head_size * info.n_head * b
}

/// Values of a token-shift state for `b` sequences.
pub open spec fn shift_len(info: Rwkv7ModelInfo, b: int) -> int {
    info.n_embd * b
}

/// `n` lists of `len` zeros.
pub open spec fn zero_lists<T>(zero: T, n: nat, len: nat) -> Seq<Seq<T>> {
    Seq::new(n, |i: int| Seq::new(len, |j: int| zero))
}

/// The state before any token.
pub open spec fn zero_state(info: Rwkv7ModelInfo, batch_size: usize) -> StateData {
    let n = info.n_layer as nat;
    StateData {
        batch_size,
        att_states: zero_lists(0u32, n, wkv_len(info, batch_size as int) as nat),
        att_shift_states: zero_lists(0u16, n, shift_len(info, batch_size as int) as nat),
        ffn_states: zero_lists(0u16, n, shift_len(info, batch_size as int) as nat),
        v_first: None,
        layout: StateLayout::Decode,
    }
}

/// Lists of the same lengths, with nothing but zeros.
pub open spec fn zeroed<T>(zero: T, v: Seq<Seq<T>>) -> Seq<Seq<T>> {
    Seq::new(v.len(), |i: int| Seq::new(v[i].len(), |j: int| zero))
}

impl StateData {
    /// Whether there is a state for each of `n` layers.
    pub open spec fn covers(self, n: nat) -> bool {
        &&& n <= self.att_states.len()
        &&& n <= self.att_shift_states.len()
        &&& n <= self.ffn_states.len()
    }

    /// Whether the state has the sizes that a model asks for.
    pub open spec fn sized(self, info: Rwkv7ModelInfo) -> bool {
        let n = info.n_layer as nat;
        &&& self.att_states.len() == n
        &&& self.att_shift_states.len() == n
        &&& self.ffn_states.len() == n
        &&& forall|i: int|
            0 <= i < n ==> (#[trigger] self.att_states[i]).len() == wkv_len(
                info,
                self.batch_size as int,
            )
        &&& forall|i: int|
            0 <= i < n ==> (#[trigger] self.att_shift_states[i]).len() == shift_len(
                info,
                self.batch_size as int,
            )
        &&& forall|i: int|
            0 <= i < n ==> (#[trigger] self.ffn_states[i]).len() == shift_len(
                info,
                self.batch_size as int,
            )
    }

    /// The state with every value set to zero.
    pub open spec fn reset(self) -> StateData {
        StateData {
            att_states: zeroed(0u32, self.att_states),
            att_shift_states: zeroed(0u16, self.att_shift_states),
            ffn_states: zeroed(0u16, self.ffn_states),
            v_first: None,
            ..self
        }
    }
}

/// `len` copies of a value.
fn repeated<T: Copy>(value: T, len: usize) -> (v: Vec<T>)
    ensures
        v@ == Seq::new(len as nat, |j: int| value),
{
    let mut v: Vec<T> = Vec::new();
    while v.len() < len
        invariant
            v@.len() <= len,
            v@ == Seq::new(v@.len(), |j: int| value),
        decreases len - v@.len(),
    {
        v.push(value);
        assert(v@ =~= Seq::new(v@.len(), |j: int| value));
    }
    v
}

/// `n` lists of `len` copies of a value.
fn repeated_lists<T: Copy>(value: T, n: usize, len: usize) -> (v: Vec<Vec<T>>)
    ensures
        lists(v@) == zero_lists(value, n as nat, len as nat),
{
    let mut v: Vec<Vec<T>> = Vec::new();
    while v.len() < n
        invariant
            v@.len() <= n,
            lists(v@) == zero_lists(value, v@.len(), len as nat),
        decreases n - v@.len(),
    {
        let ghost before = lists(v@);
        let list = repeated(value, len);
        v.push(list);
        assert(lists(v@) =~= before.push(list@));
        assert(before.push(list@) =~= zero_lists(value, v@.len(), len as nat));
    }
    v
}

/// Lists of the same lengths, with nothing but one value.
fn repeated_like<T: Copy>(value: T, like: &Vec<Vec<T>>) -> (v: Vec<Vec<T>>)
    ensures
        lists(v@) == zeroed(value, lists(like@)),
{
    let mut v: Vec<Vec<T>> = Vec::new();
    while v.len() < like.len()
        invariant
            v@.len() <= like@.len(),
            lists(v@) == zeroed(value, lists(like@)).take(v@.len() as int),
        decreases like@.len() - v@.len(),
    {
        let ghost before = lists(v@);
        let list = repeated(value, like[v.len()].len());
        v.push(list);
        assert(lists(v@) =~= before.push(list@));
        assert(before.push(list@) =~= zeroed(value, lists(like@)).take(v@.len() as int));
    }
    assert(zeroed(value, lists(like@)).take(v@.len() as int) =~= zeroed(value, lists(like@)));
    v
}

/// The same lists in memory of their own.
fn copied_lists<T: Copy>(from: &Vec<Vec<T>>) -> (v: Vec<Vec<T>>)
    ensures
        lists(v@) == lists(from@),
{
    let mut v: Vec<Vec<T>> = Vec::new();
    while v.len() < from.len()
        invariant
            v@.len() <= from@.len(),
            lists(v@) == lists(from@).take(v@.len() as int),
        decreases from@.len() - v@.len(),
    {
        let ghost before = lists(v@);
        let list = slice_to_vec(from[v.len()].as_slice());
        v.push(list);
        assert(lists(v@) =~= before.push(list@));
        assert(before.push(list@) =~= lists(from@).take(v@.len() as int));
    }
    assert(lists(from@).take(v@.len() as int) =~= lists(from@));
    v
}

/// Whether the sizes of a state are machine integers.
pub open spec fn state_fits(info: Rwkv7ModelInfo, batch_size: int) -> bool {
    &&& info.head_size * info.head_size <= usize::MAX
    &&& info.head_size * info.head_size * info.n_head <= usize::MAX
    &&& wkv_len(info, batch_size) <= usize::MAX
    &&& shift_len(info, batch_size) <= usize::MAX
}

impl HipState {
    /// The state before any token of `batch_size` sequences.
    pub fn zeros(info: &Rwkv7ModelInfo, batch_size: usize) -> (s: HipState)
        requires
            state_fits(*info, batch_size as int),
        ensures
            s@ == zero_state(*info, batch_size),
    {
        let wkv: usize = info.head_size * info.head_size * info.n_head * batch_size;
        let shift: usize = info.n_embd * batch_size;
        HipState {
            batch_size,
            att_states: repeated_lists(0u32, info.n_layer, wkv),
            att_shift_states: repeated_lists(0u16, info.n_layer, shift),
            ffn_states: repeated_lists(0u16, info.n_layer, shift),
            v_first: None,
            layout: StateLayout::Decode,
        }
    }

    /// The state before any token of `batch_size` sequences; this never fails.
    pub fn new(info: &Rwkv7ModelInfo, batch_size: usize) -> (r: Result<HipState, HipErrorKind>)
        requires
            state_fits(*info, batch_size as int),
        ensures
            r is Ok,
            r->Ok_0@ == zero_state(*info, batch_size),
    {
        Ok(HipState::zeros(info, batch_size))
    }

    /// The same state in memory of its own.
    pub fn duplicate(&self) -> (s: HipState)
        ensures
            s@ == self@,
    {
        let v_first: Option<Vec<u16>> = match &self.v_first {
            Some(v) => Some(slice_to_vec(v.as_slice())),
            None => None,
        };
        HipState {
            batch_size: self.batch_size,
            att_states: copied_lists(&self.att_states),
            att_shift_states: copied_lists(&self.att_shift_states),
            ffn_states: copied_lists(&self.ffn_states),
            v_first,
            layout: self.layout,
        }
    }

    /// Sets every value to zero and forgets the value residual.
    pub fn reset(&mut self)
        ensures
            final(self)@ == old(self)@.reset(),
    {
        self.att_states = repeated_like(0u32, &self.att_states);
        self.att_shift_states = repeated_like(0u16, &self.att_shift_states);
        self.ffn_states = repeated_like(0u16, &self.ffn_states);
        self.v_first = None;
    }
}

/// A new state has the sizes of its model.
pub proof fn law_new_state_is_sized(info: Rwkv7ModelInfo, batch_size: usize)
    requires
        state_fits(info, batch_size as int),
    ensures
        zero_state(info, batch_size).sized(info),
        zero_state(info, batch_size).covers(info.n_layer as nat),
{
    assert(0 <= wkv_len(info, batch_size as int)) by (nonlinear_arith)
        requires
            info.head_size >= 0,
            info.n_head >= 0,
            batch_size >= 0,
    ;
    assert(0 <= shift_len(info, batch_size as int)) by (nonlinear_arith)
        requires
            info.n_embd >= 0,
            batch_size >= 0,
    ;
}

/// A reset state of a model is the state before any token, whatever it held.
pub proof fn law_reset_is_fresh(info: Rwkv7ModelInfo, state: StateData)
    requires
        state.sized(info),
        state.layout == StateLayout::Decode,
    ensures
        state.reset() == zero_state(info, state.batch_size),
{
    let fresh = zero_state(info, state.batch_size);
    assert(state.reset().att_states =~~= fresh.att_states);
    assert(state.reset().att_shift_states =~~= fresh.att_shift_states);
    assert(state.reset().ffn_states =~~= fresh.ffn_states);
}

/// Resetting twice is resetting once.
pub proof fn law_reset_is_idempotent(state: StateData)
    ensures
        state.reset().reset() == state.reset(),
{
    assert(state.reset().reset().att_states =~~= state.reset().att_states);
    assert(state.reset().reset().att_shift_states =~~= state.reset().att_shift_states);
    assert(state.reset().reset().ffn_states =~~= state.reset().ffn_states);
}

} // verus!
