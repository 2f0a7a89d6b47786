//! What the working memory takes: its tensors, and their bytes.
use crate::buffers::{
    att_at, fla_at, inner_at, shift_at, temp_at, wkv_at, work_at, AttBuffers, AttSpec, FlaBuffers,
    FlaSpec, InnerBuffers, InnerSpec, ShiftBuffers, ShiftSpec, TempBuffers, TempSpec, WkvBuffers,
    WkvSpec,
};
use crate::model::Rwkv7ModelInfo;
use crate::scratch::{
    fla_of, state_at, temp_of, tensor_list, work_of, HipScratch, ScratchSpec,
};
use crate::tensor::{TensorHip, TensorSpec};
use vstd::prelude::*;

verus! {

/// Elements of some tensors in all.
pub open spec fn elements(tensors: Seq<TensorSpec>) -> nat
    decreases tensors.len(),
{
    if tensors.len() == 0 {
        0
    } else {
        elements(tensors.drop_last()) + tensors.last().len()
    }
}

/// Elements of two lists of tensors.
proof fn lemma_elements_of_both(a: Seq<TensorSpec>, b: Seq<TensorSpec>)
    ensures
        elements(a + b) == elements(a) + elements(b),
    decreases b.len(),
{
    if b.len() == 0 {
        assert(a + b =~= a);
    } else {
        assert((a + b).drop_last() =~= a + b.drop_last());
        lemma_elements_of_both(a, b.drop_last());
    }
}

/// Elements with one more tensor.
proof fn lemma_elements_push(tensors: Seq<TensorSpec>, t: TensorSpec)
    ensures
        elements(tensors.push(t)) == elements(tensors) + t.len(),
{
    assert(tensors.push(t).drop_last() =~= tensors);
}

/// The first tensors have no more elements than all.
proof fn lemma_elements_of_first(tensors: Seq<TensorSpec>, k: int)
    requires
        0 <= k <= tensors.len(),
    ensures
        elements(tensors.take(k)) <= elements(tensors),
{
    assert(tensors.take(k) + tensors.skip(k) =~= tensors);
    lemma_elements_of_both(tensors.take(k), tensors.skip(k));
}

/// What a list of borrowed tensors stands for.
pub open spec fn borrowed<T>(tensors: Seq<&TensorHip<T>>) -> Seq<TensorSpec> {
    Seq::new(tensors.len(), |i: int| tensors[i]@)
}

/// Elements of borrowed tensors in all.
fn count<T>(tensors: &Vec<&TensorHip<T>>) -> (n: usize)
    requires
        elements(borrowed(tensors@)) <= usize::MAX,
    ensures
        n == elements(borrowed(tensors@)),
{
    let ghost all = borrowed(tensors@);
    let mut n: usize = 0;
    let mut i: usize = 0;
    while i < tensors.len()
        invariant
            i <= tensors@.len(),
            all == borrowed(tensors@),
            elements(all) <= usize::MAX,
            n == elements(all.take(i as int)),
        decreases tensors@.len() - i,
    {
        proof {
            assert(all.take(i + 1).drop_last() =~= all.take(i as int));
            lemma_elements_of_first(all, i + 1);
        }
        n += tensors[i].len();
        i += 1;
    }
    assert(all.take(i as int) =~= all);
    n
}

/// Elements of some tensors in all.
fn count_list<T>(tensors: &Vec<TensorHip<T>>) -> (n: usize)
    requires
        elements(tensor_list(tensors@)) <= usize::MAX,
    ensures
        n == elements(tensor_list(tensors@)),
{
    let ghost all = tensor_list(tensors@);
    let mut n: usize = 0;
    let mut i: usize = 0;
    while i < tensors.len()
        invariant
            i <= tensors@.len(),
            all == tensor_list(tensors@),
            elements(all) <= usize::MAX,
            n == elements(all.take(i as int)),
        decreases tensors@.len() - i,
    {
        proof {
            assert(all.take(i + 1).drop_last() =~= all.take(i as int));
            lemma_elements_of_first(all, i + 1);
        }
        n += tensors[i].len();
        i += 1;
    }
    assert(all.take(i as int) =~= all);
    n
}

impl ShiftSpec {
    /// The tensors, in the order of their buffers.
    pub open spec fn list(self) -> Seq<TensorSpec> {
        seq![
            self.x,
            self.x_ln,
            self.att_xr,
            self.att_xw,
            self.att_xk,
            self.att_xv,
            self.att_xa,
            self.att_xg,
        ]
    }
}

impl ShiftBuffers {
    /// Elements of the tensors in all.
    fn elements(&self) -> (n: usize)
        requires
            elements(self@.list()) <= usize::MAX,
        ensures
            n == elements(self@.list()),
    {
        let all = vec![
            &self.x,
            &self.x_ln,
            &self.att_xr,
            &self.att_xw,
            &self.att_xk,
            &self.att_xv,
            &self.att_xa,
            &self.att_xg,
        ];
        assert(borrowed(all@) =~= self@.list());
        count(&all)
    }
}

impl AttSpec {
    /// The tensors, in the order of their buffers.
    pub open spec fn list(self) -> Seq<TensorSpec> {
        seq![
            self.att_r,
            self.att_k,
            self.att_v,
            self.att_w,
            self.att_a,
            self.att_g,
            self.att_kk,
            self.att_k_ctrl,
        ]
    }
}

impl AttBuffers {
    /// Elements of the tensors in all.
    fn elements(&self) -> (n: usize)
        requires
            elements(self@.list()) <= usize::MAX,
        ensures
            n == elements(self@.list()),
    {
        let all = vec![
            &self.att_r,
            &self.att_k,
            &self.att_v,
            &self.att_w,
            &self.att_a,
            &self.att_g,
            &self.att_kk,
            &self.att_k_ctrl,
        ];
        assert(borrowed(all@) =~= self@.list());
        count(&all)
    }
}

impl WkvSpec {
    /// The tensors, in the order of their buffers.
    pub open spec fn list(self) -> Seq<TensorSpec> {
        seq![
            self.wkv_a,
            self.wkv_b,
            self.w_decay,
            self.wkv_out,
            self.wkv_normed,
            self.wkv_bonus,
            self.att_out,
            self.ffn_xk,
            self.ffn_out,
            self.v_first,
        ]
    }
}

impl WkvBuffers {
    /// Elements of the tensors in all.
    fn elements(&self) -> (n: usize)
        requires
            elements(self@.list()) <= usize::MAX,
        ensures
            n == elements(self@.list()),
    {
        let all = vec![
            &self.wkv_a,
            &self.wkv_b,
            &self.w_decay,
            &self.wkv_out,
            &self.wkv_normed,
            &self.wkv_bonus,
            &self.att_out,
            &self.ffn_xk,
            &self.ffn_out,
            &self.v_first,
        ];
        assert(borrowed(all@) =~= self@.list());
        count(&all)
    }
}

impl InnerSpec {
    /// The tensors, in the order of their buffers.
    pub open spec fn list(self) -> Seq<TensorSpec> {
        seq![
            self.ffn_k,
            self.ffn_k_sq,
            self.lora_w,
            self.lora_a,
            self.lora_g,
            self.lora_v,
            self.lora_w_tanh,
            self.lora_a_proj,
            self.lora_g_sig,
            self.v_lora2,
        ]
    }
}

impl InnerBuffers {
    /// Elements of the tensors in all.
    fn elements(&self) -> (n: usize)
        requires
            elements(self@.list()) <= usize::MAX,
        ensures
            n == elements(self@.list()),
    {
        let all = vec![
            &self.ffn_k,
            &self.ffn_k_sq,
            &self.lora_w,
            &self.lora_a,
            &self.lora_g,
            &self.lora_v,
            &self.lora_w_tanh,
            &self.lora_a_proj,
            &self.lora_g_sig,
            &self.v_lora2,
        ];
        assert(borrowed(all@) =~= self@.list());
        count(&all)
    }
}

impl TempSpec {
    /// The tensors, in the order of their buffers.
    pub open spec fn list(self) -> Seq<TensorSpec> {
        seq![
            self.temp1,
            self.temp2,
            self.new_att_shift,
            self.new_ffn_shift,
        ]
    }
}

impl TempBuffers {
    /// Elements of the tensors in all.
    fn elements(&self) -> (n: usize)
        requires
            elements(self@.list()) <= usize::MAX,
        ensures
            n == elements(self@.list()),
    {
        let all = vec![
            &self.temp1,
            &self.temp2,
            &self.new_att_shift,
            &self.new_ffn_shift,
        ];
        assert(borrowed(all@) =~= self@.list());
        count(&all)
    }
}

impl FlaSpec {
    /// The tensors, in the order of their buffers.
    pub open spec fn list(self) -> Seq<TensorSpec> {
        seq![
            self.gi,
            self.ge,
            self.qg,
            self.kg,
            self.ag,
            self.bg,
            self.a_qk,
            self.a_qb,
            self.a_ab,
            self.a_ak,
            self.a_ab_inv,
            self.w_wy,
            self.u_wy,
            self.h,
            self.v_new,
        ]
    }
}

impl FlaBuffers {
    /// Elements of the tensors in all.
    fn elements(&self) -> (n: usize)
        requires
            elements(self@.list()) <= usize::MAX,
        ensures
            n == elements(self@.list()),
    {
        let all = vec![
            &self.gi,
            &self.ge,
            &self.qg,
            &self.kg,
            &self.ag,
            &self.bg,
            &self.a_qk,
            &self.a_qb,
            &self.a_ab,
            &self.a_ak,
            &self.a_ab_inv,
            &self.w_wy,
            &self.u_wy,
            &self.h,
            &self.v_new,
        ];
        assert(borrowed(all@) =~= self@.list());
        count(&all)
    }
}

impl ScratchSpec {
    /// The tensors of half-precision values, apart from the states.
    pub open spec fn half_tensors(self) -> Seq<TensorSpec> {
        self.work.shift.list() + self.work.att.list() + self.work.wkv.list()
            + self.work.inner.list() + self.temp.list() + seq![self.logits]
    }

    /// The tensors of 32-bit values, apart from the states.
    pub open spec fn word_tensors(self) -> Seq<TensorSpec> {
        seq![self.new_wkv_state] + self.fla.list() + seq![
            self.logits_f32,
            self.token_staging,
            self.lens_gpu,
        ]
    }

    /// Elements of half precision: those of the token-shift states and of the other tensors.
    pub open spec fn halves(self) -> nat {
        elements(self.state.att_shift) + elements(self.state.ffn) + elements(self.half_tensors())
    }

    /// Elements of 32 bits: those of the recurrent states and of the other tensors.
    pub open spec fn words(self) -> nat {
        elements(self.state.wkv) + elements(self.word_tensors())
    }

    /// Bytes of all tensors: two for each half-precision value, four for each of 32 bits.
    pub open spec fn bytes(self) -> nat {
        2 * self.halves() + 4 * self.words()
    }

    /// The buffers of the working memory, apart from those of the states.
    pub open spec fn buffers(self) -> Seq<usize> {
        let tensors = self.half_tensors() + self.word_tensors();
        Seq::new(tensors.len(), |i: int| tensors[i].buffer)
    }
}

/// Elements of the groups of half-precision tensors.
proof fn lemma_half_groups(sc: ScratchSpec)
    ensures
        elements(sc.half_tensors()) == elements(sc.work.shift.list()) + elements(sc.work.att.list())
            + elements(sc.work.wkv.list()) + elements(sc.work.inner.list()) + elements(
            sc.temp.list(),
        ) + sc.logits.len(),
{
    let a = sc.work.shift.list();
    let b = sc.work.att.list();
    let c = sc.work.wkv.list();
    let d = sc.work.inner.list();
    let e = sc.temp.list();
    let f = seq![sc.logits];
    lemma_elements_of_both(a, b);
    lemma_elements_of_both(a + b, c);
    lemma_elements_of_both(a + b + c, d);
    lemma_elements_of_both(a + b + c + d, e);
    lemma_elements_of_both(a + b + c + d + e, f);
    reveal_with_fuel(elements, 2);
    assert(f.drop_last() =~= Seq::<TensorSpec>::empty());
}

/// Elements of the groups of tensors of 32-bit values.
proof fn lemma_word_groups(sc: ScratchSpec)
    ensures
        elements(sc.word_tensors()) == sc.new_wkv_state.len() + elements(sc.fla.list())
            + sc.logits_f32.len() + sc.token_staging.len() + sc.lens_gpu.len(),
{
    let a = seq![sc.new_wkv_state];
    let b = sc.fla.list();
    let none = Seq::<TensorSpec>::empty();
    let c1 = none.push(sc.logits_f32);
    let c2 = c1.push(sc.token_staging);
    let c3 = c2.push(sc.lens_gpu);
    assert(a + b + c3 =~= sc.word_tensors());
    lemma_elements_of_both(a, b);
    lemma_elements_of_both(a + b, c3);
    assert(a.drop_last() =~= none && elements(none) == 0);
    assert(elements(a) == sc.new_wkv_state.len());
    lemma_elements_push(none, sc.logits_f32);
    lemma_elements_push(c1, sc.token_staging);
    lemma_elements_push(c2, sc.lens_gpu);
}

impl HipScratch {
    /// Bytes of device memory that the working memory takes in all.
    pub fn memory_bytes(&self) -> (n: usize)
        requires
            self@.bytes() <= usize::MAX,
        ensures
            n == self@.bytes(),
    {
        proof {
            reveal(work_of);
            reveal(temp_of);
            reveal(fla_of);
            lemma_half_groups(self@);
            lemma_word_groups(self@);
        }
        let states: usize = count_list(&self.state.att_shift) + count_list(&self.state.ffn);
        let work: usize = self.work.shift.elements() + self.work.att.elements()
            + self.work.wkv.elements() + self.work.inner.elements();
        let halves: usize = states + work + self.temp.elements() + self.logits.len();
        let words: usize = count_list(&self.state.wkv) + self.new_wkv_state.len()
            + self.fla.elements() + self.logits_f32.len() + self.token_staging.len()
            + self.lens_gpu.len();
        2 * halves + 4 * words
    }
}

/// No two tensors of the working memory share a buffer, and none shares one with a state.
pub proof fn law_buffers_apart(sc: ScratchSpec, info: Rwkv7ModelInfo)
    requires
        sc.made_for(info),
    ensures
        forall|i: int, j: int|
            0 <= i < j < sc.buffers().len() ==> (#[trigger] sc.buffers()[i]) != (
            #[trigger] sc.buffers()[j]),
        forall|i: int, j: int|
            0 <= i < sc.buffers().len() && 0 <= j < info.n_layer ==> {
                &&& (#[trigger] sc.buffers()[i]) != (#[trigger] sc.state.att_shift[j]).buffer
                &&& sc.buffers()[i] != sc.state.ffn[j].buffer
                &&& sc.buffers()[i] != sc.state.wkv[j].buffer
            },
{
    reveal(ScratchSpec::placed_at);
    let next = choose|next: usize| #[trigger] sc.placed_at(next, info);
    let base = next + 3 * info.n_layer;
    reveal(work_at);
    reveal(shift_at);
    reveal(att_at);
    reveal(wkv_at);
    reveal(inner_at);
    reveal(temp_at);
    reveal(fla_at);
    let list = Seq::new(
        60,
        |i: int|
            (base + (if i < 40 {
                i
            } else if i == 40 {
                56
            } else if i < 57 {
                i - 1
            } else {
                i
            })) as usize,
    );
    assert(sc.half_tensors().len() == 41);
    assert(sc.word_tensors().len() == 19);
    assert(sc.buffers() =~= list);
    assert forall|i: int, j: int| 0 <= i < list.len() && 0 <= j < info.n_layer implies {
        &&& (#[trigger] list[i]) != (#[trigger] sc.state.att_shift[j]).buffer
        &&& list[i] != sc.state.ffn[j].buffer
        &&& list[i] != sc.state.wkv[j].buffer
    } by {
        reveal(state_at);
    }
}

} // verus!
