//! Passes whose commands are recorded and whose results are still to come.
use crate::model::batch::{
    holds_logits, lemma_strided_len, padded_total, real_logits, real_logits_of, total,
};
use crate::model::pass::{lemma_longest, longest, longest_of};
use crate::model::replies::{
    all_f16, all_f32, as_f32, data_list, is_f32, pick_f16, pick_f32, picked_f16, picked_f32,
};
use crate::model::state::{HipState, StateData, StateLayout};
use crate::stream::{DataSpec, HostData};
use vstd::prelude::*;

verus! {

/// How the logits of a batch are read out of what the device sends.
#[verifier::ext_equal]
pub struct LogitsPlan {
    /// Real length of each sequence.
    pub lens: Seq<usize>,
    pub n_vocab: usize,
    /// Number of logits that were asked for, padding included.
    pub asked: usize,
}

impl LogitsPlan {
    /// Whether a reply holds the logits of every real token.
    pub open spec fn answered_by(self, reply: DataSpec) -> bool {
        &&& is_f32(reply, self.asked as int)
        &&& holds_logits(self.asked as int, self.lens, self.n_vocab as int)
    }

    /// The logits of the real tokens in a reply.
    pub open spec fn read(self, reply: DataSpec) -> Seq<u32> {
        real_logits(reply->F32_0, self.lens, self.n_vocab as int)
    }
}

/// A pass whose logits are still to come.
pub struct PendingLogits {
    lens: Vec<usize>,
    n_vocab: usize,
    asked: usize,
}

impl View for PendingLogits {
    type V = LogitsPlan;

    closed spec fn view(&self) -> LogitsPlan {
        LogitsPlan { lens: self.lens@, n_vocab: self.n_vocab, asked: self.asked }
    }
}

impl PendingLogits {
    #[verifier::type_invariant]
    spec fn counted(self) -> bool {
        padded_total(self.lens@) <= usize::MAX
    }

    pub fn new(lens: Vec<usize>, n_vocab: usize, asked: usize) -> (p: PendingLogits)
        requires
            padded_total(lens@) <= usize::MAX,
        ensures
            p@ == (LogitsPlan { lens: lens@, n_vocab, asked }),
    {
        PendingLogits { lens, n_vocab, asked }
    }

    /// The logits of the real tokens; none where the reply does not hold them all.
    pub fn read(&self, reply: &HostData) -> (r: Option<Vec<u32>>)
        ensures
            r is Some == self@.answered_by(reply@),
            r is Some ==> r->0@ == self@.read(reply@),
    {
        proof {
            use_type_invariant(self);
        }
        let lens = self.lens.as_slice();
        let tokens: usize = lens.len() * longest_of(lens);
        let room = match tokens.checked_mul(self.n_vocab) {
            Some(n) => n <= self.asked,
            None => false,
        };
        if !room {
            return None;
        }
        match as_f32(reply, self.asked) {
            Some(staging) => Some(real_logits_of(staging.as_slice(), lens, self.n_vocab)),
            None => None,
        }
    }

    /// Ends a pass of which only the logits were asked for.
    pub fn finish(self, replies: Vec<HostData>) -> (r: Option<Vec<u32>>)
        ensures
            r is Some == (replies@.len() == 1 && self@.answered_by(replies@[0]@)),
            r is Some ==> r->0@ == self@.read(replies@[0]@),
    {
        if replies.len() != 1 {
            return None;
        }
        self.read(&replies[0])
    }
}

/// Where the states of the layers stand among the replies.
#[derive(Debug, Clone, Copy)]
pub struct StatePlaces {
    pub att_shift: usize,
    pub ffn: usize,
    pub wkv: usize,
    /// Distance between the states of one layer and the next.
    pub step: usize,
}

/// How the states of a batch are read out of what the device sends.
#[derive(Debug, Clone, Copy)]
pub struct StatePlan {
    pub batch_size: usize,
    pub n_layer: usize,
    /// Values of a token-shift state.
    pub shift: usize,
    /// Values of a recurrent state.
    pub wkv: usize,
    pub places: StatePlaces,
    pub layout: StateLayout,
}

impl StatePlan {
    /// Whether the places of all layers lie in a list of `len` replies.
    pub open spec fn within(self, len: int) -> bool {
        let p = self.places;
        &&& 1 <= p.step
        &&& p.att_shift + p.step * self.n_layer <= len + p.step - 1
        &&& p.ffn + p.step * self.n_layer <= len + p.step - 1
        &&& p.wkv + p.step * self.n_layer <= len + p.step - 1
    }

    /// Whether the replies hold the states of all layers.
    pub open spec fn answered_by(self, replies: Seq<DataSpec>) -> bool {
        let p = self.places;
        let n = self.n_layer as int;
        &&& all_f16(replies, p.att_shift as int, p.step as int, n, self.shift as int)
        &&& all_f16(replies, p.ffn as int, p.step as int, n, self.shift as int)
        &&& all_f32(replies, p.wkv as int, p.step as int, n, self.wkv as int)
    }

    /// The states in the replies.
    pub open spec fn spec_read(self, replies: Seq<DataSpec>) -> StateData {
        let p = self.places;
        let n = self.n_layer as int;
        StateData {
            batch_size: self.batch_size,
            att_states: picked_f32(replies, p.wkv as int, p.step as int, n),
            att_shift_states: picked_f16(replies, p.att_shift as int, p.step as int, n),
            ffn_states: picked_f16(replies, p.ffn as int, p.step as int, n),
            v_first: None,
            layout: self.layout,
        }
    }

    /// The states in the replies; none where they do not hold those of all layers.
    pub fn read(&self, replies: &Vec<HostData>) -> (r: Option<HipState>)
        requires
            self.within(replies@.len() as int),
        ensures
            r is Some == self.answered_by(data_list(replies@)),
            r is Some ==> r->0@ == self.spec_read(data_list(replies@)),
    {
        let p = self.places;
        let n: usize = self.n_layer;
        let att_shift_states = match pick_f16(replies, p.att_shift, p.step, n, self.shift) {
            Some(v) => v,
            None => return None,
        };
        let ffn_states = match pick_f16(replies, p.ffn, p.step, n, self.shift) {
            Some(v) => v,
            None => return None,
        };
        let att_states = match pick_f32(replies, p.wkv, p.step, n, self.wkv) {
            Some(v) => v,
            None => return None,
        };
        Some(
            HipState {
                batch_size: self.batch_size,
                att_states,
                att_shift_states,
                ffn_states,
                v_first: None,
                layout: self.layout,
            },
        )
    }
}

/// States that were asked for and are still to come.
pub struct PendingState {
    plan: StatePlan,
}

impl View for PendingState {
    type V = StatePlan;

    closed spec fn view(&self) -> StatePlan {
        self.plan
    }
}

impl PendingState {
    #[verifier::type_invariant]
    spec fn placed(self) -> bool {
        self.plan.within(3 * self.plan.n_layer)
    }

    pub fn new(plan: StatePlan) -> (p: PendingState)
        requires
            plan.within(3 * plan.n_layer),
        ensures
            p@ == plan,
    {
        PendingState { plan }
    }

    /// The states; none where the replies are not what was asked for.
    pub fn finish(self, replies: Vec<HostData>) -> (r: Option<HipState>)
        ensures
            r is Some == (replies@.len() == 3 * self@.n_layer && self@.answered_by(
                data_list(replies@),
            )),
            r is Some ==> r->0@ == self@.spec_read(data_list(replies@)),
    {
        proof {
            use_type_invariant(&self);
        }
        let size: usize = replies.len();
        if size / 3 != self.plan.n_layer || size % 3 != 0 {
            return None;
        }
        self.plan.read(&replies)
    }
}

/// A step whose results are still to come.
pub struct PendingStep {
    logits: PendingLogits,
    state: StatePlan,
}

impl PendingStep {
    /// How its logits are read.
    pub closed spec fn logits_plan(&self) -> LogitsPlan {
        self.logits@
    }

    /// How its state is read.
    pub closed spec fn state_plan(&self) -> StatePlan {
        self.state
    }

    #[verifier::type_invariant]
    spec fn placed(self) -> bool {
        self.state.within(1 + 3 * self.state.n_layer)
    }

    pub fn new(logits: PendingLogits, state: StatePlan) -> (p: PendingStep)
        requires
            state.within(1 + 3 * state.n_layer),
        ensures
            p.logits_plan() == logits@,
            p.state_plan() == state,
    {
        PendingStep { logits, state }
    }

    /// Ends the step: the logits of the real tokens and the new state. None where the replies
    /// are not what the step asked for.
    pub fn finish(self, replies: Vec<HostData>) -> (r: Option<(Vec<u32>, HipState)>)
        ensures
            r is Some == (replies@.len() == 1 + 3 * self.state_plan().n_layer
                && self.logits_plan().answered_by(replies@[0]@) && self.state_plan().answered_by(
                data_list(replies@),
            )),
            r matches Some((logits, state)) ==> logits@ == self.logits_plan().read(replies@[0]@)
                && state@ == self.state_plan().spec_read(data_list(replies@)),
    {
        proof {
            use_type_invariant(&self);
        }
        let size: usize = replies.len();
        if size < 1 || (size - 1) / 3 != self.state.n_layer || (size - 1) % 3 != 0 {
            return None;
        }
        match self.logits.read(&replies[0]) {
            Some(logits) => match self.state.read(&replies) {
                Some(state) => Some((logits, state)),
                None => None,
            },
            None => None,
        }
    }
}

/// A reply that holds them gives the logits of every real token: `n_vocab` for each.
pub proof fn law_logits_for_every_token(plan: LogitsPlan, reply: DataSpec)
    requires
        plan.answered_by(reply),
    ensures
        plan.read(reply).len() == total(plan.lens) * plan.n_vocab,
{
    let staging = reply->F32_0;
    let v = plan.n_vocab as int;
    lemma_longest(plan.lens);
    lemma_strided_len(staging, plan.lens, longest(plan.lens) as int, v);
}

} // verus!
