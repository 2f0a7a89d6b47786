//! The RWKV7 model: weights, state and forward passes.
pub mod attention_laws;
pub mod batch;
pub mod behaviour_laws;
pub mod block;
pub mod block_laws;
pub mod chunks;
pub mod dispatch;
pub mod dispatch_helpers;
pub mod dispatch_laws;
pub mod fla;
pub mod forward;
pub mod forward_async;
pub mod forward_chunks;
pub mod forward_inner;
pub mod forward_laws;
pub mod forward_success;
pub mod forward_task;
pub mod hip;
pub mod hip_prefill;
pub mod layer;
pub mod layer_laws;
pub mod load;
pub mod load_laws;
pub mod load_meaning;
pub mod load_run;
pub mod lookup;
pub mod names;
pub mod pass;
pub mod pass_laws;
pub mod pass_meaning;
pub mod pending;
pub mod prefill;
pub mod probe_laws;
pub mod ready;
pub mod record_laws;
pub mod replies;
pub mod state;
pub mod state_laws;
pub mod step;
pub mod weights;

use crate::model::weights::{EmbedHip, HeadHip, LayerHip};
use crate::probe::HipProbeMap;
use crate::scratch::HipScratch;
use std::sync::Arc;
use vstd::prelude::*;

verus! {

/// Dimensions of a model.
#[derive(Debug, Clone, Copy, PartialEq, Eq)]
pub struct Rwkv7ModelInfo {
    pub n_layer: usize,
    pub n_embd: usize,
    pub n_head: usize,
    pub head_size: usize,
    pub n_vocab: usize,
    pub n_hidden: usize,
}

/// The weights of a model.
#[derive(Debug)]
pub struct Rwkv7Model {
    pub info: Rwkv7ModelInfo,
    pub embed: EmbedHip,
    pub head: HeadHip,
    pub layers: Vec<LayerHip>,
}

impl Rwkv7Model {
    /// Whether there are weights for every layer, heads to divide by, and nothing empty to
    /// repeat.
    pub open spec fn sound(&self) -> bool {
        &&& self.info.n_layer <= self.layers@.len()
        &&& self.info.n_head > 0
        &&& self.info.head_size > 0
        &&& self.info.head_size * self.info.n_head <= usize::MAX
        &&& self.info.n_embd * 6 <= usize::MAX
        &&& forall|i: int|
            0 <= i < self.info.n_layer ==> (#[trigger] self.layers@[i]).repeatable()
    }
}

/// A model together with its working memory, once that is configured.
#[derive(Debug)]
pub struct Rwkv7Hip {
    pub model: Arc<Rwkv7Model>,
    pub scratch: Option<HipScratch>,
    pub probes: HipProbeMap,
}

} // verus!
