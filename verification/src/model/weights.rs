//! Weights of the model, on the device.
use crate::tensor::{TensorHip, F16};
use vstd::prelude::*;

verus! {

/// Scale and shift of a normalisation.
#[derive(Debug)]
pub struct LayerNormHip {
    pub weight: TensorHip<F16>,
    pub bias: TensorHip<F16>,
}

/// Weights of the attention of one layer.
#[derive(Debug)]
pub struct AttentionHip {
    /// Token shift.
    pub x_r: TensorHip<F16>,
    pub x_w: TensorHip<F16>,
    pub x_k: TensorHip<F16>,
    pub x_v: TensorHip<F16>,
    pub x_a: TensorHip<F16>,
    pub x_g: TensorHip<F16>,
    /// Decay.
    pub w0: TensorHip<F16>,
    pub w1: TensorHip<F16>,
    pub w2: TensorHip<F16>,
    /// Adaptation.
    pub a0: TensorHip<F16>,
    pub a1: TensorHip<F16>,
    pub a2: TensorHip<F16>,
    /// Gate.
    pub g1: TensorHip<F16>,
    pub g2: TensorHip<F16>,
    /// Value residual, from the second layer on.
    pub v0: Option<TensorHip<F16>>,
    pub v1: Option<TensorHip<F16>>,
    pub v2: Option<TensorHip<F16>>,
    /// Key.
    pub r_k: TensorHip<F16>,
    pub k_k: TensorHip<F16>,
    pub k_a: TensorHip<F16>,
    /// Projections, stored by columns.
    pub w_r: TensorHip<F16>,
    pub w_k: TensorHip<F16>,
    pub w_v: TensorHip<F16>,
    pub w_o: TensorHip<F16>,
    /// Group norm.
    pub gn: LayerNormHip,
}

/// Weights of the feed-forward part of one layer.
#[derive(Debug)]
pub struct FfnHip {
    pub x_k: TensorHip<F16>,
    pub w_k: TensorHip<F16>,
    pub w_v: TensorHip<F16>,
}

/// Weights of one layer.
#[derive(Debug)]
pub struct LayerHip {
    pub att_ln: LayerNormHip,
    pub ffn_ln: LayerNormHip,
    pub att: AttentionHip,
    pub ffn: FfnHip,
}

/// The embedding: its table stays on the host, one row of `n_embd` values for each token.
#[derive(Debug)]
pub struct EmbedHip {
    pub ln: LayerNormHip,
    pub w: Vec<u16>,
    pub n_embd: usize,
}

/// Weights of the output head.
#[derive(Debug)]
pub struct HeadHip {
    pub ln: LayerNormHip,
    pub w: TensorHip<F16>,
}

impl LayerHip {
    /// Whether no operand that is repeated along a tensor is empty.
    pub open spec fn repeatable(&self) -> bool {
        &&& self.att.w0@.len() > 0
        &&& self.att.a0@.len() > 0
        &&& self.att.k_k@.len() > 0
        &&& self.att.v0 matches Some(v0) ==> v0@.len() > 0
    }
}

} // verus!
