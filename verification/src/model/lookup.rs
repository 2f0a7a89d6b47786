//! Weights by name.
use crate::model::load_run::{LoadErrorSpec, ModelLoadError};
use crate::model::names::{ends_as, layer_of, split_name, suffix_of};
use crate::model::replies::{as_f16, is_f16};
use crate::model::weights::LayerHip;
use crate::model::{Rwkv7Hip, Rwkv7Model};
use crate::run::Run;
use crate::stream::{HostData, Stream};
use crate::tensor::{TensorHip, TensorSpec, F16};
use crate::tensor_file::same_text;
use crate::text::text;
use vstd::prelude::*;

verus! {

/// The weight of a layer that the part of a name behind the layer speaks of.
pub open spec fn layer_weight(layer: LayerHip, suffix: Seq<char>) -> Option<TensorSpec> {
    if suffix == "ln1.weight"@ {
        Some(layer.att_ln.weight@)
    } else if suffix == "ln1.bias"@ {
        Some(layer.att_ln.bias@)
    } else if suffix == "ln2.weight"@ {
        Some(layer.ffn_ln.weight@)
    } else if suffix == "ln2.bias"@ {
        Some(layer.ffn_ln.bias@)
    } else if suffix == "att.x_r"@ {
        Some(layer.att.x_r@)
    } else if suffix == "att.x_w"@ {
        Some(layer.att.x_w@)
    } else if suffix == "att.x_k"@ {
        Some(layer.att.x_k@)
    } else if suffix == "att.x_v"@ {
        Some(layer.att.x_v@)
    } else if suffix == "att.x_a"@ {
        Some(layer.att.x_a@)
    } else if suffix == "att.x_g"@ {
        Some(layer.att.x_g@)
    } else if suffix == "att.w0"@ {
        Some(layer.att.w0@)
    } else if suffix == "att.w1"@ {
        Some(layer.att.w1@)
    } else if suffix == "att.w2"@ {
        Some(layer.att.w2@)
    } else if suffix == "att.a0"@ {
        Some(layer.att.a0@)
    } else if suffix == "att.a1"@ {
        Some(layer.att.a1@)
    } else if suffix == "att.a2"@ {
        Some(layer.att.a2@)
    } else if suffix == "att.g1"@ {
        Some(layer.att.g1@)
    } else if suffix == "att.g2"@ {
        Some(layer.att.g2@)
    } else if suffix == "att.r_k"@ {
        Some(layer.att.r_k@)
    } else if suffix == "att.k_k"@ {
        Some(layer.att.k_k@)
    } else if suffix == "att.k_a"@ {
        Some(layer.att.k_a@)
    } else if suffix == "att.receptance.weight"@ {
        Some(layer.att.w_r@)
    } else if suffix == "att.key.weight"@ {
        Some(layer.att.w_k@)
    } else if suffix == "att.value.weight"@ {
        Some(layer.att.w_v@)
    } else if suffix == "att.output.weight"@ {
        Some(layer.att.w_o@)
    } else if suffix == "att.ln_x.weight"@ {
        Some(layer.att.gn.weight@)
    } else if suffix == "att.ln_x.bias"@ {
        Some(layer.att.gn.bias@)
    } else if suffix == "ffn.x_k"@ {
        Some(layer.ffn.x_k@)
    } else if suffix == "ffn.key.weight"@ {
        Some(layer.ffn.w_k@)
    } else if suffix == "ffn.value.weight"@ {
        Some(layer.ffn.w_v@)
    } else {
        None
    }
}

impl Rwkv7Model {
    /// The weight of a name. The embedding is not on the device.
    pub open spec fn weight_named(&self, name: Seq<char>) -> Option<TensorSpec> {
        if name == "emb.weight"@ {
            None
        } else if name == "head.weight"@ {
            Some(self.head.w@)
        } else {
            match layer_of(name) {
                Some(i) => if i < self.layers@.len() {
                    layer_weight(self.layers@[i as int], suffix_of(name))
                } else {
                    None
                },
                None => None,
            }
        }
    }

    /// The weight of a name, where it is on the device.
    pub fn get_weight(&self, name: &str) -> (r: Option<&TensorHip<F16>>)
        ensures
            match r {
                Some(t) => self.weight_named(name@) == Some(t@),
                None => self.weight_named(name@) is None,
            },
    {
        if same_text(name, "emb.weight") {
            return None;
        }
        if same_text(name, "head.weight") {
            return Some(&self.head.w);
        }
        let parts = split_name(name);
        let i: usize = match parts.layer {
            Some(i) => i,
            None => {
                return None;
            },
        };
        if i >= self.layers.len() {
            return None;
        }
        let layer = &self.layers[i];
        let c = &parts.chars;
        let at: usize = parts.suffix;
        if ends_as(c, at, "ln1.weight") {
            Some(&layer.att_ln.weight)
        } else if ends_as(c, at, "ln1.bias") {
            Some(&layer.att_ln.bias)
        } else if ends_as(c, at, "ln2.weight") {
            Some(&layer.ffn_ln.weight)
        } else if ends_as(c, at, "ln2.bias") {
            Some(&layer.ffn_ln.bias)
        } else if ends_as(c, at, "att.x_r") {
            Some(&layer.att.x_r)
        } else if ends_as(c, at, "att.x_w") {
            Some(&layer.att.x_w)
        } else if ends_as(c, at, "att.x_k") {
            Some(&layer.att.x_k)
        } else if ends_as(c, at, "att.x_v") {
            Some(&layer.att.x_v)
        } else if ends_as(c, at, "att.x_a") {
            Some(&layer.att.x_a)
        } else if ends_as(c, at, "att.x_g") {
            Some(&layer.att.x_g)
        } else if ends_as(c, at, "att.w0") {
            Some(&layer.att.w0)
        } else if ends_as(c, at, "att.w1") {
            Some(&layer.att.w1)
        } else if ends_as(c, at, "att.w2") {
            Some(&layer.att.w2)
        } else if ends_as(c, at, "att.a0") {
            Some(&layer.att.a0)
        } else if ends_as(c, at, "att.a1") {
            Some(&layer.att.a1)
        } else if ends_as(c, at, "att.a2") {
            Some(&layer.att.a2)
        } else if ends_as(c, at, "att.g1") {
            Some(&layer.att.g1)
        } else if ends_as(c, at, "att.g2") {
            Some(&layer.att.g2)
        } else if ends_as(c, at, "att.r_k") {
            Some(&layer.att.r_k)
        } else if ends_as(c, at, "att.k_k") {
            Some(&layer.att.k_k)
        } else if ends_as(c, at, "att.k_a") {
            Some(&layer.att.k_a)
        } else if ends_as(c, at, "att.receptance.weight") {
            Some(&layer.att.w_r)
        } else if ends_as(c, at, "att.key.weight") {
            Some(&layer.att.w_k)
        } else if ends_as(c, at, "att.value.weight") {
            Some(&layer.att.w_v)
        } else if ends_as(c, at, "att.output.weight") {
            Some(&layer.att.w_o)
        } else if ends_as(c, at, "att.ln_x.weight") {
            Some(&layer.att.gn.weight)
        } else if ends_as(c, at, "att.ln_x.bias") {
            Some(&layer.att.gn.bias)
        } else if ends_as(c, at, "ffn.x_k") {
            Some(&layer.ffn.x_k)
        } else if ends_as(c, at, "ffn.key.weight") {
            Some(&layer.ffn.w_k)
        } else if ends_as(c, at, "ffn.value.weight") {
            Some(&layer.ffn.w_v)
        } else {
            None
        }
    }

    /// Asks for a weight by name, of which the first `n` values are wanted.
    pub fn read_weight_head(&self, name: &str, n: usize, stream: &mut Stream) -> (r: Result<
        PendingHead,
        ModelLoadError,
    >)
        ensures
            match self.weight_named(name@) {
                Some(t) => r is Ok && final(stream)@ == Run::start(old(stream)@).download::<F16>(
                    t,
                ).stream && r->Ok_0.wanted == n && r->Ok_0.len == t.len(),
                None => r is Err && final(stream)@ == old(stream)@ && r->Err_0@
                    == LoadErrorSpec::InvalidModel("Weight not found: "@ + name@),
            },
    {
        match self.get_weight(name) {
            Some(t) => {
                t.download(stream);
                Ok(PendingHead { wanted: n, len: t.len() })
            },
            None => Err(
                ModelLoadError::InvalidModel(text("Weight not found: ").lit(name).done()),
            ),
        }
    }
}

/// A weight that was asked for and is still to come.
#[derive(Debug, Clone, Copy)]
pub struct PendingHead {
    /// Values that are wanted.
    pub wanted: usize,
    /// Values that were asked for.
    pub len: usize,
}

impl PendingHead {
    /// The first values, in half precision: as many as are wanted, or all. None where the reply
    /// is not what was asked for.
    pub fn finish(self, replies: Vec<HostData>) -> (r: Option<Vec<u16>>)
        ensures
            r is Some == (replies@.len() == 1 && is_f16(replies@[0]@, self.len as int)),
            r is Some ==> r->0@ == replies@[0]@->F16_0.take(
                if self.wanted < self.len {
                    self.wanted as int
                } else {
                    self.len as int
                },
            ),
    {
        if replies.len() != 1 {
            return None;
        }
        match as_f16(&replies[0], self.len) {
            Some(mut v) => {
                if self.wanted < self.len {
                    v.truncate(self.wanted);
                }
                assert(replies@[0]@->F16_0.take(self.len as int) =~= replies@[0]@->F16_0);
                Some(v)
            },
            None => None,
        }
    }
}

impl Rwkv7Hip {
    /// The weight of a name, where it is on the device.
    pub fn get_weight(&self, name: &str) -> (r: Option<&TensorHip<F16>>)
        ensures
            match r {
                Some(t) => self.model.weight_named(name@) == Some(t@),
                None => self.model.weight_named(name@) is None,
            },
    {
        self.model.get_weight(name)
    }

    /// Asks for a weight by name, of which the first `n` values are wanted.
    pub fn read_weight_head(&self, name: &str, n: usize, stream: &mut Stream) -> (r: Result<
        PendingHead,
        ModelLoadError,
    >)
        ensures
            match self.model.weight_named(name@) {
                Some(t) => r is Ok && final(stream)@ == Run::start(old(stream)@).download::<F16>(
                    t,
                ).stream && r->Ok_0.wanted == n && r->Ok_0.len == t.len(),
                None => r is Err && final(stream)@ == old(stream)@ && r->Err_0@
                    == LoadErrorSpec::InvalidModel("Weight not found: "@ + name@),
            },
    {
        self.model.read_weight_head(name, n, stream)
    }
}

} // verus!
