//! The mathematics of a pass: what the parts of a layer compute from tensors, whatever the
//! kernels do, and without a word about where on the device the tensors lie.
use crate::launch::{Binary, Gemm, Unary, Wkv7};
use crate::meaning::{
    host_cells, Cells, ChunkH, ChunkO, Contents, Intra, Kernels, Recurrent, WyRepr,
};
use crate::model::dispatch_helpers::WkvChoiceSpec;
use crate::model::fla::{chunk_plan, cu_seqlens, ChunkPlan, FlaWkvSpec};
use crate::model::layer::{GROUP_NORM_EPS, L2_NORM_EPS, LAYER_NORM_EPS};
use crate::model::weights::{HeadHip, LayerHip, LayerNormHip};
use crate::model::{Rwkv7Model, Rwkv7ModelInfo};
use crate::shapes::PassShapes;
use crate::stream::{DataSpec, Elem};
use crate::tensor::{TensorShape, TensorSpec};
use vstd::prelude::*;

verus! {

/// What the formulas of a pass are about: the kernels, the memory that holds the weights, and the
/// sizes of the pass.
pub struct Math {
    pub kernels: Kernels,
    pub weights: Contents,
    pub sh: PassShapes,
    pub info: Rwkv7ModelInfo,
}

/// What a layer leaves behind.
#[verifier::ext_equal]
pub struct Attended {
    /// The hidden state.
    pub x: Cells,
    /// The token-shift state.
    pub shift: Cells,
    /// The recurrent state.
    pub state: Cells,
    /// The value of the first layer.
    pub v_first: Cells,
    /// The output of the recurrence.
    pub out: Cells,
}

/// What the tensors that go from layer to layer hold.
#[verifier::ext_equal]
pub struct Held {
    /// The hidden state.
    pub x: Cells,
    /// The value of the first layer.
    pub v_first: Cells,
    /// The last output of the recurrence.
    pub out: Cells,
    /// The states of all layers.
    pub att_shift: Seq<Cells>,
    pub ffn: Seq<Cells>,
    pub wkv: Seq<Cells>,
}

impl Math {
    /// A weight.
    pub open spec fn weight(self, w: TensorSpec) -> Cells {
        self.weights.at(w.ptr())
    }

    /// Number of elements of a shape, as the device takes it.
    pub open spec fn count(self, shape: TensorShape) -> i32 {
        shape.spec_len() as i32
    }

    /// Channels, tokens and sequences.
    pub open spec fn tokens(self) -> (i32, i32, i32) {
        (self.sh.std.d0 as i32, self.sh.std.d1 as i32, self.sh.std.d2 as i32)
    }

    /// A layer norm of the hidden state.
    pub open spec fn normed(self, ln: LayerNormHip, x: Cells) -> Cells {
        (self.kernels.layer_norm)(
            Elem::F16,
            (self.sh.std.d0 as i32, self.sh.std.vectors() as i32, LAYER_NORM_EPS),
            x,
            self.weight(ln.weight@),
            self.weight(ln.bias@),
        )
    }

    /// Every token mixed with the one before it.
    pub open spec fn mixed(self, x: Cells, before: Cells, mix: TensorSpec) -> Cells {
        (self.kernels.token_mix)(Elem::F16, self.tokens(), x, before, self.weight(mix))
    }

    /// The last real token of each sequence: the token-shift state of the next pass.
    pub open spec fn carried(self, x: Cells, before: Cells, lens: Cells) -> Cells {
        self.kernels.mapped(
            Unary::Copy,
            Elem::F16,
            self.count(self.sh.state),
            (self.kernels.last_token)(Elem::F16, self.tokens(), x, before, Some(lens)),
        )
    }

    /// A weight matrix times the tokens.
    pub open spec fn projected(self, w: TensorSpec, x: Cells) -> Cells {
        (self.kernels.product)(
            Gemm::Half,
            (w.shape().d0 as i32, self.sh.std.d1 as i32, w.shape().d1 as i32),
            self.weight(w),
            x,
        )
    }

    /// A function of every element.
    pub open spec fn each(self, op: Unary, shape: TensorShape, x: Cells) -> Cells {
        self.kernels.mapped(op, Elem::F16, self.count(shape), x)
    }

    /// Two hidden states, element by element.
    pub open spec fn both(self, op: Binary, x: Cells, y: Cells) -> Cells {
        self.kernels.zipped(op, Elem::F16, self.count(self.sh.std), x, y)
    }

    /// A hidden state with a vector repeated for every token.
    pub open spec fn along(self, op: Binary, x: Cells, v: TensorSpec) -> Cells {
        self.kernels.spread(
            op,
            Elem::F16,
            self.count(self.sh.std),
            x,
            self.weight(v),
            v.len() as i32,
        )
    }

    /// The decay: `w0 + tanh(x w1) w2`, brought to where its exponential lies between 0 and 1.
    pub open spec fn decay(self, layer: LayerHip, x: Cells) -> Cells {
        let low = self.each(Unary::Tanh, self.sh.lora_w, self.projected(layer.att.w1@, x));
        self.each(
            Unary::SoftplusDecay,
            self.sh.std,
            self.along(Binary::Add, self.projected(layer.att.w2@, low), layer.att.w0@),
        )
    }

    /// `sigmoid(b + (x m1) m2)`.
    pub open spec fn low_rank_gate(
        self,
        b: TensorSpec,
        m1: TensorSpec,
        m2: TensorSpec,
        x: Cells,
    ) -> Cells {
        self.each(
            Unary::Sigmoid,
            self.sh.std,
            self.along(Binary::Add, self.projected(m2, self.projected(m1, x)), b),
        )
    }

    /// The adaptation: the rate at which the state learns.
    pub open spec fn adaptation(self, layer: LayerHip, x: Cells) -> Cells {
        self.low_rank_gate(layer.att.a0@, layer.att.a1@, layer.att.a2@, x)
    }

    /// What gates the attention: `sigmoid(x g1) g2`.
    pub open spec fn gate(self, layer: LayerHip, x: Cells) -> Cells {
        self.projected(
            layer.att.g2@,
            self.each(Unary::Sigmoid, self.sh.lora_g, self.projected(layer.att.g1@, x)),
        )
    }

    /// The value of a layer before it is blended.
    pub open spec fn own_value(self, layer: LayerHip, x: Cells) -> Cells {
        self.projected(layer.att.w_v@, x)
    }

    /// The value of a layer: behind the first layer, its own one, moved by a gate towards that of
    /// the first layer.
    pub open spec fn value(self, idx: usize, layer: LayerHip, x: Cells, first: Cells) -> Cells {
        match (layer.att.v0, layer.att.v1, layer.att.v2) {
            (Some(v0), Some(v1), Some(v2)) if idx > 0 => self.kernels.blended(
                Elem::F16,
                self.count(self.sh.std),
                self.own_value(layer, x),
                first,
                self.low_rank_gate(v0@, v1@, v2@, x),
            ),
            _ => self.own_value(layer, x),
        }
    }

    /// The value of the first layer, as later layers find it.
    pub open spec fn first_value(self, idx: usize, layer: LayerHip, x: Cells, first: Cells) -> Cells {
        if idx > 0 {
            first
        } else {
            self.each(Unary::Copy, self.sh.std, self.own_value(layer, x))
        }
    }

    /// The direction of a key in each head.
    pub open spec fn direction(self, layer: LayerHip, key: Cells) -> Cells {
        (self.kernels.l2_norm)(
            Elem::F16,
            (
                self.sh.std.d0 as i32,
                self.sh.std.vectors() as i32,
                self.info.head_size as i32,
                L2_NORM_EPS,
            ),
            self.along(Binary::Mul, key, layer.att.k_k@),
        )
    }

    /// The key that goes into the state.
    pub open spec fn controlled(self, layer: LayerHip, a: Cells, key: Cells) -> Cells {
        self.kernels.controlled(Elem::F16, self.tokens(), self.weight(layer.att.k_a@), a, key)
    }

    /// What the recurrence reads, with the raw decay: receptance, key and value go in under their
    /// own names, the state loses what lies in the direction of the key, and gets a part of it
    /// back.
    pub open spec fn recurrent(
        self,
        idx: usize,
        layer: LayerHip,
        x: Cells,
        shift: Cells,
        first: Cells,
    ) -> Recurrent {
        let a = self.adaptation(layer, self.mixed(x, shift, layer.att.x_a@));
        let key = self.projected(layer.att.w_k@, self.mixed(x, shift, layer.att.x_k@));
        let kk = self.direction(layer, key);
        Recurrent {
            w: self.decay(layer, self.mixed(x, shift, layer.att.x_w@)),
            r: self.projected(layer.att.w_r@, self.mixed(x, shift, layer.att.x_r@)),
            k: self.controlled(layer, a, key),
            v: self.value(idx, layer, self.mixed(x, shift, layer.att.x_v@), first),
            a: self.each(Unary::Negate, self.sh.std, kk),
            b: self.both(Binary::Mul, kk, a),
        }
    }

    /// The same with the exponential of the decay.
    pub open spec fn decayed(self, n: Recurrent) -> Recurrent {
        Recurrent { w: self.each(Unary::DecayExp, self.sh.std, n.w), ..n }
    }

    /// Sizes of the chunked attention.
    pub open spec fn chunk_sizes(self, f: FlaWkvSpec, n: int) -> (i32, i32, i32, i32) {
        (self.sh.wkv_data.d0 as i32, self.sh.wkv_data.d1 as i32, f.chunk_size as i32, n as i32)
    }

    /// Output and new state of the chunked attention over the chunks of a plan.
    pub open spec fn chunked(
        self,
        f: FlaWkvSpec,
        plan: ChunkPlan,
        n: Recurrent,
        state: Cells,
    ) -> (Cells, Cells) {
        let k = self.kernels;
        let size = self.chunk_sizes(f, plan.total as int);
        let chunks = host_cells(DataSpec::I32(plan.indices));
        let offsets = host_cells(DataSpec::I32(plan.offsets));
        let bounds = host_cells(DataSpec::I32(plan.bounds));
        let sums = (k.cumsum)(
            size,
            k.neg_exped(self.count(self.sh.wkv_data), n.w),
            chunks,
            bounds,
        );
        let i = (k.intra)(
            size,
            Intra { q: n.r, k: n.k, a: n.a, b: n.b, gi: sums.0, ge: sums.1 },
            chunks,
            bounds,
        );
        let y = (k.wy_repr)(
            size,
            WyRepr { a_ab: i.a_ab, a_ak: i.a_ak, ag: i.ag, v: n.v },
            chunks,
            bounds,
        );
        let h = (k.chunk_h)(
            self.chunk_sizes(f, f.batch_size as int),
            ChunkH { kg: i.kg, bg: i.bg, v: n.v, w: y.1, u: y.2, gi: sums.0, state },
            offsets,
            bounds,
        );
        let out = (k.chunk_o)(
            size,
            ChunkO { qg: i.qg, v: n.v, v_new: h.2, a_qk: i.a_qk, a_qb: i.a_qb, h: h.1 },
            chunks,
            bounds,
        );
        (out, h.0)
    }

    /// Output and new state of the recurrence. Without chunks nothing is done.
    pub open spec fn recurrence(
        self,
        choice: WkvChoiceSpec,
        n: Recurrent,
        state: Cells,
        lens: Cells,
        stale: Cells,
    ) -> (Cells, Cells) {
        let d = self.sh.wkv_data;
        match choice {
            WkvChoiceSpec::Fla { kernel, lengths } => {
                let plan = chunk_plan(
                    cu_seqlens(lengths, kernel.seq_len, kernel.batch_size),
                    kernel.chunk_size as int,
                );
                if plan.total == 0 {
                    (stale, state)
                } else {
                    self.chunked(kernel, plan, n, state)
                }
            },
            WkvChoiceSpec::FusedT1 => (self.kernels.wkv_one)(
                (d.d0 as i32, d.d1 as i32, d.d3 as i32),
                self.decayed(n),
                state,
                lens,
            ),
            WkvChoiceSpec::Masked { .. } => {
                let y = (self.kernels.wkv)(
                    Wkv7::F16Masked,
                    (d.d0 as i32, d.d1 as i32, d.d2 as i32, d.d3 as i32),
                    self.decayed(n),
                    state,
                    Some(lens),
                );
                (
                    y.0,
                    self.kernels.mapped(
                        Unary::Copy,
                        Elem::F32,
                        self.count(self.sh.wkv_state),
                        y.1,
                    ),
                )
            },
        }
    }

    /// What the attention of a layer gives, from the output of its recurrence: normalised in each
    /// head, with what the current token adds, gated and projected.
    pub open spec fn spoken(self, layer: LayerHip, n: Recurrent, g: Cells, out: Cells) -> Cells {
        let d = self.sh.wkv_data;
        let heads = (self.kernels.group_norm)(
            Elem::F16,
            (
                self.sh.std.d0 as i32,
                self.sh.std.vectors() as i32,
                self.info.n_head as i32,
                GROUP_NORM_EPS,
            ),
            out,
            self.weight(layer.att.gn.weight@),
            self.weight(layer.att.gn.bias@),
        );
        let bonus = (self.kernels.bonus)(
            Elem::F16,
            (d.d0 as i32, d.d1 as i32, d.d2 as i32, d.d3 as i32),
            n.r,
            n.k,
            n.v,
            self.weight(layer.att.r_k@),
        );
        self.projected(
            layer.att.w_o@,
            self.both(Binary::Mul, self.both(Binary::Add, heads, bonus), g),
        )
    }

    /// The attention of a layer. What it gives is added to the hidden state.
    pub open spec fn attention(
        self,
        idx: usize,
        layer: LayerHip,
        choice: WkvChoiceSpec,
        x: Cells,
        shift: Cells,
        state: Cells,
        first: Cells,
        lens: Cells,
        stale: Cells,
    ) -> Attended {
        let xn = self.normed(layer.att_ln, x);
        let n = self.recurrent(idx, layer, xn, shift, first);
        let y = self.recurrence(choice, n, state, lens, stale);
        let g = self.gate(layer, self.mixed(xn, shift, layer.att.x_g@));
        Attended {
            x: self.both(Binary::Add, x, self.spoken(layer, n, g, y.0)),
            shift: self.carried(xn, shift, lens),
            state: y.1,
            v_first: self.first_value(idx, layer, self.mixed(xn, shift, layer.att.x_v@), first),
            out: y.0,
        }
    }

    /// What the feed-forward part of a layer gives: `max(x k, 0)^2 v`.
    pub open spec fn fed(self, layer: LayerHip, x: Cells, shift: Cells) -> Cells {
        let hidden = self.projected(layer.ffn.w_k@, self.mixed(x, shift, layer.ffn.x_k@));
        self.projected(layer.ffn.w_v@, self.each(Unary::SquaredRelu, self.sh.ffn, hidden))
    }

    /// The hidden state after the feed-forward part of a layer.
    pub open spec fn feed_forward(self, layer: LayerHip, x: Cells, shift: Cells) -> Cells {
        self.both(Binary::Add, x, self.fed(layer, self.normed(layer.ffn_ln, x), shift))
    }

    /// The logits of a hidden state.
    pub open spec fn logits(self, head: HeadHip, x: Cells) -> Cells {
        self.projected(head.w@, self.normed(head.ln, x))
    }

    /// One layer: the attention and the feed-forward part, each with its residual. The first layer
    /// starts with the norm of the embedding. The states of other layers stay.
    pub open spec fn layer(
        self,
        model: Rwkv7Model,
        idx: usize,
        choice: WkvChoiceSpec,
        lens: Cells,
        z: Held,
    ) -> Held {
        let i = idx as int;
        let layer = model.layers@[i];
        let x = if idx == 0 {
            self.each(Unary::Copy, self.sh.std, self.normed(model.embed.ln, z.x))
        } else {
            z.x
        };
        let y = self.attention(
            idx,
            layer,
            choice,
            x,
            z.att_shift[i],
            z.wkv[i],
            z.v_first,
            lens,
            z.out,
        );
        Held {
            x: self.feed_forward(layer, y.x, z.ffn[i]),
            v_first: y.v_first,
            out: y.out,
            att_shift: z.att_shift.update(i, y.shift),
            ffn: z.ffn.update(i, self.carried(self.normed(layer.ffn_ln, y.x), z.ffn[i], lens)),
            wkv: z.wkv.update(i, y.state),
        }
    }

    /// The first `n` layers.
    pub open spec fn layers(
        self,
        model: Rwkv7Model,
        n: nat,
        choice: WkvChoiceSpec,
        lens: Cells,
        z: Held,
    ) -> Held
        decreases n,
    {
        if n == 0 {
            z
        } else {
            self.layer(
                model,
                (n - 1) as usize,
                choice,
                lens,
                self.layers(model, (n - 1) as nat, choice, lens, z),
            )
        }
    }
}

} // verus!
