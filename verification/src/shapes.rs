//! Shapes of the tensors of a pass.
use crate::model::Rwkv7ModelInfo;
use crate::scratch::LoraDims;
use crate::tensor::TensorShape;
use vstd::prelude::*;

verus! {

/// Shapes of the tensors of one pass over `t` tokens of each of `b` sequences.
#[derive(Debug, Clone, Copy)]
pub struct PassShapes {
    pub std: TensorShape,
    pub ffn: TensorShape,
    pub out: TensorShape,
    pub state: TensorShape,
    pub wkv_data: TensorShape,
    pub wkv_state: TensorShape,
    pub lora_w: TensorShape,
    pub lora_a: TensorShape,
    pub lora_g: TensorShape,
    pub lora_v: TensorShape,
    pub lens: TensorShape,
}

impl PassShapes {
    /// The shapes for a model and a pass.
    pub open spec fn of(info: Rwkv7ModelInfo, lora: LoraDims, t: usize, b: usize) -> PassShapes {
        PassShapes {
            std: TensorShape::of(info.n_embd, t, b, 1),
            ffn: TensorShape::of(info.n_hidden, t, b, 1),
            out: TensorShape::of(info.n_vocab, t, b, 1),
            state: TensorShape::of(info.n_embd, b, 1, 1),
            wkv_data: TensorShape::of(info.head_size, info.n_head, t, b),
            wkv_state: TensorShape::of(info.head_size, info.head_size, info.n_head, b),
            lora_w: TensorShape::of(lora.w_dim, t, b, 1),
            lora_a: TensorShape::of(lora.a_dim, t, b, 1),
            lora_g: TensorShape::of(lora.g_dim, t, b, 1),
            lora_v: TensorShape::of(lora.v_rank(), t, b, 1),
            lens: TensorShape::of(b, 1, 1, 1),
        }
    }

    /// Whether every shape has a machine integer of elements.
    pub open spec fn fits(self) -> bool {
        &&& self.std.fits()
        &&& self.ffn.fits()
        &&& self.out.fits()
        &&& self.state.fits()
        &&& self.wkv_data.fits()
        &&& self.wkv_state.fits()
        &&& self.lora_w.fits()
        &&& self.lora_a.fits()
        &&& self.lora_g.fits()
        &&& self.lora_v.fits()
        &&& self.lens.fits()
    }

    pub fn new(info: &Rwkv7ModelInfo, lora: &LoraDims, t: usize, b: usize) -> (s: PassShapes)
        ensures
            s == PassShapes::of(*info, *lora, t, b),
    {
        let v_rank: usize = match lora.v_dim {
            Some(v) => v,
            None => 1,
        };
        PassShapes {
            std: TensorShape::new(info.n_embd, t, b, 1),
            ffn: TensorShape::new(info.n_hidden, t, b, 1),
            out: TensorShape::new(info.n_vocab, t, b, 1),
            state: TensorShape::new(info.n_embd, b, 1, 1),
            wkv_data: TensorShape::new(info.head_size, info.n_head, t, b),
            wkv_state: TensorShape::new(info.head_size, info.head_size, info.n_head, b),
            lora_w: TensorShape::new(lora.w_dim, t, b, 1),
            lora_a: TensorShape::new(lora.a_dim, t, b, 1),
            lora_g: TensorShape::new(lora.g_dim, t, b, 1),
            lora_v: TensorShape::new(v_rank, t, b, 1),
            lens: TensorShape::new(b, 1, 1, 1),
        }
    }
}

/// Shapes of the tensors of the chunked linear attention.
#[derive(Debug, Clone, Copy)]
pub struct FlaShapes {
    pub token: TensorShape,
    pub matrix: TensorShape,
    pub state: TensorShape,
}

impl FlaShapes {
    /// The shapes for `total` chunks of `c` tokens, over `t` tokens of each of `b` sequences.
    pub open spec fn of(
        head_size: usize,
        n_head: usize,
        c: usize,
        total: usize,
        t: usize,
        b: usize,
    ) -> FlaShapes {
        FlaShapes {
            token: TensorShape::of(head_size, n_head, t, b),
            matrix: TensorShape::of(c, c, n_head, total),
            state: TensorShape::of(head_size, head_size, n_head, total),
        }
    }

    /// Whether every shape has a machine integer of elements.
    pub open spec fn fits(self) -> bool {
        self.token.fits() && self.matrix.fits() && self.state.fits()
    }

    pub fn new(
        head_size: usize,
        n_head: usize,
        c: usize,
        total: usize,
        t: usize,
        b: usize,
    ) -> (s: FlaShapes)
        ensures
            s == FlaShapes::of(head_size, n_head, c, total, t, b),
    {
        FlaShapes {
            token: TensorShape::new(head_size, n_head, t, b),
            matrix: TensorShape::new(c, c, n_head, total),
            state: TensorShape::new(head_size, head_size, n_head, total),
        }
    }
}

/// Position of a channel of a token of a sequence, where tensors hold the channels of a token
/// together, then the tokens of a sequence, then the sequences.
pub open spec fn place(channels: int, t: int, sequence: int, token: int, channel: int) -> int {
    (sequence * t + token) * channels + channel
}

/// Hidden states, hidden layers of the feed-forward part, logits and low-rank values all hold the
/// channels of a token together, then the tokens of a sequence, then the sequences.
pub proof fn law_tokens_lie_in_order(
    info: Rwkv7ModelInfo,
    lora: LoraDims,
    t: usize,
    b: usize,
    sequence: int,
    token: int,
    channel: int,
)
    requires
        PassShapes::of(info, lora, t, b).fits(),
    ensures
        ({
            let sh = PassShapes::of(info, lora, t, b);
            &&& sh.std.at(channel, token, sequence, 0) == place(
                info.n_embd as int,
                t as int,
                sequence,
                token,
                channel,
            )
            &&& sh.ffn.at(channel, token, sequence, 0) == place(
                info.n_hidden as int,
                t as int,
                sequence,
                token,
                channel,
            )
            &&& sh.out.at(channel, token, sequence, 0) == place(
                info.n_vocab as int,
                t as int,
                sequence,
                token,
                channel,
            )
            &&& sh.lora_w.at(channel, token, sequence, 0) == place(
                lora.w_dim as int,
                t as int,
                sequence,
                token,
                channel,
            )
            &&& sh.lora_a.at(channel, token, sequence, 0) == place(
                lora.a_dim as int,
                t as int,
                sequence,
                token,
                channel,
            )
            &&& sh.lora_g.at(channel, token, sequence, 0) == place(
                lora.g_dim as int,
                t as int,
                sequence,
                token,
                channel,
            )
            &&& sh.std.spec_len() == info.n_embd * t * b
            &&& sh.ffn.spec_len() == info.n_hidden * t * b
            &&& sh.out.spec_len() == info.n_vocab * t * b
            &&& sh.lens.spec_len() == b
        }),
{
    lemma_place(info.n_embd as int, t as int, b as int, sequence, token, channel);
    lemma_place(info.n_hidden as int, t as int, b as int, sequence, token, channel);
    lemma_place(info.n_vocab as int, t as int, b as int, sequence, token, channel);
    lemma_place(lora.w_dim as int, t as int, b as int, sequence, token, channel);
    lemma_place(lora.a_dim as int, t as int, b as int, sequence, token, channel);
    lemma_place(lora.g_dim as int, t as int, b as int, sequence, token, channel);
    assert(b * 1 * 1 * 1 == b) by (nonlinear_arith);
}

proof fn lemma_place(c: int, t: int, b: int, sequence: int, token: int, channel: int)
    ensures
        channel + token * c + sequence * (c * t) + 0 * (c * t * b) == place(
            c,
            t,
            sequence,
            token,
            channel,
        ),
        c * t * b * 1 == c * t * b,
{
    assert(channel + token * c + sequence * (c * t) + 0 * (c * t * b) == (sequence * t + token) * c
        + channel) by (nonlinear_arith);
    assert(c * t * b * 1 == c * t * b) by (nonlinear_arith);
}

/// Seen by head, a hidden state is the same memory: the channels of a head stand together, head
/// after head.
pub proof fn law_heads_share_the_channels(
    info: Rwkv7ModelInfo,
    lora: LoraDims,
    t: usize,
    b: usize,
    sequence: int,
    token: int,
    head: int,
    i: int,
)
    requires
        info.n_embd == info.head_size * info.n_head,
    ensures
        ({
            let sh = PassShapes::of(info, lora, t, b);
            &&& sh.wkv_data.at(i, head, token, sequence) == sh.std.at(
                head * info.head_size + i,
                token,
                sequence,
                0,
            )
            &&& sh.wkv_data.spec_len() == sh.std.spec_len()
            &&& sh.wkv_state.spec_len() == info.head_size * info.head_size * info.n_head * b
            &&& sh.state.spec_len() == info.n_embd * b
        }),
{
    let n = info.head_size as int;
    let h = info.n_head as int;
    let c = n * h;
    lemma_place(c, t as int, b as int, sequence, token, head * n + i);
    assert(i + head * n + token * (n * h) + sequence * (n * h * t) == (head * n + i) + token * c
        + sequence * (c * t)) by (nonlinear_arith)
        requires
            c == n * h,
    ;
    assert(info.n_embd * b * 1 * 1 == info.n_embd * b) by (nonlinear_arith);
}

} // verus!
