//! Loading of a model: from the tensors of a file to weights on the device.
use crate::model::load_run::{
    holdable, is_holdable, load_part, load_weight, missing, unsupported, weight_at, LoadErrorSpec,
    LoadRun, ModelLoadError, WeightKind,
};
use crate::model::names::{layer_of, split_name, starts};
use crate::model::weights::{
    AttentionHip, EmbedHip, FfnHip, HeadHip, LayerHip, LayerNormHip,
};
use crate::model::{Rwkv7Hip, Rwkv7Model, Rwkv7ModelInfo};
use crate::probe::HipHook;
use crate::stream::{CommandOf, Stream, StreamSpec};
use crate::tensor::{TensorHip, F16};
use crate::tensor_file::{lemma_position, lookup, parsed, reads, EntrySpec, TensorFile, Values};
use crate::text::{decimal, text};
use std::sync::Arc;
use vstd::prelude::*;
use vstd::slice::slice_to_vec;

verus! {

broadcast use LoadRun::lemma_loaded;

/// Loads scale and shift of a normalisation.
pub open spec fn norm_run(s: LoadRun, list: Seq<EntrySpec>, prefix: Seq<char>) -> LoadRun {
    s.loaded(list, prefix + ".weight"@, WeightKind::Tensor).loaded(
        list,
        prefix + ".bias"@,
        WeightKind::Tensor,
    )
}

impl LayerNormHip {
    /// Whether these are scale and shift as loaded from the buffer number `next` on.
    pub open spec fn loaded_at(&self, next: int, list: Seq<EntrySpec>, prefix: Seq<char>) -> bool {
        &&& self.weight@ == weight_at(next, list, prefix + ".weight"@, WeightKind::Tensor)
        &&& self.bias@ == weight_at(next + 1, list, prefix + ".bias"@, WeightKind::Tensor)
    }
}

/// Loads scale and shift of a normalisation.
fn load_layer_norm(file: &TensorFile, prefix: &str, stream: &mut Stream) -> (r: Result<
    LayerNormHip,
    ModelLoadError,
>)
    requires
        holdable(file@),
    ensures
        norm_run(LoadRun::start(old(stream)@), file@, prefix@).agrees(final(stream)@, r),
        r matches Ok(n) ==> n.loaded_at(old(stream)@.next as int, file@, prefix@)
            && final(stream)@.next == old(stream)@.next + 2,
{
    let weight = load_part(file, prefix, ".weight", WeightKind::Tensor, stream)?;
    let bias = load_part(file, prefix, ".bias", WeightKind::Tensor, stream)?;
    Ok(LayerNormHip { weight, bias })
}

/// The beginning of the names of a layer's weights.
pub open spec fn layer_prefix(i: int) -> Seq<char> {
    "blocks."@ + decimal(i as nat)
}

/// Weights of a layer: the mixes of the token shift.
struct Mixes {
    x_r: TensorHip<F16>,
    x_w: TensorHip<F16>,
    x_k: TensorHip<F16>,
    x_v: TensorHip<F16>,
    x_a: TensorHip<F16>,
    x_g: TensorHip<F16>,
}

/// Loads the mixes of the token shift.
#[verifier::opaque]
pub open spec fn mixes_run(s: LoadRun, list: Seq<EntrySpec>, p: Seq<char>) -> LoadRun {
    s.loaded(list, p + ".att.x_r"@, WeightKind::Tensor).loaded(list, p + ".att.x_w"@, WeightKind::Tensor).loaded(list, p + ".att.x_k"@, WeightKind::Tensor).loaded(list, p + ".att.x_v"@, WeightKind::Tensor).loaded(list, p + ".att.x_a"@, WeightKind::Tensor).loaded(list, p + ".att.x_g"@, WeightKind::Tensor)
}

impl Mixes {
    spec fn loaded_at(&self, next: int, list: Seq<EntrySpec>, p: Seq<char>) -> bool {
        &&& self.x_r@ == weight_at(next + 0, list, p + ".att.x_r"@, WeightKind::Tensor)
        &&& self.x_w@ == weight_at(next + 1, list, p + ".att.x_w"@, WeightKind::Tensor)
        &&& self.x_k@ == weight_at(next + 2, list, p + ".att.x_k"@, WeightKind::Tensor)
        &&& self.x_v@ == weight_at(next + 3, list, p + ".att.x_v"@, WeightKind::Tensor)
        &&& self.x_a@ == weight_at(next + 4, list, p + ".att.x_a"@, WeightKind::Tensor)
        &&& self.x_g@ == weight_at(next + 5, list, p + ".att.x_g"@, WeightKind::Tensor)
    }

    fn load(file: &TensorFile, p: &str, stream: &mut Stream) -> (r: Result<Mixes, ModelLoadError>)
        requires
            holdable(file@),
        ensures
            mixes_run(LoadRun::start(old(stream)@), file@, p@).agrees(final(stream)@, r),
            r matches Ok(w) ==> w.loaded_at(old(stream)@.next as int, file@, p@)
                && final(stream)@.next == old(stream)@.next + 6,
    {
        reveal(mixes_run);
        let x_r = load_part(file, p, ".att.x_r", WeightKind::Tensor, stream)?;
        let x_w = load_part(file, p, ".att.x_w", WeightKind::Tensor, stream)?;
        let x_k = load_part(file, p, ".att.x_k", WeightKind::Tensor, stream)?;
        let x_v = load_part(file, p, ".att.x_v", WeightKind::Tensor, stream)?;
        let x_a = load_part(file, p, ".att.x_a", WeightKind::Tensor, stream)?;
        let x_g = load_part(file, p, ".att.x_g", WeightKind::Tensor, stream)?;
        Ok(Mixes { x_r, x_w, x_k, x_v, x_a, x_g })
    }
}

/// Weights of a layer: the factors of decay, adaptation and gate.
struct Ranks {
    w0: TensorHip<F16>,
    w1: TensorHip<F16>,
    w2: TensorHip<F16>,
    a0: TensorHip<F16>,
    a1: TensorHip<F16>,
    a2: TensorHip<F16>,
    g1: TensorHip<F16>,
    g2: TensorHip<F16>,
}

/// Loads the factors of decay, adaptation and gate.
#[verifier::opaque]
pub open spec fn ranks_run(s: LoadRun, list: Seq<EntrySpec>, p: Seq<char>) -> LoadRun {
    s.loaded(list, p + ".att.w0"@, WeightKind::Tensor).loaded(list, p + ".att.w1"@, WeightKind::Matrix).loaded(list, p + ".att.w2"@, WeightKind::Matrix).loaded(list, p + ".att.a0"@, WeightKind::Tensor).loaded(list, p + ".att.a1"@, WeightKind::Matrix).loaded(list, p + ".att.a2"@, WeightKind::Matrix).loaded(list, p + ".att.g1"@, WeightKind::Matrix).loaded(list, p + ".att.g2"@, WeightKind::Matrix)
}

impl Ranks {
    spec fn loaded_at(&self, next: int, list: Seq<EntrySpec>, p: Seq<char>) -> bool {
        &&& self.w0@ == weight_at(next + 0, list, p + ".att.w0"@, WeightKind::Tensor)
        &&& self.w1@ == weight_at(next + 1, list, p + ".att.w1"@, WeightKind::Matrix)
        &&& self.w2@ == weight_at(next + 2, list, p + ".att.w2"@, WeightKind::Matrix)
        &&& self.a0@ == weight_at(next + 3, list, p + ".att.a0"@, WeightKind::Tensor)
        &&& self.a1@ == weight_at(next + 4, list, p + ".att.a1"@, WeightKind::Matrix)
        &&& self.a2@ == weight_at(next + 5, list, p + ".att.a2"@, WeightKind::Matrix)
        &&& self.g1@ == weight_at(next + 6, list, p + ".att.g1"@, WeightKind::Matrix)
        &&& self.g2@ == weight_at(next + 7, list, p + ".att.g2"@, WeightKind::Matrix)
    }

    fn load(file: &TensorFile, p: &str, stream: &mut Stream) -> (r: Result<Ranks, ModelLoadError>)
        requires
            holdable(file@),
        ensures
            ranks_run(LoadRun::start(old(stream)@), file@, p@).agrees(final(stream)@, r),
            r matches Ok(w) ==> w.loaded_at(old(stream)@.next as int, file@, p@)
                && final(stream)@.next == old(stream)@.next + 8,
    {
        reveal(ranks_run);
        let w0 = load_part(file, p, ".att.w0", WeightKind::Tensor, stream)?;
        let w1 = load_part(file, p, ".att.w1", WeightKind::Matrix, stream)?;
        let w2 = load_part(file, p, ".att.w2", WeightKind::Matrix, stream)?;
        let a0 = load_part(file, p, ".att.a0", WeightKind::Tensor, stream)?;
        let a1 = load_part(file, p, ".att.a1", WeightKind::Matrix, stream)?;
        let a2 = load_part(file, p, ".att.a2", WeightKind::Matrix, stream)?;
        let g1 = load_part(file, p, ".att.g1", WeightKind::Matrix, stream)?;
        let g2 = load_part(file, p, ".att.g2", WeightKind::Matrix, stream)?;
        Ok(Ranks { w0, w1, w2, a0, a1, a2, g1, g2 })
    }
}

/// Weights of a layer: the factors of the value residual.
struct Residual {
    v0: TensorHip<F16>,
    v1: TensorHip<F16>,
    v2: TensorHip<F16>,
}

/// Loads the factors of the value residual.
#[verifier::opaque]
pub open spec fn residual_run(s: LoadRun, list: Seq<EntrySpec>, p: Seq<char>) -> LoadRun {
    s.loaded(list, p + ".att.v0"@, WeightKind::Tensor).loaded(list, p + ".att.v1"@, WeightKind::Matrix).loaded(list, p + ".att.v2"@, WeightKind::Matrix)
}

impl Residual {
    spec fn loaded_at(&self, next: int, list: Seq<EntrySpec>, p: Seq<char>) -> bool {
        &&& self.v0@ == weight_at(next + 0, list, p + ".att.v0"@, WeightKind::Tensor)
        &&& self.v1@ == weight_at(next + 1, list, p + ".att.v1"@, WeightKind::Matrix)
        &&& self.v2@ == weight_at(next + 2, list, p + ".att.v2"@, WeightKind::Matrix)
    }

    fn load(file: &TensorFile, p: &str, stream: &mut Stream) -> (r: Result<Residual, ModelLoadError>)
        requires
            holdable(file@),
        ensures
            residual_run(LoadRun::start(old(stream)@), file@, p@).agrees(final(stream)@, r),
            r matches Ok(w) ==> w.loaded_at(old(stream)@.next as int, file@, p@)
                && final(stream)@.next == old(stream)@.next + 3,
    {
        reveal(residual_run);
        let v0 = load_part(file, p, ".att.v0", WeightKind::Tensor, stream)?;
        let v1 = load_part(file, p, ".att.v1", WeightKind::Matrix, stream)?;
        let v2 = load_part(file, p, ".att.v2", WeightKind::Matrix, stream)?;
        Ok(Residual { v0, v1, v2 })
    }
}

/// Weights of a layer: the vectors of the key and the projections.
struct Keys {
    r_k: TensorHip<F16>,
    k_k: TensorHip<F16>,
    k_a: TensorHip<F16>,
    w_r: TensorHip<F16>,
    w_k: TensorHip<F16>,
    w_v: TensorHip<F16>,
    w_o: TensorHip<F16>,
}

/// Loads the vectors of the key and the projections.
#[verifier::opaque]
pub open spec fn keys_run(s: LoadRun, list: Seq<EntrySpec>, p: Seq<char>) -> LoadRun {
    s.loaded(list, p + ".att.r_k"@, WeightKind::Tensor).loaded(list, p + ".att.k_k"@, WeightKind::Tensor).loaded(list, p + ".att.k_a"@, WeightKind::Tensor).loaded(list, p + ".att.receptance.weight"@, WeightKind::Matrix).loaded(list, p + ".att.key.weight"@, WeightKind::Matrix).loaded(list, p + ".att.value.weight"@, WeightKind::Matrix).loaded(list, p + ".att.output.weight"@, WeightKind::Matrix)
}

impl Keys {
    spec fn loaded_at(&self, next: int, list: Seq<EntrySpec>, p: Seq<char>) -> bool {
        &&& self.r_k@ == weight_at(next + 0, list, p + ".att.r_k"@, WeightKind::Tensor)
        &&& self.k_k@ == weight_at(next + 1, list, p + ".att.k_k"@, WeightKind::Tensor)
        &&& self.k_a@ == weight_at(next + 2, list, p + ".att.k_a"@, WeightKind::Tensor)
        &&& self.w_r@ == weight_at(next + 3, list, p + ".att.receptance.weight"@, WeightKind::Matrix)
        &&& self.w_k@ == weight_at(next + 4, list, p + ".att.key.weight"@, WeightKind::Matrix)
        &&& self.w_v@ == weight_at(next + 5, list, p + ".att.value.weight"@, WeightKind::Matrix)
        &&& self.w_o@ == weight_at(next + 6, list, p + ".att.output.weight"@, WeightKind::Matrix)
    }

    fn load(file: &TensorFile, p: &str, stream: &mut Stream) -> (r: Result<Keys, ModelLoadError>)
        requires
            holdable(file@),
        ensures
            keys_run(LoadRun::start(old(stream)@), file@, p@).agrees(final(stream)@, r),
            r matches Ok(w) ==> w.loaded_at(old(stream)@.next as int, file@, p@)
                && final(stream)@.next == old(stream)@.next + 7,
    {
        reveal(keys_run);
        let r_k = load_part(file, p, ".att.r_k", WeightKind::Tensor, stream)?;
        let k_k = load_part(file, p, ".att.k_k", WeightKind::Tensor, stream)?;
        let k_a = load_part(file, p, ".att.k_a", WeightKind::Tensor, stream)?;
        let w_r = load_part(file, p, ".att.receptance.weight", WeightKind::Matrix, stream)?;
        let w_k = load_part(file, p, ".att.key.weight", WeightKind::Matrix, stream)?;
        let w_v = load_part(file, p, ".att.value.weight", WeightKind::Matrix, stream)?;
        let w_o = load_part(file, p, ".att.output.weight", WeightKind::Matrix, stream)?;
        Ok(Keys { r_k, k_k, k_a, w_r, w_k, w_v, w_o })
    }
}

/// Loads the weights of one layer. The first has no value residual.
#[verifier::opaque]
pub open spec fn layer_run(s: LoadRun, list: Seq<EntrySpec>, i: int) -> LoadRun {
    let p = layer_prefix(i);
    let s = s.step(|s: LoadRun| norm_run(s, list, p + ".ln1"@)).step(
        |s: LoadRun| norm_run(s, list, p + ".ln2"@),
    ).step(|s: LoadRun| mixes_run(s, list, p)).step(|s: LoadRun| ranks_run(s, list, p));
    let s = if i > 0 {
        s.step(|s: LoadRun| residual_run(s, list, p))
    } else {
        s
    };
    s.step(|s: LoadRun| keys_run(s, list, p)).step(
        |s: LoadRun| norm_run(s, list, p + ".att.ln_x"@),
    ).loaded(list, p + ".ffn.x_k"@, WeightKind::Tensor).loaded(
        list,
        p + ".ffn.key.weight"@,
        WeightKind::Matrix,
    ).loaded(list, p + ".ffn.value.weight"@, WeightKind::Matrix)
}

/// Number of buffers that the weights of a layer take.
pub open spec fn layer_buffers(i: int) -> int {
    if i > 0 {
        33
    } else {
        30
    }
}

/// First buffer number of a layer, counted from that of the first one.
pub open spec fn layer_offset(i: int) -> int {
    if i > 0 {
        33 * i - 3
    } else {
        0
    }
}

impl LayerHip {
    /// Whether these are the weights of a layer as loaded from the buffer number `next` on.
    pub open spec fn loaded_at(&self, next: int, list: Seq<EntrySpec>, i: int) -> bool {
        let p = layer_prefix(i);
        let a = self.att;
        let k = next + layer_buffers(i) - 12;
        &&& self.att_ln.loaded_at(next, list, p + ".ln1"@)
        &&& self.ffn_ln.loaded_at(next + 2, list, p + ".ln2"@)
        &&& a.x_r@ == weight_at(next + 4, list, p + ".att.x_r"@, WeightKind::Tensor)
        &&& a.x_w@ == weight_at(next + 5, list, p + ".att.x_w"@, WeightKind::Tensor)
        &&& a.x_k@ == weight_at(next + 6, list, p + ".att.x_k"@, WeightKind::Tensor)
        &&& a.x_v@ == weight_at(next + 7, list, p + ".att.x_v"@, WeightKind::Tensor)
        &&& a.x_a@ == weight_at(next + 8, list, p + ".att.x_a"@, WeightKind::Tensor)
        &&& a.x_g@ == weight_at(next + 9, list, p + ".att.x_g"@, WeightKind::Tensor)
        &&& a.w0@ == weight_at(next + 10, list, p + ".att.w0"@, WeightKind::Tensor)
        &&& a.w1@ == weight_at(next + 11, list, p + ".att.w1"@, WeightKind::Matrix)
        &&& a.w2@ == weight_at(next + 12, list, p + ".att.w2"@, WeightKind::Matrix)
        &&& a.a0@ == weight_at(next + 13, list, p + ".att.a0"@, WeightKind::Tensor)
        &&& a.a1@ == weight_at(next + 14, list, p + ".att.a1"@, WeightKind::Matrix)
        &&& a.a2@ == weight_at(next + 15, list, p + ".att.a2"@, WeightKind::Matrix)
        &&& a.g1@ == weight_at(next + 16, list, p + ".att.g1"@, WeightKind::Matrix)
        &&& a.g2@ == weight_at(next + 17, list, p + ".att.g2"@, WeightKind::Matrix)
        &&& a.v0 is Some == (i > 0)
        &&& a.v0 matches Some(t) ==> t@ == weight_at(
            next + 18,
            list,
            p + ".att.v0"@,
            WeightKind::Tensor,
        )
        &&& a.v1 is Some == (i > 0)
        &&& a.v1 matches Some(t) ==> t@ == weight_at(
            next + 19,
            list,
            p + ".att.v1"@,
            WeightKind::Matrix,
        )
        &&& a.v2 is Some == (i > 0)
        &&& a.v2 matches Some(t) ==> t@ == weight_at(
            next + 20,
            list,
            p + ".att.v2"@,
            WeightKind::Matrix,
        )
        &&& a.r_k@ == weight_at(k + 0, list, p + ".att.r_k"@, WeightKind::Tensor)
        &&& a.k_k@ == weight_at(k + 1, list, p + ".att.k_k"@, WeightKind::Tensor)
        &&& a.k_a@ == weight_at(k + 2, list, p + ".att.k_a"@, WeightKind::Tensor)
        &&& a.w_r@ == weight_at(k + 3, list, p + ".att.receptance.weight"@, WeightKind::Matrix)
        &&& a.w_k@ == weight_at(k + 4, list, p + ".att.key.weight"@, WeightKind::Matrix)
        &&& a.w_v@ == weight_at(k + 5, list, p + ".att.value.weight"@, WeightKind::Matrix)
        &&& a.w_o@ == weight_at(k + 6, list, p + ".att.output.weight"@, WeightKind::Matrix)
        &&& a.gn.loaded_at(k + 7, list, p + ".att.ln_x"@)
        &&& self.ffn.x_k@ == weight_at(k + 9, list, p + ".ffn.x_k"@, WeightKind::Tensor)
        &&& self.ffn.w_k@ == weight_at(k + 10, list, p + ".ffn.key.weight"@, WeightKind::Matrix)
        &&& self.ffn.w_v@ == weight_at(k + 11, list, p + ".ffn.value.weight"@, WeightKind::Matrix)
    }

    /// Loads the weights of one layer.
    fn load(file: &TensorFile, i: usize, stream: &mut Stream) -> (r: Result<
        LayerHip,
        ModelLoadError,
    >)
        requires
            holdable(file@),
        ensures
            layer_run(LoadRun::start(old(stream)@), file@, i as int).agrees(final(stream)@, r),
            r matches Ok(l) ==> l.loaded_at(old(stream)@.next as int, file@, i as int)
                && final(stream)@.next == old(stream)@.next + layer_buffers(i as int),
    {
        reveal(layer_run);
        let prefix = text("blocks.").num(i).done();
        let p = prefix.as_str();
        let ln1 = text(p).lit(".ln1").done();
        let att_ln = load_layer_norm(file, ln1.as_str(), stream)?;
        let ln2 = text(p).lit(".ln2").done();
        let ffn_ln = load_layer_norm(file, ln2.as_str(), stream)?;
        let m = Mixes::load(file, p, stream)?;
        let f = Ranks::load(file, p, stream)?;
        let v: Option<Residual> = if i > 0 {
            Some(Residual::load(file, p, stream)?)
        } else {
            None
        };
        let k = Keys::load(file, p, stream)?;
        let ln_x = text(p).lit(".att.ln_x").done();
        let gn = load_layer_norm(file, ln_x.as_str(), stream)?;
        let x_k = load_part(file, p, ".ffn.x_k", WeightKind::Tensor, stream)?;
        let w_k = load_part(file, p, ".ffn.key.weight", WeightKind::Matrix, stream)?;
        let w_v = load_part(file, p, ".ffn.value.weight", WeightKind::Matrix, stream)?;
        let (v0, v1, v2) = match v {
            Some(v) => (Some(v.v0), Some(v.v1), Some(v.v2)),
            None => (None, None, None),
        };
        let att = AttentionHip {
            x_r: m.x_r,
            x_w: m.x_w,
            x_k: m.x_k,
            x_v: m.x_v,
            x_a: m.x_a,
            x_g: m.x_g,
            w0: f.w0,
            w1: f.w1,
            w2: f.w2,
            a0: f.a0,
            a1: f.a1,
            a2: f.a2,
            g1: f.g1,
            g2: f.g2,
            v0,
            v1,
            v2,
            r_k: k.r_k,
            k_k: k.k_k,
            k_a: k.k_a,
            w_r: k.w_r,
            w_k: k.w_k,
            w_v: k.w_v,
            w_o: k.w_o,
            gn,
        };
        Ok(LayerHip { att_ln, ffn_ln, att, ffn: FfnHip { x_k, w_k, w_v } })
    }
}

/// Loads the weights of the first `n` layers.
pub open spec fn layers_run(s: LoadRun, list: Seq<EntrySpec>, n: nat) -> LoadRun
    decreases n,
{
    if n == 0 {
        s
    } else {
        layers_run(s, list, (n - 1) as nat).step(|s: LoadRun| layer_run(s, list, n - 1))
    }
}

/// A failure among the first `k` layers stays.
proof fn lemma_layers_sticky(s: LoadRun, list: Seq<EntrySpec>, k: nat, n: nat)
    requires
        k <= n,
    ensures
        layers_run(s, list, k).error is Some ==> layers_run(s, list, n) == layers_run(s, list, k),
    decreases n - k,
{
    if k < n {
        lemma_layers_sticky(s, list, k, (n - 1) as nat);
    }
}

/// Loads the weights of all layers.
fn load_layers(file: &TensorFile, n: usize, stream: &mut Stream) -> (r: Result<
    Vec<LayerHip>,
    ModelLoadError,
>)
    requires
        holdable(file@),
    ensures
        layers_run(LoadRun::start(old(stream)@), file@, n as nat).agrees(final(stream)@, r),
        r matches Ok(v) ==> v@.len() == n && forall|i: int|
            0 <= i < n ==> (#[trigger] v@[i]).loaded_at(
                old(stream)@.next + layer_offset(i),
                file@,
                i,
            ),
{
    let ghost s = LoadRun::start(stream@);
    let ghost next = stream@.next;
    let mut v: Vec<LayerHip> = Vec::new();
    while v.len() < n
        invariant
            v@.len() <= n,
            holdable(file@),
            s == LoadRun::start(old(stream)@),
            next == old(stream)@.next,
            layers_run(s, file@, v@.len()) == LoadRun::start(stream@),
            stream@.next == next + layer_offset(v@.len() as int),
            forall|i: int|
                0 <= i < v@.len() ==> (#[trigger] v@[i]).loaded_at(
                    next + layer_offset(i),
                    file@,
                    i,
                ),
        decreases n - v@.len(),
    {
        let i: usize = v.len();
        proof {
            lemma_layers_sticky(s, file@, (i + 1) as nat, n as nat);
        }
        let layer = LayerHip::load(file, i, stream)?;
        v.push(layer);
    }
    Ok(v)
}

/// Layers that a name speaks for: those up to its own.
pub open spec fn layers_named(name: Seq<char>) -> usize {
    match layer_of(name) {
        Some(i) => if i < usize::MAX {
            (i + 1) as usize
        } else {
            0
        },
        None => 0,
    }
}

/// Number of layers that the first `n` entries speak for.
pub open spec fn layer_count(list: Seq<EntrySpec>, n: nat) -> usize
    decreases n,
{
    if n == 0 {
        0
    } else {
        let rest = layer_count(list, (n - 1) as nat);
        let own = layers_named(list[n - 1].name);
        if own > rest {
            own
        } else {
            rest
        }
    }
}

/// Dimensions of a model, read from the shapes and names of its tensors.
pub open spec fn model_info(list: Seq<EntrySpec>) -> Rwkv7ModelInfo {
    let emb = lookup(list, "emb.weight"@)->0.shape;
    let n_head = lookup(list, "blocks.0.att.r_k"@)->0.shape[0];
    Rwkv7ModelInfo {
        n_layer: layer_count(list, list.len()),
        n_embd: emb[1],
        n_head,
        head_size: (emb[1] as int / n_head as int) as usize,
        n_vocab: emb[0],
        n_hidden: lookup(list, "blocks.0.ffn.key.weight"@)->0.shape[0],
    }
}

/// Why the dimensions cannot be read, where they cannot.
pub open spec fn info_error(list: Seq<EntrySpec>) -> Option<LoadErrorSpec> {
    if lookup(list, "emb.weight"@) is None {
        Some(missing("emb.weight"@))
    } else if lookup(list, "blocks.0.att.r_k"@) is None {
        Some(missing("blocks.0.att.r_k"@))
    } else if lookup(list, "blocks.0.ffn.key.weight"@) is None {
        Some(missing("blocks.0.ffn.key.weight"@))
    } else if layer_count(list, list.len()) == 0 {
        Some(LoadErrorSpec::InvalidModel("No layers found"@))
    } else {
        None
    }
}

/// Whether the shapes that give the dimensions have the axes that are read, there are heads to
/// divide by, and every weight can be held.
pub open spec fn loadable(list: Seq<EntrySpec>) -> bool {
    &&& holdable(list)
    &&& lookup(list, "emb.weight"@) matches Some(e) ==> e.shape.len() >= 2
    &&& lookup(list, "blocks.0.att.r_k"@) matches Some(e) ==> e.shape.len() >= 1 && e.shape[0] > 0
    &&& lookup(list, "blocks.0.ffn.key.weight"@) matches Some(e) ==> e.shape.len() >= 1
}

/// Why the values of a tensor cannot be kept on the host, where they cannot.
pub open spec fn host_values_error(list: Seq<EntrySpec>, name: Seq<char>) -> Option<LoadErrorSpec> {
    match lookup(list, name) {
        None => Some(missing(name)),
        Some(e) => if e.values is Unsupported {
            Some(unsupported(e.kind, name))
        } else {
            None
        },
    }
}

/// Loads a whole model.
#[verifier::opaque]
pub open spec fn model_run(s: LoadRun, list: Seq<EntrySpec>) -> LoadRun {
    let s = s.check(info_error(list)).step(
        |s: LoadRun| norm_run(s, list, "blocks.0.ln0"@),
    ).check(host_values_error(list, "emb.weight"@)).step(
        |s: LoadRun| norm_run(s, list, "ln_out"@),
    ).loaded(list, "head.weight"@, WeightKind::Matrix).step(
        |s: LoadRun| layers_run(s, list, model_info(list).n_layer as nat),
    );
    if s.error is Some {
        s
    } else {
        LoadRun::start(
            StreamSpec { log: s.stream.log.push(CommandOf::Synchronize), ..s.stream },
        )
    }
}

impl Rwkv7Model {
    /// Whether this is the model of some tensors, with its weights as loaded from the buffer
    /// number `next` on.
    pub open spec fn loaded_at(&self, next: int, list: Seq<EntrySpec>) -> bool {
        &&& self.info == model_info(list)
        &&& self.embed.ln.loaded_at(next, list, "blocks.0.ln0"@)
        &&& self.embed.w@ == lookup(list, "emb.weight"@)->0.values->Half_0
        &&& self.embed.n_embd == self.info.n_embd
        &&& self.head.ln.loaded_at(next + 2, list, "ln_out"@)
        &&& self.head.w@ == weight_at(next + 4, list, "head.weight"@, WeightKind::Matrix)
        &&& self.layers@.len() == self.info.n_layer
        &&& forall|i: int|
            0 <= i < self.layers@.len() ==> (#[trigger] self.layers@[i]).loaded_at(
                next + 5 + layer_offset(i),
                list,
                i,
            )
    }
}

/// Number of layers that the names of a file speak for.
fn count_layers(file: &TensorFile) -> (n: usize)
    ensures
        n == layer_count(file@, file@.len()),
{
    let mut n: usize = 0;
    let mut i: usize = 0;
    while i < file.len()
        invariant
            i <= file@.len(),
            n == layer_count(file@, i as nat),
        decreases file@.len() - i,
    {
        let name = split_name(file.entry(i).name.as_str());
        let own: usize = match name.layer {
            Some(k) => if k < usize::MAX {
                k + 1
            } else {
                0
            },
            None => 0,
        };
        assert(own == layers_named(file@[i as int].name));
        if own > n {
            n = own;
        }
        i += 1;
    }
    n
}

/// The error where a tensor is missing.
fn missing_tensor(name: &str) -> (e: ModelLoadError)
    ensures
        e@ == missing(name@),
{
    let m = text(name).lit(": ").lit("tensor `").lit(name).lit("` not found").done();
    assert(m@ =~= name@ + ": "@ + ("tensor `"@ + name@ + "` not found"@));
    ModelLoadError::SafeTensor(m)
}

/// Reads the dimensions of a model.
fn read_info(file: &TensorFile) -> (r: Result<Rwkv7ModelInfo, ModelLoadError>)
    requires
        loadable(file@),
    ensures
        match r {
            Ok(i) => info_error(file@) is None && i == model_info(file@),
            Err(e) => info_error(file@) == Some(e@),
        },
{
    let emb = match file.find("emb.weight") {
        Some(e) => e,
        None => return Err(missing_tensor("emb.weight")),
    };
    let n_vocab: usize = emb.shape[0];
    let n_embd: usize = emb.shape[1];
    let r_k = match file.find("blocks.0.att.r_k") {
        Some(e) => e,
        None => return Err(missing_tensor("blocks.0.att.r_k")),
    };
    let n_head: usize = r_k.shape[0];
    let head_size: usize = n_embd / n_head;
    let key = match file.find("blocks.0.ffn.key.weight") {
        Some(e) => e,
        None => return Err(missing_tensor("blocks.0.ffn.key.weight")),
    };
    let n_hidden: usize = key.shape[0];
    let n_layer: usize = count_layers(file);
    if n_layer == 0 {
        return Err(ModelLoadError::InvalidModel(text("No layers found").done()));
    }
    Ok(Rwkv7ModelInfo { n_layer, n_embd, n_head, head_size, n_vocab, n_hidden })
}

/// The values of a tensor, kept on the host.
fn host_values(file: &TensorFile, name: &str) -> (r: Result<Vec<u16>, ModelLoadError>)
    requires
        holdable(file@),
    ensures
        match r {
            Ok(v) => host_values_error(file@, name@) is None && v@ == lookup(
                file@,
                name@,
            )->0.values->Half_0,
            Err(e) => host_values_error(file@, name@) == Some(e@),
        },
{
    let entry = match file.find(name) {
        Some(e) => e,
        None => return Err(missing_tensor(name)),
    };
    proof {
        lemma_position(file@, name@, 0);
        assert(entry@.holdable());
    }
    match &entry.values {
        Values::Half(v) => Ok(slice_to_vec(v.as_slice())),
        _ => Err(
            ModelLoadError::InvalidModel(
                text("Unsupported dtype ").lit(entry.kind.as_str()).lit(" for tensor ").lit(
                    name,
                ).done(),
            ),
        ),
    }
}

/// Opens the bytes of a file.
pub fn open_file(bytes: &[u8]) -> (r: Result<TensorFile, ModelLoadError>)
    ensures
        match r {
            Ok(file) => parsed(bytes@) is Some && reads(file@, parsed(bytes@)->0),
            Err(e) => parsed(bytes@) is None && (e@ matches LoadErrorSpec::SafeTensor(m)
                && starts(m, "Failed to parse SafeTensors: "@)),
        },
{
    match TensorFile::read(bytes) {
        Ok(file) => Ok(file),
        Err(e) => {
            let m = text("Failed to parse SafeTensors: ").lit(e.as_str()).done();
            assert(m@.take("Failed to parse SafeTensors: "@.len() as int)
                =~= "Failed to parse SafeTensors: "@);
            Err(ModelLoadError::SafeTensor(m))
        },
    }
}

/// Whether the shapes that give the dimensions have the axes that are read, there are heads to
/// divide by, and every weight can be held.
pub fn is_loadable(file: &TensorFile) -> (b: bool)
    ensures
        b == loadable(file@),
{
    let mut i: usize = 0;
    while i < file.len()
        invariant
            i <= file@.len(),
            forall|k: int| 0 <= k < i ==> (#[trigger] file@[k]).holdable(),
        decreases file@.len() - i,
    {
        if !is_holdable(file.entry(i)) {
            assert(!file@[i as int].holdable());
            return false;
        }
        i += 1;
    }
    if let Some(e) = file.find("emb.weight") {
        if e.shape.len() < 2 {
            return false;
        }
    }
    if let Some(e) = file.find("blocks.0.att.r_k") {
        if e.shape.len() < 1 || e.shape[0] == 0 {
            return false;
        }
    }
    if let Some(e) = file.find("blocks.0.ffn.key.weight") {
        if e.shape.len() < 1 {
            return false;
        }
    }
    true
}

impl Rwkv7Model {
    /// Loads a model: the commands that bring its weights to the device are recorded.
    pub fn load(file: &TensorFile, stream: &mut Stream) -> (r: Result<
        Arc<Rwkv7Model>,
        ModelLoadError,
    >)
        requires
            loadable(file@),
        ensures
            model_run(LoadRun::start(old(stream)@), file@).agrees(final(stream)@, r),
            r matches Ok(m) ==> m.loaded_at(old(stream)@.next as int, file@),
    {
        reveal(model_run);
        let info = read_info(file)?;
        let embed_ln = load_layer_norm(file, "blocks.0.ln0", stream)?;
        let w = host_values(file, "emb.weight")?;
        let embed = EmbedHip { ln: embed_ln, w, n_embd: info.n_embd };
        let head_ln = load_layer_norm(file, "ln_out", stream)?;
        let head_w = load_weight(file, "head.weight", WeightKind::Matrix, stream)?;
        let head = HeadHip { ln: head_ln, w: head_w };
        let layers = load_layers(file, info.n_layer, stream)?;
        stream.synchronize();
        Ok(Arc::new(Rwkv7Model { info, embed, head, layers }))
    }
}

impl Rwkv7Hip {
    /// Loads a model, without working memory and without probes.
    pub fn load(file: &TensorFile, stream: &mut Stream) -> (r: Result<Rwkv7Hip, ModelLoadError>)
        requires
            loadable(file@),
        ensures
            model_run(LoadRun::start(old(stream)@), file@).agrees(final(stream)@, r),
            r matches Ok(h) ==> {
                &&& h.model.loaded_at(old(stream)@.next as int, file@)
                &&& h.scratch is None
                &&& h.probes@ == Map::<HipHook, usize>::empty()
            },
    {
        let model = Rwkv7Model::load(file, stream)?;
        Ok(Rwkv7Hip::from_model(model))
    }
}

} // verus!
