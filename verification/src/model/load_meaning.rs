//! What the memory of a device holds once a model is loaded.
use crate::buffer::MemoryType;
use crate::meaning::{host_cells, Cells, Contents, Device};
use crate::model::block_laws::{layer_below, Layout};
use crate::model::load::{
    info_error, keys_run, layer_buffers, layer_count, layer_offset, layer_prefix, layer_run,
    layers_run, mixes_run, layers_named, model_run, norm_run, ranks_run, residual_run,
};
use crate::model::load_run::{
    law_transposed_element, weight_at, weight_data, weight_error, weight_shape, LoadRun, WeightKind,
};
use crate::model::names::{law_layer_names_round_trip, layer_of};
use crate::model::pass_meaning::model_below;
use crate::model::weights::{LayerHip, LayerNormHip};
use crate::model::Rwkv7Model;
use crate::run::Run;
use crate::stream::{CommandOf, DataSpec, StreamSpec};
use crate::tensor::{fill_error, DevicePtr, TensorShape, TensorSpec};
use crate::tensor_file::{lookup, EntrySpec};
use vstd::prelude::*;

verus! {

/// The memory after everything that loading has recorded.
pub open spec fn on(d: Device, s: LoadRun) -> Contents {
    d.after(Run::start(s.stream))
}

/// Element `(i, j)` of a matrix of `rows` rows that stands by columns.
pub open spec fn by_columns(cells: Cells, rows: int, i: int, j: int) -> u32 {
    cells(j * rows + i)
}

/// Element `(i, j)` of a matrix of `columns` columns that stands by rows.
pub open spec fn by_rows(data: Seq<u16>, columns: int, i: int, j: int) -> u32 {
    data[i * columns + j] as u32
}

/// Whether a tensor on the device holds the values that the file has under a name, in their
/// order.
pub open spec fn holds_tensor(
    c: Contents,
    t: TensorSpec,
    list: Seq<EntrySpec>,
    name: Seq<char>,
) -> bool {
    lookup(list, name) matches Some(e) && {
        let data = e.values->Half_0;
        &&& t.len() == data.len()
        &&& forall|k: int| 0 <= k < data.len() ==> c.at(t.ptr())(k) == (#[trigger] data[k]) as u32
    }
}

/// Whether a tensor on the device holds the matrix that the file has under a name, by columns
/// where the file has it by rows.
pub open spec fn holds_matrix(
    c: Contents,
    t: TensorSpec,
    list: Seq<EntrySpec>,
    name: Seq<char>,
) -> bool {
    lookup(list, name) matches Some(e) && {
        let data = e.values->Half_0;
        let rows = e.shape[0];
        let columns = e.shape[1];
        &&& e.shape.len() == 2
        &&& t.shape() == TensorShape::of(rows, columns, 1, 1)
        &&& data.len() == rows * columns
        &&& forall|i: int, j: int|
            0 <= i < rows && 0 <= j < columns ==> #[trigger] by_columns(
                c.at(t.ptr()),
                rows as int,
                i,
                j,
            ) == by_rows(data, columns as int, i, j)
    }
}

/// Whether scale and shift of a normalisation are those that the file has under their names.
pub open spec fn holds_norm(
    c: Contents,
    ln: LayerNormHip,
    list: Seq<EntrySpec>,
    prefix: Seq<char>,
) -> bool {
    &&& holds_tensor(c, ln.weight@, list, prefix + ".weight"@)
    &&& holds_tensor(c, ln.bias@, list, prefix + ".bias"@)
}

/// Whether every weight of a layer is the one that the file has under its own name.
pub open spec fn holds_layer(c: Contents, layer: LayerHip, list: Seq<EntrySpec>, i: int) -> bool {
    let p = layer_prefix(i);
    &&& holds_tensor(c, layer.att_ln.weight@, list, p + ".ln1.weight"@)
    &&& holds_tensor(c, layer.att_ln.bias@, list, p + ".ln1.bias"@)
    &&& holds_tensor(c, layer.ffn_ln.weight@, list, p + ".ln2.weight"@)
    &&& holds_tensor(c, layer.ffn_ln.bias@, list, p + ".ln2.bias"@)
    &&& holds_tensor(c, layer.att.x_r@, list, p + ".att.x_r"@)
    &&& holds_tensor(c, layer.att.x_w@, list, p + ".att.x_w"@)
    &&& holds_tensor(c, layer.att.x_k@, list, p + ".att.x_k"@)
    &&& holds_tensor(c, layer.att.x_v@, list, p + ".att.x_v"@)
    &&& holds_tensor(c, layer.att.x_a@, list, p + ".att.x_a"@)
    &&& holds_tensor(c, layer.att.x_g@, list, p + ".att.x_g"@)
    &&& holds_tensor(c, layer.att.w0@, list, p + ".att.w0"@)
    &&& holds_matrix(c, layer.att.w1@, list, p + ".att.w1"@)
    &&& holds_matrix(c, layer.att.w2@, list, p + ".att.w2"@)
    &&& holds_tensor(c, layer.att.a0@, list, p + ".att.a0"@)
    &&& holds_matrix(c, layer.att.a1@, list, p + ".att.a1"@)
    &&& holds_matrix(c, layer.att.a2@, list, p + ".att.a2"@)
    &&& holds_matrix(c, layer.att.g1@, list, p + ".att.g1"@)
    &&& holds_matrix(c, layer.att.g2@, list, p + ".att.g2"@)
    &&& holds_tensor(c, layer.att.r_k@, list, p + ".att.r_k"@)
    &&& holds_tensor(c, layer.att.k_k@, list, p + ".att.k_k"@)
    &&& holds_tensor(c, layer.att.k_a@, list, p + ".att.k_a"@)
    &&& holds_matrix(c, layer.att.w_r@, list, p + ".att.receptance.weight"@)
    &&& holds_matrix(c, layer.att.w_k@, list, p + ".att.key.weight"@)
    &&& holds_matrix(c, layer.att.w_v@, list, p + ".att.value.weight"@)
    &&& holds_matrix(c, layer.att.w_o@, list, p + ".att.output.weight"@)
    &&& holds_tensor(c, layer.att.gn.weight@, list, p + ".att.ln_x.weight"@)
    &&& holds_tensor(c, layer.att.gn.bias@, list, p + ".att.ln_x.bias"@)
    &&& holds_tensor(c, layer.ffn.x_k@, list, p + ".ffn.x_k"@)
    &&& holds_matrix(c, layer.ffn.w_k@, list, p + ".ffn.key.weight"@)
    &&& holds_matrix(c, layer.ffn.w_v@, list, p + ".ffn.value.weight"@)
    &&& layer.att.v0 is Some == (i > 0)
    &&& layer.att.v0 matches Some(t) ==> holds_tensor(c, t@, list, p + ".att.v0"@)
    &&& layer.att.v1 is Some == (i > 0)
    &&& layer.att.v1 matches Some(t) ==> holds_matrix(c, t@, list, p + ".att.v1"@)
    &&& layer.att.v2 is Some == (i > 0)
    &&& layer.att.v2 matches Some(t) ==> holds_matrix(c, t@, list, p + ".att.v2"@)
}

/// Whether every weight of a model is the one that the file has under its own name.
pub open spec fn holds_model(c: Contents, model: Rwkv7Model, list: Seq<EntrySpec>) -> bool {
    &&& holds_norm(c, model.embed.ln, list, "blocks.0.ln0"@)
    &&& holds_norm(c, model.head.ln, list, "ln_out"@)
    &&& holds_matrix(c, model.head.w@, list, "head.weight"@)
    &&& forall|i: int|
        0 <= i < model.layers@.len() ==> holds_layer(c, #[trigger] model.layers@[i], list, i)
}

/// Whether the part of a name behind the layer speaks of a matrix.
pub open spec fn names_matrix(suffix: Seq<char>) -> bool {
    ||| suffix == "att.w1"@
    ||| suffix == "att.w2"@
    ||| suffix == "att.a1"@
    ||| suffix == "att.a2"@
    ||| suffix == "att.g1"@
    ||| suffix == "att.g2"@
    ||| suffix == "att.receptance.weight"@
    ||| suffix == "att.key.weight"@
    ||| suffix == "att.value.weight"@
    ||| suffix == "att.output.weight"@
    ||| suffix == "ffn.key.weight"@
    ||| suffix == "ffn.value.weight"@
}

/// Whether the buffers below `n` hold what they held before.
spec fn kept_below(before: Contents, after: Contents, n: usize) -> bool {
    forall|q: DevicePtr| q.buffer < n ==> #[trigger] after.at(q) == before.at(q)
}

/// Whether the weight of a name stands in the buffer `at`.
spec fn placed(
    c: Contents,
    at: int,
    list: Seq<EntrySpec>,
    name: Seq<char>,
    kind: WeightKind,
) -> bool {
    &&& weight_error(list, name, kind) is None
    &&& weight_data(list, name, kind).len() == weight_shape(list, name, kind).spec_len()
    &&& c.at(weight_at(at, list, name, kind).ptr()) == host_cells(
        DataSpec::F16(weight_data(list, name, kind)),
    )
}

/// Loading a weight takes the next buffer number.
broadcast proof fn lemma_loads(s: LoadRun, list: Seq<EntrySpec>, name: Seq<char>, kind: WeightKind)
    ensures
        (#[trigger] s.loaded(list, name, kind)).error is None ==> {
            &&& s.error is None
            &&& s.loaded(list, name, kind).stream.next == s.stream.next + 1
            &&& weight_error(list, name, kind) is None
            &&& weight_data(list, name, kind).len() == weight_shape(list, name, kind).spec_len()
        },
{
    reveal(LoadRun::loaded);
    reveal(Run::allocated);
    reveal(fill_error);
}

/// Loading a weight puts it in the next buffer and leaves the others as they are.
broadcast proof fn lemma_one_loaded(
    d: Device,
    s: LoadRun,
    list: Seq<EntrySpec>,
    name: Seq<char>,
    kind: WeightKind,
    q: DevicePtr,
)
    requires
        s.loaded(list, name, kind).error is None,
    ensures
        q.buffer != s.stream.next ==> (#[trigger] on(d, s.loaded(list, name, kind)).at(q)) == on(
            d,
            s,
        ).at(q),
        q == weight_at(s.stream.next as int, list, name, kind).ptr() ==> on(
            d,
            s.loaded(list, name, kind),
        ).at(q) == host_cells(DataSpec::F16(weight_data(list, name, kind))),
{
    reveal(LoadRun::loaded);
    let data = DataSpec::F16(weight_data(list, name, kind));
    let shape = weight_shape(list, name, kind);
    let a = Run::start(s.stream);
    let r = a.filled(data, shape, MemoryType::Managed);
    d.lemma_filled(a, data, shape, MemoryType::Managed, q);
    assert(Run::start(r.stream) == r);
}

proof fn lemma_norm(d: Device, s: LoadRun, list: Seq<EntrySpec>, prefix: Seq<char>)
    requires
        norm_run(s, list, prefix).error is None,
    ensures
        s.error is None,
        ({
            let r = norm_run(s, list, prefix);
            &&& r.stream.next == s.stream.next + 2
            &&& kept_below(on(d, s), on(d, r), s.stream.next)
            &&& placed(on(d, r), s.stream.next + 0, list, prefix + ".weight"@, WeightKind::Tensor)
            &&& placed(on(d, r), s.stream.next + 1, list, prefix + ".bias"@, WeightKind::Tensor)
        }),
{
    broadcast use {lemma_loads, lemma_one_loaded};

}

proof fn lemma_mixes(d: Device, s: LoadRun, list: Seq<EntrySpec>, p: Seq<char>)
    requires
        mixes_run(s, list, p).error is None,
    ensures
        s.error is None,
        ({
            let r = mixes_run(s, list, p);
            &&& r.stream.next == s.stream.next + 6
            &&& kept_below(on(d, s), on(d, r), s.stream.next)
            &&& placed(on(d, r), s.stream.next + 0, list, p + ".att.x_r"@, WeightKind::Tensor)
            &&& placed(on(d, r), s.stream.next + 1, list, p + ".att.x_w"@, WeightKind::Tensor)
            &&& placed(on(d, r), s.stream.next + 2, list, p + ".att.x_k"@, WeightKind::Tensor)
            &&& placed(on(d, r), s.stream.next + 3, list, p + ".att.x_v"@, WeightKind::Tensor)
            &&& placed(on(d, r), s.stream.next + 4, list, p + ".att.x_a"@, WeightKind::Tensor)
            &&& placed(on(d, r), s.stream.next + 5, list, p + ".att.x_g"@, WeightKind::Tensor)
        }),
{
    broadcast use {lemma_loads, lemma_one_loaded};

    reveal(mixes_run);
}

proof fn lemma_ranks(d: Device, s: LoadRun, list: Seq<EntrySpec>, p: Seq<char>)
    requires
        ranks_run(s, list, p).error is None,
    ensures
        s.error is None,
        ({
            let r = ranks_run(s, list, p);
            &&& r.stream.next == s.stream.next + 8
            &&& kept_below(on(d, s), on(d, r), s.stream.next)
            &&& placed(on(d, r), s.stream.next + 0, list, p + ".att.w0"@, WeightKind::Tensor)
            &&& placed(on(d, r), s.stream.next + 1, list, p + ".att.w1"@, WeightKind::Matrix)
            &&& placed(on(d, r), s.stream.next + 2, list, p + ".att.w2"@, WeightKind::Matrix)
            &&& placed(on(d, r), s.stream.next + 3, list, p + ".att.a0"@, WeightKind::Tensor)
            &&& placed(on(d, r), s.stream.next + 4, list, p + ".att.a1"@, WeightKind::Matrix)
            &&& placed(on(d, r), s.stream.next + 5, list, p + ".att.a2"@, WeightKind::Matrix)
            &&& placed(on(d, r), s.stream.next + 6, list, p + ".att.g1"@, WeightKind::Matrix)
            &&& placed(on(d, r), s.stream.next + 7, list, p + ".att.g2"@, WeightKind::Matrix)
        }),
{
    broadcast use {lemma_loads, lemma_one_loaded};

    reveal(ranks_run);
}

proof fn lemma_residual(d: Device, s: LoadRun, list: Seq<EntrySpec>, p: Seq<char>)
    requires
        residual_run(s, list, p).error is None,
    ensures
        s.error is None,
        ({
            let r = residual_run(s, list, p);
            &&& r.stream.next == s.stream.next + 3
            &&& kept_below(on(d, s), on(d, r), s.stream.next)
            &&& placed(on(d, r), s.stream.next + 0, list, p + ".att.v0"@, WeightKind::Tensor)
            &&& placed(on(d, r), s.stream.next + 1, list, p + ".att.v1"@, WeightKind::Matrix)
            &&& placed(on(d, r), s.stream.next + 2, list, p + ".att.v2"@, WeightKind::Matrix)
        }),
{
    broadcast use {lemma_loads, lemma_one_loaded};

    reveal(residual_run);
}

proof fn lemma_keys(d: Device, s: LoadRun, list: Seq<EntrySpec>, p: Seq<char>)
    requires
        keys_run(s, list, p).error is None,
    ensures
        s.error is None,
        ({
            let r = keys_run(s, list, p);
            &&& r.stream.next == s.stream.next + 7
            &&& kept_below(on(d, s), on(d, r), s.stream.next)
            &&& placed(on(d, r), s.stream.next + 0, list, p + ".att.r_k"@, WeightKind::Tensor)
            &&& placed(on(d, r), s.stream.next + 1, list, p + ".att.k_k"@, WeightKind::Tensor)
            &&& placed(on(d, r), s.stream.next + 2, list, p + ".att.k_a"@, WeightKind::Tensor)
            &&& placed(on(d, r), s.stream.next + 3, list, p + ".att.receptance.weight"@, WeightKind::Matrix)
            &&& placed(on(d, r), s.stream.next + 4, list, p + ".att.key.weight"@, WeightKind::Matrix)
            &&& placed(on(d, r), s.stream.next + 5, list, p + ".att.value.weight"@, WeightKind::Matrix)
            &&& placed(on(d, r), s.stream.next + 6, list, p + ".att.output.weight"@, WeightKind::Matrix)
        }),
{
    broadcast use {lemma_loads, lemma_one_loaded};

    reveal(keys_run);
}

/// A weight that stands in its buffer is what the file has under its name.
proof fn lemma_placed_tensor(c: Contents, at: int, list: Seq<EntrySpec>, name: Seq<char>)
    requires
        placed(c, at, list, name, WeightKind::Tensor),
    ensures
        holds_tensor(c, weight_at(at, list, name, WeightKind::Tensor), list, name),
{
}

/// A matrix that stands in its buffer is what the file has under its name.
proof fn lemma_placed_matrix(c: Contents, at: int, list: Seq<EntrySpec>, name: Seq<char>)
    requires
        placed(c, at, list, name, WeightKind::Matrix),
    ensures
        holds_matrix(c, weight_at(at, list, name, WeightKind::Matrix), list, name),
{
    let e = lookup(list, name)->0;
    let data = e.values->Half_0;
    let rows = e.shape[0] as int;
    let columns = e.shape[1] as int;
    let t = weight_at(at, list, name, WeightKind::Matrix);
    assert(t.len() == rows * columns) by {
        assert(rows * columns * 1 * 1 == rows * columns) by (nonlinear_arith);
    }
    assert forall|i: int, j: int| 0 <= i < rows && 0 <= j < columns implies #[trigger] by_columns(
        c.at(t.ptr()),
        rows,
        i,
        j,
    ) == by_rows(data, columns, i, j) by {
        law_transposed_element(data, rows, columns, i, j);
    }
}

/// The names of a layer's normalisations, in two steps and in one.
proof fn lemma_norm_names(p: Seq<char>)
    ensures
        p + ".ln1"@ + ".weight"@ == p + ".ln1.weight"@,
        p + ".ln1"@ + ".bias"@ == p + ".ln1.bias"@,
        p + ".ln2"@ + ".weight"@ == p + ".ln2.weight"@,
        p + ".ln2"@ + ".bias"@ == p + ".ln2.bias"@,
        p + ".att.ln_x"@ + ".weight"@ == p + ".att.ln_x.weight"@,
        p + ".att.ln_x"@ + ".bias"@ == p + ".att.ln_x.bias"@,
{
    reveal_strlit(".weight");
    reveal_strlit(".bias");
    reveal_strlit(".ln1");
    reveal_strlit(".ln2");
    reveal_strlit(".att.ln_x");
    reveal_strlit(".ln1.weight");
    assert(p + ".ln1"@ + ".weight"@ =~= p + ".ln1.weight"@);
    reveal_strlit(".ln1.bias");
    assert(p + ".ln1"@ + ".bias"@ =~= p + ".ln1.bias"@);
    reveal_strlit(".ln2.weight");
    assert(p + ".ln2"@ + ".weight"@ =~= p + ".ln2.weight"@);
    reveal_strlit(".ln2.bias");
    assert(p + ".ln2"@ + ".bias"@ =~= p + ".ln2.bias"@);
    reveal_strlit(".att.ln_x.weight");
    assert(p + ".att.ln_x"@ + ".weight"@ =~= p + ".att.ln_x.weight"@);
    reveal_strlit(".att.ln_x.bias");
    assert(p + ".att.ln_x"@ + ".bias"@ =~= p + ".att.ln_x.bias"@);
}

/// How the parts of a layer follow each other.
#[verifier::rlimit(60)]
proof fn lemma_layer_stages(d: Device, s: LoadRun, list: Seq<EntrySpec>, i: int)
    requires
        i >= 0,
        layer_run(s, list, i).error is None,
    ensures
        s.error is None,
        layer_run(s, list, i).stream.next == s.stream.next + layer_buffers(i),
        kept_below(on(d, s), on(d, layer_run(s, list, i)), s.stream.next),
        ({
            let p = layer_prefix(i);
            let k = s.stream.next + layer_buffers(i) - 12;
            let e = on(d, layer_run(s, list, i));
            &&& placed(e, s.stream.next + 0, list, p + ".ln1"@ + ".weight"@, WeightKind::Tensor)
            &&& placed(e, s.stream.next + 1, list, p + ".ln1"@ + ".bias"@, WeightKind::Tensor)
            &&& placed(e, s.stream.next + 2, list, p + ".ln2"@ + ".weight"@, WeightKind::Tensor)
            &&& placed(e, s.stream.next + 3, list, p + ".ln2"@ + ".bias"@, WeightKind::Tensor)
            &&& placed(e, s.stream.next + 4, list, p + ".att.x_r"@, WeightKind::Tensor)
            &&& placed(e, s.stream.next + 5, list, p + ".att.x_w"@, WeightKind::Tensor)
            &&& placed(e, s.stream.next + 6, list, p + ".att.x_k"@, WeightKind::Tensor)
            &&& placed(e, s.stream.next + 7, list, p + ".att.x_v"@, WeightKind::Tensor)
            &&& placed(e, s.stream.next + 8, list, p + ".att.x_a"@, WeightKind::Tensor)
            &&& placed(e, s.stream.next + 9, list, p + ".att.x_g"@, WeightKind::Tensor)
            &&& placed(e, s.stream.next + 10, list, p + ".att.w0"@, WeightKind::Tensor)
            &&& placed(e, s.stream.next + 11, list, p + ".att.w1"@, WeightKind::Matrix)
            &&& placed(e, s.stream.next + 12, list, p + ".att.w2"@, WeightKind::Matrix)
            &&& placed(e, s.stream.next + 13, list, p + ".att.a0"@, WeightKind::Tensor)
            &&& placed(e, s.stream.next + 14, list, p + ".att.a1"@, WeightKind::Matrix)
            &&& placed(e, s.stream.next + 15, list, p + ".att.a2"@, WeightKind::Matrix)
            &&& placed(e, s.stream.next + 16, list, p + ".att.g1"@, WeightKind::Matrix)
            &&& placed(e, s.stream.next + 17, list, p + ".att.g2"@, WeightKind::Matrix)
            &&& placed(e, k + 0, list, p + ".att.r_k"@, WeightKind::Tensor)
            &&& placed(e, k + 1, list, p + ".att.k_k"@, WeightKind::Tensor)
            &&& placed(e, k + 2, list, p + ".att.k_a"@, WeightKind::Tensor)
            &&& placed(e, k + 3, list, p + ".att.receptance.weight"@, WeightKind::Matrix)
            &&& placed(e, k + 4, list, p + ".att.key.weight"@, WeightKind::Matrix)
            &&& placed(e, k + 5, list, p + ".att.value.weight"@, WeightKind::Matrix)
            &&& placed(e, k + 6, list, p + ".att.output.weight"@, WeightKind::Matrix)
            &&& placed(e, k + 7, list, p + ".att.ln_x"@ + ".weight"@, WeightKind::Tensor)
            &&& placed(e, k + 8, list, p + ".att.ln_x"@ + ".bias"@, WeightKind::Tensor)
            &&& placed(e, k + 9, list, p + ".ffn.x_k"@, WeightKind::Tensor)
            &&& placed(e, k + 10, list, p + ".ffn.key.weight"@, WeightKind::Matrix)
            &&& placed(e, k + 11, list, p + ".ffn.value.weight"@, WeightKind::Matrix)
            &&& i > 0 ==> placed(e, s.stream.next + 18, list, p + ".att.v0"@, WeightKind::Tensor)
            &&& i > 0 ==> placed(e, s.stream.next + 19, list, p + ".att.v1"@, WeightKind::Matrix)
            &&& i > 0 ==> placed(e, s.stream.next + 20, list, p + ".att.v2"@, WeightKind::Matrix)
        }),
{
    broadcast use {lemma_loads, lemma_one_loaded};

    reveal(layer_run);
    let p = layer_prefix(i);
    let s1 = norm_run(s, list, p + ".ln1"@);
    let s2 = norm_run(s1, list, p + ".ln2"@);
    let s3 = mixes_run(s2, list, p);
    let s4 = ranks_run(s3, list, p);
    let s5 = if i > 0 {
        residual_run(s4, list, p)
    } else {
        s4
    };
    let s6 = keys_run(s5, list, p);
    let s7 = norm_run(s6, list, p + ".att.ln_x"@);
    let s8 = s7.loaded(list, p + ".ffn.x_k"@, WeightKind::Tensor);
    let s9 = s8.loaded(list, p + ".ffn.key.weight"@, WeightKind::Matrix);
    let r = s9.loaded(list, p + ".ffn.value.weight"@, WeightKind::Matrix);
    assert(layer_run(s, list, i).error is None);
    assert(s.error is None);
    assert(s1.error is None);
    assert(s2.error is None);
    assert(s3.error is None);
    assert(s4.error is None);
    assert(s5.error is None);
    assert(s6.error is None);
    assert(r == layer_run(s, list, i));
    lemma_norm(d, s6, list, p + ".att.ln_x"@);
    lemma_keys(d, s5, list, p);
    if i > 0 {
        lemma_residual(d, s4, list, p);
    }
    lemma_ranks(d, s3, list, p);
    lemma_mixes(d, s2, list, p);
    lemma_norm(d, s1, list, p + ".ln2"@);
    lemma_norm(d, s, list, p + ".ln1"@);
    assert(kept_below(on(d, s7), on(d, r), s7.stream.next));
    assert(kept_below(on(d, s6), on(d, r), s6.stream.next));
    assert(kept_below(on(d, s5), on(d, r), s5.stream.next));
    assert(kept_below(on(d, s4), on(d, r), s4.stream.next));
    assert(kept_below(on(d, s3), on(d, r), s3.stream.next));
    assert(kept_below(on(d, s2), on(d, r), s2.stream.next));
    assert(kept_below(on(d, s1), on(d, r), s1.stream.next));
}

/// Every weight of a layer is put where the layer has it.
proof fn lemma_layer(d: Device, s: LoadRun, list: Seq<EntrySpec>, i: int, layer: LayerHip)
    requires
        i >= 0,
        layer_run(s, list, i).error is None,
        layer.loaded_at(s.stream.next as int, list, i),
    ensures
        holds_layer(on(d, layer_run(s, list, i)), layer, list, i),
{
    let p = layer_prefix(i);
    lemma_layer_stages(d, s, list, i);
    lemma_norm_names(p);
    let e = on(d, layer_run(s, list, i));
    let k = s.stream.next + layer_buffers(i) - 12;
    lemma_placed_tensor(e, s.stream.next + 0, list, p + ".ln1"@ + ".weight"@);
    lemma_placed_tensor(e, s.stream.next + 1, list, p + ".ln1"@ + ".bias"@);
    lemma_placed_tensor(e, s.stream.next + 2, list, p + ".ln2"@ + ".weight"@);
    lemma_placed_tensor(e, s.stream.next + 3, list, p + ".ln2"@ + ".bias"@);
    lemma_placed_tensor(e, s.stream.next + 4, list, p + ".att.x_r"@);
    lemma_placed_tensor(e, s.stream.next + 5, list, p + ".att.x_w"@);
    lemma_placed_tensor(e, s.stream.next + 6, list, p + ".att.x_k"@);
    lemma_placed_tensor(e, s.stream.next + 7, list, p + ".att.x_v"@);
    lemma_placed_tensor(e, s.stream.next + 8, list, p + ".att.x_a"@);
    lemma_placed_tensor(e, s.stream.next + 9, list, p + ".att.x_g"@);
    lemma_placed_tensor(e, s.stream.next + 10, list, p + ".att.w0"@);
    lemma_placed_matrix(e, s.stream.next + 11, list, p + ".att.w1"@);
    lemma_placed_matrix(e, s.stream.next + 12, list, p + ".att.w2"@);
    lemma_placed_tensor(e, s.stream.next + 13, list, p + ".att.a0"@);
    lemma_placed_matrix(e, s.stream.next + 14, list, p + ".att.a1"@);
    lemma_placed_matrix(e, s.stream.next + 15, list, p + ".att.a2"@);
    lemma_placed_matrix(e, s.stream.next + 16, list, p + ".att.g1"@);
    lemma_placed_matrix(e, s.stream.next + 17, list, p + ".att.g2"@);
    lemma_placed_tensor(e, k + 0, list, p + ".att.r_k"@);
    lemma_placed_tensor(e, k + 1, list, p + ".att.k_k"@);
    lemma_placed_tensor(e, k + 2, list, p + ".att.k_a"@);
    lemma_placed_matrix(e, k + 3, list, p + ".att.receptance.weight"@);
    lemma_placed_matrix(e, k + 4, list, p + ".att.key.weight"@);
    lemma_placed_matrix(e, k + 5, list, p + ".att.value.weight"@);
    lemma_placed_matrix(e, k + 6, list, p + ".att.output.weight"@);
    lemma_placed_tensor(e, k + 7, list, p + ".att.ln_x"@ + ".weight"@);
    lemma_placed_tensor(e, k + 8, list, p + ".att.ln_x"@ + ".bias"@);
    lemma_placed_tensor(e, k + 9, list, p + ".ffn.x_k"@);
    lemma_placed_matrix(e, k + 10, list, p + ".ffn.key.weight"@);
    lemma_placed_matrix(e, k + 11, list, p + ".ffn.value.weight"@);
    if i > 0 {
        lemma_placed_tensor(e, s.stream.next + 18, list, p + ".att.v0"@);
        lemma_placed_matrix(e, s.stream.next + 19, list, p + ".att.v1"@);
        lemma_placed_matrix(e, s.stream.next + 20, list, p + ".att.v2"@);
    }
}

/// A layer that stands below the next buffer is not touched by what is loaded later.
proof fn lemma_layer_kept(
    c: Contents,
    e: Contents,
    next: int,
    n: usize,
    layer: LayerHip,
    list: Seq<EntrySpec>,
    i: int,
)
    requires
        kept_below(c, e, n),
        0 <= next,
        next + layer_buffers(i) <= n,
        layer.loaded_at(next, list, i),
        holds_layer(c, layer, list, i),
    ensures
        holds_layer(e, layer, list, i),
{
    assert(e.at(layer.att_ln.weight@.ptr()) == c.at(layer.att_ln.weight@.ptr()));
    assert(e.at(layer.att_ln.bias@.ptr()) == c.at(layer.att_ln.bias@.ptr()));
    assert(e.at(layer.ffn_ln.weight@.ptr()) == c.at(layer.ffn_ln.weight@.ptr()));
    assert(e.at(layer.ffn_ln.bias@.ptr()) == c.at(layer.ffn_ln.bias@.ptr()));
    assert(e.at(layer.att.x_r@.ptr()) == c.at(layer.att.x_r@.ptr()));
    assert(e.at(layer.att.x_w@.ptr()) == c.at(layer.att.x_w@.ptr()));
    assert(e.at(layer.att.x_k@.ptr()) == c.at(layer.att.x_k@.ptr()));
    assert(e.at(layer.att.x_v@.ptr()) == c.at(layer.att.x_v@.ptr()));
    assert(e.at(layer.att.x_a@.ptr()) == c.at(layer.att.x_a@.ptr()));
    assert(e.at(layer.att.x_g@.ptr()) == c.at(layer.att.x_g@.ptr()));
    assert(e.at(layer.att.w0@.ptr()) == c.at(layer.att.w0@.ptr()));
    assert(e.at(layer.att.w1@.ptr()) == c.at(layer.att.w1@.ptr()));
    assert(e.at(layer.att.w2@.ptr()) == c.at(layer.att.w2@.ptr()));
    assert(e.at(layer.att.a0@.ptr()) == c.at(layer.att.a0@.ptr()));
    assert(e.at(layer.att.a1@.ptr()) == c.at(layer.att.a1@.ptr()));
    assert(e.at(layer.att.a2@.ptr()) == c.at(layer.att.a2@.ptr()));
    assert(e.at(layer.att.g1@.ptr()) == c.at(layer.att.g1@.ptr()));
    assert(e.at(layer.att.g2@.ptr()) == c.at(layer.att.g2@.ptr()));
    assert(e.at(layer.att.r_k@.ptr()) == c.at(layer.att.r_k@.ptr()));
    assert(e.at(layer.att.k_k@.ptr()) == c.at(layer.att.k_k@.ptr()));
    assert(e.at(layer.att.k_a@.ptr()) == c.at(layer.att.k_a@.ptr()));
    assert(e.at(layer.att.w_r@.ptr()) == c.at(layer.att.w_r@.ptr()));
    assert(e.at(layer.att.w_k@.ptr()) == c.at(layer.att.w_k@.ptr()));
    assert(e.at(layer.att.w_v@.ptr()) == c.at(layer.att.w_v@.ptr()));
    assert(e.at(layer.att.w_o@.ptr()) == c.at(layer.att.w_o@.ptr()));
    assert(e.at(layer.att.gn.weight@.ptr()) == c.at(layer.att.gn.weight@.ptr()));
    assert(e.at(layer.att.gn.bias@.ptr()) == c.at(layer.att.gn.bias@.ptr()));
    assert(e.at(layer.ffn.x_k@.ptr()) == c.at(layer.ffn.x_k@.ptr()));
    assert(e.at(layer.ffn.w_k@.ptr()) == c.at(layer.ffn.w_k@.ptr()));
    assert(e.at(layer.ffn.w_v@.ptr()) == c.at(layer.ffn.w_v@.ptr()));
    if i > 0 {
        assert(e.at(layer.att.v0->0@.ptr()) == c.at(layer.att.v0->0@.ptr()));
        assert(e.at(layer.att.v1->0@.ptr()) == c.at(layer.att.v1->0@.ptr()));
        assert(e.at(layer.att.v2->0@.ptr()) == c.at(layer.att.v2->0@.ptr()));
    }
}

/// Every weight of the first `n` layers is put where its layer has it.
proof fn lemma_layers(d: Device, s: LoadRun, list: Seq<EntrySpec>, n: nat, layers: Seq<LayerHip>)
    requires
        layers_run(s, list, n).error is None,
        n <= layers.len(),
        forall|i: int|
            0 <= i < layers.len() ==> (#[trigger] layers[i]).loaded_at(
                s.stream.next + layer_offset(i),
                list,
                i,
            ),
    ensures
        s.error is None,
        layers_run(s, list, n).stream.next == s.stream.next + layer_offset(n as int),
        kept_below(on(d, s), on(d, layers_run(s, list, n)), s.stream.next),
        forall|i: int|
            0 <= i < n ==> holds_layer(
                on(d, layers_run(s, list, n)),
                #[trigger] layers[i],
                list,
                i,
            ),
    decreases n,
{
    if n > 0 {
        let k = (n - 1) as nat;
        let t = layers_run(s, list, k);
        let r = layer_run(t, list, k as int);
        assert(t.error is None);
        lemma_layers(d, s, list, k, layers);
        lemma_layer_stages(d, t, list, k as int);
        assert(layers[k as int].loaded_at(t.stream.next as int, list, k as int));
        lemma_layer(d, t, list, k as int, layers[k as int]);
        assert forall|i: int| 0 <= i < n implies holds_layer(
            on(d, r),
            #[trigger] layers[i],
            list,
            i,
        ) by {
            if i < k {
                lemma_layer_kept(
                    on(d, t),
                    on(d, r),
                    s.stream.next + layer_offset(i),
                    t.stream.next,
                    layers[i],
                    list,
                    i,
                );
            }
        }
    }
}

/// Once a model is loaded, every weight of it holds the values that the file has under the name
/// of that weight, and no weight lies in the memory that comes next.
pub proof fn law_loaded_weights(d: Device, s: StreamSpec, list: Seq<EntrySpec>, model: Rwkv7Model)
    requires
        model_run(LoadRun::start(s), list).error is None,
        model.loaded_at(s.next as int, list),
    ensures
        holds_model(on(d, model_run(LoadRun::start(s), list)), model, list),
        forall|g: Layout|
            model_run(LoadRun::start(s), list).stream.next <= g.low ==> #[trigger] model_below(
                model,
                g,
            ),
{
    broadcast use {lemma_loads, lemma_one_loaded};

    reveal(model_run);
    let s0 = LoadRun::start(s);
    let s1 = norm_run(s0, list, "blocks.0.ln0"@);
    let s2 = norm_run(s1, list, "ln_out"@);
    let s3 = s2.loaded(list, "head.weight"@, WeightKind::Matrix);
    let n = model.info.n_layer as nat;
    let s4 = layers_run(s3, list, n);
    assert(s4.error is None && s3.error is None && s2.error is None && s1.error is None);
    lemma_norm(d, s0, list, "blocks.0.ln0"@);
    lemma_norm(d, s1, list, "ln_out"@);
    assert forall|i: int| 0 <= i < model.layers@.len() implies (
    #[trigger] model.layers@[i]).loaded_at(s3.stream.next + layer_offset(i), list, i) by {
        assert(s3.stream.next == s.next + 5);
    }
    lemma_layers(d, s3, list, n, model.layers@);
    let r = model_run(s0, list);
    d.lemma_emit(Run::start(s4.stream), CommandOf::Synchronize);
    assert(Run::start(s4.stream).emit(CommandOf::Synchronize) == Run::start(r.stream));
    let e = on(d, r);
    assert(e == on(d, s4));
    lemma_placed_tensor(e, s.next + 0, list, "blocks.0.ln0"@ + ".weight"@);
    lemma_placed_tensor(e, s.next + 1, list, "blocks.0.ln0"@ + ".bias"@);
    lemma_placed_tensor(e, s.next + 2, list, "ln_out"@ + ".weight"@);
    lemma_placed_tensor(e, s.next + 3, list, "ln_out"@ + ".bias"@);
    lemma_placed_matrix(e, s.next + 4, list, "head.weight"@);
    assert forall|g: Layout| r.stream.next <= g.low implies #[trigger] model_below(model, g) by {
        assert forall|i: int| 0 <= i < model.layers@.len() implies layer_below(
            #[trigger] model.layers@[i],
            g,
        ) by {
            assert(layer_offset(i) + layer_buffers(i) <= layer_offset(n as int));
        }
    }
}

/// The dimensions of a loaded model are those of its tensors: one row of the embedding table for
/// each token, one row of the bonus for each head, one row of the key matrix for each hidden
/// channel, and one layer more than the largest number that a name holds.
pub proof fn law_loaded_dimensions(model: Rwkv7Model, next: int, list: Seq<EntrySpec>)
    requires
        info_error(list) is None,
        model.loaded_at(next, list),
    ensures
        ({
            let info = model.info;
            let emb = lookup(list, "emb.weight"@)->0;
            let r_k = lookup(list, "blocks.0.att.r_k"@)->0;
            let key = lookup(list, "blocks.0.ffn.key.weight"@)->0;
            &&& model.embed.w@ == emb.values->Half_0
            &&& emb.shape[0] == info.n_vocab
            &&& emb.shape[1] == info.n_embd == model.embed.n_embd
            &&& r_k.shape[0] == info.n_head
            &&& info.n_head > 0 ==> info.head_size * info.n_head <= info.n_embd < (info.head_size
                + 1) * info.n_head
            &&& key.shape[0] == info.n_hidden
            &&& model.layers@.len() == info.n_layer
            &&& forall|i: int|
                0 <= i < list.len() ==> (layer_of((#[trigger] list[i]).name) matches Some(k)
                    ==> k < info.n_layer || k == usize::MAX)
            &&& exists|i: int|
                0 <= i < list.len() && (layer_of((#[trigger] list[i]).name) matches Some(k) && k + 1
                    == info.n_layer)
        }),
{
    lemma_layer_count(list, list.len());
    let n = model.info.n_head as int;
    let c = model.info.n_embd as int;
    if n > 0 {
        let q = c / n;
        assert(q * n <= c < (q + 1) * n && 0 <= q <= c) by (nonlinear_arith)
            requires
                q == c / n,
                n > 0,
                c >= 0,
        ;
    }
}

proof fn lemma_layer_count(list: Seq<EntrySpec>, n: nat)
    requires
        n <= list.len(),
    ensures
        forall|i: int|
            0 <= i < n ==> (layer_of((#[trigger] list[i]).name) matches Some(k) ==> k < layer_count(
                list,
                n,
            ) || k == usize::MAX),
        layer_count(list, n) > 0 ==> exists|i: int|
            0 <= i < n && (layer_of((#[trigger] list[i]).name) matches Some(k) && k + 1
                == layer_count(list, n)),
    decreases n,
{
    if n > 0 {
        lemma_layer_count(list, (n - 1) as nat);
        let own = layers_named(list[n - 1].name);
        let rest = layer_count(list, (n - 1) as nat);
        if own > rest {
            assert(layer_of(list[n - 1].name) is Some);
        } else if rest > 0 {
            let i = choose|i: int|
                0 <= i < n - 1 && (layer_of((#[trigger] list[i]).name) matches Some(k) && k + 1
                    == rest);
            assert(layer_of(list[i].name) is Some);
        }
    }
}

/// The name of a layer's weight is neither that of the embedding nor that of the head.
proof fn lemma_not_of_a_layer(i: int, suffix: Seq<char>)
    ensures
        layer_prefix(i) + "."@ + suffix != "emb.weight"@,
        layer_prefix(i) + "."@ + suffix != "head.weight"@,
{
    reveal_strlit("blocks.");
    reveal_strlit("emb.weight");
    reveal_strlit("head.weight");
    let name = layer_prefix(i) + "."@ + suffix;
    assert(name[0] == 'b');
}

/// No name of a vector is that of a matrix.
proof fn lemma_suffixes_apart(suffix: Seq<char>)
    ensures
        suffix == "ln1.weight"@ ==> !names_matrix(suffix),
        suffix == "ln1.bias"@ ==> !names_matrix(suffix),
        suffix == "ln2.weight"@ ==> !names_matrix(suffix),
        suffix == "ln2.bias"@ ==> !names_matrix(suffix),
        suffix == "att.x_r"@ ==> !names_matrix(suffix),
        suffix == "att.x_w"@ ==> !names_matrix(suffix),
        suffix == "att.x_k"@ ==> !names_matrix(suffix),
        suffix == "att.x_v"@ ==> !names_matrix(suffix),
        suffix == "att.x_a"@ ==> !names_matrix(suffix),
        suffix == "att.x_g"@ ==> !names_matrix(suffix),
        suffix == "att.w0"@ ==> !names_matrix(suffix),
        suffix == "att.a0"@ ==> !names_matrix(suffix),
        suffix == "att.r_k"@ ==> !names_matrix(suffix),
        suffix == "att.k_k"@ ==> !names_matrix(suffix),
        suffix == "att.k_a"@ ==> !names_matrix(suffix),
        suffix == "att.ln_x.weight"@ ==> !names_matrix(suffix),
        suffix == "att.ln_x.bias"@ ==> !names_matrix(suffix),
        suffix == "ffn.x_k"@ ==> !names_matrix(suffix),
{
    reveal_strlit("ln1.weight");
    reveal_strlit("ln1.bias");
    reveal_strlit("ln2.weight");
    reveal_strlit("ln2.bias");
    reveal_strlit("att.x_r");
    reveal_strlit("att.x_w");
    reveal_strlit("att.x_k");
    reveal_strlit("att.x_v");
    reveal_strlit("att.x_a");
    reveal_strlit("att.x_g");
    reveal_strlit("att.w0");
    reveal_strlit("att.w1");
    reveal_strlit("att.w2");
    reveal_strlit("att.a0");
    reveal_strlit("att.a1");
    reveal_strlit("att.a2");
    reveal_strlit("att.g1");
    reveal_strlit("att.g2");
    reveal_strlit("att.r_k");
    reveal_strlit("att.k_k");
    reveal_strlit("att.k_a");
    reveal_strlit("att.receptance.weight");
    reveal_strlit("att.key.weight");
    reveal_strlit("att.value.weight");
    reveal_strlit("att.output.weight");
    reveal_strlit("att.ln_x.weight");
    reveal_strlit("att.ln_x.bias");
    reveal_strlit("ffn.x_k");
    reveal_strlit("ffn.key.weight");
    reveal_strlit("ffn.value.weight");
    assert("ln1.weight"@.len() == 10);
    assert("ln1.bias"@.len() == 8);
    assert("ln2.weight"@.len() == 10);
    assert("ln2.bias"@.len() == 8);
    assert("att.x_r"@.len() == 7);
    assert("att.x_w"@.len() == 7);
    assert("att.x_k"@.len() == 7);
    assert("att.x_v"@.len() == 7);
    assert("att.x_a"@.len() == 7);
    assert("att.x_g"@.len() == 7);
    assert("att.w0"@.len() == 6);
    assert("att.w1"@.len() == 6);
    assert("att.w2"@.len() == 6);
    assert("att.a0"@.len() == 6);
    assert("att.a1"@.len() == 6);
    assert("att.a2"@.len() == 6);
    assert("att.g1"@.len() == 6);
    assert("att.g2"@.len() == 6);
    assert("att.r_k"@.len() == 7);
    assert("att.k_k"@.len() == 7);
    assert("att.k_a"@.len() == 7);
    assert("att.receptance.weight"@.len() == 21);
    assert("att.key.weight"@.len() == 14);
    assert("att.value.weight"@.len() == 16);
    assert("att.output.weight"@.len() == 17);
    assert("att.ln_x.weight"@.len() == 15);
    assert("att.ln_x.bias"@.len() == 13);
    assert("ffn.x_k"@.len() == 7);
    assert("ffn.key.weight"@.len() == 14);
    assert("ffn.value.weight"@.len() == 16);
    assert("att.w0"@[5] != "att.w1"@[5]);
    assert("att.w0"@[5] != "att.w2"@[5]);
    assert("att.w0"@[4] != "att.a1"@[4]);
    assert("att.w0"@[4] != "att.a2"@[4]);
    assert("att.w0"@[4] != "att.g1"@[4]);
    assert("att.w0"@[4] != "att.g2"@[4]);
    assert("att.a0"@[4] != "att.w1"@[4]);
    assert("att.a0"@[4] != "att.w2"@[4]);
    assert("att.a0"@[5] != "att.a1"@[5]);
    assert("att.a0"@[5] != "att.a2"@[5]);
    assert("att.a0"@[4] != "att.g1"@[4]);
    assert("att.a0"@[4] != "att.g2"@[4]);
}

/// The names of a layer's weights, in two steps and in one.
proof fn lemma_suffix_names(p: Seq<char>, suffix: Seq<char>)
    ensures
        suffix == "ln1.weight"@ ==> p + ".ln1.weight"@ == p + "."@ + suffix,
        suffix == "ln1.bias"@ ==> p + ".ln1.bias"@ == p + "."@ + suffix,
        suffix == "ln2.weight"@ ==> p + ".ln2.weight"@ == p + "."@ + suffix,
        suffix == "ln2.bias"@ ==> p + ".ln2.bias"@ == p + "."@ + suffix,
        suffix == "att.x_r"@ ==> p + ".att.x_r"@ == p + "."@ + suffix,
        suffix == "att.x_w"@ ==> p + ".att.x_w"@ == p + "."@ + suffix,
        suffix == "att.x_k"@ ==> p + ".att.x_k"@ == p + "."@ + suffix,
        suffix == "att.x_v"@ ==> p + ".att.x_v"@ == p + "."@ + suffix,
        suffix == "att.x_a"@ ==> p + ".att.x_a"@ == p + "."@ + suffix,
        suffix == "att.x_g"@ ==> p + ".att.x_g"@ == p + "."@ + suffix,
        suffix == "att.w0"@ ==> p + ".att.w0"@ == p + "."@ + suffix,
        suffix == "att.w1"@ ==> p + ".att.w1"@ == p + "."@ + suffix,
        suffix == "att.w2"@ ==> p + ".att.w2"@ == p + "."@ + suffix,
        suffix == "att.a0"@ ==> p + ".att.a0"@ == p + "."@ + suffix,
        suffix == "att.a1"@ ==> p + ".att.a1"@ == p + "."@ + suffix,
        suffix == "att.a2"@ ==> p + ".att.a2"@ == p + "."@ + suffix,
        suffix == "att.g1"@ ==> p + ".att.g1"@ == p + "."@ + suffix,
        suffix == "att.g2"@ ==> p + ".att.g2"@ == p + "."@ + suffix,
        suffix == "att.r_k"@ ==> p + ".att.r_k"@ == p + "."@ + suffix,
        suffix == "att.k_k"@ ==> p + ".att.k_k"@ == p + "."@ + suffix,
        suffix == "att.k_a"@ ==> p + ".att.k_a"@ == p + "."@ + suffix,
        suffix == "att.receptance.weight"@ ==> p + ".att.receptance.weight"@ == p + "."@ + suffix,
        suffix == "att.key.weight"@ ==> p + ".att.key.weight"@ == p + "."@ + suffix,
        suffix == "att.value.weight"@ ==> p + ".att.value.weight"@ == p + "."@ + suffix,
        suffix == "att.output.weight"@ ==> p + ".att.output.weight"@ == p + "."@ + suffix,
        suffix == "att.ln_x.weight"@ ==> p + ".att.ln_x.weight"@ == p + "."@ + suffix,
        suffix == "att.ln_x.bias"@ ==> p + ".att.ln_x.bias"@ == p + "."@ + suffix,
        suffix == "ffn.x_k"@ ==> p + ".ffn.x_k"@ == p + "."@ + suffix,
        suffix == "ffn.key.weight"@ ==> p + ".ffn.key.weight"@ == p + "."@ + suffix,
        suffix == "ffn.value.weight"@ ==> p + ".ffn.value.weight"@ == p + "."@ + suffix,
{
    reveal_strlit(".");
    if suffix == "ln1.weight"@ {
        reveal_strlit("ln1.weight");
        reveal_strlit(".ln1.weight");
        assert(p + ".ln1.weight"@ =~= p + "."@ + suffix);
    }
    if suffix == "ln1.bias"@ {
        reveal_strlit("ln1.bias");
        reveal_strlit(".ln1.bias");
        assert(p + ".ln1.bias"@ =~= p + "."@ + suffix);
    }
    if suffix == "ln2.weight"@ {
        reveal_strlit("ln2.weight");
        reveal_strlit(".ln2.weight");
        assert(p + ".ln2.weight"@ =~= p + "."@ + suffix);
    }
    if suffix == "ln2.bias"@ {
        reveal_strlit("ln2.bias");
        reveal_strlit(".ln2.bias");
        assert(p + ".ln2.bias"@ =~= p + "."@ + suffix);
    }
    if suffix == "att.x_r"@ {
        reveal_strlit("att.x_r");
        reveal_strlit(".att.x_r");
        assert(p + ".att.x_r"@ =~= p + "."@ + suffix);
    }
    if suffix == "att.x_w"@ {
        reveal_strlit("att.x_w");
        reveal_strlit(".att.x_w");
        assert(p + ".att.x_w"@ =~= p + "."@ + suffix);
    }
    if suffix == "att.x_k"@ {
        reveal_strlit("att.x_k");
        reveal_strlit(".att.x_k");
        assert(p + ".att.x_k"@ =~= p + "."@ + suffix);
    }
    if suffix == "att.x_v"@ {
        reveal_strlit("att.x_v");
        reveal_strlit(".att.x_v");
        assert(p + ".att.x_v"@ =~= p + "."@ + suffix);
    }
    if suffix == "att.x_a"@ {
        reveal_strlit("att.x_a");
        reveal_strlit(".att.x_a");
        assert(p + ".att.x_a"@ =~= p + "."@ + suffix);
    }
    if suffix == "att.x_g"@ {
        reveal_strlit("att.x_g");
        reveal_strlit(".att.x_g");
        assert(p + ".att.x_g"@ =~= p + "."@ + suffix);
    }
    if suffix == "att.w0"@ {
        reveal_strlit("att.w0");
        reveal_strlit(".att.w0");
        assert(p + ".att.w0"@ =~= p + "."@ + suffix);
    }
    if suffix == "att.w1"@ {
        reveal_strlit("att.w1");
        reveal_strlit(".att.w1");
        assert(p + ".att.w1"@ =~= p + "."@ + suffix);
    }
    if suffix == "att.w2"@ {
        reveal_strlit("att.w2");
        reveal_strlit(".att.w2");
        assert(p + ".att.w2"@ =~= p + "."@ + suffix);
    }
    if suffix == "att.a0"@ {
        reveal_strlit("att.a0");
        reveal_strlit(".att.a0");
        assert(p + ".att.a0"@ =~= p + "."@ + suffix);
    }
    if suffix == "att.a1"@ {
        reveal_strlit("att.a1");
        reveal_strlit(".att.a1");
        assert(p + ".att.a1"@ =~= p + "."@ + suffix);
    }
    if suffix == "att.a2"@ {
        reveal_strlit("att.a2");
        reveal_strlit(".att.a2");
        assert(p + ".att.a2"@ =~= p + "."@ + suffix);
    }
    if suffix == "att.g1"@ {
        reveal_strlit("att.g1");
        reveal_strlit(".att.g1");
        assert(p + ".att.g1"@ =~= p + "."@ + suffix);
    }
    if suffix == "att.g2"@ {
        reveal_strlit("att.g2");
        reveal_strlit(".att.g2");
        assert(p + ".att.g2"@ =~= p + "."@ + suffix);
    }
    if suffix == "att.r_k"@ {
        reveal_strlit("att.r_k");
        reveal_strlit(".att.r_k");
        assert(p + ".att.r_k"@ =~= p + "."@ + suffix);
    }
    if suffix == "att.k_k"@ {
        reveal_strlit("att.k_k");
        reveal_strlit(".att.k_k");
        assert(p + ".att.k_k"@ =~= p + "."@ + suffix);
    }
    if suffix == "att.k_a"@ {
        reveal_strlit("att.k_a");
        reveal_strlit(".att.k_a");
        assert(p + ".att.k_a"@ =~= p + "."@ + suffix);
    }
    if suffix == "att.receptance.weight"@ {
        reveal_strlit("att.receptance.weight");
        reveal_strlit(".att.receptance.weight");
        assert(p + ".att.receptance.weight"@ =~= p + "."@ + suffix);
    }
    if suffix == "att.key.weight"@ {
        reveal_strlit("att.key.weight");
        reveal_strlit(".att.key.weight");
        assert(p + ".att.key.weight"@ =~= p + "."@ + suffix);
    }
    if suffix == "att.value.weight"@ {
        reveal_strlit("att.value.weight");
        reveal_strlit(".att.value.weight");
        assert(p + ".att.value.weight"@ =~= p + "."@ + suffix);
    }
    if suffix == "att.output.weight"@ {
        reveal_strlit("att.output.weight");
        reveal_strlit(".att.output.weight");
        assert(p + ".att.output.weight"@ =~= p + "."@ + suffix);
    }
    if suffix == "att.ln_x.weight"@ {
        reveal_strlit("att.ln_x.weight");
        reveal_strlit(".att.ln_x.weight");
        assert(p + ".att.ln_x.weight"@ =~= p + "."@ + suffix);
    }
    if suffix == "att.ln_x.bias"@ {
        reveal_strlit("att.ln_x.bias");
        reveal_strlit(".att.ln_x.bias");
        assert(p + ".att.ln_x.bias"@ =~= p + "."@ + suffix);
    }
    if suffix == "ffn.x_k"@ {
        reveal_strlit("ffn.x_k");
        reveal_strlit(".ffn.x_k");
        assert(p + ".ffn.x_k"@ =~= p + "."@ + suffix);
    }
    if suffix == "ffn.key.weight"@ {
        reveal_strlit("ffn.key.weight");
        reveal_strlit(".ffn.key.weight");
        assert(p + ".ffn.key.weight"@ =~= p + "."@ + suffix);
    }
    if suffix == "ffn.value.weight"@ {
        reveal_strlit("ffn.value.weight");
        reveal_strlit(".ffn.value.weight");
        assert(p + ".ffn.value.weight"@ =~= p + "."@ + suffix);
    }
}

/// A weight of a layer, asked for by the name that it has in the file, is answered with a tensor
/// that holds what the file has under that name.
pub proof fn law_named_layer_weight(
    d: Device,
    s: StreamSpec,
    list: Seq<EntrySpec>,
    model: Rwkv7Model,
    i: usize,
    suffix: Seq<char>,
)
    requires
        model_run(LoadRun::start(s), list).error is None,
        model.loaded_at(s.next as int, list),
        i < model.info.n_layer,
    ensures
        ({
            let c = on(d, model_run(LoadRun::start(s), list));
            let name = layer_prefix(i as int) + "."@ + suffix;
            model.weight_named(name) matches Some(t) ==> if names_matrix(suffix) {
                holds_matrix(c, t, list, name)
            } else {
                holds_tensor(c, t, list, name)
            }
        }),
{
    law_loaded_weights(d, s, list, model);
    law_layer_names_round_trip(i, suffix);
    let p = layer_prefix(i as int);
    assert(holds_layer(
        on(d, model_run(LoadRun::start(s), list)),
        model.layers@[i as int],
        list,
        i as int,
    ));
    lemma_not_of_a_layer(i as int, suffix);
    lemma_suffixes_apart(suffix);
    lemma_suffix_names(p, suffix);
}

/// The head, asked for by its name, is answered with the matrix that the file has under it.
pub proof fn law_named_head(d: Device, s: StreamSpec, list: Seq<EntrySpec>, model: Rwkv7Model)
    requires
        model_run(LoadRun::start(s), list).error is None,
        model.loaded_at(s.next as int, list),
    ensures
        model.weight_named("head.weight"@) is Some,
        holds_matrix(
            on(d, model_run(LoadRun::start(s), list)),
            model.weight_named("head.weight"@)->0,
            list,
            "head.weight"@,
        ),
{
    law_loaded_weights(d, s, list, model);
    reveal_strlit("emb.weight");
    reveal_strlit("head.weight");
    assert("emb.weight"@[0] != "head.weight"@[0]);
}

} // verus!
