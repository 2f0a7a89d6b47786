//! From a file to a model that can be run: when loading and configuring succeed, and what the
//! loaded model is good for.
use crate::buffer::MemoryType;
use crate::buffers::{
    att_alloc_run, fla_alloc_run, inner_alloc_run, shift_alloc_run, temp_alloc_run,
    wkv_alloc_run, work_alloc_run,
};
use crate::model::dispatch_laws::in_vocabulary;
use crate::model::load::{
    host_values_error, info_error, keys_run, layer_buffers, layer_offset, layer_prefix,
    layer_run, layers_run, loadable, mixes_run, model_info, model_run, norm_run, ranks_run,
    residual_run,
};
use crate::model::load_run::{
    weight_data, weight_error, weight_shape, LoadRun, WeightKind,
};
use crate::model::weights::LayerHip;
use crate::model::{Rwkv7Model, Rwkv7ModelInfo};
use crate::run::Run;
use crate::scratch::{
    full_fla_shapes, full_shapes, scratch_run, state_alloc_run, HipRuntimeConfig, LoraDims,
};
use crate::shapes::PassShapes;
use crate::stream::{DataSpec, Elem, StreamSpec};
use crate::tensor::{fill_error, TensorShape};
use crate::tensor_file::{lookup, EntrySpec};
use vstd::prelude::*;

verus! {

/// Whether the tensor of a name can be loaded and has a value for each of its elements.
pub open spec fn stored(list: Seq<EntrySpec>, name: Seq<char>, kind: WeightKind) -> bool {
    &&& weight_error(list, name, kind) is None
    &&& weight_data(list, name, kind).len() == weight_shape(list, name, kind).spec_len()
}

/// Whether a name stands for a vector of `n` elements.
pub open spec fn vector_of(list: Seq<EntrySpec>, name: Seq<char>, n: usize) -> bool {
    let shape = weight_shape(list, name, WeightKind::Tensor);
    stored(list, name, WeightKind::Tensor) && shape.d0 == n && shape.spec_len() == n
}

/// Whether a name stands for a matrix of the given numbers of rows and columns.
pub open spec fn matrix_of(
    list: Seq<EntrySpec>,
    name: Seq<char>,
    rows: usize,
    columns: usize,
) -> bool {
    &&& stored(list, name, WeightKind::Matrix)
    &&& weight_shape(list, name, WeightKind::Matrix) == TensorShape::of(rows, columns, 1, 1)
}

/// Whether there are scale and shift of `n` channels.
pub open spec fn norm_of(list: Seq<EntrySpec>, prefix: Seq<char>, n: usize) -> bool {
    vector_of(list, prefix + ".weight"@, n) && vector_of(list, prefix + ".bias"@, n)
}

/// Whether there is a vector of `n` elements under each name.
pub open spec fn mixes_of(list: Seq<EntrySpec>, p: Seq<char>, n: usize) -> bool {
    &&& vector_of(list, p + ".att.x_r"@, n)
    &&& vector_of(list, p + ".att.x_w"@, n)
    &&& vector_of(list, p + ".att.x_k"@, n)
    &&& vector_of(list, p + ".att.x_v"@, n)
    &&& vector_of(list, p + ".att.x_a"@, n)
    &&& vector_of(list, p + ".att.x_g"@, n)
}

/// Whether there are the factors of decay, adaptation and gate, of the given ranks.
pub open spec fn ranks_of(list: Seq<EntrySpec>, p: Seq<char>, n: usize, lora: LoraDims) -> bool {
    &&& vector_of(list, p + ".att.w0"@, n)
    &&& matrix_of(list, p + ".att.w1"@, lora.w_dim, n)
    &&& matrix_of(list, p + ".att.w2"@, n, lora.w_dim)
    &&& vector_of(list, p + ".att.a0"@, n)
    &&& matrix_of(list, p + ".att.a1"@, lora.a_dim, n)
    &&& matrix_of(list, p + ".att.a2"@, n, lora.a_dim)
    &&& matrix_of(list, p + ".att.g1"@, lora.g_dim, n)
    &&& matrix_of(list, p + ".att.g2"@, n, lora.g_dim)
}

/// Whether there are the factors of the value residual, of the given rank.
pub open spec fn residual_of(list: Seq<EntrySpec>, p: Seq<char>, n: usize, rank: usize) -> bool {
    &&& vector_of(list, p + ".att.v0"@, n)
    &&& matrix_of(list, p + ".att.v1"@, rank, n)
    &&& matrix_of(list, p + ".att.v2"@, n, rank)
}

/// Whether there are the vectors of the key and the projections.
pub open spec fn keys_of(list: Seq<EntrySpec>, p: Seq<char>, info: Rwkv7ModelInfo) -> bool {
    let n = info.n_embd;
    &&& stored(list, p + ".att.r_k"@, WeightKind::Tensor)
    &&& weight_shape(list, p + ".att.r_k"@, WeightKind::Tensor).spec_len() == n
    &&& vector_of(list, p + ".att.k_k"@, n)
    &&& vector_of(list, p + ".att.k_a"@, n)
    &&& matrix_of(list, p + ".att.receptance.weight"@, n, n)
    &&& matrix_of(list, p + ".att.key.weight"@, n, n)
    &&& matrix_of(list, p + ".att.value.weight"@, n, n)
    &&& matrix_of(list, p + ".att.output.weight"@, n, n)
}

/// Whether the tensors of a layer are there, in the shapes of the model.
pub open spec fn layer_of_model(
    list: Seq<EntrySpec>,
    i: int,
    info: Rwkv7ModelInfo,
    lora: LoraDims,
) -> bool {
    let p = layer_prefix(i);
    let n = info.n_embd;
    &&& norm_of(list, p + ".ln1"@, n)
    &&& norm_of(list, p + ".ln2"@, n)
    &&& mixes_of(list, p, n)
    &&& ranks_of(list, p, n, lora)
    &&& i > 0 ==> residual_of(list, p, n, lora.v_rank())
    &&& keys_of(list, p, info)
    &&& norm_of(list, p + ".att.ln_x"@, n)
    &&& vector_of(list, p + ".ffn.x_k"@, n)
    &&& matrix_of(list, p + ".ffn.key.weight"@, info.n_hidden, n)
    &&& matrix_of(list, p + ".ffn.value.weight"@, n, info.n_hidden)
}

/// Whether the tensors of a file make up a model: all of them are there, in half precision, in
/// the shapes that its dimensions and the ranks of its factors ask for.
pub open spec fn model_of(list: Seq<EntrySpec>, lora: LoraDims) -> bool {
    let info = model_info(list);
    &&& loadable(list)
    &&& info_error(list) is None
    &&& host_values_error(list, "emb.weight"@) is None
    &&& lookup(list, "emb.weight"@)->0.values->Half_0.len() == info.n_vocab * info.n_embd
    &&& info.n_vocab > 0
    &&& info.n_head > 0
    &&& info.head_size > 0
    &&& info.n_embd == info.head_size * info.n_head
    &&& info.n_embd * 6 <= usize::MAX
    &&& lora.v_dim is Some == (info.n_layer > 1)
    &&& norm_of(list, "blocks.0.ln0"@, info.n_embd)
    &&& norm_of(list, "ln_out"@, info.n_embd)
    &&& matrix_of(list, "head.weight"@, info.n_vocab, info.n_embd)
    &&& forall|i: int|
        0 <= i < info.n_layer ==> #[trigger] layer_of_model(list, i, info, lora)
}

/// `after` is `before` with more loaded, no failure, and `made` more buffers.
pub open spec fn loads_on(before: LoadRun, after: LoadRun, made: int) -> bool {
    after.error is None && after.stream.next == before.stream.next + made
}

/// A stored weight is loaded, where a buffer number is left.
broadcast proof fn lemma_stored(s: LoadRun, list: Seq<EntrySpec>, name: Seq<char>, kind: WeightKind)
    requires
        s.error is None,
        stored(list, name, kind),
        s.stream.next < usize::MAX,
    ensures
        (#[trigger] s.loaded(list, name, kind)).error is None,
        s.loaded(list, name, kind).stream.next == s.stream.next + 1,
{
    let data = DataSpec::F16(weight_data(list, name, kind));
    let shape = weight_shape(list, name, kind);
    assert(fill_error(data.len(), shape) is None) by {
        reveal(fill_error);
    }
    let a = Run::start(s.stream);
    let b = a.check(fill_error(data.len(), shape));
    assert(a == b);
    lemma_room(b, data.kind(), shape, MemoryType::Managed, false);
    reveal(LoadRun::loaded);
}

proof fn lemma_norm_loads(s: LoadRun, list: Seq<EntrySpec>, prefix: Seq<char>, n: usize)
    requires
        s.error is None,
        norm_of(list, prefix, n),
        s.stream.next + 2 <= usize::MAX,
    ensures
        loads_on(s, norm_run(s, list, prefix), 2),
{
    broadcast use lemma_stored;

}

proof fn lemma_parts_load(
    s: LoadRun,
    list: Seq<EntrySpec>,
    p: Seq<char>,
    info: Rwkv7ModelInfo,
    lora: LoraDims,
)
    requires
        s.error is None,
        s.stream.next + 8 <= usize::MAX,
    ensures
        mixes_of(list, p, info.n_embd) ==> loads_on(s, mixes_run(s, list, p), 6),
        ranks_of(list, p, info.n_embd, lora) ==> loads_on(s, ranks_run(s, list, p), 8),
        residual_of(list, p, info.n_embd, lora.v_rank()) ==> loads_on(
            s,
            residual_run(s, list, p),
            3,
        ),
        keys_of(list, p, info) ==> loads_on(s, keys_run(s, list, p), 7),
{
    broadcast use lemma_stored;

    reveal(mixes_run);
    reveal(ranks_run);
    reveal(residual_run);
    reveal(keys_run);
}

proof fn lemma_layer_loads(
    s: LoadRun,
    list: Seq<EntrySpec>,
    i: int,
    info: Rwkv7ModelInfo,
    lora: LoraDims,
)
    requires
        s.error is None,
        i >= 0,
        layer_of_model(list, i, info, lora),
        s.stream.next + layer_buffers(i) <= usize::MAX,
    ensures
        loads_on(s, layer_run(s, list, i), layer_buffers(i)),
{
    let p = layer_prefix(i);
    let n = info.n_embd;
    lemma_norm_loads(s, list, p + ".ln1"@, n);
    let s1 = norm_run(s, list, p + ".ln1"@);
    lemma_norm_loads(s1, list, p + ".ln2"@, n);
    let s2 = norm_run(s1, list, p + ".ln2"@);
    lemma_parts_load(s2, list, p, info, lora);
    let s3 = mixes_run(s2, list, p);
    lemma_parts_load(s3, list, p, info, lora);
    let s4 = ranks_run(s3, list, p);
    lemma_parts_load(s4, list, p, info, lora);
    let s5 = if i > 0 {
        residual_run(s4, list, p)
    } else {
        s4
    };
    lemma_parts_load(s5, list, p, info, lora);
    let s6 = keys_run(s5, list, p);
    lemma_norm_loads(s6, list, p + ".att.ln_x"@, n);
    let s7 = norm_run(s6, list, p + ".att.ln_x"@);
    lemma_stored(s7, list, p + ".ffn.x_k"@, WeightKind::Tensor);
    let s8 = s7.loaded(list, p + ".ffn.x_k"@, WeightKind::Tensor);
    lemma_stored(s8, list, p + ".ffn.key.weight"@, WeightKind::Matrix);
    let s9 = s8.loaded(list, p + ".ffn.key.weight"@, WeightKind::Matrix);
    lemma_stored(s9, list, p + ".ffn.value.weight"@, WeightKind::Matrix);
    reveal(layer_run);
}

proof fn lemma_layers_load(
    s: LoadRun,
    list: Seq<EntrySpec>,
    k: nat,
    info: Rwkv7ModelInfo,
    lora: LoraDims,
)
    requires
        s.error is None,
        forall|i: int| 0 <= i < k ==> #[trigger] layer_of_model(list, i, info, lora),
        s.stream.next + layer_offset(k as int) <= usize::MAX,
    ensures
        loads_on(s, layers_run(s, list, k), layer_offset(k as int)),
    decreases k,
{
    if k > 0 {
        lemma_layers_load(s, list, (k - 1) as nat, info, lora);
        assert(layer_of_model(list, k - 1, info, lora));
        lemma_layer_loads(layers_run(s, list, (k - 1) as nat), list, k - 1, info, lora);
    }
}

/// A file whose tensors make up a model is loaded, as long as buffer numbers last: five for
/// embedding and head, thirty for the first layer and thirty-three for each other.
pub proof fn law_model_loads(s: StreamSpec, list: Seq<EntrySpec>, lora: LoraDims)
    requires
        model_of(list, lora),
        s.next + 5 + layer_offset(model_info(list).n_layer as int) <= usize::MAX,
    ensures
        model_run(LoadRun::start(s), list).error is None,
        model_run(LoadRun::start(s), list).stream.next == s.next + 5 + layer_offset(
            model_info(list).n_layer as int,
        ),
{
    let info = model_info(list);
    let s0 = LoadRun::start(s);
    lemma_norm_loads(s0, list, "blocks.0.ln0"@, info.n_embd);
    let s1 = norm_run(s0, list, "blocks.0.ln0"@);
    lemma_norm_loads(s1, list, "ln_out"@, info.n_embd);
    let s2 = norm_run(s1, list, "ln_out"@);
    lemma_stored(s2, list, "head.weight"@, WeightKind::Matrix);
    let s3 = s2.loaded(list, "head.weight"@, WeightKind::Matrix);
    lemma_layers_load(s3, list, info.n_layer as nat, info, lora);
    reveal(model_run);
}

proof fn lemma_layer_shaped(
    layer: LayerHip,
    next: int,
    list: Seq<EntrySpec>,
    i: int,
    info: Rwkv7ModelInfo,
    lora: LoraDims,
)
    requires
        layer.loaded_at(next, list, i),
        layer_of_model(list, i, info, lora),
        info.n_embd == info.head_size * info.n_head,
        info.n_embd > 0,
    ensures
        layer.shaped(info, lora),
        layer.repeatable(),
        layer.att.w1@.shape().d0 == lora.w_dim,
        layer.att.a1@.shape().d0 == lora.a_dim,
        layer.att.g1@.shape().d0 == lora.g_dim,
        i > 0 ==> layer.att.v1 is Some && layer.att.v1->0@.shape().d0 == lora.v_rank(),
{
    reveal(LayerHip::shaped);
}

/// The model that such a file is loaded to has the shapes that every pass asks for, and the
/// ranks of its factors are those of the file.
pub proof fn law_loaded_model_is_shaped(
    model: Rwkv7Model,
    next: int,
    list: Seq<EntrySpec>,
    lora: LoraDims,
)
    requires
        model_of(list, lora),
        model.loaded_at(next, list),
    ensures
        model.sound(),
        model.shaped(lora),
        model.spec_lora_dims() == lora,
{
    let info = model.info;
    assert(info.n_embd > 0) by (nonlinear_arith)
        requires
            info.n_embd == info.head_size * info.n_head,
            info.head_size > 0,
            info.n_head > 0,
    ;
    assert forall|i: int| 0 <= i < info.n_layer implies (#[trigger] model.layers@[i]).shaped(
        info,
        lora,
    ) && model.layers@[i].repeatable() by {
        assert(layer_of_model(list, i, info, lora));
        lemma_layer_shaped(model.layers@[i], next + 5 + layer_offset(i), list, i, info, lora);
    }
    assert(layer_of_model(list, 0, info, lora));
    lemma_layer_shaped(model.layers@[0], next + 5, list, 0, info, lora);
    if info.n_layer > 1 {
        assert(layer_of_model(list, 1, info, lora));
        lemma_layer_shaped(
            model.layers@[1],
            next + 5 + layer_offset(1),
            list,
            1,
            info,
            lora,
        );
    }
}

/// The model that such a file is loaded to knows every token below the size of its vocabulary.
pub proof fn law_loaded_model_knows_its_vocabulary(
    model: Rwkv7Model,
    next: int,
    list: Seq<EntrySpec>,
    lora: LoraDims,
    rows: Seq<Seq<u32>>,
)
    requires
        model_of(list, lora),
        model.loaded_at(next, list),
        forall|i: int| 0 <= i < rows.len() ==> (#[trigger] rows[i]).len() <= usize::MAX,
        forall|i: int, k: int|
            0 <= i < rows.len() && 0 <= k < rows[i].len() ==> (#[trigger] rows[i][k])
                < model_info(list).n_vocab,
    ensures
        in_vocabulary(model, rows),
{
}

/// A buffer is made, where a number is left.
broadcast proof fn lemma_room(
    s: Run,
    elem: Elem,
    shape: TensorShape,
    memory: MemoryType,
    zeroed: bool,
)
    requires
        s.error is None,
        s.stream.next < usize::MAX,
    ensures
        (#[trigger] s.allocated(elem, shape, memory, zeroed)).error is None,
        s.allocated(elem, shape, memory, zeroed).stream.next == s.stream.next + 1,
{
    reveal(Run::allocated);
}

proof fn lemma_states_made(s: Run, n: nat, sh: PassShapes)
    requires
        s.error is None,
        s.stream.next + 3 * n <= usize::MAX,
    ensures
        state_alloc_run(s, n, sh).error is None,
        state_alloc_run(s, n, sh).stream.next == s.stream.next + 3 * n,
    decreases n,
{
    broadcast use lemma_room;

    if n > 0 {
        lemma_states_made(s, (n - 1) as nat, sh);
    }
}

/// Working memory is made, as long as buffer numbers last: three for the states of each layer
/// and sixty for everything else.
pub proof fn law_configuring_succeeds(
    s: StreamSpec,
    info: Rwkv7ModelInfo,
    lora: LoraDims,
    config: HipRuntimeConfig,
)
    requires
        s.next + 3 * info.n_layer + 60 <= usize::MAX,
    ensures
        scratch_run(Run::start(s), info, lora, config).error is None,
        scratch_run(Run::start(s), info, lora, config).stream.next == s.next + 3 * info.n_layer
            + 60,
{
    broadcast use lemma_room;

    let sh = full_shapes(info, lora, config);
    let fla = full_fla_shapes(info, config);
    lemma_states_made(Run::start(s), info.n_layer as nat, sh);
    let s0 = state_alloc_run(Run::start(s), info.n_layer as nat, sh);
    let s1 = work_alloc_run(s0, sh);
    assert(s1.error is None && s1.stream.next == s0.stream.next + 36) by {
        reveal(work_alloc_run);
        reveal(shift_alloc_run);
        reveal(att_alloc_run);
        reveal(wkv_alloc_run);
        reveal(inner_alloc_run);
    }
    let s2 = temp_alloc_run(s1, sh);
    assert(s2.error is None && s2.stream.next == s1.stream.next + 4) by {
        reveal(temp_alloc_run);
    }
    let s3 = s2.allocated(Elem::F32, sh.wkv_state, MemoryType::Device, false);
    let s4 = fla_alloc_run(s3, fla);
    assert(s4.error is None && s4.stream.next == s3.stream.next + 15) by {
        reveal(fla_alloc_run);
    }
}

} // verus!
