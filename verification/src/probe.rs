//! Probes: hook points of the forward pass at which intermediate values are handed out.
use crate::stream::{CommandOf, Elem, Run, Stream};
use crate::tensor::{DevicePtr, Element, TensorHip, TensorShape, TensorSpec, F16, F32};
use vstd::array::array_as_slice;
use vstd::prelude::*;
use vstd::slice::slice_subrange;

verus! {

/// Hook points of the forward pass. Which layer a hook belongs to is part of the context.
#[derive(Debug, Clone, Copy, PartialEq, Eq, Hash, Structural)]
pub enum HipHook {
    /// After the embedding lookup, before its layer norm.
    PostEmbed,
    /// After the layer norm of the embedding.
    PostEmbedLayerNorm,
    /// After the layer norm of the attention.
    PostAttLayerNorm,
    /// After the token shift of the attention.
    PostAttTokenShift,
    /// After the projections of receptance, key and value.
    PostAttLinear,
    /// After the decay.
    PostAttDecay,
    /// After the adaptation.
    PostAttAdapt,
    /// After the gating.
    PostAttGate,
    /// After the value residual, from the second layer on.
    PostAttValueResidual,
    /// After the L2 norm of the key.
    PostAttL2Norm,
    /// After the key control.
    PostAttControlK,
    /// Before the recurrent attention.
    PreWkv,
    /// The recurrent state before the attention.
    PreWkvState,
    /// After the recurrent attention.
    PostWkv,
    /// The recurrent state after the attention.
    PostWkvState,
    /// After the bonus term.
    PostWkvBonus,
    /// After the group norm of the attention output.
    PostAttGroupNorm,
    /// After the gating.
    PostAttGated,
    /// After the output projection.
    PostAttOut,
    /// After the residual of the attention.
    PostAtt,
    /// After the layer norm of the feed-forward part.
    PostFfnLayerNorm,
    /// After the token shift of the feed-forward part.
    PostFfnTokenShift,
    /// After the key projection of the feed-forward part.
    PostFfnLinear,
    /// After the squared ReLU.
    PostFfnActivate,
    /// After the value projection of the feed-forward part.
    PostFfnOut,
    /// After the residual of the feed-forward part.
    PostFfn,
    /// After the last layer norm.
    PostHeadLayerNorm,
    /// After the head projection.
    PostHead,
}

/// Most extents that a probe context holds.
pub const MAX_SHAPE_DIMS: usize = 6;

/// What a probe callback is told about its data.
#[derive(Debug, Clone)]
pub struct ProbeContext {
    /// Layer of the hook; none for the embedding and the head.
    pub layer: Option<usize>,
    /// Number of sequences.
    pub batch_size: usize,
    /// Longest real sequence.
    pub seq_len: usize,
    /// Padded length of the sequences.
    pub chunk_size: usize,
    pub n_embd: usize,
    pub n_head: usize,
    pub head_size: usize,
    pub n_layer: usize,
    /// Extents of the data; the first `shape_len` count.
    pub shape_storage: [usize; MAX_SHAPE_DIMS],
    pub shape_len: usize,
}

/// The longest prefix of `shape` that fits.
pub open spec fn kept_dims(shape: Seq<usize>) -> Seq<usize> {
    if shape.len() <= MAX_SHAPE_DIMS {
        shape
    } else {
        shape.take(MAX_SHAPE_DIMS as int)
    }
}

impl ProbeContext {
    /// The extents that count.
    pub open spec fn dims(&self) -> Seq<usize> {
        self.shape_storage@.take(self.shape_len as int)
    }

    /// The extents of the data.
    pub fn shape(&self) -> (s: &[usize])
        requires
            self.shape_len <= MAX_SHAPE_DIMS,
        ensures
            s@ == self.dims(),
    {
        slice_subrange(array_as_slice(&self.shape_storage), 0, self.shape_len)
    }

    /// Keeps the first extents of `shape`, as many as fit.
    pub fn set_shape(&mut self, shape: &[usize])
        ensures
            final(self).dims() == kept_dims(shape@),
            final(self).shape_len == kept_dims(shape@).len(),
            forall|j: int|
                kept_dims(shape@).len() <= j < MAX_SHAPE_DIMS
                    ==> #[trigger] final(self).shape_storage@[j] == old(self).shape_storage@[j],
            *final(self) == (ProbeContext {
                shape_storage: final(self).shape_storage,
                shape_len: final(self).shape_len,
                ..*old(self)
            }),
    {
        let len: usize = if shape.len() < MAX_SHAPE_DIMS {
            shape.len()
        } else {
            MAX_SHAPE_DIMS
        };
        let mut i: usize = 0;
        while i < len
            invariant
                i <= len <= MAX_SHAPE_DIMS,
                len <= shape@.len(),
                forall|j: int| 0 <= j < i ==> self.shape_storage@[j] == shape@[j],
                forall|j: int|
                    i <= j < MAX_SHAPE_DIMS ==> self.shape_storage@[j]
                        == old(self).shape_storage@[j],
                *self == (ProbeContext { shape_storage: self.shape_storage, ..*old(self) }),
            decreases len - i,
        {
            self.shape_storage[i] = shape[i];
            i += 1;
        }
        self.shape_len = len;
        assert(self.dims() =~= kept_dims(shape@));
    }
}

/// A hook and the number of the callback that answers it.
#[derive(Debug, Clone, Copy)]
pub struct ProbeEntry {
    pub hook: HipHook,
    pub callback: usize,
}

/// Which callback answers which hook; callbacks go by number.
#[derive(Debug)]
pub struct HipProbeMap {
    entries: Vec<ProbeEntry>,
}

/// Whether no hook occurs twice.
spec fn distinct_hooks(entries: Seq<ProbeEntry>) -> bool {
    forall|i: int, j: int|
        0 <= i < j < entries.len() ==> (#[trigger] entries[i]).hook != (#[trigger] entries[j]).hook
}

/// Whether some entry is for the hook.
spec fn has_hook(entries: Seq<ProbeEntry>, hook: HipHook) -> bool {
    exists|i: int| 0 <= i < entries.len() && (#[trigger] entries[i]).hook == hook
}

impl View for HipProbeMap {
    type V = Map<HipHook, usize>;

    closed spec fn view(&self) -> Map<HipHook, usize> {
        Map::new(
            |hook: HipHook| has_hook(self.entries@, hook),
            |hook: HipHook|
                self.entries@[choose|i: int|
                    0 <= i < self.entries@.len() && (#[trigger] self.entries@[i]).hook
                        == hook].callback,
        )
    }
}

impl HipProbeMap {
    #[verifier::type_invariant]
    spec fn distinct(self) -> bool {
        distinct_hooks(self.entries@)
    }

    /// A map that answers no hook.
    pub fn empty() -> (m: HipProbeMap)
        ensures
            m@ == Map::<HipHook, usize>::empty(),
    {
        let m = HipProbeMap { entries: Vec::new() };
        assert(m@ =~= Map::<HipHook, usize>::empty());
        m
    }

    /// Position of the entry for a hook.
    fn position(&self, hook: HipHook) -> (p: Option<usize>)
        ensures
            match p {
                Some(i) => i < self.entries@.len() && self.entries@[i as int].hook == hook,
                None => !has_hook(self.entries@, hook),
            },
    {
        let mut i: usize = 0;
        while i < self.entries.len()
            invariant
                i <= self.entries@.len(),
                forall|j: int| 0 <= j < i ==> (#[trigger] self.entries@[j]).hook != hook,
            decreases self.entries@.len() - i,
        {
            if self.entries[i].hook == hook {
                return Some(i);
            }
            i += 1;
        }
        None
    }

    /// Whether some callback answers the hook.
    pub fn contains_key(&self, hook: HipHook) -> (b: bool)
        ensures
            b == self@.dom().contains(hook),
    {
        self.position(hook).is_some()
    }

    /// The callback that answers the hook.
    pub fn get(&self, hook: HipHook) -> (c: Option<usize>)
        ensures
            c == (if self@.dom().contains(hook) {
                Some(self@[hook])
            } else {
                None
            }),
    {
        proof {
            use_type_invariant(self);
        }
        match self.position(hook) {
            Some(i) => Some(self.entries[i].callback),
            None => None,
        }
    }

    /// Number of hooks that are answered.
    pub fn len(&self) -> (n: usize)
        ensures
            n == self.count(),
    {
        self.entries.len()
    }

    pub closed spec fn count(&self) -> nat {
        self.entries@.len()
    }

    /// Lets `callback` answer the hook, in place of any before it.
    pub fn insert(&mut self, hook: HipHook, callback: usize)
        ensures
            final(self)@ == old(self)@.insert(hook, callback),
    {
        proof {
            use_type_invariant(&*self);
        }
        let mut entries: Vec<ProbeEntry> = Vec::new();
        let mut i: usize = 0;
        let ghost before = self.entries@;
        while i < self.entries.len()
            invariant
                i <= self.entries@.len(),
                self.entries@ == before,
                distinct_hooks(before),
                distinct_hooks(entries@),
                forall|j: int| 0 <= j < entries@.len() ==> (#[trigger] entries@[j]).hook != hook,
                forall|j: int|
                    0 <= j < entries@.len() ==> exists|k: int|
                        0 <= k < i && before[k] == #[trigger] entries@[j],
                forall|k: int|
                    0 <= k < i && (#[trigger] before[k]).hook != hook ==> entries@.contains(
                        before[k],
                    ),
            decreases self.entries@.len() - i,
        {
            let entry = self.entries[i];
            if entry.hook != hook {
                let ghost kept = entries@;
                entries.push(entry);
                proof {
                    assert(entries@.last() == entry);
                    assert forall|k: int| 0 <= k < i + 1 && (#[trigger] before[k]).hook
                        != hook implies entries@.contains(before[k]) by {
                        if k < i {
                            let j = choose|j: int| 0 <= j < kept.len() && kept[j] == before[k];
                            assert(entries@[j] == before[k]);
                        }
                    }
                }
            }
            i += 1;
        }
        let ghost kept = entries@;
        entries.push(ProbeEntry { hook, callback });
        let ghost old_map = self@;
        proof {
            assert forall|h: HipHook| old_map.insert(hook, callback).dom().contains(
                h,
            ) <==> has_hook(entries@, h) by {
                if h == hook {
                    assert(entries@.last().hook == h);
                } else {
                    if has_hook(before, h) {
                        let k = choose|k: int| 0 <= k < before.len() && (#[trigger] before[k]).hook == h;
                        assert(kept.contains(before[k]));
                        let j = choose|j: int| 0 <= j < kept.len() && kept[j] == before[k];
                        assert(entries@[j].hook == h);
                    }
                    if has_hook(entries@, h) {
                        let j = choose|j: int| 0 <= j < entries@.len() && (#[trigger] entries@[j]).hook == h;
                        assert(kept[j] == entries@[j]);
                    }
                }
            }
            assert forall|h: HipHook| has_hook(entries@, h) implies old_map.insert(hook, callback)[h]
                == entries@[choose|i: int|
                0 <= i < entries@.len() && (#[trigger] entries@[i]).hook == h].callback by {
                let j = choose|i: int| 0 <= i < entries@.len() && (#[trigger] entries@[i]).hook == h;
                if h != hook {
                    assert(kept[j] == entries@[j]);
                    let k = choose|k: int| 0 <= k < before.len() && before[k] == kept[j];
                    assert(has_hook(before, h));
                    let m = choose|k: int| 0 <= k < before.len() && (#[trigger] before[k]).hook == h;
                    assert(before[k].hook == before[m].hook);
                    assert(k == m);
                }
            }
        }
        *self = HipProbeMap { entries };
        assert(self@ =~= old_map.insert(hook, callback));
    }
}

/// The map after `callback` has been put in for each of the hooks.
pub open spec fn with_hooks(
    map: Map<HipHook, usize>,
    hooks: Seq<HipHook>,
    callback: usize,
) -> Map<HipHook, usize> {
    Map::new(
        |h: HipHook| map.dom().contains(h) || hooks.contains(h),
        |h: HipHook|
            if hooks.contains(h) {
                callback
            } else {
                map[h]
            },
    )
}

/// Collects the hooks to answer.
#[derive(Debug)]
pub struct HipProbeBuilder {
    probes: HipProbeMap,
}

impl HipProbeBuilder {
    pub closed spec fn map(&self) -> Map<HipHook, usize> {
        self.probes@
    }

    pub fn new() -> (b: HipProbeBuilder)
        ensures
            b.map() == Map::<HipHook, usize>::empty(),
    {
        HipProbeBuilder { probes: HipProbeMap::empty() }
    }

    /// Lets `callback` answer one hook.
    pub fn on(self, hook: HipHook, callback: usize) -> (b: HipProbeBuilder)
        ensures
            b.map() == self.map().insert(hook, callback),
    {
        let mut probes = self.probes;
        probes.insert(hook, callback);
        HipProbeBuilder { probes }
    }

    /// Lets the same callback answer several hooks.
    pub fn on_many(self, hooks: &[HipHook], callback: usize) -> (b: HipProbeBuilder)
        ensures
            b.map() == with_hooks(self.map(), hooks@, callback),
    {
        let ghost before = self.probes@;
        let mut probes = self.probes;
        let mut i: usize = 0;
        assert(probes@ =~= with_hooks(before, hooks@.take(0), callback));
        while i < hooks.len()
            invariant
                i <= hooks@.len(),
                probes@ == with_hooks(before, hooks@.take(i as int), callback),
            decreases hooks@.len() - i,
        {
            let hook = hooks[i];
            probes.insert(hook, callback);
            proof {
                let prefix = hooks@.take(i as int);
                let longer = hooks@.take(i + 1);
                assert(longer =~= prefix.push(hook));
                assert forall|h: HipHook| longer.contains(h) <==> prefix.contains(h) || h
                    == hook by {
                    if prefix.contains(h) {
                        let j = choose|j: int| 0 <= j < prefix.len() && prefix[j] == h;
                        assert(longer[j] == h);
                    }
                    assert(longer[i as int] == hook);
                    if longer.contains(h) && h != hook {
                        let j = choose|j: int| 0 <= j < longer.len() && longer[j] == h;
                        assert(prefix[j] == h);
                    }
                }
                assert(probes@ =~= with_hooks(before, longer, callback));
            }
            i += 1;
        }
        assert(hooks@.take(i as int) =~= hooks@);
        HipProbeBuilder { probes }
    }

    pub fn build(self) -> (m: HipProbeMap)
        ensures
            m@ == self.map(),
    {
        self.probes
    }
}

/// What stays the same for every probe of one layer of one pass.
#[derive(Debug, Clone, Copy, PartialEq, Eq)]
pub struct ProbeFrame {
    pub layer: Option<usize>,
    pub batch_size: usize,
    pub seq_len: usize,
    pub chunk_size: usize,
    pub n_embd: usize,
    pub n_head: usize,
    pub head_size: usize,
    pub n_layer: usize,
}

/// The tensors that a probe hands out: one whole, or several of one size interleaved by
/// token.
#[derive(Debug, Clone, Copy, PartialEq, Eq)]
pub enum ProbeSource {
    Whole { elem: Elem, src: DevicePtr, len: usize },
    Stack3 { s0: DevicePtr, s1: DevicePtr, s2: DevicePtr, len: usize },
    Stack6 {
        s0: DevicePtr,
        s1: DevicePtr,
        s2: DevicePtr,
        s3: DevicePtr,
        s4: DevicePtr,
        s5: DevicePtr,
        len: usize,
    },
}

/// A probe that is due: the callback is shown the sources in the given shape, of whose
/// extents the first `rank` count.
#[derive(Debug, Clone, Copy, PartialEq, Eq)]
pub struct Probe {
    pub hook: HipHook,
    pub callback: usize,
    pub frame: ProbeFrame,
    pub source: ProbeSource,
    pub shape: TensorShape,
    pub rank: usize,
}

/// A half-precision tensor as a probe source.
pub open spec fn whole_f16(tensor: TensorSpec) -> ProbeSource {
    ProbeSource::Whole { elem: Elem::F16, src: tensor.ptr(), len: tensor.len() as usize }
}

/// A single-precision tensor as a probe source.
pub open spec fn whole_f32(tensor: TensorSpec) -> ProbeSource {
    ProbeSource::Whole { elem: Elem::F32, src: tensor.ptr(), len: tensor.len() as usize }
}

/// Three tensors as a probe source.
pub open spec fn stack3(s0: TensorSpec, s1: TensorSpec, s2: TensorSpec) -> ProbeSource {
    ProbeSource::Stack3 { s0: s0.ptr(), s1: s1.ptr(), s2: s2.ptr(), len: s0.len() as usize }
}

/// Six tensors as a probe source.
pub open spec fn stack6(
    s0: TensorSpec,
    s1: TensorSpec,
    s2: TensorSpec,
    s3: TensorSpec,
    s4: TensorSpec,
    s5: TensorSpec,
) -> ProbeSource {
    ProbeSource::Stack6 {
        s0: s0.ptr(),
        s1: s1.ptr(),
        s2: s2.ptr(),
        s3: s3.ptr(),
        s4: s4.ptr(),
        s5: s5.ptr(),
        len: s0.len() as usize,
    }
}

impl Run {
    /// Records a probe where the hook is answered.
    pub open spec fn probe(
        self,
        map: Map<HipHook, usize>,
        hook: HipHook,
        frame: ProbeFrame,
        source: ProbeSource,
        shape: TensorShape,
        rank: usize,
    ) -> Run {
        if map.dom().contains(hook) {
            self.emit(
                CommandOf::Probe(
                    Probe { hook, callback: map[hook], frame, source, shape, rank },
                ),
            )
        } else {
            self
        }
    }
}

/// The probes of one layer of one pass.
pub struct Prober<'a> {
    pub map: &'a HipProbeMap,
    pub frame: ProbeFrame,
}

/// What a prober stands for.
pub struct ProberSpec {
    pub map: Map<HipHook, usize>,
    pub frame: ProbeFrame,
}

impl<'a> View for Prober<'a> {
    type V = ProberSpec;

    open spec fn view(&self) -> ProberSpec {
        ProberSpec { map: self.map@, frame: self.frame }
    }
}

impl ProberSpec {
    /// Shows a half-precision tensor of `dim` channels.
    pub open spec fn channels(self, s: Run, hook: HipHook, tensor: TensorSpec, dim: usize) -> Run {
        s.probe(
            self.map,
            hook,
            self.frame,
            whole_f16(tensor),
            TensorShape::of(dim, self.frame.seq_len, self.frame.batch_size, 1),
            3,
        )
    }

    /// Shows the recurrent state of a layer.
    pub open spec fn state(self, s: Run, hook: HipHook, tensor: TensorSpec) -> Run {
        s.probe(
            self.map,
            hook,
            self.frame,
            whole_f32(tensor),
            TensorShape::of(
                self.frame.head_size,
                self.frame.head_size,
                self.frame.n_head,
                self.frame.batch_size,
            ),
            4,
        )
    }

    /// Shows `n` tensors interleaved by token.
    pub open spec fn stacked(self, s: Run, hook: HipHook, source: ProbeSource, n: usize) -> Run {
        s.probe(
            self.map,
            hook,
            self.frame,
            source,
            TensorShape::of(
                (self.frame.n_embd * n) as usize,
                self.frame.seq_len,
                self.frame.batch_size,
                1,
            ),
            4,
        )
    }
}

impl<'a> Prober<'a> {
    fn record(
        &self,
        hook: HipHook,
        source: ProbeSource,
        shape: TensorShape,
        rank: usize,
        stream: &mut Stream,
    )
        ensures
            final(stream)@ == Run::start(old(stream)@).probe(
                self.map@,
                hook,
                self.frame,
                source,
                shape,
                rank,
            ).stream,
    {
        if let Some(callback) = self.map.get(hook) {
            stream.push(
                CommandOf::Probe(
                    Probe { hook, callback, frame: self.frame, source, shape, rank },
                ),
            );
        }
    }

    /// Shows a half-precision tensor of `dim` channels.
    pub fn channels(&self, hook: HipHook, tensor: &TensorHip<F16>, dim: usize, stream: &mut Stream)
        ensures
            final(stream)@ == self@.channels(Run::start(old(stream)@), hook, tensor@, dim).stream,
    {
        self.record(
            hook,
            ProbeSource::Whole { elem: Elem::F16, src: tensor.as_ptr(), len: tensor.len() },
            TensorShape::new(dim, self.frame.seq_len, self.frame.batch_size, 1),
            3,
            stream,
        );
    }

    /// Shows the recurrent state of a layer.
    pub fn state(&self, hook: HipHook, tensor: &TensorHip<F32>, stream: &mut Stream)
        ensures
            final(stream)@ == self@.state(Run::start(old(stream)@), hook, tensor@).stream,
    {
        self.record(
            hook,
            ProbeSource::Whole { elem: Elem::F32, src: tensor.as_ptr(), len: tensor.len() },
            TensorShape::new(
                self.frame.head_size,
                self.frame.head_size,
                self.frame.n_head,
                self.frame.batch_size,
            ),
            4,
            stream,
        );
    }

    /// Shows three tensors interleaved by token.
    pub fn stacked3(
        &self,
        hook: HipHook,
        s0: &TensorHip<F16>,
        s1: &TensorHip<F16>,
        s2: &TensorHip<F16>,
        stream: &mut Stream,
    )
        requires
            self.frame.n_embd * 3 <= usize::MAX,
        ensures
            final(stream)@ == self@.stacked(
                Run::start(old(stream)@),
                hook,
                stack3(s0@, s1@, s2@),
                3,
            ).stream,
    {
        self.record(
            hook,
            ProbeSource::Stack3 {
                s0: s0.as_ptr(),
                s1: s1.as_ptr(),
                s2: s2.as_ptr(),
                len: s0.len(),
            },
            TensorShape::new(
                self.frame.n_embd * 3,
                self.frame.seq_len,
                self.frame.batch_size,
                1,
            ),
            4,
            stream,
        );
    }

    /// Shows six tensors interleaved by token.
    pub fn stacked6(
        &self,
        hook: HipHook,
        s0: &TensorHip<F16>,
        s1: &TensorHip<F16>,
        s2: &TensorHip<F16>,
        s3: &TensorHip<F16>,
        s4: &TensorHip<F16>,
        s5: &TensorHip<F16>,
        stream: &mut Stream,
    )
        requires
            self.frame.n_embd * 6 <= usize::MAX,
        ensures
            final(stream)@ == self@.stacked(
                Run::start(old(stream)@),
                hook,
                stack6(s0@, s1@, s2@, s3@, s4@, s5@),
                6,
            ).stream,
    {
        self.record(
            hook,
            ProbeSource::Stack6 {
                s0: s0.as_ptr(),
                s1: s1.as_ptr(),
                s2: s2.as_ptr(),
                s3: s3.as_ptr(),
                s4: s4.as_ptr(),
                s5: s5.as_ptr(),
                len: s0.len(),
            },
            TensorShape::new(
                self.frame.n_embd * 6,
                self.frame.seq_len,
                self.frame.batch_size,
                1,
            ),
            4,
            stream,
        );
    }
}

/// Tensors of `e` channels interleaved by token: for each of `a` tokens of each of `b`
/// sequences, of which each takes `t` tokens, the channels of one tensor after the other.
pub open spec fn interleaved<T>(
    tensors: Seq<Seq<T>>,
    e: int,
    a: int,
    t: int,
    b: int,
) -> Seq<T> {
    let n = tensors.len() as int;
    Seq::new(
        (b * a * n * e) as nat,
        |i: int|
            {
                let token = i / e / n;
                tensors[i / e % n][e * (token % a + t * (token / a)) + i % e]
            },
    )
}

/// What a list of data vectors holds.
pub open spec fn tensor_data<T>(v: Seq<Vec<T>>) -> Seq<Seq<T>> {
    Seq::new(v.len(), |i: int| v[i]@)
}

/// The places that interleaving reads lie within the tensors.
proof fn lemma_interleaved_place(i: int, n: int, e: int, a: int, t: int, b: int)
    requires
        0 <= i < b * a * n * e,
        0 <= n,
        0 <= e,
        0 <= a <= t,
        0 <= b,
    ensures
        0 < e,
        0 < n,
        0 < a,
        0 <= i / e % n < n,
        0 <= i % e < e,
        0 <= i / e / n % a < a,
        0 <= i / e / n / a < b,
        0 <= t * (i / e / n / a),
        0 <= e * (i / e / n % a + t * (i / e / n / a)),
        e * (i / e / n % a + t * (i / e / n / a)) + i % e < e * t * b,
        i / e / n % a + t * (i / e / n / a) < t * b,
{
    let q = b * a * n;
    assert(e > 0) by (nonlinear_arith)
        requires
            0 <= i < q * e,
            0 <= e,
    ;
    let x = i / e;
    assert(0 <= x < q && 0 <= i % e < e) by (nonlinear_arith)
        requires
            0 <= i < q * e,
            e > 0,
            x == i / e,
    ;
    let r = b * a;
    assert(n > 0) by (nonlinear_arith)
        requires
            0 <= x < r * n,
            0 <= n,
    ;
    let y = x / n;
    assert(0 <= y < r && 0 <= x % n < n) by (nonlinear_arith)
        requires
            0 <= x < r * n,
            n > 0,
            y == x / n,
    ;
    assert(a > 0) by (nonlinear_arith)
        requires
            0 <= y < b * a,
            0 <= a,
    ;
    let z = y / a;
    assert(0 <= z < b && 0 <= y % a < a) by (nonlinear_arith)
        requires
            0 <= y < b * a,
            a > 0,
            z == y / a,
    ;
    let w = y % a;
    assert(0 <= t * z && w + t * z < t * b) by (nonlinear_arith)
        requires
            0 <= z < b,
            0 <= w < t,
    ;
    let u = w + t * z;
    assert(0 <= e * u && e * u + i % e < e * (t * b)) by (nonlinear_arith)
        requires
            0 <= u < t * b,
            0 <= i % e < e,
    ;
    assert(e * (t * b) == e * t * b) by (nonlinear_arith);
}

/// Interleaves tensors of `e` channels by token.
pub fn interleave<T: Copy>(
    tensors: &Vec<Vec<T>>,
    e: usize,
    a: usize,
    t: usize,
    b: usize,
) -> (v: Vec<T>)
    requires
        a <= t,
        t * b <= usize::MAX,
        e * t * b <= usize::MAX,
        b * a <= usize::MAX,
        b * a * tensors@.len() <= usize::MAX,
        b * a * tensors@.len() * e <= usize::MAX,
        forall|k: int| 0 <= k < tensors@.len() ==> e * t * b <= (#[trigger] tensors@[k])@.len(),
    ensures
        v@ == interleaved(tensor_data(tensors@), e as int, a as int, t as int, b as int),
{
    let ghost want = interleaved(
        tensor_data(tensors@),
        e as int,
        a as int,
        t as int,
        b as int,
    );
    let n: usize = tensors.len();
    let size: usize = b * a * n * e;
    let mut v: Vec<T> = Vec::new();
    let mut i: usize = 0;
    while i < size
        invariant
            i <= size == b * a * n * e,
            n == tensors@.len(),
            a <= t,
            t * b <= usize::MAX,
            e * t * b <= usize::MAX,
            forall|k: int|
                0 <= k < tensors@.len() ==> e * t * b <= (#[trigger] tensors@[k])@.len(),
            want == interleaved(
                tensor_data(tensors@),
                e as int,
                a as int,
                t as int,
                b as int,
            ),
            v@ == want.take(i as int),
        decreases size - i,
    {
        proof {
            lemma_interleaved_place(
                i as int,
                n as int,
                e as int,
                a as int,
                t as int,
                b as int,
            );
        }
        let k: usize = i / e % n;
        let token: usize = i / e / n;
        let place: usize = e * (token % a + t * (token / a)) + i % e;
        v.push(tensors[k][place]);
        assert(v@ =~= want.take(i + 1));
        i += 1;
    }
    assert(v@ =~= want);
    v
}

impl Probe {
    /// The extents that count.
    pub open spec fn dims(&self) -> Seq<usize> {
        let s = self.shape;
        seq![s.d0, s.d1, s.d2, s.d3].take(
            if self.rank <= 4 {
                self.rank as int
            } else {
                4
            },
        )
    }

    /// What the callback is told.
    pub fn context(&self) -> (c: ProbeContext)
        ensures
            c.layer == self.frame.layer,
            c.batch_size == self.frame.batch_size,
            c.seq_len == self.frame.seq_len,
            c.chunk_size == self.frame.chunk_size,
            c.n_embd == self.frame.n_embd,
            c.n_head == self.frame.n_head,
            c.head_size == self.frame.head_size,
            c.n_layer == self.frame.n_layer,
            c.shape_len <= MAX_SHAPE_DIMS,
            c.dims() == self.dims(),
    {
        let s = self.shape;
        let rank: usize = if self.rank <= 4 {
            self.rank
        } else {
            4
        };
        let c = ProbeContext {
            layer: self.frame.layer,
            batch_size: self.frame.batch_size,
            seq_len: self.frame.seq_len,
            chunk_size: self.frame.chunk_size,
            n_embd: self.frame.n_embd,
            n_head: self.frame.n_head,
            head_size: self.frame.head_size,
            n_layer: self.frame.n_layer,
            shape_storage: [s.d0, s.d1, s.d2, s.d3, 0, 0],
            shape_len: rank,
        };
        assert(c.dims() =~= self.dims());
        c
    }
}

} // verus!
