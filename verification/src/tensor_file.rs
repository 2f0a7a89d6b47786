//! Tensors out of a file: their names, kinds, shapes and values.
use crate::convert::{brain_widen, brain_widened};
use vstd::prelude::*;
use vstd::slice::slice_to_vec;

verus! {

/// Parsed safetensors data.
#[verifier::external_type_specification]
#[verifier::external_body]
pub struct ExSafeTensors<'data>(safetensors::SafeTensors<'data>);

/// Why safetensors data cannot be parsed.
#[verifier::external_type_specification]
#[verifier::external_body]
pub struct ExSafeTensorError(safetensors::SafeTensorError);

/// A stored tensor: the name of its element type, its shape with the slowest axis first, and
/// its bytes.
#[verifier::ext_equal]
pub struct RawSpec {
    pub kind: Seq<char>,
    pub shape: Seq<usize>,
    pub data: Seq<u8>,
}

/// A stored tensor.
pub struct RawTensor {
    pub kind: String,
    pub shape: Vec<usize>,
    pub data: Vec<u8>,
}

impl View for RawTensor {
    type V = RawSpec;

    open spec fn view(&self) -> RawSpec {
        RawSpec { kind: self.kind@, shape: self.shape@, data: self.data@ }
    }
}

/// The tensors that parsed data hold, by name.
pub uninterp spec fn held(st: &safetensors::SafeTensors<'_>) -> Map<Seq<char>, RawSpec>;

/// The tensors that the bytes of a file hold, by name; none where they cannot be parsed.
pub uninterp spec fn parsed(bytes: Seq<u8>) -> Option<Map<Seq<char>, RawSpec>>;

/// Number of elements of a shape.
pub open spec fn elements(shape: Seq<usize>) -> nat
    decreases shape.len(),
{
    if shape.len() == 0 {
        1
    } else {
        elements(shape.drop_last()) * shape.last() as nat
    }
}

impl RawSpec {
    /// Whether there are as many bytes as the shape asks for, for the element types that
    /// weights come in.
    pub open spec fn filled(self) -> bool {
        &&& self.kind == "F16"@ || self.kind == "BF16"@ ==> self.data.len() == 2 * elements(
            self.shape,
        )
        &&& self.kind == "F32"@ ==> self.data.len() == 4 * elements(self.shape)
    }
}

/// Calls `safetensors::SafeTensors::deserialize`. Claimed is that the bytes alone decide
/// whether parsing succeeds, and what the parsed data hold.
#[verifier::external_body]
fn parse<'a>(bytes: &'a [u8]) -> (r: Result<
    safetensors::SafeTensors<'a>,
    safetensors::SafeTensorError,
>)
    ensures
        match r {
            Ok(st) => parsed(bytes@) == Some(held(&st)),
            Err(_) => parsed(bytes@) is None,
        },
{
    safetensors::SafeTensors::deserialize(bytes)
}

/// Calls `safetensors::SafeTensors::names`. Claimed is that every tensor is named, each once,
/// and nothing else is; in which order is left open, as the names are the keys of a hash map.
#[verifier::external_body]
fn names(st: &safetensors::SafeTensors<'_>) -> (v: Vec<String>)
    ensures
        forall|i: int| 0 <= i < v@.len() ==> held(st).dom().contains(#[trigger] v@[i]@),
        forall|n: Seq<char>| #[trigger]
            held(st).dom().contains(n) ==> exists|i: int| 0 <= i < v@.len() && v@[i]@ == n,
        forall|i: int, j: int| 0 <= i < j < v@.len() ==> v@[i]@ != v@[j]@,
{
    st.names().into_iter().map(|name| name.to_string()).collect()
}

/// Calls `safetensors::SafeTensors::tensor` and copies what the view it returns holds; the
/// name of the element type is the text of its `Debug`. Claimed is that it finds the tensor of
/// that name, where there is one, with as many bytes as its shape asks for.
#[verifier::external_body]
fn fetch(st: &safetensors::SafeTensors<'_>, name: &str) -> (r: Option<RawTensor>)
    ensures
        r is Some == held(st).dom().contains(name@),
        r is Some ==> r->0@ == held(st)[name@] && r->0@.filled(),
{
    match st.tensor(name) {
        Ok(view) => Some(
            RawTensor {
                kind: format!("{:?}", view.dtype()),
                shape: view.shape().to_vec(),
                data: view.data().to_vec(),
            },
        ),
        Err(_) => None,
    }
}

/// Calls `to_string` of `safetensors::SafeTensorError`. Nothing is claimed of the text: it may
/// depend on the order in which a hash map is walked.
#[verifier::external_body]
fn describe(e: &safetensors::SafeTensorError) -> (s: String) {
    e.to_string()
}

/// Values of a stored tensor.
#[verifier::ext_equal]
pub enum ValuesSpec {
    /// Half precision, by bits.
    Half(Seq<u16>),
    /// Single precision, by bits; still to be narrowed.
    Single(Seq<u32>),
    /// Of an element type that weights do not come in.
    Unsupported,
}

/// Values of a stored tensor.
#[derive(Debug, Clone)]
pub enum Values {
    /// Half precision, by bits.
    Half(Vec<u16>),
    /// Single precision, by bits; still to be narrowed.
    Single(Vec<u32>),
    /// Of an element type that weights do not come in.
    Unsupported,
}

impl View for Values {
    type V = ValuesSpec;

    open spec fn view(&self) -> ValuesSpec {
        match self {
            Values::Half(v) => ValuesSpec::Half(v@),
            Values::Single(v) => ValuesSpec::Single(v@),
            Values::Unsupported => ValuesSpec::Unsupported,
        }
    }
}

/// The value of two bytes, the lower one first.
pub open spec fn le16(a: u8, b: u8) -> u16 {
    (a + 256 * b) as u16
}

/// The value of four bytes, the lowest one first.
pub open spec fn le32(a: u8, b: u8, c: u8, d: u8) -> u32 {
    (a + 256 * b + 65536 * c + 16777216 * d) as u32
}

/// The 16-bit values of some bytes.
pub open spec fn le16s(data: Seq<u8>) -> Seq<u16> {
    Seq::new(data.len() / 2, |i: int| le16(data[2 * i], data[2 * i + 1]))
}

/// The 32-bit values of some bytes.
pub open spec fn le32s(data: Seq<u8>) -> Seq<u32> {
    Seq::new(
        data.len() / 4,
        |i: int| le32(data[4 * i], data[4 * i + 1], data[4 * i + 2], data[4 * i + 3]),
    )
}

/// The values of a stored tensor: half precision as they are; single precision and brain
/// floats in single precision.
pub open spec fn decoded(kind: Seq<char>, data: Seq<u8>) -> ValuesSpec {
    if kind == "F16"@ {
        ValuesSpec::Half(le16s(data))
    } else if kind == "F32"@ {
        ValuesSpec::Single(le32s(data))
    } else if kind == "BF16"@ {
        ValuesSpec::Single(
            Seq::new(le16s(data).len(), |i: int| brain_widened(le16s(data)[i])),
        )
    } else {
        ValuesSpec::Unsupported
    }
}

/// Whether two texts are the same.
pub fn same_text(a: &str, b: &str) -> (same: bool)
    ensures
        same == (a@ == b@),
{
    String::from_str(a) == String::from_str(b)
}

fn read_le16s(data: &Vec<u8>) -> (v: Vec<u16>)
    ensures
        v@ == le16s(data@),
{
    let size: usize = data.len();
    let n: usize = size / 2;
    let mut v: Vec<u16> = Vec::new();
    let mut i: usize = 0;
    while i < n
        invariant
            i <= n == size / 2,
            size == data@.len(),
            v@ == le16s(data@).take(i as int),
        decreases n - i,
    {
        let low: u16 = data[2 * i] as u16;
        let high: u16 = data[2 * i + 1] as u16;
        v.push(low + 256 * high);
        assert(v@ =~= le16s(data@).take(i + 1));
        i += 1;
    }
    assert(v@ =~= le16s(data@));
    v
}

fn read_le32s(data: &Vec<u8>) -> (v: Vec<u32>)
    ensures
        v@ == le32s(data@),
{
    let size: usize = data.len();
    let n: usize = size / 4;
    let mut v: Vec<u32> = Vec::new();
    let mut i: usize = 0;
    while i < n
        invariant
            i <= n == size / 4,
            size == data@.len(),
            v@ == le32s(data@).take(i as int),
        decreases n - i,
    {
        let a: u32 = data[4 * i] as u32;
        let b: u32 = data[4 * i + 1] as u32;
        let c: u32 = data[4 * i + 2] as u32;
        let d: u32 = data[4 * i + 3] as u32;
        v.push(a + 256 * b + 65536 * c + 16777216 * d);
        assert(v@ =~= le32s(data@).take(i + 1));
        i += 1;
    }
    assert(v@ =~= le32s(data@));
    v
}

fn widen_brains(v: &Vec<u16>) -> (out: Vec<u32>)
    ensures
        out@ == Seq::new(v@.len(), |i: int| brain_widened(v@[i])),
{
    let ghost want = Seq::new(v@.len(), |i: int| brain_widened(v@[i]));
    let mut out: Vec<u32> = Vec::new();
    let mut i: usize = 0;
    while i < v.len()
        invariant
            i <= v@.len(),
            want == Seq::new(v@.len(), |i: int| brain_widened(v@[i])),
            out@ == want.take(i as int),
        decreases v@.len() - i,
    {
        out.push(brain_widen(v[i]));
        assert(out@ =~= want.take(i + 1));
        i += 1;
    }
    assert(out@ =~= want);
    out
}

/// The values of a stored tensor.
pub fn decode(kind: &str, data: &Vec<u8>) -> (v: Values)
    ensures
        v@ == decoded(kind@, data@),
{
    if same_text(kind, "F16") {
        Values::Half(read_le16s(data))
    } else if same_text(kind, "F32") {
        Values::Single(read_le32s(data))
    } else if same_text(kind, "BF16") {
        let brains = read_le16s(data);
        Values::Single(widen_brains(&brains))
    } else {
        Values::Unsupported
    }
}

/// A tensor of a file, with its values decoded.
#[verifier::ext_equal]
pub struct EntrySpec {
    pub name: Seq<char>,
    pub kind: Seq<char>,
    pub shape: Seq<usize>,
    pub values: ValuesSpec,
}

/// A tensor of a file, with its values decoded.
#[derive(Debug, Clone)]
pub struct Entry {
    pub name: String,
    pub kind: String,
    pub shape: Vec<usize>,
    pub values: Values,
}

impl View for Entry {
    type V = EntrySpec;

    open spec fn view(&self) -> EntrySpec {
        EntrySpec {
            name: self.name@,
            kind: self.kind@,
            shape: self.shape@,
            values: self.values@,
        }
    }
}

/// What a list of entries stands for.
pub open spec fn entry_list(v: Seq<Entry>) -> Seq<EntrySpec> {
    Seq::new(v.len(), |i: int| v[i]@)
}

impl EntrySpec {
    /// Whether there are as many values as the shape asks for.
    pub open spec fn filled(self) -> bool {
        match self.values {
            ValuesSpec::Half(v) => v.len() == elements(self.shape),
            ValuesSpec::Single(v) => v.len() == elements(self.shape),
            ValuesSpec::Unsupported => true,
        }
    }
}

/// The entry of a stored tensor.
pub open spec fn entry_of(name: Seq<char>, raw: RawSpec) -> EntrySpec {
    EntrySpec { name, kind: raw.kind, shape: raw.shape, values: decoded(raw.kind, raw.data) }
}

/// Position of the first entry of a name from `i` on; their number where there is none.
pub open spec fn position(list: Seq<EntrySpec>, name: Seq<char>, i: nat) -> nat
    decreases list.len() - i,
{
    if i >= list.len() {
        list.len()
    } else if list[i as int].name == name {
        i
    } else {
        position(list, name, i + 1)
    }
}

/// The entry of a name, where there is one.
pub open spec fn lookup(list: Seq<EntrySpec>, name: Seq<char>) -> Option<EntrySpec> {
    let i = position(list, name, 0);
    if i < list.len() {
        Some(list[i as int])
    } else {
        None
    }
}

/// The tensors of a file.
#[derive(Debug)]
pub struct TensorFile {
    entries: Vec<Entry>,
}

impl View for TensorFile {
    type V = Seq<EntrySpec>;

    closed spec fn view(&self) -> Seq<EntrySpec> {
        entry_list(self.entries@)
    }
}

/// What position finds, and what it passes over.
pub proof fn lemma_position(list: Seq<EntrySpec>, name: Seq<char>, i: nat)
    requires
        i <= list.len(),
    ensures
        i <= position(list, name, i) <= list.len(),
        position(list, name, i) < list.len() ==> list[position(list, name, i) as int].name == name,
        forall|k: int| i <= k < position(list, name, i) ==> (#[trigger] list[k]).name != name,
    decreases list.len() - i,
{
    if i < list.len() && list[i as int].name != name {
        lemma_position(list, name, i + 1);
    }
}

/// What a file holds under every name, given what its bytes hold.
pub open spec fn reads(list: Seq<EntrySpec>, map: Map<Seq<char>, RawSpec>) -> bool {
    forall|n: Seq<char>| #[trigger]
        lookup(list, n) == (if map.dom().contains(n) {
            Some(entry_of(n, map[n]))
        } else {
            None
        })
}

impl TensorFile {
    #[verifier::type_invariant]
    spec fn sized(self) -> bool {
        forall|i: int| 0 <= i < self@.len() ==> (#[trigger] self@[i]).filled()
    }

    /// Decodes the tensors of a file; the error is the text of what went wrong.
    pub fn read(bytes: &[u8]) -> (r: Result<TensorFile, String>)
        ensures
            match r {
                Ok(file) => parsed(bytes@) is Some && reads(file@, parsed(bytes@)->0),
                Err(_) => parsed(bytes@) is None,
            },
    {
        let st = match parse(bytes) {
            Ok(st) => st,
            Err(e) => {
                return Err(describe(&e));
            },
        };
        let all = names(&st);
        let ghost map = held(&st);
        let mut entries: Vec<Entry> = Vec::new();
        let mut i: usize = 0;
        while i < all.len()
            invariant
                i <= all@.len(),
                entries@.len() == i,
                map == held(&st),
                forall|k: int| 0 <= k < all@.len() ==> map.dom().contains(#[trigger] all@[k]@),
                forall|k: int|
                    0 <= k < i ==> (#[trigger] entries@[k])@ == entry_of(
                        all@[k]@,
                        map[all@[k]@],
                    ),
                forall|k: int| 0 <= k < i ==> (#[trigger] entries@[k])@.filled(),
            decreases all@.len() - i,
        {
            let name = all[i].as_str();
            match fetch(&st, name) {
                Some(raw) => {
                    let values = decode(raw.kind.as_str(), &raw.data);
                    let entry = Entry {
                        name: String::from_str(name),
                        kind: raw.kind,
                        shape: raw.shape,
                        values,
                    };
                    proof {
                        lemma_decoded_len(raw@);
                    }
                    entries.push(entry);
                },
                None => {
                    assert(map.dom().contains(all@[i as int]@));
                },
            }
            i += 1;
        }
        let ghost list = entry_list(entries@);
        proof {
            assert forall|n: Seq<char>| #[trigger] lookup(list, n) == (if map.dom().contains(n) {
                Some(entry_of(n, map[n]))
            } else {
                None
            }) by {
                lemma_position(list, n, 0);
                let at = position(list, n, 0);
                if map.dom().contains(n) {
                    let k = choose|k: int| 0 <= k < all@.len() && all@[k]@ == n;
                    assert(entries@[k]@ == entry_of(all@[k]@, map[all@[k]@]));
                    assert(list[k].name == n);
                    assert(at <= k);
                    assert(list[at as int].name == n);
                    assert(entries@[at as int]@ == entry_of(
                        all@[at as int]@,
                        map[all@[at as int]@],
                    ));
                } else if at < list.len() {
                    assert(entries@[at as int]@ == entry_of(
                        all@[at as int]@,
                        map[all@[at as int]@],
                    ));
                }
            }
        }
        let file = TensorFile { entries };
        assert(file@ =~= list);
        Ok(file)
    }

    /// A file of the given entries; none where one does not have as many values as its shape
    /// asks for.
    pub fn of(entries: Vec<Entry>) -> (r: Option<TensorFile>)
        ensures
            r is Some == (forall|i: int|
                0 <= i < entries@.len() ==> (#[trigger] entry_list(entries@)[i]).filled()),
            r is Some ==> r->0@ == entry_list(entries@),
    {
        let ghost list = entry_list(entries@);
        let mut i: usize = 0;
        while i < entries.len()
            invariant
                i <= entries@.len(),
                list == entry_list(entries@),
                forall|k: int| 0 <= k < i ==> (#[trigger] list[k]).filled(),
            decreases entries@.len() - i,
        {
            let entry = &entries[i];
            assert(list[i as int] == entry@);
            let fits = match &entry.values {
                Values::Half(v) => counts(&entry.shape, v.len()),
                Values::Single(v) => counts(&entry.shape, v.len()),
                Values::Unsupported => true,
            };
            if !fits {
                return None;
            }
            i += 1;
        }
        Some(TensorFile { entries })
    }

    pub fn len(&self) -> (n: usize)
        ensures
            n == self@.len(),
    {
        self.entries.len()
    }

    /// One of the entries.
    pub fn entry(&self, i: usize) -> (e: &Entry)
        requires
            i < self@.len(),
        ensures
            e@ == self@[i as int],
    {
        &self.entries[i]
    }

    /// The entry of a name.
    pub fn find(&self, name: &str) -> (r: Option<&Entry>)
        ensures
            match r {
                Some(e) => lookup(self@, name@) == Some(e@) && e@.filled(),
                None => lookup(self@, name@) is None,
            },
    {
        proof {
            use_type_invariant(self);
        }
        let ghost list = self@;
        let mut i: usize = 0;
        while i < self.entries.len()
            invariant
                i <= self.entries@.len(),
                list == self@,
                list == entry_list(self.entries@),
                forall|k: int| 0 <= k < list.len() ==> (#[trigger] list[k]).filled(),
                position(list, name@, 0) == position(list, name@, i as nat),
            decreases self.entries@.len() - i,
        {
            let entry = &self.entries[i];
            assert(list[i as int] == entry@);
            if same_text(entry.name.as_str(), name) {
                return Some(entry);
            }
            i += 1;
        }
        None
    }

    /// The single precision values of each entry, still to be narrowed; none for entries
    /// without any.
    pub fn singles(&self) -> (v: Vec<Vec<u32>>)
        ensures
            v@.len() == self@.len(),
            forall|i: int|
                0 <= i < v@.len() ==> #[trigger] v@[i]@ == (match self@[i].values {
                    ValuesSpec::Single(s) => s,
                    _ => Seq::empty(),
                }),
    {
        let mut v: Vec<Vec<u32>> = Vec::new();
        while v.len() < self.entries.len()
            invariant
                v@.len() <= self.entries@.len(),
                self@ == entry_list(self.entries@),
                forall|i: int|
                    0 <= i < v@.len() ==> #[trigger] v@[i]@ == (match self@[i].values {
                        ValuesSpec::Single(s) => s,
                        _ => Seq::empty(),
                    }),
            decreases self.entries@.len() - v@.len(),
        {
            let list: Vec<u32> = match &self.entries[v.len()].values {
                Values::Single(s) => slice_to_vec(s.as_slice()),
                _ => Vec::new(),
            };
            assert(self@[v@.len() as int] == self.entries@[v@.len() as int]@);
            assert(list@ =~= (match self@[v@.len() as int].values {
                ValuesSpec::Single(s) => s,
                _ => Seq::empty(),
            }));
            v.push(list);
        }
        v
    }

    /// Takes half precision values in place of the single precision ones, entry by entry; none
    /// where their number is not the same.
    pub fn narrow(self, halves: Vec<Vec<u16>>) -> (r: Option<TensorFile>)
        ensures
            r is Some == narrows(self@, halves@),
            r is Some ==> r->0@ == narrowed_list(self@, halves@),
    {
        proof {
            use_type_invariant(&self);
        }
        if halves.len() != self.entries.len() {
            return None;
        }
        let ghost list = self@;
        let ghost want = narrowed_list(list, halves@);
        let mut entries: Vec<Entry> = Vec::new();
        while entries.len() < self.entries.len()
            invariant
                entries@.len() <= self.entries@.len() == halves@.len(),
                list == self@,
                list == entry_list(self.entries@),
                forall|k: int| 0 <= k < list.len() ==> (#[trigger] list[k]).filled(),
                want == narrowed_list(list, halves@),
                want.len() == list.len(),
                forall|k: int|
                    0 <= k < entries@.len() ==> narrow_fits(#[trigger] list[k], halves@[k]@),
                forall|k: int| 0 <= k < entries@.len() ==> (#[trigger] entries@[k])@ == want[k],
                forall|k: int| 0 <= k < entries@.len() ==> (#[trigger] entries@[k])@.filled(),
            decreases self.entries@.len() - entries@.len(),
        {
            let i: usize = entries.len();
            let from = &self.entries[i];
            assert(list[i as int] == from@);
            let values = match &from.values {
                Values::Single(s) => {
                    if s.len() != halves[i].len() {
                        assert(!narrow_fits(list[i as int], halves@[i as int]@));
                        return None;
                    }
                    Values::Half(slice_to_vec(halves[i].as_slice()))
                },
                Values::Half(v) => Values::Half(slice_to_vec(v.as_slice())),
                Values::Unsupported => Values::Unsupported,
            };
            let entry = Entry {
                name: String::from_str(from.name.as_str()),
                kind: String::from_str(from.kind.as_str()),
                shape: slice_to_vec(from.shape.as_slice()),
                values,
            };
            assert(entry@ == want[i as int]);
            entries.push(entry);
        }
        let file = TensorFile { entries };
        assert(file@ =~= want);
        Some(file)
    }
}

/// Whether half precision values can take the place of those of an entry.
pub open spec fn narrow_fits(entry: EntrySpec, halves: Seq<u16>) -> bool {
    entry.values matches ValuesSpec::Single(s) ==> s.len() == halves.len()
}

/// Whether there are half precision values for every entry, as many as it asks for.
pub open spec fn narrows(list: Seq<EntrySpec>, halves: Seq<Vec<u16>>) -> bool {
    &&& halves.len() == list.len()
    &&& forall|i: int| 0 <= i < list.len() ==> narrow_fits(#[trigger] list[i], halves[i]@)
}

/// The entries with half precision values in place of the single precision ones.
pub open spec fn narrowed_list(list: Seq<EntrySpec>, halves: Seq<Vec<u16>>) -> Seq<EntrySpec> {
    Seq::new(
        list.len(),
        |i: int|
            EntrySpec {
                values: match list[i].values {
                    ValuesSpec::Single(_) => ValuesSpec::Half(halves[i]@),
                    v => v,
                },
                ..list[i]
            },
    )
}

/// A shape with an empty axis has no elements; with none, each axis more adds elements.
proof fn lemma_elements(shape: Seq<usize>, k: int)
    requires
        0 <= k <= shape.len(),
    ensures
        (exists|i: int| k <= i < shape.len() && #[trigger] shape[i] == 0) ==> elements(shape) == 0,
        elements(shape.take(k)) == 0 ==> elements(shape) == 0,
        (forall|i: int| k <= i < shape.len() ==> #[trigger] shape[i] != 0) ==> elements(
            shape.take(k),
        ) <= elements(shape),
    decreases shape.len() - k,
{
    if k < shape.len() {
        lemma_elements(shape, k + 1);
        let rest = elements(shape.take(k));
        let d = shape[k] as nat;
        assert(shape.take(k + 1).drop_last() =~= shape.take(k));
        assert(elements(shape.take(k + 1)) == rest * d);
        assert(rest * 0 == 0 && 0 * d == 0);
        if d != 0 {
            assert(rest <= rest * d) by (nonlinear_arith)
                requires
                    d >= 1,
            ;
        }
    } else {
        assert(shape.take(k) =~= shape);
    }
}

/// Whether a shape has `n` elements.
fn counts(shape: &Vec<usize>, n: usize) -> (same: bool)
    ensures
        same == (elements(shape@) == n),
{
    let mut k: usize = 0;
    while k < shape.len()
        invariant
            k <= shape@.len(),
            forall|i: int| 0 <= i < k ==> #[trigger] shape@[i] != 0,
        decreases shape@.len() - k,
    {
        if shape[k] == 0 {
            proof {
                lemma_elements(shape@, 0);
            }
            return n == 0;
        }
        k += 1;
    }
    let mut product: usize = 1;
    let mut i: usize = 0;
    while i < shape.len()
        invariant
            i <= shape@.len(),
            forall|i: int| 0 <= i < shape@.len() ==> #[trigger] shape@[i] != 0,
            product == elements(shape@.take(i as int)),
        decreases shape@.len() - i,
    {
        proof {
            assert(shape@.take(i + 1).drop_last() =~= shape@.take(i as int));
            lemma_elements(shape@, i + 1);
        }
        match product.checked_mul(shape[i]) {
            Some(p) => {
                product = p;
            },
            None => {
                return false;
            },
        }
        i += 1;
    }
    assert(shape@.take(i as int) =~= shape@);
    product == n
}

/// Decoding gives as many values as the shape asks for.
proof fn lemma_decoded_len(raw: RawSpec)
    requires
        raw.filled(),
    ensures
        entry_of(raw.kind, raw).filled(),
        match decoded(raw.kind, raw.data) {
            ValuesSpec::Half(v) => v.len() == elements(raw.shape),
            ValuesSpec::Single(v) => v.len() == elements(raw.shape),
            ValuesSpec::Unsupported => true,
        },
{
    reveal_strlit("F16");
    reveal_strlit("F32");
    reveal_strlit("BF16");
}

} // verus!
