//! Loading of single weights: from the tensors of a file to memory on the device.
use crate::buffer::MemoryType;
use crate::error::{ErrorSpec, HipErrorKind};
use crate::run::Run;
use crate::stream::{DataSpec, HostData, Stream, StreamSpec};
use crate::tensor::{TensorHip, TensorShape, TensorSpec, F16};
use crate::tensor_file::{elements, lemma_position, lookup, Entry, EntrySpec, TensorFile, Values};
use crate::text::{decimal, signed_decimal, text, Text};
use vstd::prelude::*;
use vstd::slice::slice_to_vec;

verus! {

/// Why a model cannot be loaded.
#[derive(Debug)]
pub enum ModelLoadError {
    Hip(HipErrorKind),
    Io(String),
    SafeTensor(String),
    InvalidModel(String),
}

/// What a load error says.
pub enum LoadErrorSpec {
    Hip(ErrorSpec),
    Io(Seq<char>),
    SafeTensor(Seq<char>),
    InvalidModel(Seq<char>),
}

impl View for ModelLoadError {
    type V = LoadErrorSpec;

    open spec fn view(&self) -> LoadErrorSpec {
        match self {
            ModelLoadError::Hip(e) => LoadErrorSpec::Hip(e@),
            ModelLoadError::Io(s) => LoadErrorSpec::Io(s@),
            ModelLoadError::SafeTensor(s) => LoadErrorSpec::SafeTensor(s@),
            ModelLoadError::InvalidModel(s) => LoadErrorSpec::InvalidModel(s@),
        }
    }
}

impl ModelLoadError {
    /// The text shown to a user.
    pub fn to_text(&self) -> (s: String)
        ensures
            s@ == (match self {
                ModelLoadError::Hip(e) => "HIP error: "@ + ("HIP error "@
                    + signed_decimal(e.code as int) + ": "@ + e.message@),
                ModelLoadError::Io(m) => "IO error: "@ + m@,
                ModelLoadError::SafeTensor(m) => "SafeTensor error: "@ + m@,
                ModelLoadError::InvalidModel(m) => "Invalid model: "@ + m@,
            }),
    {
        match self {
            ModelLoadError::Hip(e) => {
                let inner = e.to_text();
                text("HIP error: ").lit(inner.as_str()).done()
            },
            ModelLoadError::Io(m) => text("IO error: ").lit(m.as_str()).done(),
            ModelLoadError::SafeTensor(m) => text("SafeTensor error: ").lit(m.as_str()).done(),
            ModelLoadError::InvalidModel(m) => text("Invalid model: ").lit(m.as_str()).done(),
        }
    }
}

/// A stream together with the first error met while loading into it.
pub struct LoadRun {
    pub stream: StreamSpec,
    pub error: Option<LoadErrorSpec>,
}

/// The text of a shape as a list.
pub open spec fn list_text(shape: Seq<usize>, n: nat) -> Seq<char>
    decreases n,
{
    if n == 0 {
        "["@
    } else if n == 1 {
        list_text(shape, 0) + decimal(shape[0] as nat)
    } else {
        list_text(shape, (n - 1) as nat) + ", "@ + decimal(shape[n - 1] as nat)
    }
}

/// The text of a shape.
pub open spec fn shape_text(shape: Seq<usize>) -> Seq<char> {
    list_text(shape, shape.len()) + "]"@
}

/// Whether a stored shape has an axis, and no more than four.
pub open spec fn has_axes(shape: Seq<usize>) -> bool {
    1 <= shape.len() <= 4
}

/// The shape of a stored tensor: files name the slowest axis first.
pub open spec fn device_shape(shape: Seq<usize>) -> TensorShape {
    if shape.len() == 1 {
        TensorShape::of(shape[0], 1, 1, 1)
    } else if shape.len() == 2 {
        TensorShape::of(shape[1], shape[0], 1, 1)
    } else if shape.len() == 3 {
        TensorShape::of(shape[2], shape[1], shape[0], 1)
    } else {
        TensorShape::of(shape[3], shape[2], shape[1], shape[0])
    }
}

/// A matrix by columns: element `(i, j)` moves from `i * cols + j` to `j * rows + i`.
pub open spec fn transposed<T>(data: Seq<T>, rows: int, cols: int) -> Seq<T> {
    Seq::new(data.len(), |k: int| data[(k % rows) * cols + k / rows])
}

/// The error where a tensor is missing.
pub open spec fn missing(name: Seq<char>) -> LoadErrorSpec {
    LoadErrorSpec::SafeTensor(name + ": "@ + ("tensor `"@ + name + "` not found"@))
}

/// The error where a tensor is of an element type that weights do not come in.
pub open spec fn unsupported(kind: Seq<char>, name: Seq<char>) -> LoadErrorSpec {
    LoadErrorSpec::InvalidModel("Unsupported dtype "@ + kind + " for tensor "@ + name)
}

/// Why a tensor cannot be loaded, where it cannot.
pub open spec fn tensor_error(list: Seq<EntrySpec>, name: Seq<char>) -> Option<LoadErrorSpec> {
    match lookup(list, name) {
        None => Some(missing(name)),
        Some(e) => if e.values is Unsupported {
            Some(unsupported(e.kind, name))
        } else if !has_axes(e.shape) {
            Some(
                LoadErrorSpec::InvalidModel(
                    "Unsupported shape "@ + shape_text(e.shape) + " for tensor "@ + name,
                ),
            )
        } else {
            None
        },
    }
}

/// Why a matrix cannot be loaded, where it cannot.
pub open spec fn matrix_error(list: Seq<EntrySpec>, name: Seq<char>) -> Option<LoadErrorSpec> {
    match lookup(list, name) {
        None => Some(missing(name)),
        Some(e) => if e.shape.len() != 2 {
            Some(
                LoadErrorSpec::InvalidModel(
                    "Weight matrix "@ + name + " must be 2D, got "@ + shape_text(e.shape),
                ),
            )
        } else if e.values is Unsupported {
            Some(unsupported(e.kind, name))
        } else {
            None
        },
    }
}

/// Whether an entry is a matrix or any other tensor.
#[derive(Debug, Clone, Copy, PartialEq, Eq, Structural)]
pub enum WeightKind {
    Tensor,
    Matrix,
}

/// Why a weight cannot be loaded, where it cannot.
pub open spec fn weight_error(
    list: Seq<EntrySpec>,
    name: Seq<char>,
    kind: WeightKind,
) -> Option<LoadErrorSpec> {
    match kind {
        WeightKind::Tensor => tensor_error(list, name),
        WeightKind::Matrix => matrix_error(list, name),
    }
}

/// The shape of a weight on the device.
pub open spec fn weight_shape(
    list: Seq<EntrySpec>,
    name: Seq<char>,
    kind: WeightKind,
) -> TensorShape {
    let shape = lookup(list, name)->0.shape;
    match kind {
        WeightKind::Tensor => device_shape(shape),
        WeightKind::Matrix => TensorShape::of(shape[0], shape[1], 1, 1),
    }
}

/// The values of a weight on the device: those of a matrix stand by columns.
pub open spec fn weight_data(list: Seq<EntrySpec>, name: Seq<char>, kind: WeightKind) -> Seq<u16> {
    let e = lookup(list, name)->0;
    match kind {
        WeightKind::Tensor => e.values->Half_0,
        WeightKind::Matrix => transposed(
            e.values->Half_0,
            e.shape[0] as int,
            e.shape[1] as int,
        ),
    }
}

impl LoadRun {
    /// Nothing has failed yet.
    pub open spec fn start(stream: StreamSpec) -> LoadRun {
        LoadRun { stream, error: None }
    }

    /// Fails with `e`, where there is one, unless something failed before.
    pub open spec fn check(self, e: Option<LoadErrorSpec>) -> LoadRun {
        if self.error is Some {
            self
        } else {
            LoadRun { stream: self.stream, error: e }
        }
    }

    /// Goes on with `f`, unless something failed before.
    pub open spec fn step(self, f: spec_fn(LoadRun) -> LoadRun) -> LoadRun {
        if self.error is Some {
            self
        } else {
            f(self)
        }
    }

    /// Loads a weight into memory of its own.
    #[verifier::opaque]
    pub open spec fn loaded(
        self,
        list: Seq<EntrySpec>,
        name: Seq<char>,
        kind: WeightKind,
    ) -> LoadRun {
        if self.error is Some {
            self
        } else if weight_error(list, name, kind) is Some {
            LoadRun { stream: self.stream, error: weight_error(list, name, kind) }
        } else {
            let run = Run::start(self.stream).filled(
                DataSpec::F16(weight_data(list, name, kind)),
                weight_shape(list, name, kind),
                MemoryType::Managed,
            );
            LoadRun {
                stream: run.stream,
                error: match run.error {
                    Some(e) => Some(LoadErrorSpec::Hip(e)),
                    None => None,
                },
            }
        }
    }

    /// What loading a weight comes to: nothing after a failure, else the next buffer number.
    pub broadcast proof fn lemma_loaded(
        self,
        list: Seq<EntrySpec>,
        name: Seq<char>,
        kind: WeightKind,
    )
        ensures
            self.error is Some ==> #[trigger] self.loaded(list, name, kind) == self,
            self.error is None && self.loaded(list, name, kind).error is None ==> self.loaded(
                list,
                name,
                kind,
            ).stream.next == self.stream.next + 1,
    {
        broadcast use Run::lemma_allocated;

        reveal(LoadRun::loaded);
    }

    /// Whether a function that leaves `stream` behind and returns `r` did what this run says.
    pub open spec fn agrees<T>(self, stream: StreamSpec, r: Result<T, ModelLoadError>) -> bool {
        &&& stream == self.stream
        &&& match r {
            Ok(_) => self.error is None,
            Err(e) => self.error == Some(e@),
        }
    }
}

/// The tensor that loading a weight makes under the buffer number `next`.
pub open spec fn weight_at(
    next: int,
    list: Seq<EntrySpec>,
    name: Seq<char>,
    kind: WeightKind,
) -> TensorSpec {
    TensorSpec::whole(next as usize, weight_shape(list, name, kind))
}

/// Whether every weight that is looked up can be held: its values are in half precision, and
/// its size is a machine integer.
pub open spec fn holdable(list: Seq<EntrySpec>) -> bool {
    forall|i: int| 0 <= i < list.len() ==> (#[trigger] list[i]).holdable()
}

impl EntrySpec {
    /// Whether the entry can be held: its values are in half precision, and its size, seen
    /// either way, is a machine integer.
    pub open spec fn holdable(self) -> bool {
        &&& !(self.values is Single)
        &&& has_axes(self.shape) ==> device_shape(self.shape).fits()
        &&& self.shape.len() == 2 ==> TensorShape::of(
            self.shape[0],
            self.shape[1],
            1,
            1,
        ).fits()
    }
}

/// Whether an entry can be held.
pub fn is_holdable(entry: &Entry) -> (b: bool)
    ensures
        b == entry@.holdable(),
{
    let n: usize = entry.shape.len();
    let half = match &entry.values {
        Values::Single(_) => false,
        _ => true,
    };
    let sized = n < 1 || n > 4 || shape_on_device(&entry.shape).is_sized();
    let matrix = n != 2 || TensorShape::new(entry.shape[0], entry.shape[1], 1, 1).is_sized();
    half && sized && matrix
}

/// Transposing a matrix puts every element in its place.
pub proof fn law_transposed_element<T>(data: Seq<T>, rows: int, cols: int, i: int, j: int)
    requires
        0 <= i < rows,
        0 <= j < cols,
        data.len() == rows * cols,
    ensures
        0 <= j * rows + i < data.len(),
        0 <= i * cols + j < data.len(),
        transposed(data, rows, cols)[j * rows + i] == data[i * cols + j],
{
    let k = j * rows + i;
    assert(0 <= j * rows && j * rows + rows <= cols * rows) by (nonlinear_arith)
        requires
            0 <= j < cols,
            0 < rows,
    ;
    assert(cols * rows == rows * cols) by (nonlinear_arith);
    assert(0 <= i * cols && i * cols + cols <= rows * cols) by (nonlinear_arith)
        requires
            0 <= i < rows,
            0 < cols,
    ;
    vstd::arithmetic::div_mod::lemma_fundamental_div_mod_converse(k, rows, j, i);
}

/// Transposing a matrix and transposing the result back gives the matrix.
pub proof fn law_transpose_twice<T>(data: Seq<T>, rows: int, cols: int)
    requires
        0 < rows,
        0 < cols,
        data.len() == rows * cols,
    ensures
        transposed(transposed(data, rows, cols), cols, rows) == data,
{
    let once = transposed(data, rows, cols);
    let twice = transposed(once, cols, rows);
    assert(rows * cols == cols * rows) by (nonlinear_arith);
    assert forall|k: int| 0 <= k < data.len() implies #[trigger] twice[k] == data[k] by {
        let i = k / cols;
        let j = k % cols;
        assert(k == i * cols + j && 0 <= j < cols && 0 <= i < rows) by (nonlinear_arith)
            requires
                0 <= k < rows * cols,
                0 < cols,
                i == k / cols,
                j == k % cols,
        ;
        law_transposed_element(data, rows, cols, i, j);
        assert(twice[k] == once[j * rows + i]);
    }
    assert(twice =~= data);
}

/// A matrix by columns.
pub fn transpose_2d(data: &Vec<u16>, rows: usize, cols: usize) -> (v: Vec<u16>)
    requires
        data@.len() == rows * cols,
    ensures
        v@ == transposed(data@, rows as int, cols as int),
{
    let size: usize = data.len();
    let mut v: Vec<u16> = Vec::new();
    let mut k: usize = 0;
    while k < size
        invariant
            k <= size == data@.len() == rows * cols,
            v@ == transposed(data@, rows as int, cols as int).take(k as int),
        decreases size - k,
    {
        proof {
            assert(rows > 0 && cols > 0) by (nonlinear_arith)
                requires
                    0 <= k < rows * cols,
                    rows >= 0,
                    cols >= 0,
            ;
            let i = k as int % rows as int;
            let j = k as int / rows as int;
            assert(0 <= i < rows && 0 <= j < cols) by (nonlinear_arith)
                requires
                    0 <= k < rows * cols,
                    rows > 0,
                    i == k as int % rows as int,
                    j == k as int / rows as int,
            ;
            assert(0 <= i * cols && i * cols + j < rows * cols) by (nonlinear_arith)
                requires
                    0 <= i < rows,
                    0 <= j < cols,
            ;
        }
        v.push(data[(k % rows) * cols + k / rows]);
        assert(v@ =~= transposed(data@, rows as int, cols as int).take(k + 1));
        k += 1;
    }
    assert(v@ =~= transposed(data@, rows as int, cols as int));
    v
}

impl Text {
    /// Appends the text of a shape.
    fn list(self, shape: &Vec<usize>) -> (t: Text)
        ensures
            t@ == self@ + shape_text(shape@),
    {
        let ghost before = self@;
        let mut t = self.lit("[");
        let mut i: usize = 0;
        while i < shape.len()
            invariant
                i <= shape@.len(),
                t@ == before + list_text(shape@, i as nat),
            decreases shape@.len() - i,
        {
            if i > 0 {
                t = t.lit(", ");
            }
            t = t.num(shape[i]);
            assert(t@ =~= before + list_text(shape@, (i + 1) as nat));
            i += 1;
        }
        let t = t.lit("]");
        assert(t@ =~= before + shape_text(shape@));
        t
    }
}

/// A tensor with two axes has as many elements as their product; the shape on the device has
/// the same number of elements as the stored one.
proof fn lemma_device_len(shape: Seq<usize>)
    requires
        has_axes(shape),
    ensures
        device_shape(shape).spec_len() == elements(shape),
        shape.len() == 2 ==> elements(shape) == shape[0] * shape[1],
        shape.len() == 2 ==> TensorShape::of(shape[0], shape[1], 1, 1).spec_len() == elements(
            shape,
        ),
{
    let n = shape.len();
    let s3 = shape.drop_last();
    assert(elements(shape) == elements(s3) * shape.last() as nat);
    if n == 1 {
        assert(elements(s3) == 1);
        let a = shape[0] as int;
        assert(1 * a == a * 1 * 1 * 1) by (nonlinear_arith);
    } else if n == 2 {
        let (a, b) = (shape[0] as int, shape[1] as int);
        assert(elements(s3.drop_last()) == 1);
        assert(elements(s3) == 1 * s3.last() as nat);
        assert(a * b == b * a * 1 * 1 && a * b * 1 * 1 == a * b) by (nonlinear_arith);
    } else if n == 3 {
        let (a, b, c) = (shape[0] as int, shape[1] as int, shape[2] as int);
        let s2 = s3.drop_last();
        assert(elements(s2.drop_last()) == 1);
        assert(elements(s2) == 1 * s2.last() as nat);
        assert(elements(s3) == elements(s2) * s3.last() as nat);
        assert(a * b * c == c * b * a * 1) by (nonlinear_arith);
    } else {
        let (a, b, c, d) = (shape[0] as int, shape[1] as int, shape[2] as int, shape[3] as int);
        let s2 = s3.drop_last();
        let s1 = s2.drop_last();
        assert(elements(s1.drop_last()) == 1);
        assert(elements(s1) == 1 * s1.last() as nat);
        assert(elements(s2) == elements(s1) * s2.last() as nat);
        assert(elements(s3) == elements(s2) * s3.last() as nat);
        assert(a * b * c * d == d * c * b * a) by (nonlinear_arith);
    }
}

/// The shape of a stored tensor on the device.
fn shape_on_device(shape: &Vec<usize>) -> (s: TensorShape)
    requires
        has_axes(shape@),
    ensures
        s == device_shape(shape@),
{
    match shape.len() {
        1 => TensorShape::new(shape[0], 1, 1, 1),
        2 => TensorShape::new(shape[1], shape[0], 1, 1),
        3 => TensorShape::new(shape[2], shape[1], shape[0], 1),
        _ => TensorShape::new(shape[3], shape[2], shape[1], shape[0]),
    }
}

/// Loads a weight into memory of its own.
pub fn load_weight(
    file: &TensorFile,
    name: &str,
    kind: WeightKind,
    stream: &mut Stream,
) -> (r: Result<TensorHip<F16>, ModelLoadError>)
    requires
        holdable(file@),
    ensures
        LoadRun::start(old(stream)@).loaded(file@, name@, kind).agrees(final(stream)@, r),
        r matches Ok(t) ==> t@ == weight_at(old(stream)@.next as int, file@, name@, kind),
{
    reveal(LoadRun::loaded);
    let entry = match file.find(name) {
        Some(e) => e,
        None => {
            let m = text(name).lit(": ").lit("tensor `").lit(name).lit("` not found").done();
            assert(m@ =~= name@ + ": "@ + ("tensor `"@ + name@ + "` not found"@));
            return Err(ModelLoadError::SafeTensor(m));
        },
    };
    proof {
        lemma_position(file@, name@, 0);
        assert(entry@.holdable());
    }
    if kind == WeightKind::Matrix && entry.shape.len() != 2 {
        let m = text("Weight matrix ").lit(name).lit(" must be 2D, got ").list(&entry.shape).done();
        return Err(ModelLoadError::InvalidModel(m));
    }
    let halves = match &entry.values {
        Values::Half(v) => v,
        _ => {
            let m = text("Unsupported dtype ").lit(entry.kind.as_str()).lit(" for tensor ").lit(
                name,
            ).done();
            return Err(ModelLoadError::InvalidModel(m));
        },
    };
    if entry.shape.len() < 1 || entry.shape.len() > 4 {
        let m = text("Unsupported shape ").list(&entry.shape).lit(" for tensor ").lit(name).done();
        return Err(ModelLoadError::InvalidModel(m));
    }
    proof {
        lemma_device_len(entry.shape@);
    }
    let (data, shape) = match kind {
        WeightKind::Tensor => (slice_to_vec(halves.as_slice()), shape_on_device(&entry.shape)),
        WeightKind::Matrix => {
            let rows: usize = entry.shape[0];
            let cols: usize = entry.shape[1];
            (transpose_2d(halves, rows, cols), TensorShape::new(rows, cols, 1, 1))
        },
    };
    match TensorHip::from_host_managed(HostData::F16(data), shape, stream) {
        Ok(t) => Ok(t),
        Err(e) => Err(ModelLoadError::Hip(e)),
    }
}

/// Loads a weight whose name has two parts.
pub fn load_part(
    file: &TensorFile,
    prefix: &str,
    suffix: &str,
    kind: WeightKind,
    stream: &mut Stream,
) -> (r: Result<TensorHip<F16>, ModelLoadError>)
    requires
        holdable(file@),
    ensures
        LoadRun::start(old(stream)@).loaded(file@, prefix@ + suffix@, kind).agrees(
            final(stream)@,
            r,
        ),
        r matches Ok(t) ==> t@ == weight_at(
            old(stream)@.next as int,
            file@,
            prefix@ + suffix@,
            kind,
        ),
{
    let name = text(prefix).lit(suffix).done();
    load_weight(file, name.as_str(), kind, stream)
}

} // verus!
