//! Shapes, strides and handles of tensors in device memory.
use crate::buffer::MemoryType;
use crate::error::{host_error, ErrorSpec, HipErrorKind};
use crate::stream::{CommandOf, CommandSpec, Elem, HostData, Run, Stream};
use crate::text::{decimal, text, Text};
use core::marker::PhantomData;
use vstd::prelude::*;

verus! {

/// Extents of a tensor along its four axes; axis 0 is the fastest.
#[derive(Debug, Clone, Copy, PartialEq, Eq, Structural)]
pub struct TensorShape {
    pub d0: usize,
    pub d1: usize,
    pub d2: usize,
    pub d3: usize,
}

impl TensorShape {
    /// The shape with the given extents.
    pub open spec fn of(d0: usize, d1: usize, d2: usize, d3: usize) -> TensorShape {
        TensorShape { d0, d1, d2, d3 }
    }

    /// Number of elements.
    pub open spec fn spec_len(self) -> nat {
        (self.d0 * self.d1 * self.d2 * self.d3) as nat
    }

    /// Number of vectors along axis 0.
    pub open spec fn vectors(self) -> nat {
        (self.d1 * self.d2 * self.d3) as nat
    }

    /// Whether the number of elements, and that of every leading or trailing block, is a
    /// machine integer.
    #[verifier::opaque]
    pub open spec fn fits(self) -> bool {
        &&& self.d0 * self.d1 <= usize::MAX
        &&& self.d0 * self.d1 * self.d2 <= usize::MAX
        &&& self.d0 * self.d1 * self.d2 * self.d3 <= usize::MAX
        &&& self.d1 * self.d2 <= usize::MAX
        &&& self.d1 * self.d2 * self.d3 <= usize::MAX
    }

    /// Distance between neighbours along each axis when no gap lies between elements.
    #[verifier::opaque]
    pub open spec fn packed(self) -> Strides {
        Strides {
            s0: 1,
            s1: self.d0,
            s2: (self.d0 * self.d1) as usize,
            s3: (self.d0 * self.d1 * self.d2) as usize,
        }
    }

    /// The text `[d0, d1, d2, d3]`.
    pub open spec fn text(self) -> Seq<char> {
        "["@ + decimal(self.d0 as nat) + ", "@ + decimal(self.d1 as nat) + ", "@ + decimal(
            self.d2 as nat,
        ) + ", "@ + decimal(self.d3 as nat) + "]"@
    }

    pub fn new(d0: usize, d1: usize, d2: usize, d3: usize) -> (s: TensorShape)
        ensures
            s == TensorShape::of(d0, d1, d2, d3),
    {
        TensorShape { d0, d1, d2, d3 }
    }

    /// Extent along one axis.
    pub fn dim(&self, axis: usize) -> (d: usize)
        requires
            axis < 4,
        ensures
            d == (if axis == 0 {
                self.d0
            } else if axis == 1 {
                self.d1
            } else if axis == 2 {
                self.d2
            } else {
                self.d3
            }),
    {
        if axis == 0 {
            self.d0
        } else if axis == 1 {
            self.d1
        } else if axis == 2 {
            self.d2
        } else {
            self.d3
        }
    }

    pub fn len(&self) -> (n: usize)
        requires
            self.fits(),
        ensures
            n == self.spec_len(),
    {
        reveal(TensorShape::fits);
        self.d0 * self.d1 * self.d2 * self.d3
    }

    /// Number of vectors along axis 0.
    pub fn vector_count(&self) -> (n: usize)
        requires
            self.fits(),
        ensures
            n == self.vectors(),
    {
        reveal(TensorShape::fits);
        self.d1 * self.d2 * self.d3
    }

    /// Whether the number of elements, and that of every leading or trailing block, is a
    /// machine integer.
    pub fn is_sized(&self) -> (b: bool)
        ensures
            b == self.fits(),
    {
        reveal(TensorShape::fits);
        let leading = match self.d0.checked_mul(self.d1) {
            None => false,
            Some(plane) => match plane.checked_mul(self.d2) {
                None => false,
                Some(block) => block.checked_mul(self.d3).is_some(),
            },
        };
        let trailing = match self.d1.checked_mul(self.d2) {
            None => false,
            Some(plane) => plane.checked_mul(self.d3).is_some(),
        };
        leading && trailing
    }

    /// Strides of a tensor of this shape without gaps.
    pub fn strides(&self) -> (s: Strides)
        requires
            self.fits(),
        ensures
            s == self.packed(),
    {
        reveal(TensorShape::fits);
        reveal(TensorShape::packed);
        let plane: usize = self.d0 * self.d1;
        Strides { s0: 1, s1: self.d0, s2: plane, s3: plane * self.d2 }
    }

    /// Position of the element at `(x, y, z, w)` in a tensor without gaps: axis 0 is the fastest.
    pub open spec fn at(self, x: int, y: int, z: int, w: int) -> int {
        x + y * self.d0 + z * (self.d0 * self.d1) + w * (self.d0 * self.d1 * self.d2)
    }

    /// Position of the element at `(x, y, z, w)` in a tensor without gaps.
    pub fn linear_index(&self, x: usize, y: usize, z: usize, w: usize) -> (i: usize)
        requires
            self.fits(),
            x < self.d0,
            y < self.d1,
            z < self.d2,
            w < self.d3,
        ensures
            i == x + y * self.d0 + z * (self.d0 * self.d1) + w * (self.d0 * self.d1 * self.d2),
            i < self.spec_len(),
    {
        reveal(TensorShape::fits);
        proof {
            lemma_index_bound(
                self.d0 as int,
                self.d1 as int,
                self.d2 as int,
                self.d3 as int,
                x as int,
                y as int,
                z as int,
                w as int,
            );
        }
        let plane: usize = self.d0 * self.d1;
        let block: usize = plane * self.d2;
        x + y * self.d0 + z * plane + w * block
    }
}

/// What it means that the number of elements is a machine integer.
pub proof fn lemma_fits_bounds(shape: TensorShape)
    requires
        shape.fits(),
    ensures
        shape.d0 * shape.d1 <= usize::MAX,
        shape.d0 * shape.d1 * shape.d2 <= usize::MAX,
        shape.d0 * shape.d1 * shape.d2 * shape.d3 <= usize::MAX,
{
    reveal(TensorShape::fits);
}

/// A shape that is nowhere larger than one of a machine integer of elements has one too.
pub proof fn lemma_smaller_fits(small: TensorShape, large: TensorShape)
    requires
        large.fits(),
        small.d0 <= large.d0,
        small.d1 <= large.d1,
        small.d2 <= large.d2,
        small.d3 <= large.d3,
    ensures
        small.fits(),
        small.spec_len() <= large.spec_len(),
{
    reveal(TensorShape::fits);
    let (a, b, c, d) = (small.d0 as int, small.d1 as int, small.d2 as int, small.d3 as int);
    let (p, q, r, t) = (large.d0 as int, large.d1 as int, large.d2 as int, large.d3 as int);
    lemma_product_grows(a, b, p, q);
    lemma_product_grows(a * b, c, p * q, r);
    lemma_product_grows(a * b * c, d, p * q * r, t);
    lemma_product_grows(b, c, q, r);
    lemma_product_grows(b * c, d, q * r, t);
}

/// Products of larger factors are larger.
pub proof fn lemma_product_grows(a: int, b: int, p: int, q: int)
    requires
        0 <= a <= p,
        0 <= b <= q,
    ensures
        0 <= a * b <= p * q,
{
    assert(0 <= a * b <= p * q) by (nonlinear_arith)
        requires
            0 <= a <= p,
            0 <= b <= q,
    ;
}

/// A matrix of a machine integer of elements has a fitting shape.
pub proof fn lemma_matrix_fits(d0: usize, d1: usize)
    requires
        d0 * d1 <= usize::MAX,
    ensures
        TensorShape::of(d0, d1, 1, 1).fits(),
        TensorShape::of(d0, d1, 1, 1).spec_len() == d0 * d1,
{
    reveal(TensorShape::fits);
    assert(d0 * d1 * 1 == d0 * d1 && d0 * d1 * 1 * 1 == d0 * d1 && d1 * 1 == d1 && d1 * 1 * 1 == d1)
        by (nonlinear_arith);
}

/// Every index inside the extents lies below the number of elements.
proof fn lemma_index_bound(
    d0: int,
    d1: int,
    d2: int,
    d3: int,
    x: int,
    y: int,
    z: int,
    w: int,
)
    requires
        0 <= x < d0,
        0 <= y < d1,
        0 <= z < d2,
        0 <= w < d3,
    ensures
        0 <= y * d0,
        0 <= z * (d0 * d1),
        0 <= w * (d0 * d1 * d2),
        x + y * d0 < d0 * d1,
        x + y * d0 + z * (d0 * d1) < d0 * d1 * d2,
        x + y * d0 + z * (d0 * d1) + w * (d0 * d1 * d2) < d0 * d1 * d2 * d3,
{
    let plane = d0 * d1;
    let block = plane * d2;
    assert(0 <= y * d0 && x + y * d0 < plane) by (nonlinear_arith)
        requires
            0 <= x < d0,
            0 <= y < d1,
            plane == d0 * d1,
    ;
    assert(0 <= z * plane && z * plane + plane <= block) by (nonlinear_arith)
        requires
            0 <= z < d2,
            0 <= plane,
            block == plane * d2,
    ;
    assert(0 <= w * block && w * block + block <= block * d3) by (nonlinear_arith)
        requires
            0 <= w < d3,
            0 <= block,
    ;
}

/// Distance in elements between neighbours along each axis.
#[derive(Debug, Clone, Copy, PartialEq, Eq, Structural)]
pub struct Strides {
    pub s0: usize,
    pub s1: usize,
    pub s2: usize,
    pub s3: usize,
}

impl Strides {
    /// The four strides, axis 0 first.
    pub fn to_array(&self) -> (a: [usize; 4])
        ensures
            a@ == seq![self.s0, self.s1, self.s2, self.s3],
    {
        let a = [self.s0, self.s1, self.s2, self.s3];
        assert(a@ =~= seq![self.s0, self.s1, self.s2, self.s3]);
        a
    }
}

/// Which elements of a device buffer a tensor covers.
#[derive(Debug, Clone, Copy, PartialEq, Eq, Structural)]
pub struct TensorView {
    pub shape: TensorShape,
    pub strides: Strides,
    pub offset: usize,
}

/// An address in device memory: a buffer and an offset in elements.
#[derive(Debug, Clone, Copy, PartialEq, Eq, Structural)]
pub struct DevicePtr {
    pub buffer: usize,
    pub offset: usize,
}

/// A kind of tensor element.
pub trait Element {
    spec fn kind() -> Elem;

    fn elem() -> (e: Elem)
        ensures
            e == Self::kind(),
    ;
}

/// Half-precision elements.
#[derive(Debug)]
pub struct F16 {}

/// Single-precision elements.
#[derive(Debug)]
pub struct F32 {}

/// Signed 32-bit elements.
#[derive(Debug)]
pub struct I32 {}

/// Unsigned 32-bit elements.
#[derive(Debug)]
pub struct U32 {}

impl Element for F16 {
    open spec fn kind() -> Elem {
        Elem::F16
    }

    fn elem() -> Elem {
        Elem::F16
    }
}

impl Element for F32 {
    open spec fn kind() -> Elem {
        Elem::F32
    }

    fn elem() -> Elem {
        Elem::F32
    }
}

impl Element for I32 {
    open spec fn kind() -> Elem {
        Elem::I32
    }

    fn elem() -> Elem {
        Elem::I32
    }
}

impl Element for U32 {
    open spec fn kind() -> Elem {
        Elem::U32
    }

    fn elem() -> Elem {
        Elem::U32
    }
}

/// A tensor in device memory with elements of kind `T`.
#[derive(Debug)]
pub struct TensorHip<T> {
    buffer: usize,
    view: TensorView,
    memory: MemoryType,
    elem: PhantomData<T>,
}

/// What a tensor handle stands for.
pub struct TensorSpec {
    pub buffer: usize,
    pub view: TensorView,
}

impl<T> View for TensorHip<T> {
    type V = TensorSpec;

    closed spec fn view(&self) -> TensorSpec {
        TensorSpec { buffer: self.buffer, view: self.view }
    }
}

impl TensorSpec {
    /// A whole buffer of the given shape.
    pub open spec fn whole(buffer: usize, shape: TensorShape) -> TensorSpec {
        TensorSpec { buffer, view: TensorView { shape, strides: shape.packed(), offset: 0 } }
    }

    pub open spec fn shape(self) -> TensorShape {
        self.view.shape
    }

    pub open spec fn len(self) -> nat {
        self.view.shape.spec_len()
    }

    /// Whether no gap lies between the elements.
    pub open spec fn contiguous(self) -> bool {
        self.view.strides == self.view.shape.packed()
    }

    /// Address of the first element.
    pub open spec fn ptr(self) -> DevicePtr {
        DevicePtr { buffer: self.buffer, offset: self.view.offset }
    }

    /// The same memory, seen in another shape without gaps.
    pub open spec fn with_shape(self, shape: TensorShape) -> TensorSpec {
        TensorSpec {
            buffer: self.buffer,
            view: TensorView { shape, strides: shape.packed(), offset: self.view.offset },
        }
    }
}

/// Why a tensor of `len` elements cannot be seen in `shape`, where it cannot: a view may
/// not reach beyond the tensor.
#[verifier::opaque]
pub open spec fn resize_error(tensor: TensorSpec, shape: TensorShape) -> Option<ErrorSpec> {
    if shape.spec_len() > tensor.len() {
        Some(
            host_error(
                "Resized view "@ + shape.text() + " exceeds tensor "@ + tensor.shape().text(),
            ),
        )
    } else {
        None
    }
}

/// Why a tensor cannot be reshaped to `shape`, where it cannot: the number of elements
/// stays, and no gap may lie between them.
#[verifier::opaque]
pub open spec fn reshape_error(tensor: TensorSpec, shape: TensorShape) -> Option<ErrorSpec> {
    if shape.spec_len() != tensor.len() {
        Some(
            host_error(
                "Reshape size mismatch: "@ + tensor.shape().text() + " to "@ + shape.text(),
            ),
        )
    } else if !tensor.contiguous() {
        Some(host_error("Reshape requires a contiguous tensor"@))
    } else {
        None
    }
}

/// Why `len` host elements cannot fill a tensor of `shape`, where they cannot.
#[verifier::opaque]
pub open spec fn fill_error(len: nat, shape: TensorShape) -> Option<ErrorSpec> {
    if len != shape.spec_len() {
        Some(
            host_error(
                "Data size mismatch: "@ + decimal(len) + " elements for shape "@ + shape.text(),
            ),
        )
    } else {
        None
    }
}

/// Whether a range lies within an extent.
pub open spec fn range_ok(range: (usize, usize), extent: usize) -> bool {
    range.0 <= range.1 <= extent
}

impl TensorSpec {
    /// Where a part of the tensor starts.
    pub open spec fn part_offset(self, x: usize, y: usize, z: usize, w: usize) -> int {
        let s = self.view.strides;
        self.view.offset + x * s.s0 + y * s.s1 + z * s.s2 + w * s.s3
    }

    /// A part of the tensor: the strides stay.
    pub open spec fn part(
        self,
        x: (usize, usize),
        y: (usize, usize),
        z: (usize, usize),
        w: (usize, usize),
    ) -> TensorSpec {
        TensorSpec {
            buffer: self.buffer,
            view: TensorView {
                shape: TensorShape::of(
                    (x.1 - x.0) as usize,
                    (y.1 - y.0) as usize,
                    (z.1 - z.0) as usize,
                    (w.1 - w.0) as usize,
                ),
                strides: self.view.strides,
                offset: self.part_offset(x.0, y.0, z.0, w.0) as usize,
            },
        }
    }

    /// Whether ranges name a part of the tensor.
    pub open spec fn has_part(
        self,
        x: (usize, usize),
        y: (usize, usize),
        z: (usize, usize),
        w: (usize, usize),
    ) -> bool {
        let s = self.view.shape;
        &&& range_ok(x, s.d0)
        &&& range_ok(y, s.d1)
        &&& range_ok(z, s.d2)
        &&& range_ok(w, s.d3)
        &&& self.part_offset(x.0, y.0, z.0, w.0) <= usize::MAX
    }
}

/// `a + b * c`, where that is a machine integer.
fn mul_add(a: usize, b: usize, c: usize) -> (r: Option<usize>)
    ensures
        match r {
            Some(n) => n == a + b * c,
            None => a + b * c > usize::MAX,
        },
{
    match b.checked_mul(c) {
        Some(m) => a.checked_add(m),
        None => None,
    }
}

impl Text {
    /// Appends the text of a shape.
    pub fn shape(self, s: TensorShape) -> (t: Text)
        ensures
            t@ == self@ + s.text(),
    {
        let t = self.lit("[").num(s.d0).lit(", ").num(s.d1).lit(", ").num(s.d2).lit(", ").num(
            s.d3,
        ).lit("]");
        assert(t@ =~= self@ + s.text());
        t
    }
}

impl<T> TensorHip<T> {
    #[verifier::type_invariant]
    spec fn sized(self) -> bool {
        self.view.shape.fits()
    }

    pub closed spec fn memory(&self) -> MemoryType {
        self.memory
    }

    pub fn shape(&self) -> (s: TensorShape)
        ensures
            s == self@.shape(),
            s.fits(),
    {
        proof {
            use_type_invariant(self);
        }
        self.view.shape
    }

    pub fn len(&self) -> (n: usize)
        ensures
            n == self@.len(),
    {
        proof {
            use_type_invariant(self);
        }
        self.view.shape.len()
    }

    pub fn is_empty(&self) -> (b: bool)
        ensures
            b == (self@.len() == 0),
    {
        self.len() == 0
    }

    pub fn is_contiguous(&self) -> (b: bool)
        ensures
            b == self@.contiguous(),
    {
        proof {
            use_type_invariant(self);
        }
        self.view.strides == self.view.shape.strides()
    }

    pub fn memory_type(&self) -> (m: MemoryType)
        ensures
            m == self.memory(),
    {
        self.memory
    }

    pub fn tensor_view(&self) -> (v: TensorView)
        ensures
            v == self@.view,
    {
        self.view
    }

    pub fn offset(&self) -> (n: usize)
        ensures
            n == self@.view.offset,
    {
        self.view.offset
    }

    /// The four strides, axis 0 first.
    pub fn strides(&self) -> (a: [usize; 4])
        ensures
            a@ == seq![
                self@.view.strides.s0,
                self@.view.strides.s1,
                self@.view.strides.s2,
                self@.view.strides.s3,
            ],
    {
        self.view.strides.to_array()
    }

    pub fn as_ptr(&self) -> (p: DevicePtr)
        ensures
            p == self@.ptr(),
    {
        DevicePtr { buffer: self.buffer, offset: self.view.offset }
    }

    /// The same memory from its start, seen in a shape that is no larger.
    pub fn resized_view(&self, shape: TensorShape) -> (r: Result<TensorHip<T>, HipErrorKind>)
        requires
            shape.fits(),
        ensures
            match r {
                Ok(t) => resize_error(self@, shape) is None && t@ == self@.with_shape(shape)
                    && t.memory() == self.memory(),
                Err(e) => resize_error(self@, shape) == Some(e@),
            },
    {
        reveal(resize_error);
        if shape.len() > self.len() {
            return Err(
                HipErrorKind::host(
                    text("Resized view ").shape(shape).lit(" exceeds tensor ").shape(self.shape()),
                ),
            );
        }
        let view = TensorView { shape, strides: shape.strides(), offset: self.view.offset };
        Ok(TensorHip { buffer: self.buffer, view, memory: self.memory, elem: PhantomData })
    }

    /// The same elements in another shape.
    pub fn reshape_view(&self, shape: TensorShape) -> (r: Result<TensorHip<T>, HipErrorKind>)
        requires
            shape.fits(),
        ensures
            match r {
                Ok(t) => reshape_error(self@, shape) is None && t@ == self@.with_shape(shape)
                    && t.memory() == self.memory(),
                Err(e) => reshape_error(self@, shape) == Some(e@),
            },
    {
        reveal(reshape_error);
        if shape.len() != self.len() {
            return Err(
                HipErrorKind::host(
                    text("Reshape size mismatch: ").shape(self.shape()).lit(" to ").shape(shape),
                ),
            );
        }
        if !self.is_contiguous() {
            return Err(HipErrorKind::host(text("Reshape requires a contiguous tensor")));
        }
        let view = TensorView { shape, strides: shape.strides(), offset: self.view.offset };
        Ok(TensorHip { buffer: self.buffer, view, memory: self.memory, elem: PhantomData })
    }
}

impl<T> TensorHip<T> {
    /// Where a part of the tensor starts, where that is a machine integer.
    fn part_start(&self, x: usize, y: usize, z: usize, w: usize) -> (r: Option<usize>)
        ensures
            match r {
                Some(n) => n == self@.part_offset(x, y, z, w),
                None => self@.part_offset(x, y, z, w) > usize::MAX,
            },
    {
        let s = self.view.strides;
        proof {
            lemma_product_grows(x as int, s.s0 as int, x as int, s.s0 as int);
            lemma_product_grows(y as int, s.s1 as int, y as int, s.s1 as int);
            lemma_product_grows(z as int, s.s2 as int, z as int, s.s2 as int);
            lemma_product_grows(w as int, s.s3 as int, w as int, s.s3 as int);
        }
        match mul_add(self.view.offset, x, s.s0) {
            Some(a) => match mul_add(a, y, s.s1) {
                Some(b) => match mul_add(b, z, s.s2) {
                    Some(c) => mul_add(c, w, s.s3),
                    None => None,
                },
                None => None,
            },
            None => None,
        }
    }

    /// A part of the tensor, given by a range along each axis: the memory and the strides are
    /// shared.
    pub fn sub_view(
        &self,
        x: (usize, usize),
        y: (usize, usize),
        z: (usize, usize),
        w: (usize, usize),
    ) -> (r: Result<TensorHip<T>, HipErrorKind>)
        ensures
            match r {
                Ok(t) => self@.has_part(x, y, z, w) && t@ == self@.part(x, y, z, w),
                Err(e) => !self@.has_part(x, y, z, w) && e@ == host_error(
                    "View out of range for shape "@ + self@.shape().text(),
                ),
            },
    {
        proof {
            use_type_invariant(self);
        }
        let s = self.view.shape;
        let inside = x.0 <= x.1 && x.1 <= s.d0 && y.0 <= y.1 && y.1 <= s.d1 && z.0 <= z.1 && z.1
            <= s.d2 && w.0 <= w.1 && w.1 <= s.d3;
        if inside {
            if let Some(offset) = self.part_start(x.0, y.0, z.0, w.0) {
                let shape = TensorShape::new(x.1 - x.0, y.1 - y.0, z.1 - z.0, w.1 - w.0);
                proof {
                    lemma_smaller_fits(shape, s);
                }
                let view = TensorView { shape, strides: self.view.strides, offset };
                return Ok(
                    TensorHip { buffer: self.buffer, view, memory: self.memory, elem: PhantomData },
                );
            }
        }
        Err(HipErrorKind::host(text("View out of range for shape ").shape(s)))
    }
}

/// The whole of a tensor is a part of it, and the same tensor.
pub proof fn law_whole_view_is_the_tensor(t: TensorSpec)
    ensures
        ({
            let s = t.view.shape;
            let x = (0usize, s.d0);
            let y = (0usize, s.d1);
            let z = (0usize, s.d2);
            let w = (0usize, s.d3);
            t.has_part(x, y, z, w) && t.part(x, y, z, w) == t
        }),
{
    let s = t.view.strides;
    assert(0 * s.s0 == 0 && 0 * s.s1 == 0 && 0 * s.s2 == 0 && 0 * s.s3 == 0);
}

/// An element of a part of a tensor is the element of the tensor that lies as much further along
/// each axis as the part starts there.
pub proof fn law_part_holds_its_elements(
    t: TensorSpec,
    x: (usize, usize),
    y: (usize, usize),
    z: (usize, usize),
    w: (usize, usize),
    i: usize,
    j: usize,
    k: usize,
    l: usize,
)
    requires
        t.has_part(x, y, z, w),
        i < x.1 - x.0,
        j < y.1 - y.0,
        k < z.1 - z.0,
        l < w.1 - w.0,
    ensures
        t.part(x, y, z, w).buffer == t.buffer,
        t.part(x, y, z, w).part_offset(i, j, k, l) == t.part_offset(
            (x.0 + i) as usize,
            (y.0 + j) as usize,
            (z.0 + k) as usize,
            (w.0 + l) as usize,
        ),
        t.part(x, y, z, w).shape() == TensorShape::of(
            (x.1 - x.0) as usize,
            (y.1 - y.0) as usize,
            (z.1 - z.0) as usize,
            (w.1 - w.0) as usize,
        ),
{
    let s = t.view.strides;
    lemma_further(x.0 as int, i as int, s.s0 as int);
    lemma_further(y.0 as int, j as int, s.s1 as int);
    lemma_further(z.0 as int, k as int, s.s2 as int);
    lemma_further(w.0 as int, l as int, s.s3 as int);
}

proof fn lemma_further(a: int, i: int, s: int)
    ensures
        (a + i) * s == a * s + i * s,
        0 <= a && 0 <= s ==> 0 <= a * s,
{
    assert((a + i) * s == a * s + i * s) by (nonlinear_arith);
    assert(0 <= a && 0 <= s ==> 0 <= a * s) by (nonlinear_arith);
}

impl<T: Element> TensorHip<T> {
    /// Allocates device memory of the given shape.
    pub fn new(shape: TensorShape, stream: &mut Stream) -> (r: Result<TensorHip<T>, HipErrorKind>)
        requires
            shape.fits(),
        ensures
            Run::start(old(stream)@).allocated(T::kind(), shape, MemoryType::Device, false).agrees(
                final(stream)@,
                r,
            ),
            r matches Ok(t) ==> t@ == TensorSpec::whole(old(stream)@.next, shape) && t.memory()
                == MemoryType::Device,
    {
        TensorHip::allocate(shape, MemoryType::Device, false, stream)
    }

    /// Allocates managed memory of the given shape.
    pub fn managed(shape: TensorShape, stream: &mut Stream) -> (r: Result<
        TensorHip<T>,
        HipErrorKind,
    >)
        requires
            shape.fits(),
        ensures
            Run::start(old(stream)@).allocated(T::kind(), shape, MemoryType::Managed, false).agrees(
                final(stream)@,
                r,
            ),
            r matches Ok(t) ==> t@ == TensorSpec::whole(old(stream)@.next, shape) && t.memory()
                == MemoryType::Managed,
    {
        TensorHip::allocate(shape, MemoryType::Managed, false, stream)
    }

    /// Allocates device memory of the given shape, set to zero.
    pub fn zeros(shape: TensorShape, stream: &mut Stream) -> (r: Result<TensorHip<T>, HipErrorKind>)
        requires
            shape.fits(),
        ensures
            Run::start(old(stream)@).allocated(T::kind(), shape, MemoryType::Device, true).agrees(
                final(stream)@,
                r,
            ),
            r matches Ok(t) ==> t@ == TensorSpec::whole(old(stream)@.next, shape) && t.memory()
                == MemoryType::Device,
    {
        TensorHip::allocate(shape, MemoryType::Device, true, stream)
    }

    fn allocate(shape: TensorShape, memory: MemoryType, zeroed: bool, stream: &mut Stream) -> (r:
        Result<TensorHip<T>, HipErrorKind>)
        requires
            shape.fits(),
        ensures
            Run::start(old(stream)@).allocated(T::kind(), shape, memory, zeroed).agrees(
                final(stream)@,
                r,
            ),
            r matches Ok(t) ==> t@ == TensorSpec::whole(old(stream)@.next, shape) && t.memory()
                == memory,
    {
        reveal(Run::allocated);
        let buffer = match stream.reserve(T::elem(), shape.len(), memory, zeroed) {
            Ok(buffer) => buffer,
            Err(e) => return Err(e),
        };
        let view = TensorView { shape, strides: shape.strides(), offset: 0 };
        Ok(TensorHip { buffer, view, memory, elem: PhantomData })
    }

    /// Allocates device memory of the given shape and copies `data` into it.
    pub fn from_host(data: HostData, shape: TensorShape, stream: &mut Stream) -> (r: Result<
        TensorHip<T>,
        HipErrorKind,
    >)
        requires
            shape.fits(),
            data@.kind() == T::kind(),
        ensures
            Run::start(old(stream)@).filled(data@, shape, MemoryType::Device).agrees(
                final(stream)@,
                r,
            ),
            r matches Ok(t) ==> t@ == TensorSpec::whole(old(stream)@.next, shape) && t.memory()
                == MemoryType::Device,
    {
        TensorHip::fill_new(data, shape, MemoryType::Device, stream)
    }

    /// Allocates managed memory of the given shape and copies `data` into it.
    pub fn from_host_managed(data: HostData, shape: TensorShape, stream: &mut Stream) -> (r: Result<
        TensorHip<T>,
        HipErrorKind,
    >)
        requires
            shape.fits(),
            data@.kind() == T::kind(),
        ensures
            Run::start(old(stream)@).filled(data@, shape, MemoryType::Managed).agrees(
                final(stream)@,
                r,
            ),
            r matches Ok(t) ==> t@ == TensorSpec::whole(old(stream)@.next, shape) && t.memory()
                == MemoryType::Managed,
    {
        TensorHip::fill_new(data, shape, MemoryType::Managed, stream)
    }

    fn fill_new(data: HostData, shape: TensorShape, memory: MemoryType, stream: &mut Stream) -> (r:
        Result<TensorHip<T>, HipErrorKind>)
        requires
            shape.fits(),
            data@.kind() == T::kind(),
        ensures
            Run::start(old(stream)@).filled(data@, shape, memory).agrees(final(stream)@, r),
            r matches Ok(t) ==> t@ == TensorSpec::whole(old(stream)@.next, shape) && t.memory()
                == memory,
    {
        broadcast use Run::lemma_allocated;

        reveal(fill_error);
        if data.len() != shape.len() {
            return Err(
                HipErrorKind::host(
                    text("Data size mismatch: ").num(data.len()).lit(" elements for shape ").shape(
                        shape,
                    ),
                ),
            );
        }
        let tensor: TensorHip<T> = TensorHip::allocate(shape, memory, false, stream)?;
        stream.push(CommandOf::Upload { dst: tensor.as_ptr(), data });
        Ok(tensor)
    }

    /// Copies host data over the whole tensor.
    pub fn copy_from_host(&self, data: HostData, stream: &mut Stream) -> (r: Result<
        (),
        HipErrorKind,
    >)
        requires
            data@.kind() == T::kind(),
        ensures
            Run::start(old(stream)@).check(fill_error(data@.len(), self@.shape())).emit(
                (CommandOf::Upload { dst: self@.ptr(), data: data@ }),
            ).agrees(final(stream)@, r),
    {
        reveal(fill_error);
        if data.len() != self.len() {
            return Err(
                HipErrorKind::host(
                    text("Data size mismatch: ").num(data.len()).lit(" elements for shape ").shape(
                        self.shape(),
                    ),
                ),
            );
        }
        stream.push(CommandOf::Upload { dst: self.as_ptr(), data });
        Ok(())
    }

    /// Asks for the elements of the tensor.
    pub fn download(&self, stream: &mut Stream)
        ensures
            final(stream)@ == Run::start(old(stream)@).download::<T>(self@).stream,
    {
        stream.push(
            CommandOf::Download { src: self.as_ptr(), elem: T::elem(), len: self.len() },
        );
    }

    /// Sets every element to zero.
    pub fn fill_zero(&self, stream: &mut Stream)
        ensures
            final(stream)@ == Run::start(old(stream)@).emit(zero_command::<T>(self@)).stream,
    {
        stream.push(CommandOf::Zero { dst: self.as_ptr(), elem: T::elem(), len: self.len() });
    }
}

/// Sets a whole tensor to zero.
pub open spec fn zero_command<T: Element>(tensor: TensorSpec) -> CommandSpec {
    CommandOf::Zero { dst: tensor.ptr(), elem: T::kind(), len: tensor.len() as usize }
}

} // verus!
