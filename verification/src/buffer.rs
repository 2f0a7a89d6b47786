//! Plain device buffers.
use crate::error::{host_error, HipErrorKind};
use crate::stream::{CommandOf, DataSpec, HostData, Run, Stream};
use crate::tensor::{DevicePtr, Element, TensorShape};
use crate::text::{decimal, text};
use core::marker::PhantomData;
use vstd::prelude::*;

verus! {

/// Where device memory was allocated.
#[derive(Debug, Clone, Copy, PartialEq, Eq, Structural)]
pub enum MemoryType {
    /// Memory that only the device reaches.
    Device,
    /// Unified memory, within reach of host and device.
    Managed,
}

/// A buffer of `len` elements of kind `T` in device memory.
#[derive(Debug)]
pub struct DeviceBuffer<T> {
    ptr: DevicePtr,
    len: usize,
    elem: PhantomData<T>,
}

/// What a buffer handle stands for.
pub struct BufferSpec {
    pub ptr: DevicePtr,
    pub len: usize,
}

impl<T> View for DeviceBuffer<T> {
    type V = BufferSpec;

    closed spec fn view(&self) -> BufferSpec {
        BufferSpec { ptr: self.ptr, len: self.len }
    }
}

/// The address of no memory at all.
pub open spec fn null_ptr() -> DevicePtr {
    DevicePtr { buffer: 0, offset: 0 }
}

/// Allocates a buffer; an empty one takes no memory.
pub open spec fn buffer_run<T: Element>(s: Run, len: usize) -> Run {
    if len == 0 {
        s
    } else {
        s.allocated(T::kind(), TensorShape::of(len, 1, 1, 1), MemoryType::Device, false)
    }
}

/// The buffer that `buffer_run` makes.
pub open spec fn buffer_at(s: Run, len: usize) -> BufferSpec {
    BufferSpec {
        ptr: if len == 0 {
            null_ptr()
        } else {
            DevicePtr { buffer: s.stream.next, offset: 0 }
        },
        len,
    }
}

/// Copies host data into a buffer of the same length.
pub open spec fn copy_in(s: Run, data: DataSpec, buffer: BufferSpec) -> Run {
    if data.len() != buffer.len {
        s.check(
            Some(
                host_error(
                    "Size mismatch: host "@ + decimal(data.len()) + " vs device "@ + decimal(
                        buffer.len as nat,
                    ),
                ),
            ),
        )
    } else if buffer.len == 0 {
        s
    } else {
        s.emit(CommandOf::Upload { dst: buffer.ptr, data })
    }
}

/// Asks for the contents of a buffer, for host memory of `len` elements.
pub open spec fn copy_out<T: Element>(s: Run, buffer: BufferSpec, len: nat) -> Run {
    if len != buffer.len {
        s.check(
            Some(
                host_error(
                    "Size mismatch: device "@ + decimal(buffer.len as nat) + " vs host "@
                        + decimal(len),
                ),
            ),
        )
    } else if buffer.len == 0 {
        s
    } else {
        s.emit(CommandOf::Download { src: buffer.ptr, elem: T::kind(), len: buffer.len })
    }
}

impl<T> DeviceBuffer<T> {
    /// Number of elements.
    pub fn len(&self) -> (n: usize)
        ensures
            n == self@.len,
    {
        self.len
    }

    pub fn is_empty(&self) -> (b: bool)
        ensures
            b == (self@.len == 0),
    {
        self.len == 0
    }

    /// Device address of the first element.
    pub fn as_ptr(&self) -> (p: DevicePtr)
        ensures
            p == self@.ptr,
    {
        self.ptr
    }

    /// Device address of the first element, for writing.
    pub fn as_mut_ptr(&mut self) -> (p: DevicePtr)
        ensures
            p == old(self)@.ptr,
            *final(self) == *old(self),
    {
        self.ptr
    }
}

impl<T: Element> DeviceBuffer<T> {
    /// Allocates a buffer of `len` elements; an empty one takes no memory.
    pub fn new(len: usize, stream: &mut Stream) -> (r: Result<DeviceBuffer<T>, HipErrorKind>)
        ensures
            buffer_run::<T>(Run::start(old(stream)@), len).agrees(final(stream)@, r),
            r matches Ok(b) ==> b@ == buffer_at(Run::start(old(stream)@), len),
    {
        if len == 0 {
            return Ok(
                DeviceBuffer { ptr: DevicePtr { buffer: 0, offset: 0 }, len: 0, elem: PhantomData },
            );
        }
        reveal(Run::allocated);
        let buffer = match stream.reserve(T::elem(), len, MemoryType::Device, false) {
            Ok(buffer) => buffer,
            Err(e) => return Err(e),
        };
        Ok(DeviceBuffer { ptr: DevicePtr { buffer, offset: 0 }, len, elem: PhantomData })
    }

    /// Copies host data into the buffer.
    pub fn copy_from_host(&self, data: HostData, stream: &mut Stream) -> (r: Result<
        (),
        HipErrorKind,
    >)
        requires
            data@.kind() == T::kind(),
        ensures
            copy_in(Run::start(old(stream)@), data@, self@).agrees(final(stream)@, r),
    {
        if data.len() != self.len {
            return Err(
                HipErrorKind::host(
                    text("Size mismatch: host ").num(data.len()).lit(" vs device ").num(self.len),
                ),
            );
        }
        if self.len == 0 {
            return Ok(());
        }
        stream.push(CommandOf::Upload { dst: self.ptr, data });
        Ok(())
    }

    /// Asks for the contents of the buffer, for host memory of `len` elements.
    pub fn copy_to_host(&self, len: usize, stream: &mut Stream) -> (r: Result<(), HipErrorKind>)
        ensures
            copy_out::<T>(Run::start(old(stream)@), self@, len as nat).agrees(final(stream)@, r),
    {
        if len != self.len {
            return Err(
                HipErrorKind::host(
                    text("Size mismatch: device ").num(self.len).lit(" vs host ").num(len),
                ),
            );
        }
        if self.len == 0 {
            return Ok(());
        }
        stream.push(CommandOf::Download { src: self.ptr, elem: T::elem(), len: self.len });
        Ok(())
    }
}

} // verus!
