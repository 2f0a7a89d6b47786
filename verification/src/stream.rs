//! The queue of device work: what a stream is asked to do, in order.
use crate::buffer::MemoryType;
use crate::error::{host_error, HipErrorKind};
use crate::launch::Launch;
use crate::probe::Probe;
use crate::tensor::DevicePtr;
use crate::text::text;
pub use crate::run::{Outcome, Run};
use vstd::prelude::*;

verus! {

/// Kind of the elements of a device buffer.
#[derive(Debug, Clone, Copy, PartialEq, Eq, Structural)]
pub enum Elem {
    F16,
    F32,
    I32,
    U32,
}

/// Host data by element kind; half and single precision values are held as bit patterns.
#[derive(Debug, Clone)]
pub enum HostData {
    F16(Vec<u16>),
    F32(Vec<u32>),
    I32(Vec<i32>),
    U32(Vec<u32>),
}

/// The contents of host data.
pub enum DataSpec {
    F16(Seq<u16>),
    F32(Seq<u32>),
    I32(Seq<i32>),
    U32(Seq<u32>),
}

impl View for HostData {
    type V = DataSpec;

    open spec fn view(&self) -> DataSpec {
        match self {
            HostData::F16(v) => DataSpec::F16(v@),
            HostData::F32(v) => DataSpec::F32(v@),
            HostData::I32(v) => DataSpec::I32(v@),
            HostData::U32(v) => DataSpec::U32(v@),
        }
    }
}

impl DataSpec {
    pub open spec fn len(self) -> nat {
        match self {
            DataSpec::F16(s) => s.len(),
            DataSpec::F32(s) => s.len(),
            DataSpec::I32(s) => s.len(),
            DataSpec::U32(s) => s.len(),
        }
    }

    pub open spec fn kind(self) -> Elem {
        match self {
            DataSpec::F16(_) => Elem::F16,
            DataSpec::F32(_) => Elem::F32,
            DataSpec::I32(_) => Elem::I32,
            DataSpec::U32(_) => Elem::U32,
        }
    }
}

impl HostData {
    pub fn len(&self) -> (n: usize)
        ensures
            n == self@.len(),
    {
        match self {
            HostData::F16(v) => v.len(),
            HostData::F32(v) => v.len(),
            HostData::I32(v) => v.len(),
            HostData::U32(v) => v.len(),
        }
    }
}

/// One piece of device work; `D` is how host data that goes along is held.
pub enum CommandOf<D> {
    /// Allocate `len` elements under the number `buffer`.
    Alloc { buffer: usize, elem: Elem, len: usize, memory: MemoryType, zeroed: bool },
    /// Copy host data to the device.
    Upload { dst: DevicePtr, data: D },
    /// Copy `len` elements back to the host.
    Download { src: DevicePtr, elem: Elem, len: usize },
    /// Set `len` elements to zero.
    Zero { dst: DevicePtr, elem: Elem, len: usize },
    /// Start a kernel.
    Launch(Launch),
    /// Hand intermediate values to a callback.
    Probe(Probe),
    /// Wait until everything before has finished.
    Synchronize,
}

pub type Command = CommandOf<HostData>;

pub type CommandSpec = CommandOf<DataSpec>;

impl View for CommandOf<HostData> {
    type V = CommandSpec;

    open spec fn view(&self) -> CommandSpec {
        match self {
            CommandOf::Alloc { buffer, elem, len, memory, zeroed } => CommandOf::Alloc {
                buffer: *buffer,
                elem: *elem,
                len: *len,
                memory: *memory,
                zeroed: *zeroed,
            },
            CommandOf::Upload { dst, data } => CommandOf::Upload { dst: *dst, data: data@ },
            CommandOf::Download { src, elem, len } => CommandOf::Download {
                src: *src,
                elem: *elem,
                len: *len,
            },
            CommandOf::Zero { dst, elem, len } => CommandOf::Zero {
                dst: *dst,
                elem: *elem,
                len: *len,
            },
            CommandOf::Launch(launch) => CommandOf::Launch(*launch),
            CommandOf::Probe(probe) => CommandOf::Probe(*probe),
            CommandOf::Synchronize => CommandOf::Synchronize,
        }
    }
}

/// What a stream holds: the work recorded so far, the next free buffer number, the number of
/// the stream on the device, and whether it is a stream of its own.
pub struct StreamSpec {
    pub log: Seq<CommandSpec>,
    pub next: usize,
    pub handle: usize,
    pub owned: bool,
}

/// A stream of device work, recorded in order.
pub struct Stream {
    handle: usize,
    owned: bool,
    commands: Vec<Command>,
    next: usize,
}

impl View for Stream {
    type V = StreamSpec;

    closed spec fn view(&self) -> StreamSpec {
        StreamSpec {
            log: Seq::new(self.commands@.len(), |i: int| self.commands@[i]@),
            next: self.next,
            handle: self.handle,
            owned: self.owned,
        }
    }
}

/// What a list of commands stands for.
pub open spec fn command_list(v: Seq<Command>) -> Seq<CommandSpec> {
    Seq::new(v.len(), |i: int| v[i]@)
}

/// The null stream without work: buffer number 0 is kept for the null address.
pub open spec fn null_stream() -> StreamSpec {
    StreamSpec { log: Seq::empty(), next: 1, handle: 0, owned: false }
}

/// A stream of its own without work, still without a device handle.
pub open spec fn own_stream() -> StreamSpec {
    StreamSpec { owned: true, ..null_stream() }
}

impl Stream {
    /// A stream of its own, still without a device handle.
    pub fn new() -> (s: Stream)
        ensures
            s@ == own_stream(),
    {
        let s = Stream { handle: 0, owned: true, commands: Vec::new(), next: 1 };
        assert(s@.log =~= Seq::empty());
        s
    }

    /// The null stream.
    pub fn null() -> (s: Stream)
        ensures
            s@ == null_stream(),
    {
        let s = Stream { handle: 0, owned: false, commands: Vec::new(), next: 1 };
        assert(s@.log =~= Seq::empty());
        s
    }

    /// Number of the stream on the device; zero for the null stream, and for one that has none
    /// yet.
    pub fn handle(&self) -> (h: usize)
        ensures
            h == self@.handle,
    {
        self.handle
    }

    /// Whether this is the null stream.
    pub fn is_null(&self) -> (b: bool)
        ensures
            b == (self@.handle == 0 && !self@.owned),
    {
        self.handle == 0 && !self.owned
    }

    /// The work recorded so far.
    pub fn commands(&self) -> (v: &Vec<Command>)
        ensures
            self@.log == command_list(v@),
    {
        assert(self@.log =~= command_list(self.commands@));
        &self.commands
    }

    /// Hands the recorded work over; the stream goes on without it.
    pub fn take(&mut self) -> (v: Vec<Command>)
        ensures
            command_list(v@) == old(self)@.log,
            final(self)@ == (StreamSpec { log: Seq::empty(), ..old(self)@ }),
    {
        let mut v: Vec<Command> = Vec::new();
        std::mem::swap(&mut v, &mut self.commands);
        assert(command_list(v@) =~= old(self)@.log);
        assert(self@.log =~= Seq::empty());
        v
    }

    /// Records a wait for everything before.
    pub fn synchronize(&mut self)
        ensures
            final(self)@ == Run::start(old(self)@).emit(CommandOf::Synchronize).stream,
    {
        self.push(CommandOf::Synchronize);
    }

    /// Records a command.
    pub fn push(&mut self, command: Command)
        ensures
            final(self)@ == (StreamSpec { log: old(self)@.log.push(command@), ..old(self)@ }),
    {
        let ghost before = self@.log;
        self.commands.push(command);
        assert(self@.log =~= before.push(command@));
    }

    /// Takes the next free buffer number and records its allocation.
    pub(crate) fn reserve(&mut self, elem: Elem, len: usize, memory: MemoryType, zeroed: bool) -> (r:
        Result<usize, HipErrorKind>)
        ensures
            match r {
                Ok(buffer) => old(self)@.next < usize::MAX && buffer == old(self)@.next
                    && final(self)@ == (StreamSpec {
                    log: old(self)@.log.push(
                        CommandOf::Alloc { buffer, elem, len, memory, zeroed },
                    ),
                    next: (buffer + 1) as usize,
                    ..old(self)@
                }),
                Err(e) => old(self)@.next == usize::MAX && final(self)@ == old(self)@ && e@
                    == host_error("Buffer numbers exhausted"@),
            },
    {
        if self.next == usize::MAX {
            return Err(HipErrorKind::host(text("Buffer numbers exhausted")));
        }
        let buffer: usize = self.next;
        self.push(CommandOf::Alloc { buffer, elem, len, memory, zeroed });
        self.next = buffer + 1;
        Ok(buffer)
    }

    /// Records a kernel start.
    pub fn launch(&mut self, launch: Launch)
        ensures
            Run::start(old(self)@).emit(CommandOf::Launch(launch)).stream == final(self)@,
    {
        self.push(CommandOf::Launch(launch));
    }
}

} // verus!
