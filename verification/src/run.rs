//! What filling a stream comes to, up to the first error.
use crate::buffer::MemoryType;
use crate::error::{host_error, ErrorSpec, HipErrorKind};
use crate::stream::{CommandOf, CommandSpec, DataSpec, Elem, StreamSpec};
use crate::tensor::{fill_error, Element, TensorShape, TensorSpec};
use vstd::prelude::*;

verus! {

/// What asking for one command comes to: the command, or the error that refuses it.
pub type Outcome = Result<CommandSpec, ErrorSpec>;

/// A stream together with the first error met while filling it.
pub struct Run {
    pub stream: StreamSpec,
    pub error: Option<ErrorSpec>,
}

impl Run {
    /// Nothing has failed yet.
    pub open spec fn start(stream: StreamSpec) -> Run {
        Run { stream, error: None }
    }

    /// Records a command, unless something failed before.
    pub open spec fn emit(self, command: CommandSpec) -> Run {
        if self.error is Some {
            self
        } else {
            Run {
                stream: StreamSpec { log: self.stream.log.push(command), ..self.stream },
                error: None,
            }
        }
    }

    /// Records commands one after the other, unless something failed before.
    pub open spec fn emit_all(self, commands: Seq<CommandSpec>) -> Run {
        if self.error is Some {
            self
        } else {
            Run {
                stream: StreamSpec { log: self.stream.log + commands, ..self.stream },
                error: None,
            }
        }
    }

    /// Asks for a command: records it or keeps the error.
    pub open spec fn call(self, outcome: Outcome) -> Run {
        match outcome {
            Ok(command) => self.emit(command),
            Err(e) => self.check(Some(e)),
        }
    }

    /// Fails with `e`, where there is one, unless something failed before.
    pub open spec fn check(self, e: Option<ErrorSpec>) -> Run {
        if self.error is Some {
            self
        } else {
            Run { stream: self.stream, error: e }
        }
    }

    /// Goes on with `f`, unless something failed before.
    pub open spec fn step(self, f: spec_fn(Run) -> Run) -> Run {
        if self.error is Some {
            self
        } else {
            f(self)
        }
    }

    /// Whether a function that leaves `stream` behind and returns `r` did what this run says.
    pub open spec fn agrees<T>(self, stream: StreamSpec, r: Result<T, HipErrorKind>) -> bool {
        &&& stream == self.stream
        &&& match r {
            Ok(_) => self.error is None,
            Err(e) => self.error == Some(e@),
        }
    }
}

impl Run {
    /// Allocates a buffer of the given shape under the next free number.
    #[verifier::opaque]
    pub open spec fn allocated(
        self,
        elem: Elem,
        shape: TensorShape,
        memory: MemoryType,
        zeroed: bool,
    ) -> Run {
        if self.error is Some {
            self
        } else if self.stream.next == usize::MAX {
            self.check(Some(host_error("Buffer numbers exhausted"@)))
        } else {
            Run {
                stream: StreamSpec {
                    log: self.stream.log.push(
                        CommandOf::Alloc {
                            buffer: self.stream.next,
                            elem,
                            len: shape.spec_len() as usize,
                            memory,
                            zeroed,
                        },
                    ),
                    next: (self.stream.next + 1) as usize,
                    ..self.stream
                },
                error: None,
            }
        }
    }

    /// What an allocation comes to: nothing after a failure, else the next buffer number.
    pub broadcast proof fn lemma_allocated(
        self,
        elem: Elem,
        shape: TensorShape,
        memory: MemoryType,
        zeroed: bool,
    )
        ensures
            self.error is Some ==> #[trigger] self.allocated(elem, shape, memory, zeroed) == self,
            self.error is None && self.allocated(elem, shape, memory, zeroed).error is None
                ==> self.allocated(elem, shape, memory, zeroed).stream.next == self.stream.next + 1,
    {
        reveal(Run::allocated);
    }

    /// The tensor that the next allocation of the given shape makes.
    pub open spec fn fresh(self, shape: TensorShape) -> TensorSpec {
        TensorSpec::whole(self.stream.next, shape)
    }

    /// Allocates a buffer of the given shape and fills it with host data.
    pub open spec fn filled(self, data: DataSpec, shape: TensorShape, memory: MemoryType) -> Run {
        self.check(fill_error(data.len(), shape)).allocated(data.kind(), shape, memory, false).emit(
            CommandOf::Upload { dst: self.fresh(shape).ptr(), data },
        )
    }

    /// Asks for the elements of a tensor.
    pub open spec fn download<T: Element>(self, tensor: TensorSpec) -> Run {
        self.emit(
            CommandOf::Download {
                src: tensor.ptr(),
                elem: T::kind(),
                len: tensor.len() as usize,
            },
        )
    }
}

} // verus!
