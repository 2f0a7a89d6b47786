//! What device memory holds after recorded transfers, and what downloads send back.
use crate::buffer::{buffer_at, buffer_run, copy_in, copy_out, MemoryType};
use crate::run::Run;
use crate::stream::{CommandOf, CommandSpec, DataSpec, Elem, StreamSpec};
use crate::tensor::{fill_error, lemma_fits_bounds, DevicePtr, Element, TensorShape};
use vstd::prelude::*;

verus! {

/// Device memory: the bits of every element of every buffer.
#[verifier::ext_equal]
pub struct Memory {
    pub cells: spec_fn(usize, int) -> u32,
}

/// The bits of an element of host data.
pub open spec fn bits_of(data: DataSpec, i: int) -> u32 {
    match data {
        DataSpec::F16(s) => s[i] as u32,
        DataSpec::F32(s) => s[i],
        DataSpec::I32(s) => s[i] as u32,
        DataSpec::U32(s) => s[i],
    }
}

/// Whether an element lies in a range of device memory.
pub open spec fn in_range(dst: DevicePtr, len: nat, buffer: usize, i: int) -> bool {
    buffer == dst.buffer && dst.offset <= i < dst.offset + len
}

/// Whether a command may change an element; a kernel may change any.
pub open spec fn touches(command: CommandSpec, buffer: usize, i: int) -> bool {
    match command {
        CommandOf::Upload { dst, data } => in_range(dst, data.len(), buffer, i),
        CommandOf::Zero { dst, elem, len } => in_range(dst, len as nat, buffer, i),
        CommandOf::Alloc { buffer: b, elem, len, memory, zeroed } => buffer == b,
        CommandOf::Launch(_) => true,
        _ => false,
    }
}

/// The commands that a stream holds in addition to those it held before.
pub open spec fn recorded(before: StreamSpec, after: StreamSpec) -> Seq<CommandSpec> {
    after.log.skip(before.log.len() as int)
}

impl Memory {
    /// Memory with host data copied into it.
    pub open spec fn written(self, dst: DevicePtr, data: DataSpec) -> Memory {
        Memory {
            cells: |buffer: usize, i: int|
                if in_range(dst, data.len(), buffer, i) {
                    bits_of(data, i - dst.offset)
                } else {
                    (self.cells)(buffer, i)
                },
        }
    }

    /// Memory with a range set to zero.
    pub open spec fn zeroed(self, dst: DevicePtr, len: nat) -> Memory {
        Memory {
            cells: |buffer: usize, i: int|
                if in_range(dst, len, buffer, i) {
                    0u32
                } else {
                    (self.cells)(buffer, i)
                },
        }
    }

    /// A range of memory, as the host receives it.
    pub open spec fn data_at(self, src: DevicePtr, elem: Elem, len: nat) -> DataSpec {
        let cell = |i: int| (self.cells)(src.buffer, src.offset + i);
        match elem {
            Elem::F16 => DataSpec::F16(Seq::new(len, |i: int| cell(i) as u16)),
            Elem::F32 => DataSpec::F32(Seq::new(len, |i: int| cell(i))),
            Elem::I32 => DataSpec::I32(Seq::new(len, |i: int| cell(i) as i32)),
            Elem::U32 => DataSpec::U32(Seq::new(len, |i: int| cell(i))),
        }
    }

    /// Memory after a command that moves data. What a kernel writes is not said here: this is
    /// for commands among which there is none.
    pub open spec fn after(self, command: CommandSpec) -> Memory {
        match command {
            CommandOf::Upload { dst, data } => self.written(dst, data),
            CommandOf::Zero { dst, elem, len } => self.zeroed(dst, len as nat),
            CommandOf::Alloc { buffer, elem, len, memory, zeroed } => if zeroed {
                self.zeroed(DevicePtr { buffer, offset: 0 }, len as nat)
            } else {
                self
            },
            _ => self,
        }
    }

    /// Memory after commands that move data.
    pub open spec fn after_all(self, commands: Seq<CommandSpec>) -> Memory
        decreases commands.len(),
    {
        if commands.len() == 0 {
            self
        } else {
            self.after_all(commands.drop_last()).after(commands.last())
        }
    }

    /// What the downloads among commands that move data send back, in order.
    pub open spec fn replies(self, commands: Seq<CommandSpec>) -> Seq<DataSpec>
        decreases commands.len(),
    {
        if commands.len() == 0 {
            Seq::empty()
        } else {
            let before = self.replies(commands.drop_last());
            match commands.last() {
                CommandOf::Download { src, elem, len } => before.push(
                    self.after_all(commands.drop_last()).data_at(src, elem, len as nat),
                ),
                _ => before,
            }
        }
    }
}

/// One more command, after no command or some.
pub proof fn lemma_one_more(m: Memory, commands: Seq<CommandSpec>, last: CommandSpec)
    ensures
        m.after_all(Seq::<CommandSpec>::empty()) == m,
        m.replies(Seq::<CommandSpec>::empty()) == Seq::<DataSpec>::empty(),
        m.after_all(commands.push(last)) == m.after_all(commands).after(last),
        last !is Download ==> m.replies(commands.push(last)) == m.replies(commands),
        last is Download ==> m.replies(commands.push(last)) == m.replies(commands).push(
            m.after_all(commands).data_at(
                last->src,
                last->Download_elem,
                last->Download_len as nat,
            ),
        ),
{
    assert(commands.push(last).drop_last() =~= commands);
}

/// The memory after two lists of commands.
pub proof fn lemma_after_both(m: Memory, a: Seq<CommandSpec>, b: Seq<CommandSpec>)
    ensures
        m.after_all(a + b) == m.after_all(a).after_all(b),
    decreases b.len(),
{
    if b.len() == 0 {
        assert(a + b =~= a);
    } else {
        lemma_after_both(m, a, b.drop_last());
        assert((a + b).drop_last() =~= a + b.drop_last());
        assert((a + b).last() == b.last());
    }
}

/// What no command touches stays.
pub proof fn lemma_untouched(m: Memory, commands: Seq<CommandSpec>, buffer: usize, i: int)
    requires
        forall|k: int| 0 <= k < commands.len() ==> !touches(#[trigger] commands[k], buffer, i),
    ensures
        (m.after_all(commands).cells)(buffer, i) == (m.cells)(buffer, i),
    decreases commands.len(),
{
    if commands.len() > 0 {
        let front = commands.drop_last();
        assert forall|k: int| 0 <= k < front.len() implies !touches(
            #[trigger] front[k],
            buffer,
            i,
        ) by {
            assert(front[k] == commands[k]);
        }
        lemma_untouched(m, front, buffer, i);
        assert(!touches(commands[commands.len() - 1], buffer, i));
    }
}

/// Downloads leave the memory as it is, and each sends back its range.
pub proof fn lemma_downloads(m: Memory, commands: Seq<CommandSpec>)
    requires
        forall|k: int| 0 <= k < commands.len() ==> (#[trigger] commands[k]) is Download,
    ensures
        m.after_all(commands) == m,
        m.replies(commands).len() == commands.len(),
        forall|k: int|
            0 <= k < commands.len() ==> #[trigger] m.replies(commands)[k] == m.data_at(
                commands[k]->src,
                commands[k]->Download_elem,
                commands[k]->Download_len as nat,
            ),
    decreases commands.len(),
{
    if commands.len() > 0 {
        let front = commands.drop_last();
        assert forall|k: int| 0 <= k < front.len() implies (#[trigger] front[k]) is Download by {
            assert(front[k] == commands[k]);
        }
        lemma_downloads(m, front);
        assert(commands[commands.len() - 1] is Download);
        assert forall|k: int| 0 <= k < commands.len() implies #[trigger] m.replies(commands)[k]
            == m.data_at(
            commands[k]->src,
            commands[k]->Download_elem,
            commands[k]->Download_len as nat,
        ) by {
            if k < front.len() {
                assert(front[k] == commands[k]);
                assert(m.replies(front)[k] == m.replies(commands)[k]);
            }
        }
    }
}

/// Data in memory come back as they were.
pub proof fn lemma_data_at(m: Memory, src: DevicePtr, data: DataSpec)
    requires
        forall|i: int|
            0 <= i < data.len() ==> #[trigger] (m.cells)(src.buffer, src.offset + i) == bits_of(
                data,
                i,
            ),
    ensures
        m.data_at(src, data.kind(), data.len()) == data,
{
    match data {
        DataSpec::F16(s) => {
            assert(m.data_at(src, data.kind(), data.len())->F16_0 =~= s);
        },
        DataSpec::F32(s) => {
            assert(m.data_at(src, data.kind(), data.len())->F32_0 =~= s);
        },
        DataSpec::I32(s) => {
            assert forall|i: int| 0 <= i < s.len() implies (s[i] as u32) as i32 == #[trigger] s[i] by {
                let x = s[i];
                assert((x as u32) as i32 == x) by (bit_vector);
            }
            assert(m.data_at(src, data.kind(), data.len())->I32_0 =~= s);
        },
        DataSpec::U32(s) => {
            assert(m.data_at(src, data.kind(), data.len())->U32_0 =~= s);
        },
    }
}

/// Where two memories hold the same, the host receives the same.
pub proof fn lemma_same_data(a: Memory, b: Memory, src: DevicePtr, elem: Elem, len: nat)
    requires
        forall|i: int|
            0 <= i < len ==> #[trigger] (a.cells)(src.buffer, src.offset + i) == (b.cells)(
                src.buffer,
                src.offset + i,
            ),
    ensures
        a.data_at(src, elem, len) == b.data_at(src, elem, len),
{
    match elem {
        Elem::F16 => {
            assert(a.data_at(src, elem, len)->F16_0 =~= b.data_at(src, elem, len)->F16_0);
        },
        Elem::F32 => {
            assert(a.data_at(src, elem, len)->F32_0 =~= b.data_at(src, elem, len)->F32_0);
        },
        Elem::I32 => {
            assert(a.data_at(src, elem, len)->I32_0 =~= b.data_at(src, elem, len)->I32_0);
        },
        Elem::U32 => {
            assert(a.data_at(src, elem, len)->U32_0 =~= b.data_at(src, elem, len)->U32_0);
        },
    }
}

/// Whether a download asks for just what an upload brought.
pub open spec fn asks_back(upload: CommandSpec, download: CommandSpec) -> bool {
    &&& upload is Upload
    &&& download is Download
    &&& download->src == upload->Upload_dst
    &&& download->Download_elem == upload->data.kind()
    &&& download->Download_len == upload->data.len()
}

/// What uploads into different buffers bring, downloads of the same ranges send back.
pub proof fn lemma_round_trip(m: Memory, ups: Seq<CommandSpec>, downs: Seq<CommandSpec>)
    requires
        ups.len() == downs.len(),
        forall|k: int| 0 <= k < ups.len() ==> asks_back(#[trigger] ups[k], downs[k]),
        forall|j: int, k: int|
            0 <= j < k < ups.len() ==> (#[trigger] ups[j])->Upload_dst.buffer != (
            #[trigger] ups[k])->Upload_dst.buffer,
    ensures
        m.after_all(ups).replies(downs).len() == ups.len(),
        forall|k: int|
            0 <= k < ups.len() ==> #[trigger] m.after_all(ups).replies(downs)[k] == ups[k]->data,
{
    let after = m.after_all(ups);
    assert forall|k: int| 0 <= k < downs.len() implies (#[trigger] downs[k]) is Download by {
        assert(asks_back(ups[k], downs[k]));
    }
    lemma_downloads(after, downs);
    assert forall|k: int| 0 <= k < ups.len() implies #[trigger] after.replies(downs)[k]
        == ups[k]->data by {
        assert(asks_back(ups[k], downs[k]));
        let dst = ups[k]->Upload_dst;
        let data = ups[k]->data;
        let front = ups.take(k);
        let rest = ups.skip(k + 1);
        assert(ups =~= front.push(ups[k]) + rest);
        assert(front.push(ups[k]).drop_last() =~= front);
        lemma_after_both(m, front.push(ups[k]), rest);
        let mid = m.after_all(front.push(ups[k]));
        assert(mid == m.after_all(front).written(dst, data));
        assert forall|i: int| 0 <= i < data.len() implies #[trigger] (after.cells)(
            dst.buffer,
            dst.offset + i,
        ) == bits_of(data, i) by {
            assert forall|j: int| 0 <= j < rest.len() implies !touches(
                #[trigger] rest[j],
                dst.buffer,
                dst.offset + i,
            ) by {
                assert(rest[j] == ups[k + 1 + j]);
                assert(asks_back(ups[k + 1 + j], downs[k + 1 + j]));
            }
            lemma_untouched(mid, rest, dst.buffer, dst.offset + i);
        }
        lemma_data_at(after, dst, data);
    }
}

/// Uploads that bring what is there already leave the memory as it is.
pub proof fn lemma_write_back(m: Memory, ups: Seq<CommandSpec>)
    requires
        forall|k: int| 0 <= k < ups.len() ==> (#[trigger] ups[k]) is Upload,
        forall|k: int, i: int|
            0 <= k < ups.len() && 0 <= i < ups[k]->data.len() ==> #[trigger] bits_of(
                ups[k]->data,
                i,
            ) == (m.cells)(ups[k]->Upload_dst.buffer, ups[k]->Upload_dst.offset + i),
    ensures
        m.after_all(ups) == m,
    decreases ups.len(),
{
    if ups.len() > 0 {
        let front = ups.drop_last();
        assert forall|k: int| 0 <= k < front.len() implies (#[trigger] front[k]) is Upload by {
            assert(front[k] == ups[k]);
        }
        assert forall|k: int, i: int| 0 <= k < front.len() && 0 <= i < front[k]->data.len() implies
        #[trigger] bits_of(front[k]->data, i) == (m.cells)(
            front[k]->Upload_dst.buffer,
            front[k]->Upload_dst.offset + i,
        ) by {
            assert(bits_of(ups[k]->data, i) == (m.cells)(
                ups[k]->Upload_dst.buffer,
                ups[k]->Upload_dst.offset + i,
            ));
        }
        lemma_write_back(m, front);
        let last = ups.len() - 1;
        assert(ups[last] is Upload);
        let dst = ups[last]->Upload_dst;
        let data = ups[last]->data;
        let after = m.written(dst, data);
        assert forall|buffer: usize, i: int| #[trigger] (after.cells)(buffer, i) == (m.cells)(
            buffer,
            i,
        ) by {
            if in_range(dst, data.len(), buffer, i) {
                assert(bits_of(ups[last]->data, i - dst.offset) == (m.cells)(
                    ups[last]->Upload_dst.buffer,
                    ups[last]->Upload_dst.offset + (i - dst.offset),
                ));
            }
        }
        assert(after.cells =~= m.cells);
    }
}

/// What commands that set memory to zero cover is zero.
pub proof fn lemma_all_zero(m: Memory, commands: Seq<CommandSpec>, k: int, buffer: usize, i: int)
    requires
        forall|j: int| 0 <= j < commands.len() ==> (#[trigger] commands[j]) is Zero,
        0 <= k < commands.len(),
        touches(commands[k], buffer, i),
    ensures
        (m.after_all(commands).cells)(buffer, i) == 0,
    decreases commands.len(),
{
    let front = commands.drop_last();
    assert(commands[commands.len() - 1] is Zero);
    if k < front.len() {
        assert forall|j: int| 0 <= j < front.len() implies (#[trigger] front[j]) is Zero by {
            assert(front[j] == commands[j]);
        }
        assert(front[k] == commands[k]);
        lemma_all_zero(m, front, k, buffer, i);
    }
}

/// A tensor that was filled from the host sends the same data back.
pub proof fn law_fill_then_download<T: Element>(
    s: StreamSpec,
    m: Memory,
    data: DataSpec,
    shape: TensorShape,
    memory: MemoryType,
)
    requires
        data.kind() == T::kind(),
        Run::start(s).filled(data, shape, memory).error is None,
        shape.fits(),
    ensures
        ({
            let filled = Run::start(s).filled(data, shape, memory);
            let asked = filled.download::<T>(Run::start(s).fresh(shape));
            m.replies(recorded(s, asked.stream)) == seq![data]
        }),
{
    reveal(Run::allocated);
    reveal(fill_error);
    let tensor = Run::start(s).fresh(shape);
    let asked = Run::start(s).filled(data, shape, memory).download::<T>(tensor);
    let commands = recorded(s, asked.stream);
    let made: CommandSpec = CommandOf::Alloc {
        buffer: s.next,
        elem: data.kind(),
        len: shape.spec_len() as usize,
        memory,
        zeroed: false,
    };
    let up: CommandSpec = CommandOf::Upload { dst: tensor.ptr(), data };
    let down: CommandSpec = CommandOf::Download {
        src: tensor.ptr(),
        elem: T::kind(),
        len: tensor.len() as usize,
    };
    let none = Seq::<CommandSpec>::empty();
    assert(commands =~= none.push(made).push(up).push(down));
    lemma_fits_bounds(shape);
    lemma_one_more(m, none, made);
    lemma_one_more(m, none.push(made), up);
    lemma_one_more(m, none.push(made).push(up), down);
    lemma_data_at(m.written(tensor.ptr(), data), tensor.ptr(), data);
    assert(m.replies(commands) =~= seq![data]);
}

/// A tensor that was made with zeros sends zeros back.
pub proof fn law_zeros_then_download<T: Element>(s: StreamSpec, m: Memory, shape: TensorShape)
    requires
        s.next < usize::MAX,
        shape.fits(),
    ensures
        ({
            let made = Run::start(s).allocated(T::kind(), shape, MemoryType::Device, true);
            let asked = made.download::<T>(Run::start(s).fresh(shape));
            let replies = m.replies(recorded(s, asked.stream));
            &&& replies.len() == 1
            &&& replies[0].kind() == T::kind()
            &&& replies[0].len() == shape.spec_len()
            &&& forall|i: int| 0 <= i < shape.spec_len() ==> #[trigger] bits_of(replies[0], i) == 0
        }),
{
    reveal(Run::allocated);
    let tensor = Run::start(s).fresh(shape);
    let asked = Run::start(s).allocated(
        T::kind(),
        shape,
        MemoryType::Device,
        true,
    ).download::<T>(tensor);
    let commands = recorded(s, asked.stream);
    let made: CommandSpec = CommandOf::Alloc {
        buffer: s.next,
        elem: T::kind(),
        len: shape.spec_len() as usize,
        memory: MemoryType::Device,
        zeroed: true,
    };
    let down: CommandSpec = CommandOf::Download {
        src: tensor.ptr(),
        elem: T::kind(),
        len: tensor.len() as usize,
    };
    let none = Seq::<CommandSpec>::empty();
    assert(commands =~= none.push(made).push(down));
    lemma_fits_bounds(shape);
    lemma_one_more(m, none, made);
    lemma_one_more(m, none.push(made), down);
    assert(0u32 as i32 == 0i32) by (bit_vector);
    assert(0i32 as u32 == 0u32) by (bit_vector);
}

/// A buffer sends back what was copied into it; an empty one moves nothing either way.
pub proof fn law_copy_in_then_out<T: Element>(s: StreamSpec, m: Memory, data: DataSpec, len: usize)
    requires
        data.kind() == T::kind(),
        data.len() == len,
        buffer_run::<T>(Run::start(s), len).error is None,
    ensures
        ({
            let buffer = buffer_at(Run::start(s), len);
            let made = buffer_run::<T>(Run::start(s), len);
            let out = copy_out::<T>(copy_in(made, data, buffer), buffer, len as nat);
            &&& out.error is None
            &&& m.replies(recorded(s, out.stream)) == if len == 0 {
                Seq::empty()
            } else {
                seq![data]
            }
        }),
{
    reveal(Run::allocated);
    let buffer = buffer_at(Run::start(s), len);
    let made = buffer_run::<T>(Run::start(s), len);
    let out = copy_out::<T>(copy_in(made, data, buffer), buffer, len as nat);
    let commands = recorded(s, out.stream);
    if len == 0 {
        assert(commands =~= Seq::<CommandSpec>::empty());
    } else {
        let got: CommandSpec = CommandOf::Alloc {
            buffer: s.next,
            elem: T::kind(),
            len: TensorShape::of(len, 1, 1, 1).spec_len() as usize,
            memory: MemoryType::Device,
            zeroed: false,
        };
        let up: CommandSpec = CommandOf::Upload { dst: buffer.ptr, data };
        let down: CommandSpec = CommandOf::Download { src: buffer.ptr, elem: T::kind(), len };
        let none = Seq::<CommandSpec>::empty();
        assert(commands =~= none.push(got).push(up).push(down));
        lemma_one_more(m, none, got);
        lemma_one_more(m, none.push(got), up);
        lemma_one_more(m, none.push(got).push(up), down);
        lemma_data_at(m.written(buffer.ptr, data), buffer.ptr, data);
        assert(m.replies(commands) =~= seq![data]);
    }
}

} // verus!
