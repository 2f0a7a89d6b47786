//! Device selection.
use crate::error::{host_error, HipErrorKind};
use crate::stream::{null_stream, CommandOf, Run, Stream, StreamSpec};
use crate::text::{signed_decimal, text};
use vstd::prelude::*;

verus! {

/// A device together with its default stream.
pub struct HipContext {
    device_id: i32,
    stream: Stream,
}

/// Whether one text occurs in another at position `i`.
pub open spec fn occurs_at(whole: Seq<char>, part: Seq<char>, i: int) -> bool {
    0 <= i && i + part.len() <= whole.len() && whole.subrange(i, i + part.len()) == part
}

/// Whether one text occurs in another.
pub open spec fn occurs(whole: Seq<char>, part: Seq<char>) -> bool {
    exists|i: int| occurs_at(whole, part, i)
}

/// Whether one text occurs in another at position `i`.
fn is_at(whole: &str, part: &str, i: usize) -> (b: bool)
    requires
        i + part@.len() <= whole@.len(),
    ensures
        b == occurs_at(whole@, part@, i as int),
{
    let n: usize = part.unicode_len();
    let m: usize = whole.unicode_len();
    let mut k: usize = 0;
    while k < n
        invariant
            k <= n == part@.len(),
            m == whole@.len(),
            i + n <= m,
            forall|j: int| 0 <= j < k ==> whole@[i + j] == #[trigger] part@[j],
        decreases n - k,
    {
        if whole.get_char(i + k) != part.get_char(k) {
            assert(whole@.subrange(i as int, i + n)[k as int] != part@[k as int]);
            return false;
        }
        k += 1;
    }
    assert(whole@.subrange(i as int, i + n) =~= part@);
    true
}

/// Whether the name of an architecture contains an expected one.
pub fn is_arch(name: &str, expected: &str) -> (b: bool)
    ensures
        b == occurs(name@, expected@),
{
    let m: usize = name.unicode_len();
    let n: usize = expected.unicode_len();
    if n > m {
        return false;
    }
    let last: usize = m - n;
    let mut i: usize = 0;
    while i < last
        invariant
            n == expected@.len(),
            m == name@.len(),
            i <= last == m - n,
            forall|j: int| 0 <= j < i ==> !occurs_at(name@, expected@, j),
        decreases last - i,
    {
        if is_at(name, expected, i) {
            return true;
        }
        i += 1;
    }
    is_at(name, expected, last)
}

impl HipContext {
    pub closed spec fn spec_device_id(&self) -> i32 {
        self.device_id
    }

    pub closed spec fn queue(&self) -> StreamSpec {
        self.stream@
    }

    /// The first device, of the given number.
    pub fn new(count: i32) -> (r: Result<HipContext, HipErrorKind>)
        ensures
            match r {
                Ok(c) => 0 < count && c.spec_device_id() == 0 && c.queue() == null_stream(),
                Err(e) => count <= 0 && e@ == host_error(
                    "Invalid device ID "@ + signed_decimal(0) + ": only "@ + signed_decimal(
                        count as int,
                    ) + " device(s) available"@,
                ),
            },
    {
        HipContext::with_device(0, count)
    }

    /// One of the given number of devices.
    pub fn with_device(device_id: i32, count: i32) -> (r: Result<HipContext, HipErrorKind>)
        ensures
            match r {
                Ok(c) => 0 <= device_id < count && c.spec_device_id() == device_id && c.queue()
                    == null_stream(),
                Err(e) => !(0 <= device_id < count) && e@ == host_error(
                    "Invalid device ID "@ + signed_decimal(device_id as int) + ": only "@
                        + signed_decimal(count as int) + " device(s) available"@,
                ),
            },
    {
        if device_id < 0 || device_id >= count {
            return Err(
                HipErrorKind::host(
                    text("Invalid device ID ").signed(device_id).lit(": only ").signed(count).lit(
                        " device(s) available",
                    ),
                ),
            );
        }
        Ok(HipContext { device_id, stream: Stream::null() })
    }

    pub fn device_id(&self) -> (id: i32)
        ensures
            id == self.spec_device_id(),
    {
        self.device_id
    }

    /// The default stream.
    pub fn stream(&self) -> (s: &Stream)
        ensures
            s@ == self.queue(),
    {
        &self.stream
    }

    /// Waits for everything on the default stream.
    pub fn synchronize(&mut self)
        ensures
            final(self).queue() == Run::start(old(self).queue()).emit(
                CommandOf::Synchronize,
            ).stream,
            final(self).spec_device_id() == old(self).spec_device_id(),
    {
        self.stream.synchronize();
    }
}

/// Whether a query that answers with a number says yes.
pub fn is_set(value: i32) -> (b: bool)
    ensures
        b == (value != 0),
{
    value != 0
}

} // verus!
