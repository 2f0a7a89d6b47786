//! Forward passes over sequences of any length: in chunks, one after the other, each from the
//! state that the one before left.
use crate::error::{host_error, ErrorSpec, HipErrorKind};
use crate::model::batch::{append_range, pad_row};
use crate::model::dispatch_helpers::token_rows;
use crate::model::state::lists;
use crate::scratch::HipRuntimeConfig;
use crate::stream::{CommandOf, CommandSpec, DataSpec, HostData, Run, Stream, StreamSpec};
use crate::tensor::{zero_command, DevicePtr, TensorHip, TensorSpec, U32};
use crate::text::{decimal, text};
use vstd::prelude::*;

verus! {

/// Real tokens of each sequence in the chunk of `c` tokens from `start` on.
pub open spec fn chunk_lens(lens: Seq<usize>, start: int, c: int) -> Seq<usize> {
    Seq::new(
        lens.len(),
        |b: int|
            (if lens[b] <= start {
                0
            } else if lens[b] - start < c {
                lens[b] - start
            } else {
                c
            }) as usize,
    )
}

/// The chunk of `c` tokens of a sequence from `start` on, with zeros behind its end.
pub open spec fn chunk_row(row: Seq<u32>, start: int, c: int) -> Seq<u32> {
    Seq::new(
        c as nat,
        |k: int|
            if start + k < row.len() {
                row[start + k]
            } else {
                0
            },
    )
}

/// The chunk of `c` tokens of each sequence from `start` on.
pub open spec fn chunk_rows(rows: Seq<Seq<u32>>, start: int, c: int) -> Seq<Seq<u32>> {
    Seq::new(rows.len(), |b: int| chunk_row(rows[b], start, c))
}

/// The tokens of a sequence that lie in the chunk of `c` tokens from `start` on.
pub open spec fn real_part(row: Seq<u32>, start: int, c: int) -> Seq<u32> {
    if row.len() <= start {
        Seq::empty()
    } else if row.len() - start < c {
        row.subrange(start, row.len() as int)
    } else {
        row.subrange(start, start + c)
    }
}

/// Chunks put together give the sequence back: the first `n` chunks are its first `n * c`
/// tokens.
pub open spec fn joined(row: Seq<u32>, c: int, n: nat) -> Seq<u32>
    decreases n,
{
    if n == 0 {
        Seq::empty()
    } else {
        joined(row, c, (n - 1) as nat) + real_part(row, (n - 1) * c, c)
    }
}

/// A chunk starts with the real tokens of the sequence, as many as its length says, and has
/// only zeros behind them.
pub proof fn law_chunk_is_padded_part(row: Seq<u32>, lens: Seq<usize>, b: int, start: int, c: int)
    requires
        0 <= start,
        0 <= c <= usize::MAX,
        0 <= b < lens.len(),
        lens[b] == row.len(),
    ensures
        real_part(row, start, c).len() == chunk_lens(lens, start, c)[b],
        chunk_row(row, start, c) == pad_row(real_part(row, start, c), c),
{
    assert(chunk_row(row, start, c) =~= pad_row(real_part(row, start, c), c));
}

/// Chunking loses no token and keeps their order: put together, the chunks of a sequence are
/// the sequence, as soon as they reach its end.
pub proof fn law_chunks_join_to_sequence(row: Seq<u32>, c: int, n: nat)
    requires
        0 < c,
        row.len() <= n * c,
    ensures
        joined(row, c, n) == row,
{
    lemma_joined(row, c, n);
    assert(row.subrange(0, row.len() as int) =~= row);
}

/// The first chunks of a sequence are its beginning.
proof fn lemma_joined(row: Seq<u32>, c: int, n: nat)
    requires
        0 < c,
    ensures
        0 <= n * c,
        joined(row, c, n) == row.subrange(
            0,
            if n * c <= row.len() {
                n * c
            } else {
                row.len() as int
            },
        ),
    decreases n,
{
    if n == 0 {
        assert(0 * c == 0);
        assert(joined(row, c, n) =~= row.subrange(0, 0));
    } else {
        let m = (n - 1) as nat;
        lemma_joined(row, c, m);
        assert(n * c == m * c + c) by (nonlinear_arith)
            requires
                m == n - 1,
        ;
        assert(joined(row, c, n) =~= row.subrange(
            0,
            if n * c <= row.len() {
                n * c
            } else {
                row.len() as int
            },
        ));
    }
}

/// Real tokens of each sequence in a chunk.
pub fn chunk_lens_of(lens: &[usize], start: usize, c: usize) -> (v: Vec<usize>)
    ensures
        v@ == chunk_lens(lens@, start as int, c as int),
{
    let mut v: Vec<usize> = Vec::new();
    let mut b: usize = 0;
    while b < lens.len()
        invariant
            b <= lens@.len(),
            v@ == chunk_lens(lens@, start as int, c as int).take(b as int),
        decreases lens@.len() - b,
    {
        let left: usize = if lens[b] <= start {
            0
        } else {
            lens[b] - start
        };
        let kept: usize = if left < c {
            left
        } else {
            c
        };
        v.push(kept);
        assert(v@ =~= chunk_lens(lens@, start as int, c as int).take(b + 1));
        b += 1;
    }
    assert(v@ =~= chunk_lens(lens@, start as int, c as int));
    v
}

/// The chunk of `c` tokens of a sequence from `start` on, with zeros behind its end.
pub fn chunk_of_row(row: &Vec<u32>, start: usize, c: usize) -> (v: Vec<u32>)
    requires
        start + c <= usize::MAX,
    ensures
        v@ == chunk_row(row@, start as int, c as int),
{
    let mut v: Vec<u32> = Vec::new();
    let mut k: usize = 0;
    while k < c
        invariant
            k <= c,
            start + c <= usize::MAX,
            v@ == chunk_row(row@, start as int, c as int).take(k as int),
        decreases c - k,
    {
        let token: u32 = if start + k < row.len() {
            row[start + k]
        } else {
            0
        };
        v.push(token);
        assert(v@ =~= chunk_row(row@, start as int, c as int).take(k + 1));
        k += 1;
    }
    assert(v@ =~= chunk_row(row@, start as int, c as int));
    v
}

/// The chunk of `c` tokens of each sequence from `start` on.
pub fn chunk_of_rows(rows: &Vec<Vec<u32>>, start: usize, c: usize) -> (v: Vec<Vec<u32>>)
    requires
        start + c <= usize::MAX,
    ensures
        lists(v@) == chunk_rows(lists(rows@), start as int, c as int),
{
    let ghost all = chunk_rows(lists(rows@), start as int, c as int);
    let mut v: Vec<Vec<u32>> = Vec::new();
    while v.len() < rows.len()
        invariant
            v@.len() <= rows@.len(),
            start + c <= usize::MAX,
            all == chunk_rows(lists(rows@), start as int, c as int),
            lists(v@) == all.take(v@.len() as int),
        decreases rows@.len() - v@.len(),
    {
        let ghost before = lists(v@);
        let row = chunk_of_row(&rows[v.len()], start, c);
        v.push(row);
        assert(lists(v@) =~= before.push(row@));
        assert(before.push(row@) =~= all.take(v@.len() as int));
    }
    assert(all.take(v@.len() as int) =~= all);
    v
}

/// Copies the real tokens of the first `n` sequences to their places on the device.
pub open spec fn token_uploads(
    tokens: TensorSpec,
    rows: Seq<Seq<u32>>,
    start: int,
    c: int,
    n: nat,
) -> Seq<CommandSpec>
    decreases n,
{
    if n == 0 {
        Seq::empty()
    } else {
        let b = n - 1;
        let before = token_uploads(tokens, rows, start, c, b as nat);
        let part = real_part(rows[b], start, c);
        if part.len() == 0 {
            before
        } else {
            before.push(
                CommandOf::Upload {
                    dst: DevicePtr {
                        buffer: tokens.buffer,
                        offset: (tokens.view.offset + b * c) as usize,
                    },
                    data: DataSpec::U32(part),
                },
            )
        }
    }
}

/// Stages the tokens of a chunk on the device and asks for them.
pub open spec fn stage_tokens_run(
    s: Run,
    tokens: TensorSpec,
    rows: Seq<Seq<u32>>,
    start: int,
    c: int,
) -> Run {
    s.emit(zero_command::<U32>(tokens)).emit_all(
        token_uploads(tokens, rows, start, c, rows.len()),
    ).download::<U32>(tokens)
}

/// The tokens of a chunk as the device keeps them: `size` tokens in all.
pub open spec fn staged_tokens(rows: Seq<Seq<u32>>, start: int, c: int, size: nat) -> Seq<u32> {
    Seq::new(
        size,
        |i: int|
            if i / c < rows.len() {
                chunk_row(rows[i / c], start, c)[i % c]
            } else {
                0
            },
    )
}

/// Stages the tokens of a chunk on the device and asks for them.
pub fn stage_tokens(
    tokens: &TensorHip<U32>,
    rows: &Vec<Vec<u32>>,
    start: usize,
    c: usize,
    stream: &mut Stream,
)
    requires
        start + c <= usize::MAX,
        tokens@.view.offset + rows@.len() * c <= usize::MAX,
    ensures
        final(stream)@ == stage_tokens_run(
            Run::start(old(stream)@),
            tokens@,
            lists(rows@),
            start as int,
            c as int,
        ).stream,
{
    tokens.fill_zero(stream);
    let ghost log = stream@.log;
    let ghost all = lists(rows@);
    let mut b: usize = 0;
    assert(stream@.log =~= log + token_uploads(tokens@, all, start as int, c as int, 0));
    while b < rows.len()
        invariant
            b <= rows@.len(),
            start + c <= usize::MAX,
            tokens@.view.offset + rows@.len() * c <= usize::MAX,
            all == lists(rows@),
            stream@ == (StreamSpec { log: stream@.log, ..old(stream)@ }),
            stream@.log == log + token_uploads(
                tokens@,
                all,
                start as int,
                c as int,
                b as nat,
            ),
        decreases rows@.len() - b,
    {
        let row = &rows[b];
        proof {
            let n = rows@.len() as int;
            assert(b * c <= n * c && 0 <= b * c) by (nonlinear_arith)
                requires
                    0 <= b <= n,
                    0 <= c,
            ;
            assert(all[b as int] == row@);
        }
        if row.len() > start && c > 0 {
            let end: usize = if row.len() - start < c {
                row.len()
            } else {
                start + c
            };
            let mut part: Vec<u32> = Vec::new();
            append_range(&mut part, row.as_slice(), start, end);
            assert(part@ =~= real_part(row@, start as int, c as int));
            let p = tokens.as_ptr();
            let dst = DevicePtr { buffer: p.buffer, offset: p.offset + b * c };
            stream.push(CommandOf::Upload { dst, data: HostData::U32(part) });
        }
        assert(stream@.log =~= log + token_uploads(
            tokens@,
            all,
            start as int,
            c as int,
            (b + 1) as nat,
        ));
        b += 1;
    }
    tokens.download(stream);
}

/// Why a chunk is refused, where it is.
pub open spec fn chunk_error(
    rows: Seq<Seq<u32>>,
    lens: Seq<usize>,
    config: HipRuntimeConfig,
) -> Option<ErrorSpec> {
    let b = rows.len();
    if b == 0 {
        Some(host_error("Empty batch"@))
    } else if lens.len() != b {
        Some(
            host_error(
                "Lens size mismatch: expected "@ + decimal(b) + " (batch size), got "@ + decimal(
                    lens.len(),
                ),
            ),
        )
    } else if rows[0].len() == 0 {
        Some(host_error("Empty sequence"@))
    } else if uneven_at(rows, 0) < b {
        let i = uneven_at(rows, 0);
        Some(
            host_error(
                "Sequence length mismatch: sequence 0 has "@ + decimal(rows[0].len())
                    + " tokens but sequence "@ + decimal(i) + " has "@ + decimal(
                    rows[i as int].len(),
                ),
            ),
        )
    } else if too_long_at(lens, rows[0].len(), 0) < b {
        let i = too_long_at(lens, rows[0].len(), 0);
        Some(
            host_error(
                "Length "@ + decimal(lens[i as int] as nat) + " for batch "@ + decimal(i)
                    + " exceeds padded sequence length "@ + decimal(rows[0].len()),
            ),
        )
    } else if rows[0].len() > config.max_prefill_chunk || b > config.batch_size {
        Some(
            host_error(
                "Scratch buffers too small: need ("@ + decimal(rows[0].len()) + ", "@ + decimal(b)
                    + ") but have ("@ + decimal(config.max_prefill_chunk as nat) + ", "@ + decimal(
                    config.batch_size as nat,
                ) + ")"@,
            ),
        )
    } else {
        None
    }
}

/// The first sequence from `i` on that is not as long as the first one; their number where
/// there is none.
pub open spec fn uneven_at(rows: Seq<Seq<u32>>, i: nat) -> nat
    decreases rows.len() - i,
{
    if i >= rows.len() {
        rows.len()
    } else if rows[i as int].len() != rows[0].len() {
        i
    } else {
        uneven_at(rows, i + 1)
    }
}

/// The first length from `i` on that is above `t`; their number where there is none.
pub open spec fn too_long_at(lens: Seq<usize>, t: nat, i: nat) -> nat
    decreases lens.len() - i,
{
    if i >= lens.len() {
        lens.len()
    } else if lens[i as int] > t {
        i
    } else {
        too_long_at(lens, t, i + 1)
    }
}

/// Checks a chunk.
pub fn check_chunk(x: &[&[u32]], lens: &[usize], config: &HipRuntimeConfig) -> (r: Result<
    (),
    HipErrorKind,
>)
    ensures
        match r {
            Ok(_) => chunk_error(token_rows(x@), lens@, *config) is None,
            Err(e) => chunk_error(token_rows(x@), lens@, *config) == Some(e@),
        },
{
    let ghost rows = token_rows(x@);
    let b: usize = x.len();
    if b == 0 {
        return Err(HipErrorKind::host(text("Empty batch")));
    }
    if lens.len() != b {
        return Err(
            HipErrorKind::host(
                text("Lens size mismatch: expected ").num(b).lit(" (batch size), got ").num(
                    lens.len(),
                ),
            ),
        );
    }
    let t: usize = x[0].len();
    assert(rows[0].len() == t);
    if t == 0 {
        return Err(HipErrorKind::host(text("Empty sequence")));
    }
    let mut i: usize = 0;
    while i < b
        invariant
            i <= b == x@.len() == lens@.len(),
            b > 0,
            t > 0,
            rows == token_rows(x@),
            rows[0].len() == t,
            uneven_at(rows, 0) == uneven_at(rows, i as nat),
        decreases b - i,
    {
        let n: usize = x[i].len();
        assert(rows[i as int].len() == n);
        if n != t {
            return Err(
                HipErrorKind::host(
                    text("Sequence length mismatch: sequence 0 has ").num(t).lit(
                        " tokens but sequence ",
                    ).num(i).lit(" has ").num(n),
                ),
            );
        }
        i += 1;
    }
    let mut j: usize = 0;
    while j < b
        invariant
            j <= b == x@.len() == lens@.len(),
            b > 0,
            t > 0,
            rows == token_rows(x@),
            rows[0].len() == t,
            uneven_at(rows, 0) == b,
            too_long_at(lens@, t as nat, 0) == too_long_at(lens@, t as nat, j as nat),
        decreases b - j,
    {
        if lens[j] > t {
            return Err(
                HipErrorKind::host(
                    text("Length ").num(lens[j]).lit(" for batch ").num(j).lit(
                        " exceeds padded sequence length ",
                    ).num(t),
                ),
            );
        }
        j += 1;
    }
    if t > config.max_prefill_chunk || b > config.batch_size {
        return Err(
            HipErrorKind::host(
                text("Scratch buffers too small: need (").num(t).lit(", ").num(b).lit(
                    ") but have (",
                ).num(config.max_prefill_chunk).lit(", ").num(config.batch_size).lit(")"),
            ),
        );
    }
    Ok(())
}

} // verus!
