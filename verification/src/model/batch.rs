//! Batches of token sequences: their lengths, their checks, padding, and the logits of their
//! real tokens.
use crate::error::{host_error, ErrorSpec, HipErrorKind};
use crate::model::dispatch_helpers::token_rows;
use crate::model::pass::{lemma_longest, longest, longest_of};
use crate::scratch::HipRuntimeConfig;
use crate::text::{decimal, text};
use vstd::prelude::*;

verus! {

/// The length of each sequence.
pub open spec fn lens_of(rows: Seq<Seq<u32>>) -> Seq<usize> {
    Seq::new(rows.len(), |i: int| rows[i].len() as usize)
}

/// The sum of some lengths.
pub open spec fn total(lens: Seq<usize>) -> nat
    decreases lens.len(),
{
    if lens.len() == 0 {
        0
    } else {
        total(lens.drop_last()) + lens.last() as nat
    }
}

/// Tokens of a batch that count against the configuration: padding counts, unless no sequence
/// has more than one token.
pub open spec fn effective(lens: Seq<usize>) -> int {
    if lens.len() > 1 && longest(lens) > 1 {
        lens.len() * longest(lens)
    } else {
        total(lens) as int
    }
}

/// Tokens that a pass over a batch works on, padding included.
pub open spec fn padded_total(lens: Seq<usize>) -> int {
    lens.len() * longest(lens)
}

/// A sequence with zeros after it, `n` tokens in all.
pub open spec fn pad_row(row: Seq<u32>, n: int) -> Seq<u32> {
    Seq::new(
        n as nat,
        |i: int|
            if i < row.len() {
                row[i]
            } else {
                0
            },
    )
}

/// The sequences, each with zeros after it, `n` tokens in all.
pub open spec fn padded_rows(rows: Seq<Seq<u32>>, n: usize) -> Seq<Seq<u32>> {
    Seq::new(rows.len(), |b: int| pad_row(rows[b], n as int))
}

/// The sequences as a pass takes them: all padded to the longest.
pub open spec fn pass_rows(rows: Seq<Seq<u32>>) -> Seq<Seq<u32>> {
    padded_rows(rows, longest(lens_of(rows)))
}

/// The error where there is no working memory yet.
pub open spec fn no_scratch_error() -> ErrorSpec {
    host_error("Scratch not initialized - call with_config() first"@)
}

/// The error where there is no working memory yet.
pub fn no_scratch() -> (e: HipErrorKind)
    ensures
        e@ == no_scratch_error(),
{
    HipErrorKind::host(text("Scratch not initialized - call with_config() first"))
}

/// Why a batch is refused, where it is. `name` is the function that the batch was given to;
/// without working memory there is no configuration.
#[verifier::opaque]
pub open spec fn batch_error(
    name: Seq<char>,
    config: Option<HipRuntimeConfig>,
    lens: Seq<usize>,
) -> Option<ErrorSpec> {
    if lens.len() == 0 {
        Some(host_error("Empty batch"@))
    } else if config is None {
        Some(no_scratch_error())
    } else if lens.len() > config->0.batch_size {
        Some(
            host_error(
                "Batch size "@ + decimal(lens.len()) + " exceeds configured max "@ + decimal(
                    config->0.batch_size as nat,
                ),
            ),
        )
    } else if longest(lens) == 0 {
        Some(host_error("All sequences are empty"@))
    } else if effective(lens) > config->0.max_prefill_chunk {
        Some(
            host_error(
                name + "() requires effective token count <= chunk_size ("@ + decimal(
                    effective(lens) as nat,
                ) + " vs "@ + decimal(config->0.max_prefill_chunk as nat) + ")"@,
            ),
        )
    } else {
        None
    }
}

/// A batch that is not refused has working memory.
pub proof fn lemma_accepted(name: Seq<char>, config: Option<HipRuntimeConfig>, lens: Seq<usize>)
    requires
        batch_error(name, config, lens) is None,
    ensures
        config is Some,
        lens.len() > 0,
{
    reveal(batch_error);
}

/// The length of each sequence.
pub fn row_lens(x: &[&[u32]]) -> (v: Vec<usize>)
    ensures
        v@ == lens_of(token_rows(x@)),
{
    let mut v: Vec<usize> = Vec::new();
    let mut k: usize = 0;
    while k < x.len()
        invariant
            k <= x@.len(),
            v@ == lens_of(token_rows(x@)).take(k as int),
        decreases x@.len() - k,
    {
        let row: &[u32] = x[k];
        v.push(row.len());
        assert(v@ =~= lens_of(token_rows(x@)).take(k + 1));
        k += 1;
    }
    assert(v@ =~= lens_of(token_rows(x@)));
    v
}

/// The sum of the first lengths is at most the sum of all.
pub proof fn lemma_total_prefix(lens: Seq<usize>, k: int)
    requires
        0 <= k <= lens.len(),
    ensures
        total(lens.take(k)) <= total(lens),
    decreases lens.len() - k,
{
    if k < lens.len() {
        lemma_total_prefix(lens, k + 1);
        assert(lens.take(k + 1).drop_last() =~= lens.take(k));
    } else {
        assert(lens.take(k) =~= lens);
    }
}

/// The sum of some lengths.
pub fn total_of(lens: &[usize]) -> (n: usize)
    requires
        total(lens@) <= usize::MAX,
    ensures
        n == total(lens@),
{
    let mut n: usize = 0;
    let mut k: usize = 0;
    while k < lens.len()
        invariant
            k <= lens@.len(),
            n == total(lens@.take(k as int)),
            total(lens@) <= usize::MAX,
        decreases lens@.len() - k,
    {
        proof {
            lemma_total_prefix(lens@, k + 1);
            assert(lens@.take(k + 1).drop_last() =~= lens@.take(k as int));
        }
        n += lens[k];
        k += 1;
    }
    assert(lens@.take(k as int) =~= lens@);
    n
}

/// Checks a batch against the configuration.
pub fn check_batch(name: &str, config: &Option<HipRuntimeConfig>, lens: &[usize]) -> (r: Result<
    (),
    HipErrorKind,
>)
    requires
        total(lens@) <= usize::MAX,
        padded_total(lens@) <= usize::MAX,
    ensures
        match r {
            Ok(_) => batch_error(name@, *config, lens@) is None,
            Err(e) => batch_error(name@, *config, lens@) == Some(e@),
        },
{
    reveal(batch_error);
    if lens.len() == 0 {
        return Err(HipErrorKind::host(text("Empty batch")));
    }
    let config = match config {
        Some(c) => c,
        None => {
            return Err(no_scratch());
        },
    };
    if lens.len() > config.batch_size {
        return Err(
            HipErrorKind::host(
                text("Batch size ").num(lens.len()).lit(" exceeds configured max ").num(
                    config.batch_size,
                ),
            ),
        );
    }
    let max_len: usize = longest_of(lens);
    if max_len == 0 {
        return Err(HipErrorKind::host(text("All sequences are empty")));
    }
    let tokens: usize = if lens.len() > 1 && max_len > 1 {
        lens.len() * max_len
    } else {
        total_of(lens)
    };
    if tokens > config.max_prefill_chunk {
        return Err(
            HipErrorKind::host(
                text(name).lit("() requires effective token count <= chunk_size (").num(tokens).lit(
                    " vs ",
                ).num(config.max_prefill_chunk).lit(")"),
            ),
        );
    }
    Ok(())
}

/// A sequence with zeros after it, `n` tokens in all.
pub fn padded_row(row: &[u32], n: usize) -> (v: Vec<u32>)
    ensures
        v@ == pad_row(row@, n as int),
{
    let mut v: Vec<u32> = Vec::new();
    let mut i: usize = 0;
    while i < n
        invariant
            i <= n,
            v@ == pad_row(row@, n as int).take(i as int),
        decreases n - i,
    {
        let token: u32 = if i < row.len() {
            row[i]
        } else {
            0
        };
        v.push(token);
        assert(v@ =~= pad_row(row@, n as int).take(i + 1));
        i += 1;
    }
    assert(v@ =~= pad_row(row@, n as int));
    v
}

/// What a list of token vectors holds.
pub open spec fn vec_rows(rows: Seq<Vec<u32>>) -> Seq<Seq<u32>> {
    Seq::new(rows.len(), |i: int| rows[i]@)
}

/// The sequences, each with zeros after it, `n` tokens in all.
pub fn pad_rows(x: &[&[u32]], n: usize) -> (v: Vec<Vec<u32>>)
    ensures
        vec_rows(v@) == padded_rows(token_rows(x@), n),
{
    let ghost all = padded_rows(token_rows(x@), n);
    let mut v: Vec<Vec<u32>> = Vec::new();
    let mut b: usize = 0;
    while b < x.len()
        invariant
            b <= x@.len(),
            all == padded_rows(token_rows(x@), n),
            v@.len() == b,
            vec_rows(v@) == all.take(b as int),
        decreases x@.len() - b,
    {
        let ghost before = vec_rows(v@);
        let row = padded_row(x[b], n);
        v.push(row);
        assert(vec_rows(v@) =~= before.push(row@));
        assert(before.push(row@) =~= all.take(b + 1));
        b += 1;
    }
    assert(all.take(b as int) =~= all);
    v
}

/// The sequences as a pass takes them, in memory of their own.
pub fn rows_for_pass(x: &[&[u32]], lens: &[usize]) -> (v: Vec<Vec<u32>>)
    requires
        lens@ == lens_of(token_rows(x@)),
    ensures
        vec_rows(v@) == pass_rows(token_rows(x@)),
{
    pad_rows(x, longest_of(lens))
}

/// Borrows each sequence.
pub fn row_refs(rows: &Vec<Vec<u32>>) -> (v: Vec<&[u32]>)
    ensures
        token_rows(v@) == vec_rows(rows@),
{
    let mut v: Vec<&[u32]> = Vec::new();
    let mut k: usize = 0;
    while k < rows.len()
        invariant
            k <= rows@.len(),
            v@.len() == k,
            token_rows(v@) == vec_rows(rows@).take(k as int),
        decreases rows@.len() - k,
    {
        let ghost before = token_rows(v@);
        let row: &[u32] = rows[k].as_slice();
        v.push(row);
        assert(token_rows(v@) =~= before.push(row@));
        assert(before.push(row@) =~= vec_rows(rows@).take(k + 1));
        k += 1;
    }
    assert(vec_rows(rows@).take(k as int) =~= vec_rows(rows@));
    v
}

/// The logits of the real tokens, of a staging memory in which every sequence takes `stride`
/// tokens.
pub open spec fn strided_logits<T>(
    staging: Seq<T>,
    lens: Seq<usize>,
    stride: int,
    n_vocab: int,
) -> Seq<T>
    decreases lens.len(),
{
    if lens.len() == 0 {
        Seq::empty()
    } else {
        let b = lens.len() - 1;
        strided_logits(staging, lens.drop_last(), stride, n_vocab) + staging.subrange(
            b * stride * n_vocab,
            (b * stride + lens.last()) * n_vocab,
        )
    }
}

/// The logits of the real tokens of a batch, of a staging memory as a pass leaves it.
pub open spec fn real_logits<T>(staging: Seq<T>, lens: Seq<usize>, n_vocab: int) -> Seq<T> {
    strided_logits(staging, lens, longest(lens) as int, n_vocab)
}

/// Appends a part of a slice.
pub fn append_range<T: Copy>(out: &mut Vec<T>, src: &[T], from: usize, to: usize)
    requires
        from <= to <= src@.len(),
    ensures
        final(out)@ == old(out)@ + src@.subrange(from as int, to as int),
{
    let mut i: usize = from;
    assert(out@ =~= old(out)@ + src@.subrange(from as int, from as int));
    while i < to
        invariant
            from <= i <= to <= src@.len(),
            out@ == old(out)@ + src@.subrange(from as int, i as int),
        decreases to - i,
    {
        out.push(src[i]);
        assert(out@ =~= old(out)@ + src@.subrange(from as int, i + 1));
        i += 1;
    }
}

/// The logits of the real tokens, of a staging memory in which every sequence takes `stride`
/// tokens.
pub fn strided_logits_of<T: Copy>(
    staging: &[T],
    lens: &[usize],
    stride: usize,
    n_vocab: usize,
) -> (v: Vec<T>)
    requires
        lens@.len() * stride * n_vocab <= staging@.len(),
        forall|b: int| 0 <= b < lens@.len() ==> #[trigger] lens@[b] <= stride,
    ensures
        v@ == strided_logits(staging@, lens@, stride as int, n_vocab as int),
{
    let size: usize = staging.len();
    let mut v: Vec<T> = Vec::new();
    let mut b: usize = 0;
    while b < lens.len()
        invariant
            b <= lens@.len(),
            size == staging@.len(),
            lens@.len() * stride * n_vocab <= staging@.len(),
            forall|b: int| 0 <= b < lens@.len() ==> #[trigger] lens@[b] <= stride,
            v@ == strided_logits(staging@, lens@.take(b as int), stride as int, n_vocab as int),
        decreases lens@.len() - b,
    {
        let real_len: usize = lens[b];
        proof {
            lemma_offsets(
                lens@.len() as int,
                stride as int,
                n_vocab as int,
                b as int,
                real_len as int,
            );
            assert(lens@.take(b + 1).drop_last() =~= lens@.take(b as int));
        }
        if n_vocab > 0 {
            let from: usize = b * stride * n_vocab;
            let to: usize = (b * stride + real_len) * n_vocab;
            append_range(&mut v, staging, from, to);
        } else {
            assert(b * stride * n_vocab == 0 && (b * stride + real_len) * n_vocab == 0)
                by (nonlinear_arith)
                requires
                    n_vocab == 0,
            ;
            assert(v@ =~= strided_logits(
                staging@,
                lens@.take(b + 1),
                stride as int,
                n_vocab as int,
            ));
        }
        b += 1;
    }
    assert(lens@.take(b as int) =~= lens@);
    v
}

/// The part of one sequence lies within the staging memory.
proof fn lemma_offsets(n: int, stride: int, n_vocab: int, b: int, len: int)
    requires
        0 <= b < n,
        0 <= len <= stride,
        0 <= n_vocab,
    ensures
        0 <= b * stride,
        b * stride + len <= n * stride,
        0 <= b * stride * n_vocab <= (b * stride + len) * n_vocab <= n * stride * n_vocab,
        n_vocab > 0 ==> b * stride + len <= n * stride * n_vocab,
{
    assert(0 <= b * stride) by (nonlinear_arith)
        requires
            0 <= b,
            0 <= stride,
    ;
    assert(b * stride + len <= n * stride) by (nonlinear_arith)
        requires
            0 <= b < n,
            0 <= len <= stride,
    ;
    let x = b * stride;
    let y = b * stride + len;
    let z = n * stride;
    assert(0 <= x * n_vocab <= y * n_vocab <= z * n_vocab) by (nonlinear_arith)
        requires
            0 <= x <= y <= z,
            0 <= n_vocab,
    ;
    if n_vocab > 0 {
        assert(y <= z * n_vocab) by (nonlinear_arith)
            requires
                0 <= y <= z,
                n_vocab >= 1,
        ;
    }
}

/// Whether a staging memory of the given size holds all logits of a batch.
pub open spec fn holds_logits(size: int, lens: Seq<usize>, n_vocab: int) -> bool {
    padded_total(lens) * n_vocab <= size
}

/// The logits of the real tokens of a batch, of a staging memory as a pass leaves it.
pub fn real_logits_of<T: Copy>(staging: &[T], lens: &[usize], n_vocab: usize) -> (v: Vec<T>)
    requires
        holds_logits(staging@.len() as int, lens@, n_vocab as int),
    ensures
        v@ == real_logits(staging@, lens@, n_vocab as int),
{
    let stride: usize = longest_of(lens);
    proof {
        lemma_longest(lens@);
    }
    strided_logits_of(staging, lens, stride, n_vocab)
}

/// Position of the first logit of token `t` of sequence `b` among the logits of the real
/// tokens.
pub open spec fn logit_index(lens: Seq<usize>, b: int, t: int, n_vocab: int) -> int {
    (total(lens.take(b)) + t) * n_vocab
}

/// Number of logits of the real tokens.
pub proof fn lemma_strided_len<T>(staging: Seq<T>, lens: Seq<usize>, stride: int, n_vocab: int)
    requires
        0 <= stride,
        0 <= n_vocab,
        lens.len() * stride * n_vocab <= staging.len(),
        forall|b: int| 0 <= b < lens.len() ==> #[trigger] lens[b] <= stride,
    ensures
        strided_logits(staging, lens, stride, n_vocab).len() == total(lens) * n_vocab,
    decreases lens.len(),
{
    if lens.len() == 0 {
        assert(0 * n_vocab == 0);
    } else {
        let b = lens.len() - 1;
        let rest = lens.drop_last();
        lemma_offsets(lens.len() as int, stride, n_vocab, b, lens.last() as int);
        lemma_offsets(lens.len() as int, stride, n_vocab, b, 0);
        assert forall|k: int| 0 <= k < rest.len() implies #[trigger] rest[k] <= stride by {
            assert(rest[k] == lens[k]);
        }
        lemma_strided_len(staging, rest, stride, n_vocab);
        let before = total(rest) as int;
        let len = lens.last() as int;
        assert((b * stride + len) * n_vocab - b * stride * n_vocab == len * n_vocab)
            by (nonlinear_arith);
        assert(before * n_vocab + len * n_vocab == (before + len) * n_vocab) by (nonlinear_arith);
    }
}

/// Every logit of a real token is the one that stands at the token's place in the padded
/// staging memory: padding is skipped, and nothing else changes.
pub proof fn law_logits_skip_padding<T>(
    staging: Seq<T>,
    lens: Seq<usize>,
    stride: int,
    n_vocab: int,
    b: int,
    t: int,
    c: int,
)
    requires
        0 <= stride,
        0 <= n_vocab,
        lens.len() * stride * n_vocab <= staging.len(),
        forall|b: int| 0 <= b < lens.len() ==> #[trigger] lens[b] <= stride,
        0 <= b < lens.len(),
        0 <= t < lens[b],
        0 <= c < n_vocab,
    ensures
        0 <= logit_index(lens, b, t, n_vocab) + c < strided_logits(
            staging,
            lens,
            stride,
            n_vocab,
        ).len(),
        strided_logits(staging, lens, stride, n_vocab)[logit_index(lens, b, t, n_vocab) + c]
            == staging[(b * stride + t) * n_vocab + c],
    decreases lens.len(),
{
    let last = lens.len() - 1;
    let rest = lens.drop_last();
    assert forall|k: int| 0 <= k < rest.len() implies #[trigger] rest[k] <= stride by {
        assert(rest[k] == lens[k]);
    }
    lemma_offsets(lens.len() as int, stride, n_vocab, last, 0);
    lemma_offsets(lens.len() as int, stride, n_vocab, last, lens.last() as int);
    lemma_strided_len(staging, rest, stride, n_vocab);
    lemma_strided_len(staging, lens, stride, n_vocab);
    if b < last {
        assert(rest[b] == lens[b]);
        assert(rest.take(b) =~= lens.take(b));
        law_logits_skip_padding(staging, rest, stride, n_vocab, b, t, c);
    } else {
        assert(lens.take(b) =~= rest);
        let before = total(rest) as int;
        let len = lens.last() as int;
        assert(before * n_vocab + t * n_vocab == (before + t) * n_vocab) by (nonlinear_arith);
        assert(b * stride * n_vocab + t * n_vocab == (b * stride + t) * n_vocab)
            by (nonlinear_arith);
        assert((b * stride + len) * n_vocab - b * stride * n_vocab == len * n_vocab)
            by (nonlinear_arith);
        assert(0 <= t * n_vocab && t * n_vocab + n_vocab <= len * n_vocab) by (nonlinear_arith)
            requires
                0 <= t < len,
                0 <= n_vocab,
        ;
        assert(before * n_vocab + len * n_vocab == (before + len) * n_vocab) by (nonlinear_arith);
        assert(0 <= before * n_vocab) by (nonlinear_arith)
            requires
                0 <= before,
                0 <= n_vocab,
        ;
    }
}

/// Without padding, that is where every sequence fills its place, the logits of the real tokens
/// are the staging memory from its start.
pub proof fn law_full_sequences_are_contiguous<T>(
    staging: Seq<T>,
    lens: Seq<usize>,
    stride: int,
    n_vocab: int,
)
    requires
        0 <= stride,
        0 <= n_vocab,
        lens.len() * stride * n_vocab <= staging.len(),
        forall|b: int| 0 <= b < lens.len() ==> #[trigger] lens[b] == stride,
    ensures
        strided_logits(staging, lens, stride, n_vocab) == staging.subrange(
            0,
            total(lens) * n_vocab,
        ),
        total(lens) == lens.len() * stride,
    decreases lens.len(),
{
    if lens.len() == 0 {
        assert(strided_logits(staging, lens, stride, n_vocab) =~= staging.subrange(0, 0));
        assert(0 * n_vocab == 0 && 0 * stride == 0);
    } else {
        let b = lens.len() - 1;
        let rest = lens.drop_last();
        assert forall|k: int| 0 <= k < rest.len() implies #[trigger] rest[k] == stride by {
            assert(rest[k] == lens[k]);
        }
        lemma_offsets(lens.len() as int, stride, n_vocab, b, 0);
        lemma_offsets(lens.len() as int, stride, n_vocab, b, stride);
        law_full_sequences_are_contiguous(staging, rest, stride, n_vocab);
        assert(b * stride + stride == lens.len() * stride) by (nonlinear_arith)
            requires
                b == lens.len() - 1,
        ;
        assert(strided_logits(staging, lens, stride, n_vocab) =~= staging.subrange(
            0,
            total(lens) * n_vocab,
        ));
    }
}

/// Padding keeps every token of a sequence in its place and adds only zeros after it.
pub proof fn law_padding_keeps_tokens(row: Seq<u32>, n: int)
    requires
        row.len() <= n,
    ensures
        pad_row(row, n).len() == n,
        pad_row(row, n).take(row.len() as int) == row,
        forall|i: int| row.len() <= i < n ==> #[trigger] pad_row(row, n)[i] == 0,
{
    assert(pad_row(row, n).take(row.len() as int) =~= row);
}

/// All sequences of a pass have the same length.
pub proof fn law_padded_rows_are_even(rows: Seq<Seq<u32>>, b: int)
    requires
        0 <= b < rows.len(),
    ensures
        pass_rows(rows)[b].len() == longest(lens_of(rows)),
        pass_rows(rows).len() == rows.len(),
{
}

} // verus!
