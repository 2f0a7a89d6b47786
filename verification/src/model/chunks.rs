//! How sequences are cut into chunks for the chunked linear attention.
use crate::scratch::spec_ceil_div;
use vstd::prelude::*;

verus! {

/// `a / b`, rounded up.
pub fn ceil_div(a: usize, b: usize) -> (q: usize)
    requires
        b > 0,
    ensures
        q == spec_ceil_div(a as int, b as int),
{
    let q: usize = a / b;
    let r: usize = a % b;
    proof {
        lemma_ceil_div(a as int, b as int);
        lemma_ceil_by_remainder(a as int, b as int);
    }
    if r > 0 {
        q + 1
    } else {
        q
    }
}

/// A quotient rounded up is the quotient, and one more where something is left over.
proof fn lemma_ceil_by_remainder(a: int, b: int)
    requires
        a >= 0,
        b > 0,
    ensures
        spec_ceil_div(a, b) == a / b + (if a % b > 0 {
            1int
        } else {
            0
        }),
{
    let q = a / b;
    let r = a % b;
    assert(a == b * q + r && 0 <= r < b) by {
        vstd::arithmetic::div_mod::lemma_fundamental_div_mod(a, b);
    }
    assert(b * q == q * b && b * (q + 1) == b * q + b) by (nonlinear_arith);
    if r > 0 {
        vstd::arithmetic::div_mod::lemma_fundamental_div_mod_converse(a + b - 1, b, q + 1, r - 1);
    } else {
        vstd::arithmetic::div_mod::lemma_fundamental_div_mod_converse(a + b - 1, b, q, b - 1);
    }
}

/// A number of items, rounded up to chunks, is no larger than the number itself and is zero
/// for no items only.
pub proof fn lemma_ceil_div(a: int, b: int)
    requires
        a >= 0,
        b > 0,
    ensures
        0 <= spec_ceil_div(a, b) <= a,
        spec_ceil_div(a, b) == 0 <==> a == 0,
        (spec_ceil_div(a, b) - 1) * b < a || a == 0,
        a <= spec_ceil_div(a, b) * b,
{
    let q = spec_ceil_div(a, b);
    let rem = (a + b - 1) % b;
    assert(a + b - 1 == b * q + rem && 0 <= rem < b) by {
        vstd::arithmetic::div_mod::lemma_fundamental_div_mod(a + b - 1, b);
    }
    assert(b * q == q * b && (q - 1) * b == q * b - b) by (nonlinear_arith);
    assert(q >= 0) by (nonlinear_arith)
        requires
            a + b - 1 == b * q + rem,
            0 <= rem < b,
            a >= 0,
            b > 0,
    ;
    assert(q <= a) by (nonlinear_arith)
        requires
            a + b - 1 == b * q + rem,
            0 <= rem,
            a >= 1 || q == 0 || b * q + rem == b - 1,
            a >= 0,
            b > 0,
            q >= 0,
    ;
    if a == 0 {
        assert(q == 0) by (nonlinear_arith)
            requires
                b - 1 == b * q + rem,
                0 <= rem < b,
                q >= 0,
                b > 0,
        ;
    } else {
        assert(q != 0) by (nonlinear_arith)
            requires
                a + b - 1 == b * q + rem,
                rem < b,
                a >= 1,
        ;
    }
}

/// Whether cumulative lengths do not fall.
pub open spec fn rising(cu_seqlens: Seq<u32>) -> bool {
    forall|i: int, j: int|
        0 <= i <= j < cu_seqlens.len() ==> #[trigger] cu_seqlens[i] <= #[trigger] cu_seqlens[j]
}

/// Number of chunks of one sequence.
pub open spec fn chunks_of(cu_seqlens: Seq<u32>, chunk_size: int, i: int) -> int {
    spec_ceil_div(cu_seqlens[i + 1] - cu_seqlens[i], chunk_size)
}

/// Number of chunks of the first `n` sequences.
pub open spec fn chunks_before(cu_seqlens: Seq<u32>, chunk_size: int, n: nat) -> int
    decreases n,
{
    if n == 0 {
        0
    } else {
        chunks_before(cu_seqlens, chunk_size, (n - 1) as nat) + chunks_of(
            cu_seqlens,
            chunk_size,
            n - 1,
        )
    }
}

/// For each chunk of the first `n` sequences, in order, its sequence and its place in it.
pub open spec fn chunk_list(cu_seqlens: Seq<u32>, chunk_size: int, n: nat) -> Seq<(u32, u32)>
    decreases n,
{
    if n == 0 {
        Seq::empty()
    } else {
        chunk_list(cu_seqlens, chunk_size, (n - 1) as nat) + Seq::new(
            chunks_of(cu_seqlens, chunk_size, n - 1) as nat,
            |j: int| ((n - 1) as u32, j as u32),
        )
    }
}

/// Chunk counts add up to at most the tokens that they cover, and to the list's length.
pub proof fn lemma_chunks_before(cu_seqlens: Seq<u32>, chunk_size: int, n: nat)
    requires
        chunk_size > 0,
        rising(cu_seqlens),
        n < cu_seqlens.len(),
    ensures
        0 <= chunks_before(cu_seqlens, chunk_size, n) <= cu_seqlens[n as int] - cu_seqlens[0],
        chunk_list(cu_seqlens, chunk_size, n).len() == chunks_before(cu_seqlens, chunk_size, n),
    decreases n,
{
    if n > 0 {
        lemma_chunks_before(cu_seqlens, chunk_size, (n - 1) as nat);
        assert(cu_seqlens[n - 1] <= cu_seqlens[n as int]);
        lemma_ceil_div(cu_seqlens[n as int] - cu_seqlens[n - 1], chunk_size);
    }
}

/// For each chunk, in order, its sequence and its place in it.
pub fn prepare_chunk_indices(cu_seqlens: &[u32], chunk_size: usize) -> (indices: Vec<[u32; 2]>)
    requires
        chunk_size > 0,
        cu_seqlens@.len() >= 2,
        rising(cu_seqlens@),
    ensures
        indices@.len() == chunk_list(
            cu_seqlens@,
            chunk_size as int,
            (cu_seqlens@.len() - 1) as nat,
        ).len(),
        forall|k: int|
            0 <= k < indices@.len() ==> (#[trigger] indices@[k])@ =~= ({
                let pair = chunk_list(
                    cu_seqlens@,
                    chunk_size as int,
                    (cu_seqlens@.len() - 1) as nat,
                )[k];
                seq![pair.0, pair.1]
            }),
{
    let n_seqs: usize = cu_seqlens.len() - 1;
    let ghost c = chunk_size as int;
    let mut indices: Vec<[u32; 2]> = Vec::new();
    let mut seq_id: usize = 0;
    while seq_id < n_seqs
        invariant
            seq_id <= n_seqs,
            n_seqs == cu_seqlens@.len() - 1,
            c == chunk_size > 0,
            rising(cu_seqlens@),
            indices@.len() == chunk_list(cu_seqlens@, c, seq_id as nat).len(),
            forall|k: int|
                0 <= k < indices@.len() ==> (#[trigger] indices@[k])@ =~= ({
                    let pair = chunk_list(cu_seqlens@, c, seq_id as nat)[k];
                    seq![pair.0, pair.1]
                }),
        decreases n_seqs - seq_id,
    {
        assert(cu_seqlens@[seq_id as int] <= cu_seqlens@[seq_id + 1]);
        let seq_len: usize = (cu_seqlens[seq_id + 1] - cu_seqlens[seq_id]) as usize;
        let n_chunks: usize = ceil_div(seq_len, chunk_size);
        let ghost before = indices@;
        let mut local_chunk: usize = 0;
        while local_chunk < n_chunks
            invariant
                local_chunk <= n_chunks,
                indices@.len() == before.len() + local_chunk,
                forall|k: int| 0 <= k < before.len() ==> #[trigger] indices@[k] == before[k],
                forall|j: int|
                    0 <= j < local_chunk ==> (#[trigger] indices@[before.len() + j])@ =~= seq![
                        seq_id as u32,
                        j as u32,
                    ],
            decreases n_chunks - local_chunk,
        {
            let pair = [seq_id as u32, local_chunk as u32];
            assert(pair@ =~= seq![seq_id as u32, local_chunk as u32]);
            indices.push(pair);
            local_chunk += 1;
        }
        proof {
            let list = chunk_list(cu_seqlens@, c, (seq_id + 1) as nat);
            let shorter = chunk_list(cu_seqlens@, c, seq_id as nat);
            lemma_ceil_div(seq_len as int, c);
            assert(list.len() == shorter.len() + n_chunks);
            assert forall|k: int| 0 <= k < indices@.len() implies (#[trigger] indices@[k])@ =~= ({
                let pair = list[k];
                seq![pair.0, pair.1]
            }) by {
                if k < before.len() {
                    assert(list[k] == shorter[k]);
                } else {
                    let j = k - before.len();
                    assert(indices@[before.len() + j] == indices@[k]);
                    assert(list[k] == (seq_id as u32, j as u32));
                }
            }
        }
        seq_id += 1;
    }
    indices
}

/// For each sequence, and past the last one, the number of chunks before it.
pub fn prepare_chunk_offsets(cu_seqlens: &[u32], chunk_size: usize) -> (offsets: Vec<u32>)
    requires
        chunk_size > 0,
        cu_seqlens@.len() >= 2,
        rising(cu_seqlens@),
    ensures
        offsets@.len() == cu_seqlens@.len(),
        forall|i: int|
            0 <= i < offsets@.len() ==> #[trigger] offsets@[i] == chunks_before(
                cu_seqlens@,
                chunk_size as int,
                i as nat,
            ),
{
    let n_seqs: usize = cu_seqlens.len() - 1;
    let ghost c = chunk_size as int;
    let mut offsets: Vec<u32> = Vec::new();
    offsets.push(0u32);
    let mut cumulative: u32 = 0;
    let mut i: usize = 0;
    while i < n_seqs
        invariant
            i <= n_seqs,
            n_seqs == cu_seqlens@.len() - 1,
            c == chunk_size > 0,
            rising(cu_seqlens@),
            cumulative == chunks_before(cu_seqlens@, c, i as nat),
            offsets@.len() == i + 1,
            forall|k: int|
                0 <= k < offsets@.len() ==> #[trigger] offsets@[k] == chunks_before(
                    cu_seqlens@,
                    c,
                    k as nat,
                ),
        decreases n_seqs - i,
    {
        assert(cu_seqlens@[i as int] <= cu_seqlens@[i + 1]);
        let seq_len: usize = (cu_seqlens[i + 1] - cu_seqlens[i]) as usize;
        let count: usize = ceil_div(seq_len, chunk_size);
        proof {
            lemma_ceil_div(seq_len as int, c);
            lemma_chunks_before(cu_seqlens@, c, (i + 1) as nat);
        }
        cumulative = cumulative + count as u32;
        offsets.push(cumulative);
        i += 1;
    }
    offsets
}

/// The last offset is the number of chunks, and offsets rise by the chunks of each sequence.
pub proof fn law_offsets_count_chunks(cu_seqlens: Seq<u32>, chunk_size: int, n: nat)
    requires
        chunk_size > 0,
        rising(cu_seqlens),
        n < cu_seqlens.len(),
    ensures
        chunks_before(cu_seqlens, chunk_size, n) == chunk_list(cu_seqlens, chunk_size, n).len(),
        n > 0 ==> chunks_before(cu_seqlens, chunk_size, n) == chunks_before(
            cu_seqlens,
            chunk_size,
            (n - 1) as nat,
        ) + chunks_of(cu_seqlens, chunk_size, n - 1),
{
    lemma_chunks_before(cu_seqlens, chunk_size, n);
}

/// The offset of a sequence is where its chunks start: chunk `j` of sequence `i` stands `j`
/// places behind it.
pub proof fn law_offsets_index_chunks(
    cu_seqlens: Seq<u32>,
    chunk_size: int,
    n: nat,
    i: int,
    j: int,
)
    requires
        chunk_size > 0,
        rising(cu_seqlens),
        n < cu_seqlens.len(),
        0 <= i < n,
        0 <= j < chunks_of(cu_seqlens, chunk_size, i),
    ensures
        chunks_before(cu_seqlens, chunk_size, i as nat) + j < chunk_list(
            cu_seqlens,
            chunk_size,
            n,
        ).len(),
        chunk_list(cu_seqlens, chunk_size, n)[chunks_before(cu_seqlens, chunk_size, i as nat) + j]
            == (i as u32, j as u32),
    decreases n,
{
    lemma_chunks_before(cu_seqlens, chunk_size, n);
    lemma_chunks_before(cu_seqlens, chunk_size, (n - 1) as nat);
    lemma_chunks_before(cu_seqlens, chunk_size, i as nat);
    let shorter = chunk_list(cu_seqlens, chunk_size, (n - 1) as nat);
    let k = chunks_before(cu_seqlens, chunk_size, i as nat) + j;
    if i < n - 1 {
        law_offsets_index_chunks(cu_seqlens, chunk_size, (n - 1) as nat, i, j);
        assert(chunk_list(cu_seqlens, chunk_size, n)[k] == shorter[k]);
    } else {
        assert(k == shorter.len() + j);
        assert(chunk_list(cu_seqlens, chunk_size, n)[shorter.len() + j] == (
            (n - 1) as u32,
            j as u32,
        ));
    }
}

/// Every token of a sequence lies in exactly one of its chunks.
pub proof fn law_chunks_cover_tokens(
    cu_seqlens: Seq<u32>,
    chunk_size: int,
    i: int,
    token: int,
)
    requires
        chunk_size > 0,
        0 <= i < cu_seqlens.len() - 1,
        0 <= token < cu_seqlens[i + 1] - cu_seqlens[i],
    ensures
        0 <= token / chunk_size < chunks_of(cu_seqlens, chunk_size, i),
        forall|j: int|
            #![trigger j * chunk_size]
            j * chunk_size <= token < (j + 1) * chunk_size ==> j == token / chunk_size,
{
    let len = cu_seqlens[i + 1] - cu_seqlens[i];
    lemma_ceil_div(len, chunk_size);
    let q = token / chunk_size;
    vstd::arithmetic::div_mod::lemma_fundamental_div_mod(token, chunk_size);
    let total = chunks_of(cu_seqlens, chunk_size, i);
    assert(0 <= q < total) by (nonlinear_arith)
        requires
            token == chunk_size * q + token % chunk_size,
            0 <= token % chunk_size < chunk_size,
            0 <= token < len,
            len <= total * chunk_size,
            chunk_size > 0,
    ;
    assert forall|j: int|
        #![trigger j * chunk_size]
        j * chunk_size <= token < (j + 1) * chunk_size implies j == token / chunk_size by {
        let rem = token % chunk_size;
        assert(j == q) by (nonlinear_arith)
            requires
                token == chunk_size * q + rem,
                0 <= rem < chunk_size,
                j * chunk_size <= token < (j + 1) * chunk_size,
                chunk_size > 0,
        ;
    }
}

/// The chunks of sequences that stand behind `i` others.
pub open spec fn behind(list: Seq<(u32, u32)>, i: int) -> Seq<(u32, u32)> {
    Seq::new(list.len(), |k: int| ((list[k].0 + i) as u32, list[k].1))
}

/// The chunks of the first sequences do not depend on what follows.
proof fn lemma_chunks_of_first(cu_seqlens: Seq<u32>, chunk_size: int, n: nat, k: int)
    requires
        n < k <= cu_seqlens.len(),
    ensures
        chunk_list(cu_seqlens.take(k), chunk_size, n) == chunk_list(cu_seqlens, chunk_size, n),
    decreases n,
{
    if n > 0 {
        lemma_chunks_of_first(cu_seqlens, chunk_size, (n - 1) as nat, k);
        assert(chunks_of(cu_seqlens.take(k), chunk_size, n - 1) == chunks_of(
            cu_seqlens,
            chunk_size,
            n - 1,
        ));
    }
}

proof fn lemma_chunks_of_parts(cu_seqlens: Seq<u32>, chunk_size: int, i: int, m: nat)
    requires
        0 <= i,
        i + m < cu_seqlens.len(),
        cu_seqlens.len() <= u32::MAX,
    ensures
        chunk_list(cu_seqlens, chunk_size, (i + m) as nat) == chunk_list(
            cu_seqlens.take(i + 1),
            chunk_size,
            i as nat,
        ) + behind(chunk_list(cu_seqlens.skip(i), chunk_size, m), i),
    decreases m,
{
    let first = chunk_list(cu_seqlens.take(i + 1), chunk_size, i as nat);
    let rest = cu_seqlens.skip(i);
    if m == 0 {
        lemma_chunks_of_first(cu_seqlens, chunk_size, i as nat, i + 1);
        assert(first + behind(chunk_list(rest, chunk_size, 0), i) =~= first);
    } else {
        let k = (m - 1) as nat;
        lemma_chunks_of_parts(cu_seqlens, chunk_size, i, k);
        assert(rest[k as int] == cu_seqlens[i + k] && rest[(k + 1) as int] == cu_seqlens[i + k + 1]);
        assert(chunks_of(rest, chunk_size, k as int) == chunks_of(cu_seqlens, chunk_size, i + k));
        assert((i + m) as nat - 1 == (i + k) as nat);
        assert(chunk_list(cu_seqlens, chunk_size, (i + m) as nat) =~= first + behind(
            chunk_list(rest, chunk_size, m),
            i,
        ));
    }
}

/// The chunks of a batch are those of its first `i` sequences, and then those of the others with
/// their sequences counted on.
pub proof fn law_chunks_of_parts(cu_seqlens: Seq<u32>, chunk_size: int, i: int)
    requires
        chunk_size > 0,
        rising(cu_seqlens),
        0 < i < cu_seqlens.len() - 1,
        cu_seqlens.len() <= u32::MAX,
    ensures
        chunk_list(cu_seqlens, chunk_size, (cu_seqlens.len() - 1) as nat) == chunk_list(
            cu_seqlens.take(i + 1),
            chunk_size,
            i as nat,
        ) + behind(
            chunk_list(cu_seqlens.skip(i), chunk_size, (cu_seqlens.len() - 1 - i) as nat),
            i,
        ),
{
    lemma_chunks_of_parts(cu_seqlens, chunk_size, i, (cu_seqlens.len() - 1 - i) as nat);
}

} // verus!
