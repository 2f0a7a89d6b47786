use rwkv_hip::model::chunks::{ceil_div, prepare_chunk_indices, prepare_chunk_offsets};
use rwkv_hip::model::fla::FLA_CHUNK_THRESHOLD;
use rwkv_hip::scratch::FLA_CHUNK_SIZE;

#[test]
fn test_ceil_div_exact() {
    assert_eq!(ceil_div(64, 16), 4);
    assert_eq!(ceil_div(128, 64), 2);
}

#[test]
fn test_ceil_div_remainder() {
    assert_eq!(ceil_div(100, 64), 2);
    assert_eq!(ceil_div(130, 64), 3);
    assert_eq!(ceil_div(50, 64), 1);
}

#[test]
fn test_ceil_div_one() {
    assert_eq!(ceil_div(1, 1), 1);
    assert_eq!(ceil_div(7, 1), 7);
}

/// cu_seqlens = [0, 100, 230, 280], chunk_size = 64.
#[test]
fn test_chunk_indices_variable_lengths() {
    let cu = [0u32, 100, 230, 280];
    let idx = prepare_chunk_indices(&cu, 64);

    // chunks_per_seq = [2, 3, 1]  (100/64=2, 130/64=3, 50/64=1)
    let expected: Vec<[u32; 2]> = vec![
        [0, 0],
        [0, 1], // seq 0: 2 chunks
        [1, 0],
        [1, 1],
        [1, 2], // seq 1: 3 chunks
        [2, 0], // seq 2: 1 chunk
    ];
    assert_eq!(idx, expected);
}

/// T divisible by C: each sequence has an exact number of chunks.
#[test]
fn test_chunk_indices_divisible() {
    // Single sequence: T=64, C=16 -> 4 chunks
    let cu = [0u32, 64];
    let idx = prepare_chunk_indices(&cu, 16);

    let expected: Vec<[u32; 2]> = vec![[0, 0], [0, 1], [0, 2], [0, 3]];
    assert_eq!(idx, expected);
}

/// T not divisible by C: last chunk is partial.
#[test]
fn test_chunk_indices_not_divisible() {
    // Single sequence: T=100, C=64 -> 2 chunks (last is 36 tokens)
    let cu = [0u32, 100];
    let idx = prepare_chunk_indices(&cu, 64);

    let expected: Vec<[u32; 2]> = vec![[0, 0], [0, 1]];
    assert_eq!(idx, expected);
}

/// Single sequence.
#[test]
fn test_chunk_indices_single_seq() {
    let cu = [0u32, 50];
    let idx = prepare_chunk_indices(&cu, 16);

    // ceil(50 / 16) = 4
    let expected: Vec<[u32; 2]> = vec![[0, 0], [0, 1], [0, 2], [0, 3]];
    assert_eq!(idx, expected);
}

/// Edge case: chunk_size equals sequence length (exactly 1 chunk).
#[test]
fn test_chunk_indices_chunk_equals_seqlen() {
    let cu = [0u32, 64];
    let idx = prepare_chunk_indices(&cu, 64);

    let expected: Vec<[u32; 2]> = vec![[0, 0]];
    assert_eq!(idx, expected);
}

/// Equal-length batches: cu_seqlens = [0, T, 2T, ..., B*T].
#[test]
fn test_chunk_indices_equal_length_batch() {
    // B=3, T=128, C=64 -> 2 chunks each
    let cu = [0u32, 128, 256, 384];
    let idx = prepare_chunk_indices(&cu, 64);

    let expected: Vec<[u32; 2]> = vec![
        [0, 0],
        [0, 1], // seq 0
        [1, 0],
        [1, 1], // seq 1
        [2, 0],
        [2, 1], // seq 2
    ];
    assert_eq!(idx, expected);
}

/// chunk_size larger than sequence length: 1 chunk per sequence.
#[test]
fn test_chunk_indices_chunk_larger_than_seq() {
    let cu = [0u32, 10, 25, 30];
    let idx = prepare_chunk_indices(&cu, 64);

    let expected: Vec<[u32; 2]> = vec![
        [0, 0], // seq 0: 10 tokens, 1 chunk
        [1, 0], // seq 1: 15 tokens, 1 chunk
        [2, 0], // seq 2: 5 tokens, 1 chunk
    ];
    assert_eq!(idx, expected);
}

/// cu_seqlens = [0, 100, 230, 280], chunk_size = 64.
#[test]
fn test_chunk_offsets_variable_lengths() {
    let cu = [0u32, 100, 230, 280];
    let off = prepare_chunk_offsets(&cu, 64);

    // chunks_per_seq = [2, 3, 1]
    // cumulative = [0, 2, 5, 6]
    assert_eq!(off, vec![0u32, 2, 5, 6]);
}

/// T divisible by C.
#[test]
fn test_chunk_offsets_divisible() {
    let cu = [0u32, 64];
    let off = prepare_chunk_offsets(&cu, 16);

    // 64/16 = 4 chunks -> [0, 4]
    assert_eq!(off, vec![0u32, 4]);
}

/// T not divisible by C.
#[test]
fn test_chunk_offsets_not_divisible() {
    let cu = [0u32, 100];
    let off = prepare_chunk_offsets(&cu, 64);

    // ceil(100/64) = 2 chunks -> [0, 2]
    assert_eq!(off, vec![0u32, 2]);
}

/// Single sequence.
#[test]
fn test_chunk_offsets_single_seq() {
    let cu = [0u32, 50];
    let off = prepare_chunk_offsets(&cu, 16);

    // ceil(50/16) = 4 chunks -> [0, 4]
    assert_eq!(off, vec![0u32, 4]);
}

/// Edge case: chunk_size equals sequence length.
#[test]
fn test_chunk_offsets_chunk_equals_seqlen() {
    let cu = [0u32, 64];
    let off = prepare_chunk_offsets(&cu, 64);

    // 64/64 = 1 chunk -> [0, 1]
    assert_eq!(off, vec![0u32, 1]);
}

/// Equal-length batches.
#[test]
fn test_chunk_offsets_equal_length_batch() {
    // B=3, T=128, C=64 -> 2 chunks each
    let cu = [0u32, 128, 256, 384];
    let off = prepare_chunk_offsets(&cu, 64);

    assert_eq!(off, vec![0u32, 2, 4, 6]);
}

/// chunk_size larger than all sequences.
#[test]
fn test_chunk_offsets_chunk_larger_than_seq() {
    let cu = [0u32, 10, 25, 30];
    let off = prepare_chunk_offsets(&cu, 64);

    // 1 chunk each -> [0, 1, 2, 3]
    assert_eq!(off, vec![0u32, 1, 2, 3]);
}

/// Verify FLA_CHUNK_THRESHOLD is consistent with fla_chunk_size.
/// FLA needs at least one full chunk (C=16 by default) to be useful,
/// so the threshold should be >= chunk_size. Currently threshold = 32
/// which means at least 2 full chunks are required.
#[test]
fn test_fla_threshold_consistent_with_chunk_size() {
    assert!(
        FLA_CHUNK_THRESHOLD >= FLA_CHUNK_SIZE,
        "FLA_CHUNK_THRESHOLD ({}) must be >= FLA_CHUNK_SIZE ({}) \
         so at least one full chunk is guaranteed",
        FLA_CHUNK_THRESHOLD,
        FLA_CHUNK_SIZE,
    );
}

/// Verify the dispatch boundary values.
/// T < 32 should NOT use FLA, T >= 32 should use FLA.
#[test]
fn test_fla_dispatch_boundary() {
    // Below threshold: no FLA
    assert!(
        31 < FLA_CHUNK_THRESHOLD,
        "T=31 should be below threshold"
    );
    // At threshold: yes FLA
    assert!(
        32 >= FLA_CHUNK_THRESHOLD,
        "T=32 should be at or above threshold"
    );
    // Well above threshold: yes FLA
    assert!(
        256 >= FLA_CHUNK_THRESHOLD,
        "T=256 should be at or above threshold"
    );
}

/// The last element of chunk_offsets must equal the total number of chunk_indices.
#[test]
fn test_offsets_match_indices_count() {
    let cu = [0u32, 100, 230, 280];
    let chunk_size = 64;

    let idx = prepare_chunk_indices(&cu, chunk_size);
    let off = prepare_chunk_offsets(&cu, chunk_size);

    assert_eq!(*off.last().unwrap() as usize, idx.len());
}

/// For each sequence, the chunk_indices slice between offsets[i] and offsets[i+1]
/// must contain the correct seq_id and sequential local_chunk_ids.
#[test]
fn test_offsets_index_into_indices() {
    let cu = [0u32, 100, 230, 280];
    let chunk_size = 64;

    let idx = prepare_chunk_indices(&cu, chunk_size);
    let off = prepare_chunk_offsets(&cu, chunk_size);

    let n_seqs = cu.len() - 1;
    for seq_id in 0..n_seqs {
        let start = off[seq_id] as usize;
        let end = off[seq_id + 1] as usize;
        let seq_chunks = &idx[start..end];

        for (local, pair) in seq_chunks.iter().enumerate() {
            assert_eq!(pair[0], seq_id as u32, "seq_id mismatch at chunk {local}");
            assert_eq!(
                pair[1], local as u32,
                "local_chunk_id mismatch at seq {seq_id}, chunk {local}"
            );
        }
    }
}

#[test]
fn quotients_of_the_largest_numbers_are_rounded_up() {
    assert_eq!(ceil_div(usize::MAX, 2), usize::MAX / 2 + 1);
    assert_eq!(ceil_div(usize::MAX, usize::MAX), 1);
    assert_eq!(ceil_div(usize::MAX, 1), usize::MAX);
    assert_eq!(ceil_div(0, usize::MAX), 0);
}

#[test]
fn chunks_of_a_batch_are_those_of_its_parts() {
    let cu = [0u32, 20, 23, 60, 60];
    let all = prepare_chunk_indices(&cu, 16);
    for i in 1..4 {
        let mut joined = prepare_chunk_indices(&cu[..=i], 16);
        for [s, j] in prepare_chunk_indices(&cu[i..], 16) {
            joined.push([s + i as u32, j]);
        }
        assert_eq!(joined, all);
    }
}
