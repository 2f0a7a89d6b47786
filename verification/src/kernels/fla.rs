//! The stages of chunked linear attention.
use crate::error::{host_error, ErrorSpec, HipErrorKind};
use crate::kernels::elementwise::sizes_text;
use crate::launch::Launch;
use crate::stream::{CommandOf, Outcome, Run, Stream};
use crate::tensor::{TensorHip, TensorSpec, F16, F32, I32};
use crate::text::{decimal, text};
use vstd::prelude::*;

verus! {

/// `gk = -exp(att_w)`, widened to single precision.
#[verifier::opaque]
pub open spec fn fla_neg_exp_call(att_w: TensorSpec, gk: TensorSpec) -> Outcome {
    if att_w.len() != gk.len() {
        Err(host_error(sizes_text(false, att_w.len(), gk.len())))
    } else if !att_w.contiguous() || !gk.contiguous() {
        Err(host_error("fla_neg_exp_f16_to_f32 requires contiguous tensors"@))
    } else {
        Ok(
            CommandOf::Launch(
                Launch::FlaNegExp {
                    input: att_w.ptr(),
                    output: gk.ptr(),
                    n: att_w.len() as i32,
                },
            ),
        )
    }
}

/// `gk = -exp(att_w)`, widened to single precision.
pub fn fla_neg_exp_f16_to_f32(
    att_w: &TensorHip<F16>,
    gk: &TensorHip<F32>,
    stream: &mut Stream,
) -> (r: Result<(), HipErrorKind>)
    ensures
        Run::start(old(stream)@).call(fla_neg_exp_call(att_w@, gk@)).agrees(final(stream)@, r),
{
    reveal(fla_neg_exp_call);
    if att_w.len() != gk.len() {
        return Err(
            HipErrorKind::host(
                text("Size mismatch: input ").num(att_w.len()).lit(" vs output ").num(gk.len()),
            ),
        );
    }
    if !att_w.is_contiguous() || !gk.is_contiguous() {
        return Err(
            HipErrorKind::host(text("fla_neg_exp_f16_to_f32 requires contiguous tensors")),
        );
    }
    stream.launch(
        Launch::FlaNegExp {
            input: att_w.as_ptr(),
            output: gk.as_ptr(),
            n: att_w.len() as i32,
        },
    );
    Ok(())
}

/// Why the cumulative scan is refused, where it is.
#[verifier::opaque]
pub open spec fn fla_cumsum_error(
    gk: TensorSpec,
    gi: TensorSpec,
    ge: TensorSpec,
    chunk_indices: TensorSpec,
    cu_seqlens: TensorSpec,
    total_chunks: usize,
) -> Option<ErrorSpec> {
    if gi.shape() != gk.shape() {
        Some(
            host_error(
                "fla_cumsum: gi shape mismatch: expected "@ + gk.shape().text() + ", got "@
                    + gi.shape().text(),
            ),
        )
    } else if ge.shape() != gk.shape() {
        Some(
            host_error(
                "fla_cumsum: ge shape mismatch: expected "@ + gk.shape().text() + ", got "@
                    + ge.shape().text(),
            ),
        )
    } else if chunk_indices.len() != total_chunks * 2 {
        Some(
            host_error(
                "fla_cumsum: chunk_indices length mismatch: expected "@ + decimal(
                    (total_chunks * 2) as nat,
                ) + " (total_chunks="@ + decimal(total_chunks as nat) + " * 2), got "@ + decimal(
                    chunk_indices.len(),
                ),
            ),
        )
    } else if !gk.contiguous() || !gi.contiguous() || !ge.contiguous() {
        Some(host_error("fla_cumsum: all tensors must be contiguous"@))
    } else if !chunk_indices.contiguous() || !cu_seqlens.contiguous() {
        Some(host_error("fla_cumsum: chunk_indices and cu_seqlens must be contiguous"@))
    } else {
        None
    }
}

/// Cumulative decay within each chunk; without chunks there is nothing to do.
pub open spec fn fla_cumsum_run(
    s: Run,
    gk: TensorSpec,
    gi: TensorSpec,
    ge: TensorSpec,
    chunk_indices: TensorSpec,
    cu_seqlens: TensorSpec,
    chunk_size: usize,
    total_chunks: usize,
) -> Run {
    let s = s.check(fla_cumsum_error(gk, gi, ge, chunk_indices, cu_seqlens, total_chunks));
    if total_chunks == 0 {
        s
    } else {
        s.emit(
            CommandOf::Launch(
                Launch::FlaCumsum {
                    gk: gk.ptr(),
                    gi: gi.ptr(),
                    ge: ge.ptr(),
                    chunk_indices: chunk_indices.ptr(),
                    cu_seqlens: cu_seqlens.ptr(),
                    k: gk.shape().d0 as i32,
                    h: gk.shape().d1 as i32,
                    c: chunk_size as i32,
                    total_chunks: total_chunks as i32,
                },
            ),
        )
    }
}

/// Cumulative decay within each chunk: `gi` counts the token itself, `ge` does not.
pub fn fla_cumsum(
    gk: &TensorHip<F32>,
    gi: &TensorHip<F32>,
    ge: &TensorHip<F32>,
    chunk_indices: &TensorHip<I32>,
    cu_seqlens: &TensorHip<I32>,
    chunk_size: usize,
    total_chunks: usize,
    stream: &mut Stream,
) -> (r: Result<(), HipErrorKind>)
    requires
        total_chunks * 2 <= usize::MAX,
    ensures
        fla_cumsum_run(
            Run::start(old(stream)@),
            gk@,
            gi@,
            ge@,
            chunk_indices@,
            cu_seqlens@,
            chunk_size,
            total_chunks,
        ).agrees(final(stream)@, r),
{
    reveal(fla_cumsum_error);
    if gi.shape() != gk.shape() {
        return Err(
            HipErrorKind::host(
                text("fla_cumsum: gi shape mismatch: expected ").shape(gk.shape()).lit(
                    ", got ",
                ).shape(gi.shape()),
            ),
        );
    }
    if ge.shape() != gk.shape() {
        return Err(
            HipErrorKind::host(
                text("fla_cumsum: ge shape mismatch: expected ").shape(gk.shape()).lit(
                    ", got ",
                ).shape(ge.shape()),
            ),
        );
    }
    if chunk_indices.len() != total_chunks * 2 {
        return Err(
            HipErrorKind::host(
                text("fla_cumsum: chunk_indices length mismatch: expected ").num(
                    total_chunks * 2,
                ).lit(" (total_chunks=").num(total_chunks).lit(" * 2), got ").num(
                    chunk_indices.len(),
                ),
            ),
        );
    }
    if !gk.is_contiguous() || !gi.is_contiguous() || !ge.is_contiguous() {
        return Err(HipErrorKind::host(text("fla_cumsum: all tensors must be contiguous")));
    }
    if !chunk_indices.is_contiguous() || !cu_seqlens.is_contiguous() {
        return Err(
            HipErrorKind::host(
                text("fla_cumsum: chunk_indices and cu_seqlens must be contiguous"),
            ),
        );
    }
    if total_chunks == 0 {
        return Ok(());
    }
    stream.launch(
        Launch::FlaCumsum {
            gk: gk.as_ptr(),
            gi: gi.as_ptr(),
            ge: ge.as_ptr(),
            chunk_indices: chunk_indices.as_ptr(),
            cu_seqlens: cu_seqlens.as_ptr(),
            k: gk.shape().d0 as i32,
            h: gk.shape().d1 as i32,
            c: chunk_size as i32,
            total_chunks: total_chunks as i32,
        },
    );
    Ok(())
}

/// Attention within each chunk: inputs scaled by decay and the four chunk matrices.
#[verifier::opaque]
pub open spec fn fla_intra_call(
    q: TensorSpec,
    k: TensorSpec,
    a: TensorSpec,
    b: TensorSpec,
    gi: TensorSpec,
    ge: TensorSpec,
    qg: TensorSpec,
    kg: TensorSpec,
    ag: TensorSpec,
    bg: TensorSpec,
    a_qk: TensorSpec,
    a_qb: TensorSpec,
    a_ak: TensorSpec,
    a_ab: TensorSpec,
    chunk_indices: TensorSpec,
    cu_seqlens: TensorSpec,
    chunk_size: usize,
    total_chunks: usize,
) -> Outcome {
    if !q.contiguous() || !k.contiguous() || !a.contiguous() || !b.contiguous() || !gi.contiguous() || !ge.contiguous() || !qg.contiguous() || !kg.contiguous() || !ag.contiguous() || !bg.contiguous() || !a_qk.contiguous() || !a_qb.contiguous() || !a_ak.contiguous() || !a_ab.contiguous() || !chunk_indices.contiguous() || !cu_seqlens.contiguous() {
        Err(host_error("fla_intra: all tensors must be contiguous"@))
    } else {
        Ok(
            CommandOf::Launch(
                Launch::FlaIntra {
                    q: q.ptr(),
                    k: k.ptr(),
                    a: a.ptr(),
                    b: b.ptr(),
                    gi: gi.ptr(),
                    ge: ge.ptr(),
                    qg: qg.ptr(),
                    kg: kg.ptr(),
                    ag: ag.ptr(),
                    bg: bg.ptr(),
                    a_qk: a_qk.ptr(),
                    a_qb: a_qb.ptr(),
                    a_ak: a_ak.ptr(),
                    a_ab: a_ab.ptr(),
                    chunk_indices: chunk_indices.ptr(),
                    cu_seqlens: cu_seqlens.ptr(),
                    k_dim: q.shape().d0 as i32,
                    h: q.shape().d1 as i32,
                    c: chunk_size as i32,
                    total_chunks: total_chunks as i32,
                },
            ),
        )
    }
}

/// Attention within each chunk: inputs scaled by decay and the four chunk matrices.
pub fn fla_intra(
    q: &TensorHip<F16>,
    k: &TensorHip<F16>,
    a: &TensorHip<F16>,
    b: &TensorHip<F16>,
    gi: &TensorHip<F32>,
    ge: &TensorHip<F32>,
    qg: &TensorHip<F32>,
    kg: &TensorHip<F32>,
    ag: &TensorHip<F32>,
    bg: &TensorHip<F32>,
    a_qk: &TensorHip<F32>,
    a_qb: &TensorHip<F32>,
    a_ak: &TensorHip<F32>,
    a_ab: &TensorHip<F32>,
    chunk_indices: &TensorHip<I32>,
    cu_seqlens: &TensorHip<I32>,
    chunk_size: usize,
    total_chunks: usize,
    stream: &mut Stream,
) -> (res: Result<(), HipErrorKind>)
    ensures
        Run::start(old(stream)@).call(
            fla_intra_call(q@, k@, a@, b@, gi@, ge@, qg@, kg@, ag@, bg@, a_qk@, a_qb@, a_ak@, a_ab@, chunk_indices@, cu_seqlens@, chunk_size, total_chunks),
        ).agrees(final(stream)@, res),
{
    reveal(fla_intra_call);
    if !q.is_contiguous() || !k.is_contiguous() || !a.is_contiguous() || !b.is_contiguous() || !gi.is_contiguous() || !ge.is_contiguous() || !qg.is_contiguous() || !kg.is_contiguous() || !ag.is_contiguous() || !bg.is_contiguous() || !a_qk.is_contiguous() || !a_qb.is_contiguous() || !a_ak.is_contiguous() || !a_ab.is_contiguous() || !chunk_indices.is_contiguous() || !cu_seqlens.is_contiguous() {
        return Err(HipErrorKind::host(text("fla_intra: all tensors must be contiguous")));
    }
    stream.launch(
        Launch::FlaIntra {
            q: q.as_ptr(),
            k: k.as_ptr(),
            a: a.as_ptr(),
            b: b.as_ptr(),
            gi: gi.as_ptr(),
            ge: ge.as_ptr(),
            qg: qg.as_ptr(),
            kg: kg.as_ptr(),
            ag: ag.as_ptr(),
            bg: bg.as_ptr(),
            a_qk: a_qk.as_ptr(),
            a_qb: a_qb.as_ptr(),
            a_ak: a_ak.as_ptr(),
            a_ab: a_ab.as_ptr(),
            chunk_indices: chunk_indices.as_ptr(),
            cu_seqlens: cu_seqlens.as_ptr(),
            k_dim: q.shape().d0 as i32,
            h: q.shape().d1 as i32,
            c: chunk_size as i32,
            total_chunks: total_chunks as i32,
        },
    );
    Ok(())
}

/// Inverts the chunk matrices and folds them into `w` and `u`.
#[verifier::opaque]
pub open spec fn fla_wy_repr_call(
    a_ab: TensorSpec,
    a_ak: TensorSpec,
    a_ab_inv: TensorSpec,
    ag: TensorSpec,
    v: TensorSpec,
    w_wy: TensorSpec,
    u_wy: TensorSpec,
    chunk_indices: TensorSpec,
    cu_seqlens: TensorSpec,
    chunk_size: usize,
    total_chunks: usize,
) -> Outcome {
    if !a_ab.contiguous() || !a_ak.contiguous() || !a_ab_inv.contiguous() || !ag.contiguous() || !v.contiguous() || !w_wy.contiguous() || !u_wy.contiguous() || !chunk_indices.contiguous() || !cu_seqlens.contiguous() {
        Err(host_error("fla_wy_repr: all tensors must be contiguous"@))
    } else {
        Ok(
            CommandOf::Launch(
                Launch::FlaWyRepr {
                    a_ab: a_ab.ptr(),
                    a_ak: a_ak.ptr(),
                    a_ab_inv: a_ab_inv.ptr(),
                    ag: ag.ptr(),
                    v: v.ptr(),
                    w_wy: w_wy.ptr(),
                    u_wy: u_wy.ptr(),
                    chunk_indices: chunk_indices.ptr(),
                    cu_seqlens: cu_seqlens.ptr(),
                    k: v.shape().d0 as i32,
                    h: v.shape().d1 as i32,
                    c: chunk_size as i32,
                    total_chunks: total_chunks as i32,
                },
            ),
        )
    }
}

/// Inverts the chunk matrices and folds them into `w` and `u`.
pub fn fla_wy_repr(
    a_ab: &TensorHip<F32>,
    a_ak: &TensorHip<F32>,
    a_ab_inv: &TensorHip<F32>,
    ag: &TensorHip<F32>,
    v: &TensorHip<F16>,
    w_wy: &TensorHip<F32>,
    u_wy: &TensorHip<F32>,
    chunk_indices: &TensorHip<I32>,
    cu_seqlens: &TensorHip<I32>,
    chunk_size: usize,
    total_chunks: usize,
    stream: &mut Stream,
) -> (res: Result<(), HipErrorKind>)
    ensures
        Run::start(old(stream)@).call(
            fla_wy_repr_call(a_ab@, a_ak@, a_ab_inv@, ag@, v@, w_wy@, u_wy@, chunk_indices@, cu_seqlens@, chunk_size, total_chunks),
        ).agrees(final(stream)@, res),
{
    reveal(fla_wy_repr_call);
    if !a_ab.is_contiguous() || !a_ak.is_contiguous() || !a_ab_inv.is_contiguous() || !ag.is_contiguous() || !v.is_contiguous() || !w_wy.is_contiguous() || !u_wy.is_contiguous() || !chunk_indices.is_contiguous() || !cu_seqlens.is_contiguous() {
        return Err(HipErrorKind::host(text("fla_wy_repr: all tensors must be contiguous")));
    }
    stream.launch(
        Launch::FlaWyRepr {
            a_ab: a_ab.as_ptr(),
            a_ak: a_ak.as_ptr(),
            a_ab_inv: a_ab_inv.as_ptr(),
            ag: ag.as_ptr(),
            v: v.as_ptr(),
            w_wy: w_wy.as_ptr(),
            u_wy: u_wy.as_ptr(),
            chunk_indices: chunk_indices.as_ptr(),
            cu_seqlens: cu_seqlens.as_ptr(),
            k: v.shape().d0 as i32,
            h: v.shape().d1 as i32,
            c: chunk_size as i32,
            total_chunks: total_chunks as i32,
        },
    );
    Ok(())
}

/// Carries the state from chunk to chunk and corrects the values.
#[verifier::opaque]
pub open spec fn fla_chunk_h_call(
    kg: TensorSpec,
    bg: TensorSpec,
    v: TensorSpec,
    w_wy: TensorSpec,
    u_wy: TensorSpec,
    gi: TensorSpec,
    state: TensorSpec,
    h_out: TensorSpec,
    v_new: TensorSpec,
    chunk_offsets: TensorSpec,
    cu_seqlens: TensorSpec,
    chunk_size: usize,
    n_seq: usize,
) -> Outcome {
    if !kg.contiguous() || !bg.contiguous() || !v.contiguous() || !w_wy.contiguous() || !u_wy.contiguous() || !gi.contiguous() || !state.contiguous() || !h_out.contiguous() || !v_new.contiguous() || !chunk_offsets.contiguous() || !cu_seqlens.contiguous() {
        Err(host_error("fla_chunk_h: all tensors must be contiguous"@))
    } else {
        Ok(
            CommandOf::Launch(
                Launch::FlaChunkH {
                    kg: kg.ptr(),
                    bg: bg.ptr(),
                    v: v.ptr(),
                    w_wy: w_wy.ptr(),
                    u_wy: u_wy.ptr(),
                    gi: gi.ptr(),
                    state: state.ptr(),
                    h_out: h_out.ptr(),
                    v_new: v_new.ptr(),
                    chunk_offsets: chunk_offsets.ptr(),
                    cu_seqlens: cu_seqlens.ptr(),
                    k: v.shape().d0 as i32,
                    h: v.shape().d1 as i32,
                    c: chunk_size as i32,
                    n_seq: n_seq as i32,
                },
            ),
        )
    }
}

/// Carries the state from chunk to chunk and corrects the values.
pub fn fla_chunk_h(
    kg: &TensorHip<F32>,
    bg: &TensorHip<F32>,
    v: &TensorHip<F16>,
    w_wy: &TensorHip<F32>,
    u_wy: &TensorHip<F32>,
    gi: &TensorHip<F32>,
    state: &TensorHip<F32>,
    h_out: &TensorHip<F32>,
    v_new: &TensorHip<F32>,
    chunk_offsets: &TensorHip<I32>,
    cu_seqlens: &TensorHip<I32>,
    chunk_size: usize,
    n_seq: usize,
    stream: &mut Stream,
) -> (res: Result<(), HipErrorKind>)
    ensures
        Run::start(old(stream)@).call(
            fla_chunk_h_call(kg@, bg@, v@, w_wy@, u_wy@, gi@, state@, h_out@, v_new@, chunk_offsets@, cu_seqlens@, chunk_size, n_seq),
        ).agrees(final(stream)@, res),
{
    reveal(fla_chunk_h_call);
    if !kg.is_contiguous() || !bg.is_contiguous() || !v.is_contiguous() || !w_wy.is_contiguous() || !u_wy.is_contiguous() || !gi.is_contiguous() || !state.is_contiguous() || !h_out.is_contiguous() || !v_new.is_contiguous() || !chunk_offsets.is_contiguous() || !cu_seqlens.is_contiguous() {
        return Err(HipErrorKind::host(text("fla_chunk_h: all tensors must be contiguous")));
    }
    stream.launch(
        Launch::FlaChunkH {
            kg: kg.as_ptr(),
            bg: bg.as_ptr(),
            v: v.as_ptr(),
            w_wy: w_wy.as_ptr(),
            u_wy: u_wy.as_ptr(),
            gi: gi.as_ptr(),
            state: state.as_ptr(),
            h_out: h_out.as_ptr(),
            v_new: v_new.as_ptr(),
            chunk_offsets: chunk_offsets.as_ptr(),
            cu_seqlens: cu_seqlens.as_ptr(),
            k: v.shape().d0 as i32,
            h: v.shape().d1 as i32,
            c: chunk_size as i32,
            n_seq: n_seq as i32,
        },
    );
    Ok(())
}

/// Combines the state and the chunk matrices into the output.
#[verifier::opaque]
pub open spec fn fla_chunk_o_call(
    qg: TensorSpec,
    v: TensorSpec,
    v_new: TensorSpec,
    a_qk: TensorSpec,
    a_qb: TensorSpec,
    h_in: TensorSpec,
    output: TensorSpec,
    chunk_indices: TensorSpec,
    cu_seqlens: TensorSpec,
    chunk_size: usize,
    total_chunks: usize,
) -> Outcome {
    if !qg.contiguous() || !v.contiguous() || !v_new.contiguous() || !a_qk.contiguous() || !a_qb.contiguous() || !h_in.contiguous() || !output.contiguous() || !chunk_indices.contiguous() || !cu_seqlens.contiguous() {
        Err(host_error("fla_chunk_o: all tensors must be contiguous"@))
    } else {
        Ok(
            CommandOf::Launch(
                Launch::FlaChunkO {
                    qg: qg.ptr(),
                    v: v.ptr(),
                    v_new: v_new.ptr(),
                    a_qk: a_qk.ptr(),
                    a_qb: a_qb.ptr(),
                    h_in: h_in.ptr(),
                    output: output.ptr(),
                    chunk_indices: chunk_indices.ptr(),
                    cu_seqlens: cu_seqlens.ptr(),
                    k: v.shape().d0 as i32,
                    h: v.shape().d1 as i32,
                    c: chunk_size as i32,
                    total_chunks: total_chunks as i32,
                },
            ),
        )
    }
}

/// Combines the state and the chunk matrices into the output.
pub fn fla_chunk_o(
    qg: &TensorHip<F32>,
    v: &TensorHip<F16>,
    v_new: &TensorHip<F32>,
    a_qk: &TensorHip<F32>,
    a_qb: &TensorHip<F32>,
    h_in: &TensorHip<F32>,
    output: &TensorHip<F16>,
    chunk_indices: &TensorHip<I32>,
    cu_seqlens: &TensorHip<I32>,
    chunk_size: usize,
    total_chunks: usize,
    stream: &mut Stream,
) -> (res: Result<(), HipErrorKind>)
    ensures
        Run::start(old(stream)@).call(
            fla_chunk_o_call(qg@, v@, v_new@, a_qk@, a_qb@, h_in@, output@, chunk_indices@, cu_seqlens@, chunk_size, total_chunks),
        ).agrees(final(stream)@, res),
{
    reveal(fla_chunk_o_call);
    if !qg.is_contiguous() || !v.is_contiguous() || !v_new.is_contiguous() || !a_qk.is_contiguous() || !a_qb.is_contiguous() || !h_in.is_contiguous() || !output.is_contiguous() || !chunk_indices.is_contiguous() || !cu_seqlens.is_contiguous() {
        return Err(HipErrorKind::host(text("fla_chunk_o: all tensors must be contiguous")));
    }
    stream.launch(
        Launch::FlaChunkO {
            qg: qg.as_ptr(),
            v: v.as_ptr(),
            v_new: v_new.as_ptr(),
            a_qk: a_qk.as_ptr(),
            a_qb: a_qb.as_ptr(),
            h_in: h_in.as_ptr(),
            output: output.as_ptr(),
            chunk_indices: chunk_indices.as_ptr(),
            cu_seqlens: cu_seqlens.as_ptr(),
            k: v.shape().d0 as i32,
            h: v.shape().d1 as i32,
            c: chunk_size as i32,
            total_chunks: total_chunks as i32,
        },
    );
    Ok(())
}

} // verus!
