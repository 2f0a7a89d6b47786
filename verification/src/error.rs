//! Errors of the HIP backend.
use crate::text::{signed_decimal, text, Text};
use vstd::prelude::*;

verus! {

/// Status of a successful HIP call.
pub const HIP_SUCCESS: i32 = 0;

/// Status of a successful rocBLAS call.
pub const ROCBLAS_STATUS_SUCCESS: i32 = 0;

/// What an error says.
pub struct ErrorSpec {
    pub code: int,
    pub message: Seq<char>,
}

/// An error of a HIP call, or of the checks made before one.
#[derive(Debug, Clone)]
pub struct HipErrorKind {
    pub code: i32,
    pub message: String,
}

impl View for HipErrorKind {
    type V = ErrorSpec;

    open spec fn view(&self) -> ErrorSpec {
        ErrorSpec { code: self.code as int, message: self.message@ }
    }
}

/// An error that a check on the host found: its code is -1.
pub open spec fn host_error(message: Seq<char>) -> ErrorSpec {
    ErrorSpec { code: -1, message }
}

/// The first error of two checks made one after the other.
pub open spec fn first_error(a: Option<ErrorSpec>, b: Option<ErrorSpec>) -> Option<ErrorSpec> {
    if a is Some {
        a
    } else {
        b
    }
}

impl HipErrorKind {
    /// An error found by a check on the host.
    pub fn host(message: Text) -> (e: HipErrorKind)
        ensures
            e@ == host_error(message@),
    {
        HipErrorKind { code: -1, message: message.done() }
    }

    /// The text shown to a user.
    pub fn to_text(&self) -> (s: String)
        ensures
            s@ == "HIP error "@ + signed_decimal(self.code as int) + ": "@ + self.message@,
    {
        text("HIP error ").signed(self.code).lit(": ").lit(self.message.as_str()).done()
    }
}

/// Status of an event that has not happened yet.
pub const HIP_ERROR_NOT_READY: i32 = 600;

/// The text of a HIP status, given what the runtime says of it, where it says anything.
pub open spec fn status_text(status: int, described: Option<Seq<char>>) -> Seq<char> {
    if status == HIP_SUCCESS {
        "hipSuccess"@
    } else {
        match described {
            Some(t) => t,
            None => "Unknown HIP error: "@ + signed_decimal(status),
        }
    }
}

/// What a text holds, where there is one.
pub open spec fn text_of(s: Option<String>) -> Option<Seq<char>> {
    match s {
        Some(t) => Some(t@),
        None => None,
    }
}

/// The text of a HIP status.
pub fn error_string(status: i32, described: Option<String>) -> (s: String)
    ensures
        s@ == status_text(status as int, text_of(described)),
{
    if status == HIP_SUCCESS {
        return text("hipSuccess").done();
    }
    match described {
        Some(t) => t,
        None => text("Unknown HIP error: ").signed(status).done(),
    }
}

/// Turns a HIP status into a result.
pub fn check(status: i32, described: Option<String>) -> (r: Result<(), HipErrorKind>)
    ensures
        match r {
            Ok(_) => status == HIP_SUCCESS,
            Err(e) => status != HIP_SUCCESS && e@ == (ErrorSpec {
                code: status as int,
                message: status_text(status as int, text_of(described)),
            }),
        },
{
    if status == HIP_SUCCESS {
        Ok(())
    } else {
        Err(HipErrorKind { code: status, message: error_string(status, described) })
    }
}

/// A rocBLAS call that can fail.
#[derive(Debug, Clone, Copy, PartialEq, Eq, Structural)]
pub enum BlasCall {
    CreateHandle,
    DestroyHandle,
    SetStream,
    Hgemm,
    Sgemm,
    SgemmTransposed,
}

/// What is said of a rocBLAS call that failed.
pub open spec fn blas_text(call: BlasCall) -> Seq<char> {
    match call {
        BlasCall::CreateHandle => "Failed to create rocBLAS handle: status "@,
        BlasCall::DestroyHandle => "Failed to destroy rocBLAS handle: status "@,
        BlasCall::SetStream => "Failed to set rocBLAS stream: status "@,
        BlasCall::Hgemm => "rocBLAS HGEMM failed: status "@,
        BlasCall::Sgemm => "rocBLAS SGEMM failed: status "@,
        BlasCall::SgemmTransposed => "rocBLAS SGEMM_TA failed: status "@,
    }
}

/// Turns a rocBLAS status into a result; `code` is the HIP status that stands for it.
pub fn check_blas(call: BlasCall, status: i32, code: i32) -> (r: Result<(), HipErrorKind>)
    ensures
        match r {
            Ok(_) => status == ROCBLAS_STATUS_SUCCESS,
            Err(e) => status != ROCBLAS_STATUS_SUCCESS && e@ == (ErrorSpec {
                code: code as int,
                message: blas_text(call) + signed_decimal(status as int),
            }),
        },
{
    if status == ROCBLAS_STATUS_SUCCESS {
        return Ok(());
    }
    let what = match call {
        BlasCall::CreateHandle => "Failed to create rocBLAS handle: status ",
        BlasCall::DestroyHandle => "Failed to destroy rocBLAS handle: status ",
        BlasCall::SetStream => "Failed to set rocBLAS stream: status ",
        BlasCall::Hgemm => "rocBLAS HGEMM failed: status ",
        BlasCall::Sgemm => "rocBLAS SGEMM failed: status ",
        BlasCall::SgemmTransposed => "rocBLAS SGEMM_TA failed: status ",
    };
    Err(HipErrorKind { code, message: text(what).signed(status).done() })
}

} // verus!
