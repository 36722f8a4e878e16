//! One request line to one envelope line: the transport-free core's
//! typed failure, and the error envelope that answers it.

use vstd::prelude::*;
use crate::proto::{ErrorEnvelope, ProtoError, PROTO};

verus! {

/// A typed line failure (code + message), never a panic.
#[derive(Clone, Debug, PartialEq)]
pub struct LineError {
    pub code: &'static str,
    pub message: String,
}

/// The typed error envelope that answers a failed line: the current
/// protocol version, the failure's code and message, and the 1-based
/// index of the line the request arrived on.
pub fn error_envelope(err: LineError, request_index: u64) -> (env: ErrorEnvelope)
    ensures
        env.proto == PROTO,
        env.error.code@ == err.code@,
        env.error.message@ == err.message@,
        env.error.request_index == request_index,
{
    let code = err.code.to_string();
    ErrorEnvelope {
        proto: PROTO,
        error: ProtoError { code, message: err.message, request_index },
    }
}

} // verus!
