//! The stdio line protocol's vocabulary: one JSON request line in, one
//! envelope line out; malformed input answers a typed error envelope.

use vstd::prelude::*;

pub mod codes;

verus! {

/// Line-protocol version.
pub const PROTO: u32 = 1;

/// The frozen reference genome this engine serves.
pub const GENOME_ID: &'static str = "68cae9d382014662";

/// The typed error envelope. The pipe stays alive after one of these.
#[derive(Clone, Debug)]
pub struct ErrorEnvelope {
    pub proto: u32,
    pub error: ProtoError,
}

/// One typed protocol failure.
#[derive(Clone, Debug)]
pub struct ProtoError {
    /// One of [`codes`]: stable, machine-branchable.
    pub code: String,
    /// Human context (display text, never parsed).
    pub message: String,
    /// 1-based stdin line index the request arrived on.
    pub request_index: u64,
}

} // verus!
