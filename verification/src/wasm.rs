//! The engine's self-description, as the hosts that embed it serve it.

use crate::proto::{GENOME_ID, PROTO};
use crate::text::{decimal_spec, push_decimal};
use vstd::prelude::*;

verus! {

/// This library's version.
pub const VERSION: &'static str = "0.1.0";

/// `{"name":"reflexer","version":…,"proto":…,"genome":…}`.
pub open spec fn info_text() -> Seq<char> {
    "{\"name\":\"reflexer\",\"version\":\""@ + VERSION@ + "\",\"proto\":"@ + decimal_spec(
        PROTO as nat,
    ) + ",\"genome\":\""@ + GENOME_ID@ + "\"}"@
}

/// `{name, version, proto, genome}` as one JSON line.
pub fn info() -> (s: String)
    ensures
        s@ == info_text(),
{
    let mut s = String::from_str("{\"name\":\"reflexer\",\"version\":\"");
    s.append(VERSION);
    s.append("\",\"proto\":");
    push_decimal(&mut s, PROTO as u64);
    s.append(",\"genome\":\"");
    s.append(GENOME_ID);
    s.append("\"}");
    s
}

} // verus!
