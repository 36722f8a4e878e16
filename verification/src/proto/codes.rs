//! Error codes: a stable vocabulary, one per failure class.

use vstd::prelude::*;

verus! {

pub const BAD_JSON: &'static str = "bad_json";

pub const BAD_REQUEST: &'static str = "bad_request";

pub const BAD_STATE: &'static str = "bad_state";

pub const QUESTION_KIND: &'static str = "question_kind";

pub const OPTIONS_COUNT: &'static str = "options_count";

pub const INTERNAL: &'static str = "internal";

} // verus!
