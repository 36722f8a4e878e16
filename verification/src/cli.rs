//! The bin's argument handling.

use crate::text::{str_eq, texts};
use vstd::prelude::*;

verus! {

/// The index of the first argument equal to `flag`, if any.
pub open spec fn first_position(args: Seq<Seq<char>>, flag: Seq<char>) -> Option<nat>
    decreases args.len(),
{
    if args.len() == 0 {
        None
    } else if args[0] == flag {
        Some(0)
    } else {
        match first_position(args.drop_first(), flag) {
            Some(i) => Some(i + 1),
            None => None,
        }
    }
}

/// The argument after the first occurrence of `flag`, if both exist.
pub open spec fn flag_value_spec(args: Seq<Seq<char>>, flag: Seq<char>) -> Option<Seq<char>> {
    match first_position(args, flag) {
        Some(i) => if i + 1 < args.len() {
            Some(args[i + 1int])
        } else {
            None
        },
        None => None,
    }
}

proof fn lemma_first_position(args: Seq<Seq<char>>, flag: Seq<char>, i: int)
    requires
        0 <= i <= args.len(),
        forall|k: int| 0 <= k < i ==> args[k] != flag,
    ensures
        i < args.len() && args[i] == flag ==> first_position(args, flag) == Some(i as nat),
        i == args.len() ==> first_position(args, flag) is None,
    decreases i,
{
    if i > 0 {
        let rest = args.drop_first();
        assert forall|k: int| 0 <= k < i - 1 implies rest[k] != flag by {
            assert(rest[k] == args[k + 1]);
        }
        lemma_first_position(rest, flag, i - 1);
    }
}

/// The value after the first `flag` argument (`--record <path>`).
pub fn flag_value(args: &[String], flag: &str) -> (r: Option<String>)
    ensures
        match r {
            Some(v) => flag_value_spec(texts(args@), flag@) == Some(v@),
            None => flag_value_spec(texts(args@), flag@) is None,
        },
{
    let ghost views = texts(args@);
    let n = args.len();
    for i in 0..n
        invariant
            n == args@.len(),
            views == texts(args@),
            forall|k: int| 0 <= k < i ==> views[k] != flag@,
    {
        assert(views[i as int] == args@[i as int]@);
        if str_eq(args[i].as_str(), flag) {
            proof {
                lemma_first_position(views, flag@, i as int);
            }
            if i + 1 < n {
                assert(views[i + 1] == args@[i + 1]@);
                return Some(args[i + 1].clone());
            }
            return None;
        }
    }
    proof {
        lemma_first_position(views, flag@, n as int);
    }
    None
}

} // verus!
