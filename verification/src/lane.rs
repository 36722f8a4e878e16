//! The measurement lane's wire-side pieces: its typed failures and the
//! reading of a `place` option label back into the decision it names.

use crate::engine::label_text;
use crate::text::{
    debug_str, debug_text, decimal_digit, decimal_spec, decimal_value, is_decimal_digit,
    parse_usize, parse_usize_spec, unsigned_digits,
};
use vstd::prelude::*;
use vstd::string::StrSliceExecFns;

verus! {

/// A typed failure surfaced by the lane (envelope errors carry their code).
#[derive(Clone, Debug, PartialEq)]
pub enum LaneError {
    Envelope { code: String, message: String },
    Outcome(String),
}

/// The index of the first `'i'` in `s`, or `s.len()` when there is none.
pub open spec fn first_i(s: Seq<char>) -> nat
    decreases s.len(),
{
    if s.len() == 0 {
        0
    } else if s[0] == 'i' {
        0
    } else {
        1 + first_i(s.drop_first())
    }
}

/// The decision a label names: `h`, then exactly `0` or `1` up to the
/// first `i`, then a `usize` numeral.
pub open spec fn parse_label_spec(label: Seq<char>) -> Option<(bool, nat)> {
    if label.len() == 0 || label[0] != 'h' {
        None
    } else {
        let rest = label.drop_first();
        let j = first_i(rest) as int;
        if j >= rest.len() {
            None
        } else {
            let h = rest.subrange(0, j);
            let index = parse_usize_spec(rest.subrange(j + 1, rest.len() as int));
            if (h != seq!['0'] && h != seq!['1']) || index is None {
                None
            } else {
                Some((h == seq!['1'], index->0))
            }
        }
    }
}

proof fn lemma_first_i_bounds(s: Seq<char>)
    ensures
        first_i(s) <= s.len(),
        first_i(s) < s.len() ==> s[first_i(s) as int] == 'i',
        forall|k: int| 0 <= k < first_i(s) ==> s[k] != 'i',
    decreases s.len(),
{
    if s.len() > 0 && s[0] != 'i' {
        lemma_first_i_bounds(s.drop_first());
        assert forall|k: int| 0 <= k < first_i(s) implies s[k] != 'i' by {
            if k > 0 {
                assert(s[k] == s.drop_first()[k - 1]);
            }
        }
    }
}

proof fn lemma_first_i_at(s: Seq<char>, j: int)
    requires
        0 <= j < s.len(),
        s[j] == 'i',
        forall|k: int| 0 <= k < j ==> s[k] != 'i',
    ensures
        first_i(s) == j,
    decreases j,
{
    if j > 0 {
        lemma_first_i_at(s.drop_first(), j - 1);
    }
}

/// Reads a `place` option label back into `(use_hold, index)`.
pub fn parse_label(label: &str) -> (r: Result<(bool, usize), LaneError>)
    ensures
        match r {
            Ok((b, i)) => parse_label_spec(label@) == Some((b, i as nat)),
            Err(e) => parse_label_spec(label@) is None && (e matches LaneError::Outcome(m) && m@
                == "bad label "@ + debug_text(label@)),
        },
{
    let n = label.unicode_len();
    if n == 0 || label.get_char(0) != 'h' {
        return Err(bad_label(label));
    }
    let ghost rest = label@.drop_first();
    proof {
        lemma_first_i_bounds(rest);
    }
    let mut j: usize = 1;
    while j < n && label.get_char(j) != 'i'
        invariant
            n == label@.len(),
            rest == label@.drop_first(),
            1 <= j <= n,
            forall|k: int| 0 <= k < j - 1 ==> rest[k] != 'i',
        decreases n - j,
    {
        assert(rest[j - 1] == label@[j as int]);
        j = j + 1;
    }
    if j == n {
        assert(first_i(rest) >= rest.len()) by {
            if first_i(rest) < rest.len() {
                assert(rest[first_i(rest) as int] == 'i');
            }
        }
        return Err(bad_label(label));
    }
    proof {
        assert(rest[j - 1] == 'i');
        lemma_first_i_at(rest, j - 1);
    }
    let use_hold = if j == 2 && label.get_char(1) == '0' {
        assert(rest.subrange(0, 1) =~= seq!['0']);
        false
    } else if j == 2 && label.get_char(1) == '1' {
        assert(rest.subrange(0, 1) =~= seq!['1']);
        true
    } else {
        assert(rest.subrange(0, j - 1) != seq!['0'] && rest.subrange(0, j - 1) != seq!['1']) by {
            if j == 2 {
                assert(rest.subrange(0, 1)[0] == label@[1]);
            } else {
                assert(rest.subrange(0, j - 1).len() != 1);
            }
        }
        return Err(bad_label(label));
    };
    let digits = label.substring_char(j + 1, n);
    assert(digits@ =~= rest.subrange(j as int, rest.len() as int));
    assert(first_i(rest) == j - 1);
    assert(rest.subrange(0, j - 1) == seq![if use_hold { '1' } else { '0' }]);
    assert(rest == label@.drop_first());
    assert(label@.len() > 0 && label@[0] == 'h');
    match parse_usize(digits) {
        Some(i) => {
            assert(parse_usize_spec(rest.subrange((j - 1) + 1, rest.len() as int)) == Some(i as nat));
            assert(seq!['0'][0] != seq!['1'][0]);
            assert(rest.subrange(0, j - 1) == seq!['1'] <==> use_hold);
            Ok((use_hold, i))
        },
        None => Err(bad_label(label)),
    }
}

fn bad_label(label: &str) -> (e: LaneError)
    ensures
        e matches LaneError::Outcome(m) && m@ == "bad label "@ + debug_text(label@),
{
    let mut m = String::from_str("bad label ");
    let quoted = debug_str(label);
    m.append(quoted.as_str());
    LaneError::Outcome(m)
}

/// A decimal numeral is one or more digits worth the number.
pub proof fn lemma_decimal_roundtrip(n: nat)
    ensures
        decimal_spec(n).len() > 0,
        forall|i: int| 0 <= i < decimal_spec(n).len() ==> is_decimal_digit(#[trigger] decimal_spec(n)[i]),
        decimal_value(decimal_spec(n)) == n,
    decreases n,
{
    let k = (n % 10) as int;
    assert(decimal_digit(k) as u32 == 48 + k);
    if n >= 10 {
        lemma_decimal_roundtrip(n / 10);
        let s = decimal_spec(n);
        assert(s.drop_last() =~= decimal_spec(n / 10));
        assert(s.last() == decimal_digit(k));
        assert(decimal_value(s) == decimal_value(s.drop_last()) * 10 + k);
        assert(n == (n / 10) * 10 + k);
        assert forall|i: int| 0 <= i < s.len() implies is_decimal_digit(#[trigger] s[i]) by {
            if i < s.len() - 1 {
                assert(s[i] == decimal_spec(n / 10)[i]);
            }
        }
    } else {
        let s = decimal_spec(n);
        assert(s.drop_last() =~= Seq::<char>::empty());
        assert(decimal_value(Seq::<char>::empty()) == 0);
        assert(s.last() == decimal_digit(k));
        assert(decimal_value(s) == decimal_value(s.drop_last()) * 10 + k);
    }
}

/// Labels read back: the label of a decision parses to that decision.
pub proof fn lemma_label_roundtrip(use_hold: bool, index: nat)
    requires
        index <= usize::MAX,
    ensures
        parse_label_spec(label_text(use_hold, index)) == Some((use_hold, index)),
{
    let l = label_text(use_hold, index);
    let rest = l.drop_first();
    let d = decimal_spec(index);
    lemma_decimal_roundtrip(index);
    assert(rest[1] == 'i');
    assert(rest[0] != 'i');
    lemma_first_i_at(rest, 1);
    assert(rest.subrange(0, 1) =~= seq![if use_hold { '1' } else { '0' }]);
    assert(rest.subrange(2, rest.len() as int) =~= d);
    assert(d[0] != '+');
    assert(unsigned_digits(d) == d);
    assert(parse_usize_spec(d) == Some(index));
    assert(l.len() > 0 && l[0] == 'h');
    assert(first_i(rest) == 1);
    assert(rest.subrange(2int, rest.len() as int) == d);
    let h = rest.subrange(0, 1);
    assert(seq!['0'][0] != seq!['1'][0]);
    assert(h == seq!['1'] <==> use_hold);
    assert(h == seq!['0'] || h == seq!['1']);
}


/// What one decision does to the pieces under the hold rule.
#[derive(Clone, Copy, Debug, PartialEq, Eq)]
pub struct HoldSwap<P> {
    /// The piece that is placed.
    pub piece: P,
    /// The hold slot afterwards.
    pub held: Option<P>,
    /// Whether the preview was consumed (a new one is drawn from the bag).
    pub draw_next: bool,
}

/// The hold rule: without hold the current piece is placed; with hold
/// the current piece goes to the hold slot and the held piece is placed,
/// or, when the slot was empty, the preview is placed and a new preview
/// is drawn.
pub fn hold_swap<P: Copy>(use_hold: bool, cur: P, next: P, held: Option<P>) -> (s: HoldSwap<P>)
    ensures
        !use_hold ==> s.piece == cur && s.held == held && !s.draw_next,
        use_hold && held is Some ==> s.piece == held->0 && s.held == Some(cur) && !s.draw_next,
        use_hold && held is None ==> s.piece == next && s.held == Some(cur) && s.draw_next,
{
    if use_hold {
        match held {
            Some(h) => HoldSwap { piece: h, held: Some(cur), draw_next: false },
            None => HoldSwap { piece: next, held: Some(cur), draw_next: true },
        }
    } else {
        HoldSwap { piece: cur, held, draw_next: false }
    }
}

} // verus!
