//! Text building blocks: lowercase hex, decimal numerals and string
//! comparison, each against a spec of what the characters are.

use vstd::prelude::*;

verus! {

broadcast use vstd::utf8::encode_utf8_decode_utf8;

/// The text views of a list of strings.
pub open spec fn texts(v: Seq<String>) -> Seq<Seq<char>> {
    v.map_values(|s: String| s@)
}

/// The lowercase hex digit of `n < 16`.
pub open spec fn hex_digit(n: int) -> char {
    if n < 10 {
        (48 + n) as char
    } else {
        (87 + n) as char
    }
}

/// Two lowercase hex digits per byte, high nibble first.
pub open spec fn hex_spec(bytes: Seq<u8>) -> Seq<char> {
    Seq::new(
        2 * bytes.len(),
        |i: int|
            if i % 2 == 0 {
                hex_digit((bytes[i / 2] / 16) as int)
            } else {
                hex_digit((bytes[i / 2] % 16) as int)
            },
    )
}

/// The decimal digit of `n < 10`.
pub open spec fn decimal_digit(n: int) -> char {
    (48 + n) as char
}

/// The decimal numeral of `n`, without leading zeros.
pub open spec fn decimal_spec(n: nat) -> Seq<char>
    decreases n,
{
    if n < 10 {
        seq![decimal_digit(n as int)]
    } else {
        decimal_spec(n / 10) + seq![decimal_digit((n % 10) as int)]
    }
}

/// The lowercase hex numeral of `n`, without leading zeros.
pub open spec fn hex_numeral_spec(n: nat) -> Seq<char>
    decreases n,
{
    if n < 16 {
        seq![hex_digit(n as int)]
    } else {
        hex_numeral_spec(n / 16) + seq![hex_digit((n % 16) as int)]
    }
}

/// A one-character string holding the lowercase hex digit of `n`.
fn hex_digit_str(n: u8) -> (s: &'static str)
    requires
        n < 16,
    ensures
        s@ == seq![hex_digit(n as int)],
{
    let table = "0123456789abcdef";
    proof {
        reveal_strlit("0123456789abcdef");
    }
    assert(table.is_ascii());
    let s = table.substring_ascii(n as usize, n as usize + 1);
    assert(s@ =~= seq![hex_digit(n as int)]);
    s
}

/// Appends the two lowercase hex digits of `b`.
fn push_hex_byte(out: &mut String, b: u8)
    ensures
        final(out)@ == old(out)@ + seq![hex_digit((b / 16) as int), hex_digit((b % 16) as int)],
{
    out.append(hex_digit_str(b / 16));
    out.append(hex_digit_str(b % 16));
    assert(out@ =~= old(out)@ + seq![hex_digit((b / 16) as int), hex_digit((b % 16) as int)]);
}

/// Lowercase hex of `bytes`, two digits per byte.
pub fn hex(bytes: &[u8]) -> (s: String)
    ensures
        s@ == hex_spec(bytes@),
{
    let mut s = String::new();
    let n = bytes.len();
    for i in 0..n
        invariant
            n == bytes@.len(),
            s@ =~= hex_spec(bytes@.subrange(0, i as int)),
    {
        let ghost before = s@;
        push_hex_byte(&mut s, bytes[i]);
        assert(s@ =~= hex_spec(bytes@.subrange(0, i + 1))) by {
            let sub = bytes@.subrange(0, i + 1);
            assert forall|k: int| 0 <= k < s@.len() implies s@[k] == hex_spec(sub)[k] by {
                if k < 2 * i {
                    assert(s@[k] == before[k]);
                }
            }
        }
    }
    assert(bytes@.subrange(0, n as int) =~= bytes@);
    s
}

/// A one-character string holding the decimal digit of `n`.
fn decimal_digit_str(n: u64) -> (s: &'static str)
    requires
        n < 10,
    ensures
        s@ == seq![decimal_digit(n as int)],
{
    let table = "0123456789";
    proof {
        reveal_strlit("0123456789");
    }
    assert(table.is_ascii());
    let s = table.substring_ascii(n as usize, n as usize + 1);
    assert(s@ =~= seq![decimal_digit(n as int)]);
    s
}

/// Appends the decimal numeral of `n`.
pub fn push_decimal(out: &mut String, n: u64)
    ensures
        final(out)@ == old(out)@ + decimal_spec(n as nat),
    decreases n,
{
    if n >= 10 {
        push_decimal(out, n / 10);
    }
    out.append(decimal_digit_str(n % 10));
    assert(out@ =~= old(out)@ + decimal_spec(n as nat));
}

/// Appends the lowercase hex numeral of `n`.
pub fn push_hex_numeral(out: &mut String, n: u64)
    ensures
        final(out)@ == old(out)@ + hex_numeral_spec(n as nat),
    decreases n,
{
    if n >= 16 {
        push_hex_numeral(out, n / 16);
    }
    out.append(hex_digit_str((n % 16) as u8));
    assert(out@ =~= old(out)@ + hex_numeral_spec(n as nat));
}

/// Whether two strings hold the same characters.
pub fn str_eq(a: &str, b: &str) -> (eq: bool)
    ensures
        eq == (a@ == b@),
{
    let x = a.as_bytes();
    let y = b.as_bytes();
    if x.len() != y.len() {
        assert(vstd::utf8::decode_utf8(x@) == a@);
        return false;
    }
    let n = x.len();
    for i in 0..n
        invariant
            n == x@.len(),
            n == y@.len(),
            x@ == vstd::utf8::encode_utf8(a@),
            y@ == vstd::utf8::encode_utf8(b@),
            forall|k: int| 0 <= k < i ==> x@[k] == y@[k],
    {
        if x[i] != y[i] {
            assert(x@[i as int] != y@[i as int]);
            assert(a@ != b@);
            return false;
        }
    }
    assert(x@ =~= y@);
    assert(vstd::utf8::decode_utf8(x@) == a@);
    assert(vstd::utf8::decode_utf8(y@) == b@);
    true
}


/// The `{:?}` rendering of a string: quoted, with escapes.
pub uninterp spec fn debug_text(s: Seq<char>) -> Seq<char>;

/// `format!("{:?}", s)`: the quoted, escaped rendering of a string.
/// Nothing is claimed of its characters beyond its being that rendering.
#[verifier::external_body]
pub fn debug_str(s: &str) -> (d: String)
    ensures
        d@ == debug_text(s@),
{
    format!("{:?}", s)
}

/// Whether a char is an ASCII decimal digit.
pub open spec fn is_decimal_digit(c: char) -> bool {
    48 <= (c as u32) <= 57
}

/// The value of a run of decimal digits.
pub open spec fn decimal_value(d: Seq<char>) -> nat
    decreases d.len(),
{
    if d.len() == 0 {
        0
    } else {
        decimal_value(d.drop_last()) * 10 + ((d.last() as u32) - 48) as nat
    }
}

/// The digits `usize::from_str` reads: a leading `+` is dropped when
/// something follows it.
pub open spec fn unsigned_digits(s: Seq<char>) -> Seq<char> {
    if s.len() >= 2 && s[0] == '+' {
        s.drop_first()
    } else {
        s
    }
}

/// `usize::from_str`: an optional `+`, then one or more decimal digits
/// whose value fits in a `usize`.
pub open spec fn parse_usize_spec(s: Seq<char>) -> Option<nat> {
    parse_usize_spec_digits(unsigned_digits(s))
}

/// One or more decimal digits whose value fits in a `usize`.
pub open spec fn parse_usize_spec_digits(d: Seq<char>) -> Option<nat> {
    if d.len() == 0 || !(forall|i: int| 0 <= i < d.len() ==> is_decimal_digit(#[trigger] d[i])) {
        None
    } else if decimal_value(d) > usize::MAX {
        None
    } else {
        Some(decimal_value(d))
    }
}

/// A longer run of digits is worth at least as much as its prefix.
proof fn lemma_decimal_value_prefix(d: Seq<char>, k: int)
    requires
        0 <= k <= d.len(),
        forall|i: int| 0 <= i < d.len() ==> is_decimal_digit(#[trigger] d[i]),
    ensures
        decimal_value(d.subrange(0, k)) <= decimal_value(d),
    decreases d.len() - k,
{
    if k < d.len() {
        lemma_decimal_value_prefix(d, k + 1);
        assert(d.subrange(0, k + 1).drop_last() =~= d.subrange(0, k));
    } else {
        assert(d.subrange(0, k) =~= d);
    }
}

/// Digits whose prefix already overflows a `usize` never parse.
proof fn lemma_overflow_refused(d: Seq<char>, k: int, v: nat)
    requires
        0 <= k < d.len(),
        d.len() > 0,
        v == decimal_value(d.subrange(0, k)),
        is_decimal_digit(d[k]),
        v * 10 + ((d[k] as u32) - 48) > usize::MAX,
    ensures
        parse_usize_spec_digits(d) is None,
{
    assert(d.subrange(0, k + 1).drop_last() =~= d.subrange(0, k));
    if forall|i: int| 0 <= i < d.len() ==> is_decimal_digit(#[trigger] d[i]) {
        lemma_decimal_value_prefix(d, k + 1);
    }
}

/// `s.parse::<usize>()`, as an option.
pub fn parse_usize(s: &str) -> (r: Option<usize>)
    ensures
        match r {
            Some(v) => parse_usize_spec(s@) == Some(v as nat),
            None => parse_usize_spec(s@) is None,
        },
{
    let n = s.unicode_len();
    let start: usize = if n >= 2 && s.get_char(0) == '+' {
        1
    } else {
        0
    };
    let ghost d = unsigned_digits(s@);
    assert(d =~= s@.subrange(start as int, n as int));
    if start == n {
        return None;
    }
    let mut v: usize = 0;
    let mut k: usize = start;
    while k < n
        invariant
            n == s@.len(),
            start <= k <= n,
            d == s@.subrange(start as int, n as int),
            d == unsigned_digits(s@),
            d.len() > 0,
            forall|i: int| 0 <= i < k - start ==> is_decimal_digit(#[trigger] d[i]),
            v as nat == decimal_value(d.subrange(0, k - start)),
        decreases n - k,
    {
        let c = s.get_char(k);
        assert(c == d[k - start]);
        let u = c as u32;
        if u < 48 || u > 57 {
            assert(!is_decimal_digit(d[k - start]));
            return None;
        }
        let digit = (u - 48) as usize;
        assert(d.subrange(0, k + 1 - start).drop_last() =~= d.subrange(0, k - start));
        match v.checked_mul(10) {
            Some(t) => match t.checked_add(digit) {
                Some(w) => {
                    v = w;
                },
                None => {
                    proof {
                        lemma_overflow_refused(d, (k - start) as int, v as nat);
                    }
                    return None;
                },
            },
            None => {
                proof {
                    lemma_overflow_refused(d, (k - start) as int, v as nat);
                }
                return None;
            },
        }
        k = k + 1;
    }
    assert(d.subrange(0, n - start) =~= d);
    Some(v)
}

} // verus!
