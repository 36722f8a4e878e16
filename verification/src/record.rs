//! The trajectory submission manifest: a row count, the BLAKE3 of the
//! rows file, the genome digest, and an Ed25519 signature over
//! `reflexer-trajectory-v1\n{rows}\n{rows_blake3}\n{genome}\n` with the
//! per-machine submission key. The public half rides the manifest, so
//! anyone can verify it against the rows bytes.

use crate::crypto::{
    blake3_digest, blake3_hash, ed25519_accepts, ed25519_key_decodes, ed25519_key_valid,
    ed25519_public, ed25519_public_key, ed25519_sign, ed25519_signature, ed25519_verify,
};
use crate::le::{array32_at, array64_at};
use crate::proto::PROTO;
use crate::lane::lemma_decimal_roundtrip;
use crate::text::{decimal_digit, decimal_spec, decimal_value, hex, hex_digit, hex_spec, is_decimal_digit, push_decimal, str_eq};
use vstd::prelude::*;
use vstd::string::StrSliceExecFns;
use vstd::utf8::encode_utf8;

verus! {

/// The signed message's domain tag (version-pinned).
pub const TRAJECTORY_DOMAIN: &'static str = "reflexer-trajectory-v1";

/// The manifest written at clean EOF.
#[derive(Clone, Debug)]
pub struct Manifest {
    pub proto: u32,
    pub rows: u64,
    /// BLAKE3 of the exact rows-file bytes, lowercase hex.
    pub rows_blake3: String,
    pub genome: String,
    /// The verifying (public) key, hex: the signer's identity.
    pub verifying_key: String,
    /// Ed25519 signature over the trajectory message, hex.
    pub signature: String,
}

/// The characters the signature covers.
pub open spec fn trajectory_message(rows: u64, rows_blake3: Seq<char>, genome: Seq<char>) -> Seq<
    char,
> {
    TRAJECTORY_DOMAIN@ + seq!['\n'] + decimal_spec(rows as nat) + seq!['\n'] + rows_blake3 + seq![
        '\n',
    ] + genome + seq!['\n']
}

/// A nonzero number's decimal numeral does not start with `0`.
proof fn lemma_decimal_leading_digit(n: nat)
    requires
        n >= 1,
    ensures
        decimal_spec(n)[0] != '0',
    decreases n,
{
    if n < 10 {
        assert(decimal_digit(n as int) as u32 == 48 + n);
    } else {
        lemma_decimal_leading_digit(n / 10);
        lemma_decimal_roundtrip(n / 10);
        assert(decimal_spec(n)[0] == decimal_spec(n / 10)[0]);
    }
}

/// The signed text is four lines: the domain tag, the row count as a
/// canonical decimal numeral (digits only, no leading zero, reading back
/// as the count), the rows digest, and the genome.
pub proof fn lemma_trajectory_message_lines(rows: u64, rows_blake3: Seq<char>, genome: Seq<char>)
    ensures
        exists|digits: Seq<char>|
            {
                &&& digits.len() > 0
                &&& forall|i: int| 0 <= i < digits.len() ==> is_decimal_digit(#[trigger] digits[i])
                &&& (digits.len() == 1 || digits[0] != '0')
                &&& decimal_value(digits) == rows
                &&& trajectory_message(rows, rows_blake3, genome) == TRAJECTORY_DOMAIN@ + seq!['\n']
                    + digits + seq!['\n'] + rows_blake3 + seq!['\n'] + genome + seq!['\n']
            },
{
    let digits = decimal_spec(rows as nat);
    lemma_decimal_roundtrip(rows as nat);
    if rows >= 1 {
        lemma_decimal_leading_digit(rows as nat);
    } else {
        assert(digits.len() == 1);
    }
    assert(forall|i: int| 0 <= i < digits.len() ==> is_decimal_digit(#[trigger] digits[i]));
}

/// The exact text the signature covers.
pub fn signed_message(rows: u64, rows_blake3: &str, genome: &str) -> (s: String)
    ensures
        s@ == trajectory_message(rows, rows_blake3@, genome@),
{
    let newline = "\n";
    proof {
        reveal_strlit("\n");
    }
    let mut s = String::from_str(TRAJECTORY_DOMAIN);
    s.append(newline);
    push_decimal(&mut s, rows);
    s.append(newline);
    s.append(rows_blake3);
    s.append(newline);
    s.append(genome);
    s.append(newline);
    assert(s@ =~= trajectory_message(rows, rows_blake3@, genome@));
    s
}

// ── hex decoding ─────────────────────────────────────────────────────────

/// `char::is_whitespace`: the Unicode White_Space characters.
pub open spec fn is_whitespace(c: char) -> bool {
    let u = c as u32;
    (9 <= u <= 13) || u == 32 || u == 0x85 || u == 0xa0 || u == 0x1680 || (0x2000 <= u <= 0x200a)
        || u == 0x2028 || u == 0x2029 || u == 0x202f || u == 0x205f || u == 0x3000
}

/// Leading whitespace removed.
pub open spec fn trim_start(s: Seq<char>) -> Seq<char>
    decreases s.len(),
{
    if s.len() > 0 && is_whitespace(s[0]) {
        trim_start(s.drop_first())
    } else {
        s
    }
}

/// Trailing whitespace removed.
pub open spec fn trim_end(s: Seq<char>) -> Seq<char>
    decreases s.len(),
{
    if s.len() > 0 && is_whitespace(s.last()) {
        trim_end(s.drop_last())
    } else {
        s
    }
}

/// `str::trim`: leading and trailing whitespace removed.
pub open spec fn trim_spec(s: Seq<char>) -> Seq<char> {
    trim_end(trim_start(s))
}

/// The value of a hex digit (either case), or -1.
pub open spec fn hex_value(c: char) -> int {
    let u = c as u32;
    if 48 <= u <= 57 {
        u - 48
    } else if 97 <= u <= 102 {
        u - 87
    } else if 65 <= u <= 70 {
        u - 55
    } else {
        -1
    }
}

/// Whether two characters parse as one byte in base 16 (`u8::from_str_radix`,
/// which also takes a leading `+`).
pub open spec fn pair_ok(a: char, b: char) -> bool {
    if a == '+' {
        hex_value(b) >= 0
    } else {
        hex_value(a) >= 0 && hex_value(b) >= 0
    }
}

/// The byte two characters parse to.
pub open spec fn pair_value(a: char, b: char) -> u8 {
    if a == '+' {
        hex_value(b) as u8
    } else {
        (16 * hex_value(a) + hex_value(b)) as u8
    }
}

/// Every character is ASCII.
pub open spec fn all_ascii(s: Seq<char>) -> bool {
    forall|i: int| 0 <= i < s.len() ==> (s[i] as u32) < 128
}

/// The bytes a hex string decodes to: trimmed, ASCII, of even length, and
/// two base-16 digits per byte; otherwise nothing.
pub open spec fn unhex_spec(s: Seq<char>) -> Option<Seq<u8>> {
    let t = trim_spec(s);
    if !all_ascii(t) || t.len() % 2 != 0 {
        None
    } else if forall|i: int| 0 <= i < t.len() / 2 ==> #[trigger] pair_ok(t[2 * i], t[2 * i + 1]) {
        Some(Seq::new((t.len() / 2) as nat, |i: int| pair_value(t[2 * i], t[2 * i + 1])))
    } else {
        None
    }
}

fn is_whitespace_char(c: char) -> (b: bool)
    ensures
        b == is_whitespace(c),
{
    let u = c as u32;
    (9 <= u && u <= 13) || u == 32 || u == 0x85 || u == 0xa0 || u == 0x1680 || (0x2000 <= u && u
        <= 0x200a) || u == 0x2028 || u == 0x2029 || u == 0x202f || u == 0x205f || u == 0x3000
}

fn hex_value_char(c: char) -> (v: i32)
    ensures
        v == hex_value(c),
{
    let u = c as u32;
    if 48 <= u && u <= 57 {
        (u - 48) as i32
    } else if 97 <= u && u <= 102 {
        (u - 87) as i32
    } else if 65 <= u && u <= 70 {
        (u - 55) as i32
    } else {
        -1
    }
}

proof fn lemma_trim_start_step(s: Seq<char>, i: int)
    requires
        0 <= i < s.len(),
        is_whitespace(s[i]),
    ensures
        trim_start(s.subrange(i, s.len() as int)) == trim_start(s.subrange(i + 1, s.len() as int)),
{
    assert(s.subrange(i, s.len() as int).drop_first() =~= s.subrange(i + 1, s.len() as int));
}

proof fn lemma_trim_end_step(s: Seq<char>, j: int)
    requires
        0 < j <= s.len(),
        is_whitespace(s[j - 1]),
    ensures
        trim_end(s.subrange(0, j)) == trim_end(s.subrange(0, j - 1)),
{
    assert(s.subrange(0, j).drop_last() =~= s.subrange(0, j - 1));
}

/// Hex text to bytes: `s` trimmed, then two base-16 digits per byte.
/// Anything else (odd length, a non-digit, non-ASCII text) is `None`.
pub fn unhex(s: &str) -> (r: Option<Vec<u8>>)
    ensures
        match r {
            Some(v) => unhex_spec(s@) == Some(v@),
            None => unhex_spec(s@) is None,
        },
{
    let n = s.unicode_len();
    let ghost cs = s@;
    let mut lo: usize = 0;
    assert(cs.subrange(0, n as int) =~= cs);
    while lo < n && is_whitespace_char(s.get_char(lo))
        invariant
            n == cs.len(),
            cs == s@,
            lo <= n,
            trim_start(cs) == trim_start(cs.subrange(lo as int, n as int)),
        decreases n - lo,
    {
        proof {
            lemma_trim_start_step(cs, lo as int);
        }
        lo = lo + 1;
    }
    let ghost st = cs.subrange(lo as int, n as int);
    assert(trim_start(st) == st);
    let mut hi: usize = n;
    assert(st.subrange(0, (n - lo) as int) =~= st);
    while hi > lo && is_whitespace_char(s.get_char(hi - 1))
        invariant
            n == cs.len(),
            cs == s@,
            lo <= hi <= n,
            st == cs.subrange(lo as int, n as int),
            trim_end(st) == trim_end(st.subrange(0, hi - lo)),
        decreases hi - lo,
    {
        assert(st[hi - lo - 1] == cs[hi - 1]);
        proof {
            lemma_trim_end_step(st, (hi - lo) as int);
        }
        hi = hi - 1;
    }
    let ghost t = cs.subrange(lo as int, hi as int);
    assert(st.subrange(0, hi - lo) =~= t);
    assert(trim_end(t) == t);
    assert(trim_spec(cs) == t);
    let len = hi - lo;
    for k in 0..len
        invariant
            n == cs.len(),
            cs == s@,
            lo <= hi <= n,
            len == hi - lo,
            t == cs.subrange(lo as int, hi as int),
            trim_spec(cs) == t,
            forall|i: int| 0 <= i < k ==> (t[i] as u32) < 128,
    {
        if s.get_char(lo + k) as u32 >= 128 {
            assert(t[k as int] == cs[lo + k]);
            return None;
        }
    }
    assert(all_ascii(t));
    if len % 2 != 0 {
        return None;
    }
    let mut out: Vec<u8> = Vec::new();
    let half = len / 2;
    for i in 0..half
        invariant
            n == cs.len(),
            cs == s@,
            lo <= hi <= n,
            len == hi - lo,
            half == len / 2,
            len % 2 == 0,
            t == cs.subrange(lo as int, hi as int),
            trim_spec(cs) == t,
            all_ascii(t),
            out@.len() == i,
            forall|j: int| 0 <= j < i ==> #[trigger] pair_ok(t[2 * j], t[2 * j + 1]),
            forall|j: int| 0 <= j < i ==> #[trigger] out@[j] == pair_value(t[2 * j], t[2 * j + 1]),
    {
        let a = s.get_char(lo + 2 * i);
        let b = s.get_char(lo + 2 * i + 1);
        assert(a == t[2 * i as int]);
        assert(b == t[2 * i + 1]);
        let vb = hex_value_char(b);
        if a == '+' {
            if vb < 0 {
                assert(!pair_ok(t[2 * i as int], t[2 * i + 1]));
                return None;
            }
            out.push(vb as u8);
        } else {
            let va = hex_value_char(a);
            if va < 0 || vb < 0 {
                assert(!pair_ok(t[2 * i as int], t[2 * i + 1]));
                return None;
            }
            out.push((16 * va + vb) as u8);
        }
    }
    assert(out@ =~= Seq::new((t.len() / 2) as nat, |i: int| pair_value(t[2 * i], t[2 * i + 1])));
    Some(out)
}


/// Hex decoding undoes hex encoding.
pub proof fn lemma_unhex_hex(b: Seq<u8>)
    ensures
        unhex_spec(hex_spec(b)) == Some(b),
{
    let t = hex_spec(b);
    assert forall|i: int| 0 <= i < t.len() implies hex_value(#[trigger] t[i]) >= 0 && (t[i] as u32)
        < 128 && t[i] != '+' && !is_whitespace(t[i]) by {
        let d = if i % 2 == 0 {
            b[i / 2] / 16
        } else {
            b[i / 2] % 16
        };
        assert(0 <= d < 16);
        assert(t[i] == hex_digit(d as int));
    }
    if t.len() > 0 {
        assert(!is_whitespace(t[0]));
        assert(!is_whitespace(t.last()));
    }
    assert(trim_start(t) == t);
    assert(trim_end(t) == t);
    assert(trim_spec(t) == t);
    assert forall|i: int| 0 <= i < t.len() / 2 implies #[trigger] pair_ok(t[2 * i], t[2 * i + 1])
        && pair_value(t[2 * i], t[2 * i + 1]) == b[i] by {
        assert(t[2 * i] == hex_digit((b[i] / 16) as int));
        assert(t[2 * i + 1] == hex_digit((b[i] % 16) as int));
        assert(hex_value(t[2 * i]) == b[i] / 16);
        assert(hex_value(t[2 * i + 1]) == b[i] % 16);
    }
    assert(Seq::new((t.len() / 2) as nat, |i: int| pair_value(t[2 * i], t[2 * i + 1])) =~= b);
}

/// Lowercase hex is injective: equal hex means equal bytes.
pub proof fn lemma_hex_injective(a: Seq<u8>, b: Seq<u8>)
    requires
        hex_spec(a) == hex_spec(b),
    ensures
        a == b,
{
    lemma_unhex_hex(a);
    lemma_unhex_hex(b);
}

// ── verification ─────────────────────────────────────────────────────────

/// Why a manifest does not verify against the rows bytes, if it does not,
/// in the order the checks run: the rows digest, the key hex, its length,
/// the key itself, the signature hex, its length, the signature.
pub open spec fn manifest_refusal(m: Manifest, rows: Seq<u8>) -> Option<Seq<char>> {
    if hex_spec(blake3_digest(rows)) != m.rows_blake3@ {
        Some("rows blake3 mismatch"@)
    } else {
        match unhex_spec(m.verifying_key@) {
            None => Some("bad verifying key hex"@),
            Some(key) => if key.len() != 32 {
                Some("verifying key must be 32 bytes"@)
            } else if !ed25519_key_decodes(key) {
                Some("bad verifying key"@)
            } else {
                match unhex_spec(m.signature@) {
                    None => Some("bad signature hex"@),
                    Some(sig) => if sig.len() != 64 {
                        Some("signature must be 64 bytes"@)
                    } else if !ed25519_accepts(
                        key,
                        encode_utf8(trajectory_message(m.rows, m.rows_blake3@, m.genome@)),
                        sig,
                    ) {
                        Some("signature does not verify"@)
                    } else {
                        None
                    },
                }
            },
        }
    }
}

/// Verifies a manifest against rows-file bytes: the public half anyone
/// can run.
pub fn verify_manifest(manifest: &Manifest, rows_bytes: &[u8]) -> (r: Result<(), &'static str>)
    ensures
        match r {
            Ok(()) => manifest_refusal(*manifest, rows_bytes@) is None,
            Err(e) => manifest_refusal(*manifest, rows_bytes@) == Some(e@),
        },
{
    let digest = hex(&blake3_hash(rows_bytes));
    if !str_eq(digest.as_str(), manifest.rows_blake3.as_str()) {
        return Err("rows blake3 mismatch");
    }
    let key_bytes = match unhex(manifest.verifying_key.as_str()) {
        Some(b) => b,
        None => return Err("bad verifying key hex"),
    };
    if key_bytes.len() != 32 {
        return Err("verifying key must be 32 bytes");
    }
    let key = array32_at(key_bytes.as_slice(), 0);
    assert(key@ =~= key_bytes@);
    if !ed25519_key_valid(&key) {
        return Err("bad verifying key");
    }
    let sig_bytes = match unhex(manifest.signature.as_str()) {
        Some(b) => b,
        None => return Err("bad signature hex"),
    };
    if sig_bytes.len() != 64 {
        return Err("signature must be 64 bytes");
    }
    let sig = array64_at(sig_bytes.as_slice(), 0);
    assert(sig@ =~= sig_bytes@);
    let msg = signed_message(manifest.rows, manifest.rows_blake3.as_str(), manifest.genome.as_str());
    if !ed25519_verify(&key, msg.as_str().as_bytes(), &sig) {
        return Err("signature does not verify");
    }
    Ok(())
}

/// The manifest for a finished rows file: `rows` rows whose bytes hash to
/// `rows_digest`, served by `genome`, signed with the 32-byte seed.
pub fn manifest_for(rows: u64, rows_digest: &[u8; 32], genome: &str, seed: &[u8; 32]) -> (m:
    Manifest)
    ensures
        m.proto == PROTO,
        m.rows == rows,
        m.rows_blake3@ == hex_spec(rows_digest@),
        m.genome@ == genome@,
        m.verifying_key@ == hex_spec(ed25519_public_key(seed@)),
        m.signature@ == hex_spec(
            ed25519_signature(
                seed@,
                encode_utf8(trajectory_message(rows, hex_spec(rows_digest@), genome@)),
            ),
        ),
        ed25519_public_key(seed@).len() == 32,
        ed25519_key_decodes(ed25519_public_key(seed@)),
        ed25519_signature(
            seed@,
            encode_utf8(trajectory_message(rows, hex_spec(rows_digest@), genome@)),
        ).len() == 64,
        ed25519_accepts(
            ed25519_public_key(seed@),
            encode_utf8(trajectory_message(rows, hex_spec(rows_digest@), genome@)),
            ed25519_signature(
                seed@,
                encode_utf8(trajectory_message(rows, hex_spec(rows_digest@), genome@)),
            ),
        ),
{
    let rows_blake3 = hex(rows_digest);
    let key = ed25519_public(seed);
    let msg = signed_message(rows, rows_blake3.as_str(), genome);
    let sig = ed25519_sign(seed, msg.as_str().as_bytes());
    Manifest {
        proto: PROTO,
        rows,
        rows_blake3,
        genome: String::from_str(genome),
        verifying_key: hex(&key),
        signature: hex(&sig),
    }
}

/// A manifest sealed over a rows file verifies against that rows file:
/// the digest is the rows' BLAKE3, and the key and signature are the
/// seed's public key and its signature on the trajectory message (with
/// the facts Ed25519 gives of them).
pub proof fn lemma_sealed_manifest_verifies(m: Manifest, rows: Seq<u8>, seed: Seq<u8>)
    requires
        m.rows_blake3@ == hex_spec(blake3_digest(rows)),
        m.verifying_key@ == hex_spec(ed25519_public_key(seed)),
        m.signature@ == hex_spec(
            ed25519_signature(seed, encode_utf8(trajectory_message(m.rows, m.rows_blake3@, m.genome@))),
        ),
        ed25519_public_key(seed).len() == 32,
        ed25519_key_decodes(ed25519_public_key(seed)),
        ed25519_signature(
            seed,
            encode_utf8(trajectory_message(m.rows, m.rows_blake3@, m.genome@)),
        ).len() == 64,
        ed25519_accepts(
            ed25519_public_key(seed),
            encode_utf8(trajectory_message(m.rows, m.rows_blake3@, m.genome@)),
            ed25519_signature(seed, encode_utf8(trajectory_message(m.rows, m.rows_blake3@, m.genome@))),
        ),
    ensures
        manifest_refusal(m, rows) is None,
{
    lemma_unhex_hex(ed25519_public_key(seed));
    lemma_unhex_hex(
        ed25519_signature(seed, encode_utf8(trajectory_message(m.rows, m.rows_blake3@, m.genome@))),
    );
}

/// A verifying manifest binds its rows: the rows hash to its digest and
/// its key signed its row count, digest and genome. So two rows files
/// that both verify under one manifest have the same BLAKE3 digest.
pub proof fn lemma_verified_manifest_binds_rows(m: Manifest, rows: Seq<u8>, other: Seq<u8>)
    requires
        manifest_refusal(m, rows) is None,
    ensures
        hex_spec(blake3_digest(rows)) == m.rows_blake3@,
        unhex_spec(m.verifying_key@) is Some,
        unhex_spec(m.signature@) is Some,
        ed25519_accepts(
            unhex_spec(m.verifying_key@)->0,
            encode_utf8(trajectory_message(m.rows, m.rows_blake3@, m.genome@)),
            unhex_spec(m.signature@)->0,
        ),
        manifest_refusal(m, other) is None ==> blake3_digest(other) == blake3_digest(rows),
{
    if manifest_refusal(m, other) is None {
        lemma_hex_injective(blake3_digest(other), blake3_digest(rows));
    }
}


/// The per-machine submission seed from the key file's bytes: exactly 32.
pub fn seed_from_bytes(bytes: &[u8]) -> (r: Result<[u8; 32], String>)
    ensures
        match r {
            Ok(seed) => bytes@.len() == 32 && seed@ == bytes@,
            Err(m) => bytes@.len() != 32 && m@ == "key file must be 32 bytes, got "@
                + decimal_spec(bytes@.len()),
        },
{
    if bytes.len() != 32 {
        let mut m = String::from_str("key file must be 32 bytes, got ");
        push_decimal(&mut m, bytes.len() as u64);
        return Err(m);
    }
    let seed = array32_at(bytes, 0);
    assert(seed@ =~= bytes@);
    Ok(seed)
}

} // verus!
