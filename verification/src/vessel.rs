//! The vessel: the public decision-artifact format.
//!
//! A vessel is a signed header, an Ed25519 signature, and an opaque
//! payload:
//!
//! ```text
//! off  size  field
//! 0    8     magic            "RFLEXVSL"
//! 8    4     format_version   u32 LE (this crate: 1)
//! 12   4     flags            u32 LE; bit0 class (0 PUBLIC, 1 HOSTED-ONLY); other bits 0
//! 16   4     key_id           u32 LE
//! 20   8     artifact_version u64 LE
//! 28   32    parent_commitment
//! 60   8     payload_len      u64 LE
//! 68   64    signature        ed25519-strict over bytes[0..68] || payload
//! 132  n     payload
//! ```
//!
//! Reading is fail-closed: structure and length caps first, then key
//! resolution against the pin table, then the strict signature, then the
//! class (a hosted-only refusal is only ever said of an authentic vessel).

use crate::crypto::{blake3_digest, blake3_hash, ed25519_accepts_strict, ed25519_key_decodes, ed25519_key_valid, ed25519_sign, ed25519_signature, ed25519_verify_strict};
use crate::le::{array32_at, array64_at, push_all, lemma_le32_bytes, lemma_le32_value, lemma_le64_bytes, lemma_le64_value, le32_at, le32_bytes, le64_at, le64_bytes, push_le32, push_le64, read_le32, read_le64};
use crate::text::{decimal_spec, hex, hex_numeral_spec, hex_spec, push_decimal, push_hex_numeral};
use vstd::prelude::*;

verus! {

/// File magic: a vessel starts with these 8 bytes ("RFLEXVSL").
pub const MAGIC: [u8; 8] = [0x52, 0x46, 0x4c, 0x45, 0x58, 0x56, 0x53, 0x4c];

/// The format version this crate reads and writes.
pub const FORMAT_VERSION: u32 = 1;

/// The HOSTED-ONLY class bit (flags bit 0).
pub const CLASS_BIT_HOSTED: u32 = 1;

/// Signed-header length (everything before the signature).
pub const HEADER_LEN: usize = 68;

/// Signature length (ed25519).
pub const SIG_LEN: usize = 64;

/// Magic through the end of the signature: where the payload starts.
pub const PREFIX_LEN: usize = HEADER_LEN + SIG_LEN;

/// Payload ceiling (1 MiB).
pub const MAX_PAYLOAD: usize = 0x100000;

/// The compiled-in rollback floor: the newest shipped artifact's version.
pub const MIN_ARTIFACT_VERSION: u64 = 0;

/// The two artifact classes.
#[derive(Clone, Copy, Debug, PartialEq, Eq)]
pub enum Class {
    PublicRelease,
    HostedOnly,
}

impl Class {
    /// The class's wire name.
    pub fn as_str(self) -> (s: &'static str)
        ensures
            self == Class::PublicRelease ==> s@ == "public-release"@,
            self == Class::HostedOnly ==> s@ == "hosted-only"@,
    {
        match self {
            Class::PublicRelease => "public-release",
            Class::HostedOnly => "hosted-only",
        }
    }
}

/// The decoded (structural) header, fields in wire order.
#[derive(Clone, Copy, Debug, PartialEq, Eq)]
pub struct Header {
    pub format_version: u32,
    pub class: Class,
    pub key_id: u32,
    pub artifact_version: u64,
    pub parent_commitment: [u8; 32],
    pub payload_len: u64,
}

/// The flags word that carries a class.
pub open spec fn class_flags(c: Class) -> u32 {
    match c {
        Class::PublicRelease => 0,
        Class::HostedOnly => CLASS_BIT_HOSTED,
    }
}

/// The 68 header bytes of `h`, in wire order.
#[verifier::opaque]
pub open spec fn header_bytes(h: Header) -> Seq<u8> {
    MAGIC@ + le32_bytes(h.format_version) + le32_bytes(class_flags(h.class)) + le32_bytes(h.key_id)
        + le64_bytes(h.artifact_version) + h.parent_commitment@ + le64_bytes(h.payload_len)
}

/// Why the first 68 bytes of `b` are not a header this reader accepts, if
/// they are not.
pub open spec fn header_error(b: Seq<u8>) -> Option<VesselError> {
    if b.subrange(0, 8) != MAGIC@ {
        Some(VesselError::BadMagic)
    } else if le32_at(b, 8) != FORMAT_VERSION {
        Some(VesselError::UnknownFormatVersion(le32_at(b, 8) as u32))
    } else if le32_at(b, 12) > 1 {
        Some(VesselError::UnknownFlags(le32_at(b, 12) as u32))
    } else {
        None
    }
}

/// `h` is what the first 68 bytes of `b` say, field by field.
pub open spec fn header_matches(b: Seq<u8>, h: Header) -> bool {
    &&& h.format_version == le32_at(b, 8)
    &&& h.class == (if le32_at(b, 12) == 0 {
        Class::PublicRelease
    } else {
        Class::HostedOnly
    })
    &&& h.key_id == le32_at(b, 16)
    &&& h.artifact_version == le64_at(b, 20)
    &&& h.parent_commitment@ == b.subrange(28, 60)
    &&& h.payload_len == le64_at(b, 60)
}

/// The header bytes of a header this reader accepts parse back to it.
pub proof fn lemma_header_roundtrip(h: Header)
    requires
        h.format_version == FORMAT_VERSION,
    ensures
        header_bytes(h).len() == HEADER_LEN,
        header_error(header_bytes(h)) is None,
        header_matches(header_bytes(h), h),
{
    reveal(header_bytes);
    let b = header_bytes(h);
    let fv = le32_bytes(h.format_version);
    let fl = le32_bytes(class_flags(h.class));
    let id = le32_bytes(h.key_id);
    let av = le64_bytes(h.artifact_version);
    let pl = le64_bytes(h.payload_len);
    lemma_le32_value(h.format_version);
    lemma_le32_value(class_flags(h.class));
    lemma_le32_value(h.key_id);
    lemma_le64_value(h.artifact_version);
    lemma_le64_value(h.payload_len);
    assert(b.len() == 68);
    assert(b.subrange(0, 8) =~= MAGIC@);
    assert forall|k: int| 0 <= k < 4 implies b[8 + k] == fv[k] && b[12 + k] == fl[k] && b[16
        + k] == id[k] by {}
    assert forall|k: int| 0 <= k < 8 implies b[20 + k] == av[k] && b[60 + k] == pl[k] by {}
    assert(le32_at(b, 8) == le32_at(fv, 0));
    assert(le32_at(b, 12) == le32_at(fl, 0));
    assert(le32_at(b, 16) == le32_at(id, 0));
    assert(le64_at(b, 20) == le64_at(av, 0));
    assert(le64_at(b, 60) == le64_at(pl, 0));
    assert(b.subrange(28, 60) =~= h.parent_commitment@);
}

/// Bytes that parse to a header are that header's bytes: re-encoding a
/// parsed header gives back the signed region exactly.
pub proof fn lemma_header_bytes_of_parsed(b: Seq<u8>, h: Header)
    requires
        b.len() >= HEADER_LEN,
        header_error(b) is None,
        header_matches(b, h),
    ensures
        header_bytes(h) == b.subrange(0, HEADER_LEN as int),
{
    reveal(header_bytes);
    lemma_le32_bytes(b, 8);
    lemma_le32_bytes(b, 12);
    lemma_le32_bytes(b, 16);
    lemma_le64_bytes(b, 20);
    lemma_le64_bytes(b, 60);
    assert(class_flags(h.class) == le32_at(b, 12));
    assert(header_bytes(h) =~= b.subrange(0, HEADER_LEN as int));
}

impl Header {
    /// The 68 signed header bytes.
    fn to_bytes(&self) -> (b: Vec<u8>)
        ensures
            b@ == header_bytes(*self),
    {
        reveal(header_bytes);
        let mut b: Vec<u8> = Vec::new();
        for i in 0..8
            invariant
                b@ == MAGIC@.subrange(0, i as int),
        {
            b.push(MAGIC[i]);
            assert(b@ =~= MAGIC@.subrange(0, i + 1));
        }
        assert(b@ =~= MAGIC@);
        push_le32(&mut b, self.format_version);
        let flags: u32 = match self.class {
            Class::HostedOnly => CLASS_BIT_HOSTED,
            Class::PublicRelease => 0,
        };
        push_le32(&mut b, flags);
        push_le32(&mut b, self.key_id);
        push_le64(&mut b, self.artifact_version);
        let ghost before = b@;
        for i in 0..32
            invariant
                b@ == before + self.parent_commitment@.subrange(0, i as int),
        {
            b.push(self.parent_commitment[i]);
            assert(b@ =~= before + self.parent_commitment@.subrange(0, i + 1));
        }
        assert(self.parent_commitment@.subrange(0, 32) =~= self.parent_commitment@);
        push_le64(&mut b, self.payload_len);
        b
    }

    /// Parses the first 68 bytes of `b`: magic, then the format version,
    /// then the reserved flag bits, each refused in that order.
    fn from_bytes(b: &[u8]) -> (r: Result<Header, VesselError>)
        requires
            b@.len() >= HEADER_LEN,
        ensures
            match r {
                Ok(h) => header_error(b@) is None && header_matches(b@, h),
                Err(e) => header_error(b@) == Some(e),
            },
    {
        for i in 0..8
            invariant
                b@.len() >= HEADER_LEN,
                b@.subrange(0, i as int) == MAGIC@.subrange(0, i as int),
        {
            if b[i] != MAGIC[i] {
                assert(b@.subrange(0, 8)[i as int] != MAGIC@[i as int]);
                return Err(VesselError::BadMagic);
            }
            assert(b@.subrange(0, i + 1) =~= MAGIC@.subrange(0, i + 1));
        }
        assert(MAGIC@.subrange(0, 8) =~= MAGIC@);
        let format_version = read_le32(b, 8);
        if format_version != FORMAT_VERSION {
            return Err(VesselError::UnknownFormatVersion(format_version));
        }
        let flags = read_le32(b, 12);
        if flags & !1u32 != 0 {
            assert(flags > 1) by (bit_vector)
                requires
                    flags & !1u32 != 0,
            ;
            return Err(VesselError::UnknownFlags(flags));
        }
        assert(flags <= 1) by (bit_vector)
            requires
                flags & !1u32 == 0,
        ;
        let class = if flags & CLASS_BIT_HOSTED == 0 {
            assert(flags == 0) by (bit_vector)
                requires
                    flags <= 1,
                    flags & 1u32 == 0,
            ;
            Class::PublicRelease
        } else {
            assert(flags != 0) by (bit_vector)
                requires
                    flags & 1u32 != 0,
            ;
            Class::HostedOnly
        };
        let parent_commitment = array32_at(b, 28);
        Ok(Header {
            format_version,
            class,
            key_id: read_le32(b, 16),
            artifact_version: read_le64(b, 20),
            parent_commitment,
            payload_len: read_le64(b, 60),
        })
    }
}

/// Every way a vessel refuses to open.
#[derive(Clone, Debug, PartialEq, Eq)]
pub enum VesselError {
    /// Filesystem failure (missing, unreadable, not a regular file).
    Io(String),
    /// The read exceeded the size ceiling.
    TooLarge { len: u64, cap: u64 },
    /// Shorter than a header + signature.
    Truncated { len: usize },
    BadMagic,
    UnknownFormatVersion(u32),
    UnknownFlags(u32),
    /// Header payload_len disagrees with the bytes after the signature.
    PayloadLenMismatch { header: u64, file: u64 },
    /// payload_len exceeds MAX_PAYLOAD.
    PayloadTooLarge { len: u64, cap: usize },
    /// Authentic signature, HOSTED-ONLY class.
    HostedOnly,
    /// key-id is not in the pin table.
    UnknownKey(u32),
    /// key-id is revoked.
    RevokedKey(u32),
    /// Strict signature verification failed.
    BadSignature,
}


// ── pin table ────────────────────────────────────────────────────────────

/// The trust anchors: which verifying keys (32 compressed Ed25519 bytes)
/// may mint vessels under which key-id, which key-ids are revoked, and an
/// optional operator key trusted for any key-id.
#[derive(Clone)]
pub struct PinTable {
    keys: Vec<(u32, [u8; 32])>,
    revoked: Vec<u32>,
    wildcard: Option<[u8; 32]>,
}

/// What a pin table holds.
pub struct PinModel {
    pub keys: Seq<(u32, Seq<u8>)>,
    pub revoked: Seq<u32>,
    pub wildcard: Option<Seq<u8>>,
}

impl View for PinTable {
    type V = PinModel;

    closed spec fn view(&self) -> PinModel {
        PinModel {
            keys: self.keys@.map_values(|p: (u32, [u8; 32])| (p.0, p.1@)),
            revoked: self.revoked@,
            wildcard: match self.wildcard {
                Some(k) => Some(k@),
                None => None,
            },
        }
    }
}

/// The key pinned first under `key_id`, if any.
pub open spec fn first_pinned(keys: Seq<(u32, Seq<u8>)>, key_id: u32) -> Option<Seq<u8>>
    decreases keys.len(),
{
    if keys.len() == 0 {
        None
    } else if keys[0].0 == key_id {
        Some(keys[0].1)
    } else {
        first_pinned(keys.drop_first(), key_id)
    }
}

/// Key resolution: revocation first, then the first pin under the
/// key-id, then the operator wildcard, else unknown.
pub open spec fn resolve(pins: PinModel, key_id: u32) -> Result<Seq<u8>, VesselError> {
    if pins.revoked.contains(key_id) {
        Err(VesselError::RevokedKey(key_id))
    } else if first_pinned(pins.keys, key_id) is Some {
        Ok(first_pinned(pins.keys, key_id)->0)
    } else if pins.wildcard is Some {
        Ok(pins.wildcard->0)
    } else {
        Err(VesselError::UnknownKey(key_id))
    }
}

/// The entries of `keys` whose bytes decompress, in order.
pub open spec fn decodable_pins(keys: Seq<(u32, [u8; 32])>) -> Seq<(u32, Seq<u8>)>
    decreases keys.len(),
{
    if keys.len() == 0 {
        Seq::empty()
    } else {
        let rest = decodable_pins(keys.drop_last());
        let last = keys.last();
        if ed25519_key_decodes(last.1@) {
            rest.push((last.0, last.1@))
        } else {
            rest
        }
    }
}

proof fn lemma_first_pinned_skip(keys: Seq<(u32, Seq<u8>)>, i: int, key_id: u32)
    requires
        0 <= i < keys.len(),
        keys[i].0 != key_id,
    ensures
        first_pinned(keys.subrange(i, keys.len() as int), key_id) == first_pinned(
            keys.subrange(i + 1, keys.len() as int),
            key_id,
        ),
{
    assert(keys.subrange(i, keys.len() as int).drop_first() =~= keys.subrange(
        i + 1,
        keys.len() as int,
    ));
}

impl PinTable {
    /// The table that trusts nothing.
    pub fn empty() -> (t: PinTable)
        ensures
            t@.keys == Seq::<(u32, Seq<u8>)>::empty(),
            t@.revoked == Seq::<u32>::empty(),
            t@.wildcard is None,
    {
        let t = PinTable { keys: Vec::new(), revoked: Vec::new(), wildcard: None };
        assert(t@.keys =~= Seq::<(u32, Seq<u8>)>::empty());
        t
    }

    /// One pinned minting key under its key-id.
    pub fn with_key(key_id: u32, key: [u8; 32]) -> (t: PinTable)
        ensures
            t@.keys == seq![(key_id, key@)],
            t@.revoked == Seq::<u32>::empty(),
            t@.wildcard is None,
    {
        let mut keys: Vec<(u32, [u8; 32])> = Vec::new();
        keys.push((key_id, key));
        let t = PinTable { keys, revoked: Vec::new(), wildcard: None };
        assert(t@.keys =~= seq![(key_id, key@)]);
        t
    }

    /// Marks a key-id revoked: signatures under it fail closed.
    pub fn revoke(self, key_id: u32) -> (t: PinTable)
        ensures
            t@.keys == self@.keys,
            t@.revoked == self@.revoked.push(key_id),
            t@.wildcard == self@.wildcard,
    {
        let mut t = self;
        t.revoked.push(key_id);
        t
    }

    /// The operator override: trust this key for any key-id.
    pub fn with_wildcard(self, key: [u8; 32]) -> (t: PinTable)
        ensures
            t@.keys == self@.keys,
            t@.revoked == self@.revoked,
            t@.wildcard == Some(key@),
    {
        let mut t = self;
        t.wildcard = Some(key);
        t
    }

    /// The verifying key for a key-id, honoring revocation.
    pub fn resolve_key(&self, key_id: u32) -> (r: Result<&[u8; 32], VesselError>)
        ensures
            match r {
                Ok(k) => resolve(self@, key_id) == Ok::<Seq<u8>, VesselError>(k@),
                Err(e) => resolve(self@, key_id) == Err::<Seq<u8>, VesselError>(e),
            },
    {
        let nr = self.revoked.len();
        for i in 0..nr
            invariant
                nr == self.revoked@.len(),
                forall|k: int| 0 <= k < i ==> self.revoked@[k] != key_id,
        {
            if self.revoked[i] == key_id {
                assert(self@.revoked[i as int] == key_id);
                return Err(VesselError::RevokedKey(key_id));
            }
        }
        assert(!self@.revoked.contains(key_id));
        let nk = self.keys.len();
        let ghost keys = self@.keys;
        assert(keys.subrange(0, nk as int) =~= keys);
        for i in 0..nk
            invariant
                nk == self.keys@.len(),
                keys == self@.keys,
                keys.len() == nk,
                !self@.revoked.contains(key_id),
                first_pinned(keys, key_id) == first_pinned(
                    keys.subrange(i as int, nk as int),
                    key_id,
                ),
        {
            assert(keys[i as int] == (self.keys@[i as int].0, self.keys@[i as int].1@));
            if self.keys[i].0 == key_id {
                assert(keys.subrange(i as int, nk as int)[0] == keys[i as int]);
                return Ok(&self.keys[i].1);
            }
            proof {
                lemma_first_pinned_skip(keys, i as int, key_id);
            }
        }
        assert(keys.subrange(nk as int, nk as int).len() == 0);
        match &self.wildcard {
            Some(k) => Ok(k),
            None => Err(VesselError::UnknownKey(key_id)),
        }
    }
}

/// The compiled-in minting pins as raw key bytes: empty until the first
/// public artifact ships, so every vessel fails `UnknownKey` until then.
pub const DEFAULT_PIN_KEYS: [(u32, [u8; 32]); 0] = [];

/// The compiled-in pin table the bin verifies against.
pub fn default_pins() -> (t: PinTable)
    ensures
        t@.keys == Seq::<(u32, Seq<u8>)>::empty(),
        t@.revoked == Seq::<u32>::empty(),
        t@.wildcard is None,
{
    let t = pins_from_bytes(&DEFAULT_PIN_KEYS);
    assert(DEFAULT_PIN_KEYS@ =~= Seq::<(u32, [u8; 32])>::empty());
    t
}

/// A pin table from raw verifying-key bytes; entries whose bytes do not
/// decompress are skipped.
pub fn pins_from_bytes(keys: &[(u32, [u8; 32])]) -> (t: PinTable)
    ensures
        t@.keys == decodable_pins(keys@),
        t@.revoked == Seq::<u32>::empty(),
        t@.wildcard is None,
{
    let mut t = PinTable::empty();
    let n = keys.len();
    for i in 0..n
        invariant
            n == keys@.len(),
            t@.keys == decodable_pins(keys@.subrange(0, i as int)),
            t@.revoked == Seq::<u32>::empty(),
            t@.wildcard is None,
    {
        let (id, bytes) = keys[i];
        let ghost before = t@.keys;
        assert(keys@.subrange(0, i + 1).drop_last() =~= keys@.subrange(0, i as int));
        if ed25519_key_valid(&bytes) {
            t.keys.push((id, bytes));
            assert(t@.keys =~= before.push((id, bytes@)));
        }
    }
    assert(keys@.subrange(0, n as int) =~= keys@);
    t
}

// ── reading ──────────────────────────────────────────────────────────────

/// Why `buf` is not structurally a vessel, if it is not: too short for a
/// header and signature, a refused header, a payload length over the cap,
/// or a payload length that disagrees with the bytes present.
pub open spec fn peek_error(buf: Seq<u8>) -> Option<VesselError> {
    if buf.len() < PREFIX_LEN {
        Some(VesselError::Truncated { len: buf.len() as usize })
    } else if header_error(buf) is Some {
        header_error(buf)
    } else if le64_at(buf, 60) > MAX_PAYLOAD {
        Some(VesselError::PayloadTooLarge { len: le64_at(buf, 60) as u64, cap: MAX_PAYLOAD })
    } else if le64_at(buf, 60) != buf.len() - PREFIX_LEN {
        Some(
            VesselError::PayloadLenMismatch {
                header: le64_at(buf, 60) as u64,
                file: (buf.len() - PREFIX_LEN) as u64,
            },
        )
    } else {
        None
    }
}

/// The bytes a vessel's signature covers: header, then payload.
pub open spec fn signed_region(buf: Seq<u8>) -> Seq<u8> {
    buf.subrange(0, HEADER_LEN as int) + buf.subrange(PREFIX_LEN as int, buf.len() as int)
}

/// The signature bytes of a vessel.
pub open spec fn signature_of(buf: Seq<u8>) -> Seq<u8> {
    buf.subrange(HEADER_LEN as int, PREFIX_LEN as int)
}

/// The payload bytes of a vessel.
pub open spec fn payload_of(buf: Seq<u8>) -> Seq<u8> {
    buf.subrange(PREFIX_LEN as int, buf.len() as int)
}

/// Why `buf` does not open against `pins`, if it does not, in the order
/// the checks run: structure, key resolution, strict signature, class.
pub open spec fn decode_error(buf: Seq<u8>, pins: PinModel) -> Option<VesselError> {
    if peek_error(buf) is Some {
        peek_error(buf)
    } else {
        match resolve(pins, le32_at(buf, 16) as u32) {
            Err(e) => Some(e),
            Ok(key) => if !ed25519_accepts_strict(key, signed_region(buf), signature_of(buf)) {
                Some(VesselError::BadSignature)
            } else if le32_at(buf, 12) != 0 {
                Some(VesselError::HostedOnly)
            } else {
                None
            },
        }
    }
}

/// Structural inspection without pins: the header and the signature
/// bytes, with no authenticity claim.
pub fn peek(buf: &[u8]) -> (r: Result<(Header, [u8; 64]), VesselError>)
    ensures
        match r {
            Ok((h, sig)) => peek_error(buf@) is None && header_matches(buf@, h) && sig@
                == signature_of(buf@),
            Err(e) => peek_error(buf@) == Some(e),
        },
{
    if buf.len() < PREFIX_LEN {
        return Err(VesselError::Truncated { len: buf.len() });
    }
    let header = match Header::from_bytes(buf) {
        Ok(h) => h,
        Err(e) => return Err(e),
    };
    if header.payload_len > MAX_PAYLOAD as u64 {
        return Err(VesselError::PayloadTooLarge { len: header.payload_len, cap: MAX_PAYLOAD });
    }
    let actual = (buf.len() - PREFIX_LEN) as u64;
    if header.payload_len != actual {
        return Err(VesselError::PayloadLenMismatch { header: header.payload_len, file: actual });
    }
    let sig = array64_at(buf, HEADER_LEN);
    Ok((header, sig))
}

/// The signature's message: header then payload, contiguous.
fn signed_message(buf: &[u8]) -> (msg: Vec<u8>)
    requires
        buf@.len() >= PREFIX_LEN,
    ensures
        msg@ == signed_region(buf@),
{
    let mut msg: Vec<u8> = Vec::new();
    let n = buf.len();
    for i in 0..HEADER_LEN
        invariant
            n == buf@.len(),
            n >= PREFIX_LEN,
            msg@ == buf@.subrange(0, i as int),
    {
        msg.push(buf[i]);
        assert(msg@ =~= buf@.subrange(0, i + 1));
    }
    for i in PREFIX_LEN..n
        invariant
            n == buf@.len(),
            msg@ == buf@.subrange(0, HEADER_LEN as int) + buf@.subrange(PREFIX_LEN as int, i as int),
    {
        msg.push(buf[i]);
        assert(msg@ =~= buf@.subrange(0, HEADER_LEN as int) + buf@.subrange(
            PREFIX_LEN as int,
            i + 1,
        ));
    }
    msg
}

/// BLAKE3 of the signed region of `header` and `payload`: a vessel's
/// commitment, the lineage chain's link.
pub fn commitment_of(header: &Header, payload: &[u8]) -> (c: [u8; 32])
    ensures
        c@ == blake3_digest(header_bytes(*header) + payload@),
{
    let mut msg = header.to_bytes();
    push_all(&mut msg, payload);
    blake3_hash(msg.as_slice())
}


// ── verified vessels ─────────────────────────────────────────────────────

/// A fully verified vessel. Only [`decode`] builds one.
#[derive(Debug, PartialEq, Eq)]
pub struct VerifiedVessel {
    header: Header,
    payload: Vec<u8>,
    commitment: [u8; 32],
}

/// What a verified vessel holds.
pub struct VesselModel {
    pub header: Header,
    pub payload: Seq<u8>,
    pub commitment: Seq<u8>,
}

impl View for VerifiedVessel {
    type V = VesselModel;

    closed spec fn view(&self) -> VesselModel {
        VesselModel {
            header: self.header,
            payload: self.payload@,
            commitment: self.commitment@,
        }
    }
}

/// What every verified vessel satisfies: a public-release header this
/// reader accepts, a payload of the stated length under the cap, and the
/// commitment of its signed region.
pub open spec fn vessel_well_formed(v: VesselModel) -> bool {
    &&& v.header.format_version == FORMAT_VERSION
    &&& v.header.class == Class::PublicRelease
    &&& v.header.payload_len == v.payload.len()
    &&& v.payload.len() <= MAX_PAYLOAD
    &&& v.commitment == blake3_digest(header_bytes(v.header) + v.payload)
}

impl VerifiedVessel {
    #[verifier::type_invariant]
    spec fn well_formed(self) -> bool {
        vessel_well_formed(self@)
    }

    /// The verified header.
    pub fn header(&self) -> (h: &Header)
        ensures
            *h == self@.header,
            vessel_well_formed(self@),
    {
        proof {
            use_type_invariant(self);
        }
        &self.header
    }

    /// The verified payload bytes.
    pub fn payload(&self) -> (p: &[u8])
        ensures
            p@ == self@.payload,
            vessel_well_formed(self@),
    {
        proof {
            use_type_invariant(self);
        }
        self.payload.as_slice()
    }

    /// BLAKE3 of the signed region (header then payload).
    pub fn commitment(&self) -> (c: [u8; 32])
        ensures
            c@ == self@.commitment,
            c@ == blake3_digest(header_bytes(self@.header) + self@.payload),
    {
        proof {
            use_type_invariant(self);
        }
        self.commitment
    }

    /// The commitment as lowercase hex.
    pub fn commitment_hex(&self) -> (s: String)
        ensures
            s@ == hex_spec(self@.commitment),
    {
        hex32(&self.commitment)
    }

    /// The rollback-floor gate: the offered artifact must not be older
    /// than `min`.
    pub fn check_floor(&self, min: u64) -> (r: Result<(), ApplyRefusal>)
        ensures
            r == if self@.header.artifact_version < min {
                Err(ApplyRefusal::OlderThanCurrent {
                    current: min,
                    offered: self@.header.artifact_version,
                })
            } else {
                Ok::<(), ApplyRefusal>(())
            },
    {
        if self.header.artifact_version < min {
            return Err(
                ApplyRefusal::OlderThanCurrent { current: min, offered: self.header.artifact_version },
            );
        }
        Ok(())
    }

    /// The monotonic-apply gate: refuse an artifact older than the
    /// current state, allow an exact re-apply, refuse the same version
    /// with a different commitment (a lineage fork).
    pub fn check_monotonic(&self, current: &ApplyState) -> (r: Result<(), ApplyRefusal>)
        ensures
            r == if self@.header.artifact_version < current.artifact_version {
                Err(ApplyRefusal::OlderThanCurrent {
                    current: current.artifact_version,
                    offered: self@.header.artifact_version,
                })
            } else if self@.header.artifact_version == current.artifact_version
                && self@.commitment != current.commitment@ {
                Err(ApplyRefusal::VersionFork { version: current.artifact_version })
            } else {
                Ok::<(), ApplyRefusal>(())
            },
    {
        if self.header.artifact_version < current.artifact_version {
            return Err(
                ApplyRefusal::OlderThanCurrent {
                    current: current.artifact_version,
                    offered: self.header.artifact_version,
                },
            );
        }
        if self.header.artifact_version == current.artifact_version && !bytes32_eq(
            &self.commitment,
            &current.commitment,
        ) {
            return Err(ApplyRefusal::VersionFork { version: current.artifact_version });
        }
        Ok(())
    }
}

impl Clone for VerifiedVessel {
    fn clone(&self) -> (c: VerifiedVessel)
        ensures
            c@ == self@,
    {
        proof {
            use_type_invariant(self);
        }
        let mut payload: Vec<u8> = Vec::new();
        push_all(&mut payload, self.payload.as_slice());
        VerifiedVessel { header: self.header, payload, commitment: self.commitment }
    }
}

/// Whether two 32-byte arrays hold the same bytes.
fn bytes32_eq(a: &[u8; 32], b: &[u8; 32]) -> (eq: bool)
    ensures
        eq == (a@ == b@),
{
    for i in 0..32
        invariant
            forall|k: int| 0 <= k < i ==> a@[k] == b@[k],
    {
        if a[i] != b[i] {
            assert(a@[i as int] != b@[i as int]);
            return false;
        }
    }
    assert(a@ =~= b@);
    true
}

/// The refusals of the apply gates.
#[derive(Clone, Debug, PartialEq, Eq)]
pub enum ApplyRefusal {
    /// The offered artifact is older than the current one.
    OlderThanCurrent { current: u64, offered: u64 },
    /// Same version, different content: a lineage fork.
    VersionFork { version: u64 },
}

/// The artifact the engine currently serves.
#[derive(Clone, Copy, Debug, PartialEq, Eq)]
pub struct ApplyState {
    pub artifact_version: u64,
    pub commitment: [u8; 32],
}

/// The compiled-in substrate as apply-state baseline (v0, genesis).
pub fn substrate() -> (s: ApplyState)
    ensures
        s.artifact_version == 0,
        s.commitment@ == Seq::new(32, |i: int| 0u8),
{
    let s = ApplyState { artifact_version: 0, commitment: [0u8; 32] };
    assert(s.commitment@ =~= Seq::new(32, |i: int| 0u8));
    s
}

/// Verifies a whole vessel buffer against the pin table: structure and
/// length caps, then key resolution, then the strict signature, then the
/// class.
pub fn decode(buf: &[u8], pins: &PinTable) -> (r: Result<VerifiedVessel, VesselError>)
    ensures
        match r {
            Ok(v) => {
                &&& decode_error(buf@, pins@) is None
                &&& header_matches(buf@, v@.header)
                &&& v@.payload == payload_of(buf@)
                &&& v@.commitment == blake3_digest(signed_region(buf@))
                &&& vessel_well_formed(v@)
            },
            Err(e) => decode_error(buf@, pins@) == Some(e),
        },
{
    let (header, sig) = match peek(buf) {
        Ok(p) => p,
        Err(e) => return Err(e),
    };
    let key = match pins.resolve_key(header.key_id) {
        Ok(k) => k,
        Err(e) => return Err(e),
    };
    let msg = signed_message(buf);
    if !ed25519_verify_strict(key, msg.as_slice(), &sig) {
        return Err(VesselError::BadSignature);
    }
    match header.class {
        Class::HostedOnly => {
            return Err(VesselError::HostedOnly);
        },
        Class::PublicRelease => {},
    }
    let mut payload: Vec<u8> = Vec::new();
    let n = buf.len();
    for i in PREFIX_LEN..n
        invariant
            n == buf@.len(),
            payload@ == buf@.subrange(PREFIX_LEN as int, i as int),
    {
        payload.push(buf[i]);
        assert(payload@ =~= buf@.subrange(PREFIX_LEN as int, i + 1));
    }
    let commitment = commitment_of(&header, payload.as_slice());
    proof {
        lemma_header_bytes_of_parsed(buf@, header);
    }
    Ok(VerifiedVessel { header, payload, commitment })
}

/// The post-read half of opening a vessel file: a read of at most
/// `PREFIX_LEN + MAX_PAYLOAD + 1` bytes refuses when it went past the
/// ceiling, and is otherwise decoded.
pub fn decode_bounded(read: &[u8], pins: &PinTable) -> (r: Result<VerifiedVessel, VesselError>)
    ensures
        read@.len() > PREFIX_LEN + MAX_PAYLOAD ==> r == Err::<VerifiedVessel, VesselError>(
            VesselError::TooLarge {
                len: read@.len() as u64,
                cap: (PREFIX_LEN + MAX_PAYLOAD) as u64,
            },
        ),
        read@.len() <= PREFIX_LEN + MAX_PAYLOAD ==> match r {
            Ok(v) => {
                &&& decode_error(read@, pins@) is None
                &&& header_matches(read@, v@.header)
                &&& v@.payload == payload_of(read@)
                &&& v@.commitment == blake3_digest(signed_region(read@))
                &&& vessel_well_formed(v@)
            },
            Err(e) => decode_error(read@, pins@) == Some(e),
        },
{
    let cap = PREFIX_LEN + MAX_PAYLOAD;
    if read.len() > cap {
        return Err(VesselError::TooLarge { len: read.len() as u64, cap: cap as u64 });
    }
    decode(read, pins)
}

// ── minting (the public class only) ─────────────────────────────────────

/// The bytes of a vessel minted with `seed` over `h` and `payload`.
pub open spec fn minted(seed: Seq<u8>, h: Header, payload: Seq<u8>) -> Seq<u8> {
    header_bytes(h) + ed25519_signature(seed, header_bytes(h) + payload) + payload
}

/// The header a public-release mint writes.
pub open spec fn public_header(
    key_id: u32,
    artifact_version: u64,
    parent: [u8; 32],
    payload_len: nat,
) -> Header {
    Header {
        format_version: FORMAT_VERSION,
        class: Class::PublicRelease,
        key_id,
        artifact_version,
        parent_commitment: parent,
        payload_len: payload_len as u64,
    }
}

/// Mints a PUBLIC-RELEASE vessel signed with the 32-byte secret seed.
/// `parent` is the parent vessel's commitment (zeros for genesis).
pub fn encode_public(
    key: &[u8; 32],
    key_id: u32,
    artifact_version: u64,
    parent: [u8; 32],
    payload: &[u8],
) -> (out: Vec<u8>)
    requires
        payload@.len() <= MAX_PAYLOAD,
    ensures
        out@ == minted(
            key@,
            public_header(key_id, artifact_version, parent, payload@.len()),
            payload@,
        ),
        ed25519_signature(
            key@,
            header_bytes(public_header(key_id, artifact_version, parent, payload@.len()))
                + payload@,
        ).len() == SIG_LEN,
{
    encode_raw(
        key,
        Header {
            format_version: FORMAT_VERSION,
            class: Class::PublicRelease,
            key_id,
            artifact_version,
            parent_commitment: parent,
            payload_len: payload.len() as u64,
        },
        payload,
    )
}

/// The raw encoder, for any class; only the public encoder is exported.
fn encode_raw(key: &[u8; 32], header: Header, payload: &[u8]) -> (out: Vec<u8>)
    ensures
        out@ == minted(key@, header, payload@),
        ed25519_signature(key@, header_bytes(header) + payload@).len() == SIG_LEN,
{
    let header_bytes = header.to_bytes();
    let mut signed_input = header.to_bytes();
    push_all(&mut signed_input, payload);
    let sig = ed25519_sign(key, signed_input.as_slice());
    let mut out = header_bytes;
    push_all(&mut out, &sig);
    push_all(&mut out, payload);
    out
}

/// Lowercase hex of 32 bytes.
fn hex32(b: &[u8; 32]) -> (s: String)
    ensures
        s@ == hex_spec(b@),
{
    hex(b)
}


// ── laws ─────────────────────────────────────────────────────────────────

/// The first 68 bytes alone decide what a buffer's header says.
proof fn lemma_header_prefix(a: Seq<u8>, b: Seq<u8>, h: Header)
    requires
        a.len() >= HEADER_LEN,
        b.len() >= HEADER_LEN,
        a.subrange(0, HEADER_LEN as int) == b.subrange(0, HEADER_LEN as int),
    ensures
        header_error(a) == header_error(b),
        header_matches(a, h) == header_matches(b, h),
{
    assert forall|k: int| 0 <= k < 68 implies a[k] == b[k] by {
        assert(a.subrange(0, 68)[k] == a[k]);
        assert(b.subrange(0, 68)[k] == b[k]);
    }
    assert(a.subrange(0, 8) =~= b.subrange(0, 8));
    assert(a.subrange(28, 60) =~= b.subrange(28, 60));
}

/// Where the three parts of a vessel land.
proof fn lemma_layout(hb: Seq<u8>, sig: Seq<u8>, payload: Seq<u8>)
    requires
        hb.len() == HEADER_LEN,
        sig.len() == SIG_LEN,
    ensures
        (hb + sig + payload).len() == PREFIX_LEN + payload.len(),
        (hb + sig + payload).subrange(0, HEADER_LEN as int) == hb,
        hb.subrange(0, HEADER_LEN as int) == hb,
        signature_of(hb + sig + payload) == sig,
        payload_of(hb + sig + payload) == payload,
        signed_region(hb + sig + payload) == hb + payload,
{
    let b = hb + sig + payload;
    assert(b.subrange(0, HEADER_LEN as int) =~= hb);
    assert(hb.subrange(0, HEADER_LEN as int) =~= hb);
    assert(signature_of(b) =~= sig);
    assert(payload_of(b) =~= payload);
    assert(signed_region(b) =~= hb + payload);
}

/// What is minted opens: a public-release vessel minted over a payload
/// under the cap, whose signature passes the strict check under the key
/// the pins resolve for its key-id, decodes to exactly its header and
/// payload, and its commitment covers exactly that header and payload.
pub proof fn lemma_minted_vessel_opens(seed: Seq<u8>, h: Header, payload: Seq<u8>, pins: PinModel)
    requires
        h.format_version == FORMAT_VERSION,
        h.class == Class::PublicRelease,
        h.payload_len == payload.len(),
        payload.len() <= MAX_PAYLOAD,
        ed25519_signature(seed, header_bytes(h) + payload).len() == SIG_LEN,
        resolve(pins, h.key_id) is Ok,
        ed25519_accepts_strict(
            resolve(pins, h.key_id)->Ok_0,
            header_bytes(h) + payload,
            ed25519_signature(seed, header_bytes(h) + payload),
        ),
    ensures
        decode_error(minted(seed, h, payload), pins) is None,
        header_matches(minted(seed, h, payload), h),
        payload_of(minted(seed, h, payload)) == payload,
        signed_region(minted(seed, h, payload)) == header_bytes(h) + payload,
{
    let hb = header_bytes(h);
    let sig = ed25519_signature(seed, hb + payload);
    lemma_header_roundtrip(h);
    lemma_layout(hb, sig, payload);
    let b = hb + sig + payload;
    lemma_header_prefix(b, hb, h);
    assert(header_matches(b, h));
    assert(le32_at(b, 12) == 0);
    assert(peek_error(b) is None);
}

/// A vessel that opens is authentic: its key-id resolves, its signature
/// passes the strict check under that key, and its class is public.
pub proof fn lemma_opened_is_authentic(buf: Seq<u8>, pins: PinModel)
    requires
        decode_error(buf, pins) is None,
    ensures
        peek_error(buf) is None,
        resolve(pins, le32_at(buf, 16) as u32) is Ok,
        ed25519_accepts_strict(
            resolve(pins, le32_at(buf, 16) as u32)->Ok_0,
            signed_region(buf),
            signature_of(buf),
        ),
        le32_at(buf, 12) == class_flags(Class::PublicRelease),
{
}

/// A hosted-only refusal is only ever said of an authentic vessel.
pub proof fn lemma_hosted_only_refusal_is_authentic(buf: Seq<u8>, pins: PinModel)
    requires
        decode_error(buf, pins) == Some(VesselError::HostedOnly),
    ensures
        peek_error(buf) is None,
        resolve(pins, le32_at(buf, 16) as u32) is Ok,
        ed25519_accepts_strict(
            resolve(pins, le32_at(buf, 16) as u32)->Ok_0,
            signed_region(buf),
            signature_of(buf),
        ),
        le32_at(buf, 12) == class_flags(Class::HostedOnly),
{
}

/// Structure is checked before any trust: a structurally refused buffer
/// gets the same structural refusal whatever the pins.
pub proof fn lemma_structure_before_trust(buf: Seq<u8>, pins: PinModel)
    requires
        peek_error(buf) is Some,
    ensures
        decode_error(buf, pins) == peek_error(buf),
{
}

/// Every buffer shorter than a header and a signature is refused as
/// truncated.
pub proof fn lemma_truncation_refused(buf: Seq<u8>, pins: PinModel)
    requires
        buf.len() < PREFIX_LEN,
    ensures
        decode_error(buf, pins) == Some(VesselError::Truncated { len: buf.len() as usize }),
{
}

/// A buffer whose magic differs anywhere is refused as bad magic.
pub proof fn lemma_bad_magic_refused(buf: Seq<u8>, pins: PinModel)
    requires
        buf.len() >= PREFIX_LEN,
        buf.subrange(0, 8) != MAGIC@,
    ensures
        decode_error(buf, pins) == Some(VesselError::BadMagic),
{
}

/// Key trust fails closed before the signature and the class are looked
/// at: a structurally sound vessel under a revoked or unknown key-id gets
/// that refusal, whatever its signature and class.
pub proof fn lemma_untrusted_key_refused_first(buf: Seq<u8>, pins: PinModel)
    requires
        peek_error(buf) is None,
        resolve(pins, le32_at(buf, 16) as u32) is Err,
    ensures
        decode_error(buf, pins) == Some(resolve(pins, le32_at(buf, 16) as u32)->Err_0),
        pins.revoked.contains(le32_at(buf, 16) as u32) ==> decode_error(buf, pins) == Some(
            VesselError::RevokedKey(le32_at(buf, 16) as u32),
        ),
{
}

/// Revocation beats every pin and the wildcard; a pin beats the
/// wildcard; the wildcard answers for any other key-id.
pub proof fn lemma_resolution_precedence(pins: PinModel, key_id: u32)
    ensures
        pins.revoked.contains(key_id) ==> resolve(pins, key_id) == Err::<Seq<u8>, VesselError>(
            VesselError::RevokedKey(key_id),
        ),
        !pins.revoked.contains(key_id) && first_pinned(pins.keys, key_id) is Some ==> resolve(
            pins,
            key_id,
        ) == Ok::<Seq<u8>, VesselError>(first_pinned(pins.keys, key_id)->0),
        !pins.revoked.contains(key_id) && first_pinned(pins.keys, key_id) is None
            && pins.wildcard is Some ==> resolve(pins, key_id) == Ok::<Seq<u8>, VesselError>(
            pins.wildcard->0,
        ),
        !pins.revoked.contains(key_id) && first_pinned(pins.keys, key_id) is None
            && pins.wildcard is None ==> resolve(pins, key_id) == Err::<Seq<u8>, VesselError>(
            VesselError::UnknownKey(key_id),
        ),
{
}


// ── refusal text ─────────────────────────────────────────────────────────

/// The text of a vessel refusal.
pub open spec fn vessel_error_text(e: VesselError) -> Seq<char> {
    match e {
        VesselError::Io(m) => "io: "@ + m@,
        VesselError::TooLarge { len, cap } => "file "@ + decimal_spec(len as nat) + " B exceeds the "@
            + decimal_spec(cap as nat) + " B ceiling"@,
        VesselError::Truncated { len } => "truncated: "@ + decimal_spec(len as nat)
            + " B < header+signature ("@ + decimal_spec(PREFIX_LEN as nat) + " B)"@,
        VesselError::BadMagic => "bad magic (not a vessel)"@,
        VesselError::UnknownFormatVersion(v) => "unknown format version "@ + decimal_spec(v as nat)
            + " (reader: "@ + decimal_spec(FORMAT_VERSION as nat) + ")"@,
        VesselError::UnknownFlags(fl) => "unknown flag bits 0x"@ + hex_numeral_spec(fl as nat)
            + " (reserved bits must be 0)"@,
        VesselError::PayloadLenMismatch { header, file } => "payload_len mismatch: header says "@
            + decimal_spec(header as nat) + ", file carries "@ + decimal_spec(file as nat),
        VesselError::PayloadTooLarge { len, cap } => "payload "@ + decimal_spec(len as nat)
            + " B exceeds cap "@ + decimal_spec(cap as nat) + " B"@,
        VesselError::HostedOnly =>
            "hosted-only artifact — refused on uncontrolled hardware (fail-closed)"@,
        VesselError::UnknownKey(k) => "key-id "@ + decimal_spec(k as nat)
            + " is not pinned (fail-closed)"@,
        VesselError::RevokedKey(k) => "key-id "@ + decimal_spec(k as nat)
            + " is REVOKED (fail-closed)"@,
        VesselError::BadSignature => "signature failed strict verification"@,
    }
}

impl VesselError {
    /// The refusal as display text.
    pub fn message(&self) -> (m: String)
        ensures
            m@ == vessel_error_text(*self),
    {
        match self {
            VesselError::Io(e) => {
                let mut m = String::from_str("io: ");
                m.append(e.as_str());
                m
            },
            VesselError::TooLarge { len, cap } => {
                let mut m = String::from_str("file ");
                push_decimal(&mut m, *len);
                m.append(" B exceeds the ");
                push_decimal(&mut m, *cap);
                m.append(" B ceiling");
                m
            },
            VesselError::Truncated { len } => {
                let mut m = String::from_str("truncated: ");
                push_decimal(&mut m, *len as u64);
                m.append(" B < header+signature (");
                push_decimal(&mut m, PREFIX_LEN as u64);
                m.append(" B)");
                m
            },
            VesselError::BadMagic => String::from_str("bad magic (not a vessel)"),
            VesselError::UnknownFormatVersion(v) => {
                let mut m = String::from_str("unknown format version ");
                push_decimal(&mut m, *v as u64);
                m.append(" (reader: ");
                push_decimal(&mut m, FORMAT_VERSION as u64);
                m.append(")");
                m
            },
            VesselError::UnknownFlags(fl) => {
                let mut m = String::from_str("unknown flag bits 0x");
                push_hex_numeral(&mut m, *fl as u64);
                m.append(" (reserved bits must be 0)");
                m
            },
            VesselError::PayloadLenMismatch { header, file } => {
                let mut m = String::from_str("payload_len mismatch: header says ");
                push_decimal(&mut m, *header);
                m.append(", file carries ");
                push_decimal(&mut m, *file);
                m
            },
            VesselError::PayloadTooLarge { len, cap } => {
                let mut m = String::from_str("payload ");
                push_decimal(&mut m, *len);
                m.append(" B exceeds cap ");
                push_decimal(&mut m, *cap as u64);
                m.append(" B");
                m
            },
            VesselError::HostedOnly => String::from_str(
                "hosted-only artifact — refused on uncontrolled hardware (fail-closed)",
            ),
            VesselError::UnknownKey(k) => {
                let mut m = String::from_str("key-id ");
                push_decimal(&mut m, *k as u64);
                m.append(" is not pinned (fail-closed)");
                m
            },
            VesselError::RevokedKey(k) => {
                let mut m = String::from_str("key-id ");
                push_decimal(&mut m, *k as u64);
                m.append(" is REVOKED (fail-closed)");
                m
            },
            VesselError::BadSignature => String::from_str("signature failed strict verification"),
        }
    }
}

/// The text of an apply-gate refusal.
pub open spec fn apply_refusal_text(r: ApplyRefusal) -> Seq<char> {
    match r {
        ApplyRefusal::OlderThanCurrent { current, offered } => "downgrade refused: artifact v"@
            + decimal_spec(offered as nat) + " < current v"@ + decimal_spec(current as nat)
            + " (force is an operator action and logs)"@,
        ApplyRefusal::VersionFork { version } => "lineage fork refused: v"@ + decimal_spec(
            version as nat,
        ) + " with a different commitment than current"@,
    }
}

impl ApplyRefusal {
    /// The refusal as display text.
    pub fn message(&self) -> (m: String)
        ensures
            m@ == apply_refusal_text(*self),
    {
        match self {
            ApplyRefusal::OlderThanCurrent { current, offered } => {
                let mut m = String::from_str("downgrade refused: artifact v");
                push_decimal(&mut m, *offered);
                m.append(" < current v");
                push_decimal(&mut m, *current);
                m.append(" (force is an operator action and logs)");
                m
            },
            ApplyRefusal::VersionFork { version } => {
                let mut m = String::from_str("lineage fork refused: v");
                push_decimal(&mut m, *version);
                m.append(" with a different commitment than current");
                m
            },
        }
    }
}

} // verus!
