use ed25519_dalek::{Signer, SigningKey};
use reflexer::vessel::{
    self, decode, default_pins, encode_public, pins_from_bytes, ApplyRefusal, ApplyState, Class,
    PinTable, VesselError, CLASS_BIT_HOSTED, FORMAT_VERSION, HEADER_LEN, MAGIC, MAX_PAYLOAD,
    MIN_ARTIFACT_VERSION, PREFIX_LEN, SIG_LEN,
};

fn test_key() -> SigningKey {
    SigningKey::from_bytes(&[7u8; 32])
}

fn test_seed() -> [u8; 32] {
    test_key().to_bytes()
}

fn test_pins() -> PinTable {
    PinTable::with_key(1, test_key().verifying_key().to_bytes())
}

fn payload() -> Vec<u8> {
    b"tetris-rulebook-v1 en=0xffff d=4 b=8 sh=1.0 dh=0 w=1;2;3".to_vec()
}

fn signed_vessel() -> Vec<u8> {
    encode_public(&test_seed(), 1, 5, [0u8; 32], &payload())
}

fn vessel_v(version: u64) -> Vec<u8> {
    encode_public(&test_seed(), 1, version, [0u8; 32], &payload())
}

/// The 68 header bytes, written field by field from the wire table.
fn header_bytes(flags: u32, key_id: u32, version: u64, parent: [u8; 32], payload_len: u64) -> Vec<u8> {
    let mut b = Vec::with_capacity(HEADER_LEN);
    b.extend_from_slice(&MAGIC);
    b.extend_from_slice(&FORMAT_VERSION.to_le_bytes());
    b.extend_from_slice(&flags.to_le_bytes());
    b.extend_from_slice(&key_id.to_le_bytes());
    b.extend_from_slice(&version.to_le_bytes());
    b.extend_from_slice(&parent);
    b.extend_from_slice(&payload_len.to_le_bytes());
    b
}

/// Signs header || payload with the dalek signer directly.
fn forge(header: Vec<u8>, payload: &[u8]) -> Vec<u8> {
    let mut msg = header.clone();
    msg.extend_from_slice(payload);
    let sig = test_key().sign(&msg);
    let mut out = header;
    out.extend_from_slice(&sig.to_bytes());
    out.extend_from_slice(payload);
    out
}

#[test]
fn roundtrip_public_vessel() {
    let v = signed_vessel();
    let got = decode(&v, &test_pins()).expect("decode");
    assert_eq!(got.header().class, Class::PublicRelease);
    assert_eq!(got.header().key_id, 1);
    assert_eq!(got.header().artifact_version, 5);
    assert_eq!(got.header().parent_commitment, [0u8; 32]);
    assert_eq!(got.payload(), payload());
    assert_eq!(got.commitment(), vessel::commitment_of(got.header(), got.payload()));
}

#[test]
fn commitment_covers_header_and_payload() {
    let v = signed_vessel();
    let got = decode(&v, &test_pins()).expect("decode");
    let mut h = blake3::Hasher::new();
    h.update(&v[0..HEADER_LEN]);
    h.update(&v[PREFIX_LEN..]);
    assert_eq!(got.commitment(), *h.finalize().as_bytes());
    let raw = *blake3::hash(&v).as_bytes();
    assert_ne!(got.commitment(), raw);
}

#[test]
fn lineage_chaining() {
    let parent = decode(&signed_vessel(), &test_pins()).unwrap();
    let child = encode_public(&test_seed(), 1, 6, parent.commitment(), &payload());
    let got = decode(&child, &test_pins()).expect("child decodes");
    assert_eq!(got.header().parent_commitment, parent.commitment());
    assert_ne!(got.commitment(), parent.commitment());
}

#[test]
fn bad_magic_refused() {
    let mut v = signed_vessel();
    v[0] = b'X';
    assert_eq!(decode(&v, &test_pins()), Err(VesselError::BadMagic));
}

#[test]
fn unknown_format_version_refused() {
    let mut v = signed_vessel();
    v[8..12].copy_from_slice(&2u32.to_le_bytes());
    assert_eq!(decode(&v, &test_pins()), Err(VesselError::UnknownFormatVersion(2)));
}

#[test]
fn unknown_flag_bits_refused() {
    let mut v = signed_vessel();
    v[12..16].copy_from_slice(&2u32.to_le_bytes());
    assert_eq!(decode(&v, &test_pins()), Err(VesselError::UnknownFlags(2)));
}

#[test]
fn every_truncation_length_refused() {
    let v = signed_vessel();
    for len in 0..PREFIX_LEN {
        let err = decode(&v[..len], &test_pins());
        assert!(matches!(err, Err(VesselError::Truncated { .. })), "len {len}: {err:?}");
    }
}

#[test]
fn payload_len_mismatch_refused_both_ways() {
    let v = signed_vessel();
    let mut grown = v.clone();
    grown.push(0);
    assert!(matches!(
        decode(&grown, &test_pins()),
        Err(VesselError::PayloadLenMismatch { .. })
    ));
    let mut tampered = v.clone();
    tampered[60..68].copy_from_slice(&((payload().len() + 1) as u64).to_le_bytes());
    assert!(matches!(
        decode(&tampered, &test_pins()),
        Err(VesselError::PayloadLenMismatch { .. })
    ));
}

#[test]
fn oversized_payload_refused_before_allocation() {
    let mut v = header_bytes(0, 1, 1, [0; 32], MAX_PAYLOAD as u64 + 1);
    v.extend_from_slice(&[0u8; SIG_LEN]);
    assert!(matches!(
        decode(&v, &test_pins()),
        Err(VesselError::PayloadTooLarge { .. })
    ));
}

#[test]
fn unknown_key_refused() {
    let v = signed_vessel();
    let other = PinTable::with_key(99, test_key().verifying_key().to_bytes());
    assert_eq!(decode(&v, &other), Err(VesselError::UnknownKey(1)));
    assert_eq!(decode(&v, &PinTable::empty()), Err(VesselError::UnknownKey(1)));
}

#[test]
fn revoked_key_refused() {
    let pins = test_pins().revoke(1);
    let v = signed_vessel();
    assert_eq!(decode(&v, &pins), Err(VesselError::RevokedKey(1)));
}

#[test]
fn wildcard_operator_pin_verifies_any_key_id() {
    let v = signed_vessel();
    let pins = PinTable::empty().with_wildcard(test_key().verifying_key().to_bytes());
    assert!(decode(&v, &pins).is_ok());
}

#[test]
fn any_byte_tamper_closes_the_door() {
    let v = signed_vessel();
    let expect = |idx: usize, want: Option<VesselError>| {
        let mut t = v.clone();
        t[idx] ^= 0x01;
        let got = decode(&t, &test_pins());
        assert!(got.is_err(), "tamper at {idx} opened the vessel: {got:?}");
        if let Some(want) = want {
            assert_eq!(got, Err(want), "tamper at {idx}: wrong refusal class");
        }
    };
    expect(4, Some(VesselError::BadMagic));
    expect(20, None);
    expect(40, None);
    expect(70, Some(VesselError::BadSignature));
    expect(100, Some(VesselError::BadSignature));
    expect(135, Some(VesselError::BadSignature));
    expect(140, Some(VesselError::BadSignature));
}

#[test]
fn hosted_only_refused_and_only_after_authenticity() {
    let hosted = forge(header_bytes(CLASS_BIT_HOSTED, 1, 9, [0; 32], payload().len() as u64), &payload());
    assert_eq!(decode(&hosted, &test_pins()), Err(VesselError::HostedOnly));
    let mut t = hosted.clone();
    let last = t.len() - 1;
    t[last] ^= 1;
    assert_eq!(decode(&t, &test_pins()), Err(VesselError::BadSignature));
    assert_eq!(decode(&hosted, &PinTable::empty()), Err(VesselError::UnknownKey(1)));
}

fn state(v: u64) -> ApplyState {
    ApplyState { artifact_version: v, commitment: [v as u8; 32] }
}

#[test]
fn monotonic_gate_refuses_downgrades_and_forks() {
    let v5 = decode(&signed_vessel(), &test_pins()).unwrap();
    assert!(v5.check_monotonic(&vessel::substrate()).is_ok(), "v5 > substrate v0");
    assert!(
        v5.check_monotonic(&ApplyState { artifact_version: 5, commitment: v5.commitment() })
            .is_ok(),
        "exact re-apply is idempotent-allowed"
    );
    assert_eq!(
        v5.check_monotonic(&state(6)),
        Err(ApplyRefusal::OlderThanCurrent { current: 6, offered: 5 })
    );
    assert_eq!(
        v5.check_monotonic(&ApplyState { artifact_version: 5, commitment: [9; 32] }),
        Err(ApplyRefusal::VersionFork { version: 5 })
    );
}

#[test]
fn floor_refuses_old_validly_signed_artifacts() {
    let v1 = decode(&vessel_v(1), &test_pins()).unwrap();
    assert_eq!(
        v1.check_floor(2),
        Err(ApplyRefusal::OlderThanCurrent { current: 2, offered: 1 })
    );
    assert!(v1.check_floor(1).is_ok(), "floor == version is allowed (the floor IS a shipped artifact)");
    assert!(v1.check_floor(0).is_ok(), "floor 0 = today's posture (no artifacts shipped)");
    assert_eq!(MIN_ARTIFACT_VERSION, 0, "no artifacts shipped — the compiled floor must be 0");
}

#[test]
fn compiled_pin_table_resolves_without_any_flag() {
    let table = pins_from_bytes(&[(1, test_key().verifying_key().to_bytes())]);
    assert!(decode(&vessel_v(1), &table).is_ok(), "a compiled pin must verify with no flag");
    assert!(
        decode(&vessel_v(1), &default_pins()).is_err(),
        "today's compiled table is empty — everything fails UnknownKey until the first artifact ships"
    );
    let wrong = pins_from_bytes(&[(1, SigningKey::from_bytes(&[9u8; 32]).verifying_key().to_bytes())]);
    assert!(matches!(decode(&vessel_v(1), &wrong), Err(VesselError::BadSignature)));
}

/// The deterministic 2000-mutation sweep, run in quarters (each signature
/// check is slow in an unoptimized build): mutations `from..from + count`
/// of the one seeded LCG sequence.
fn mutation_sweep(from: usize, count: usize) {
    let v = signed_vessel();
    let mut seed: u64 = 0x5eed_cafe_f00d_0001;
    let mut next = move || {
        seed = seed.wrapping_mul(6364136223846793005).wrapping_add(1442695040888963407);
        seed >> 33
    };
    for n in 0..from + count {
        let idx = (next() as usize) % v.len();
        let mask = 1u8 << (next() % 8);
        if n < from {
            continue;
        }
        let mut t = v.clone();
        t[idx] ^= mask;
        if let Ok(opened) = decode(&t, &test_pins()) {
            panic!("mutation at {idx} (mask {mask:#x}) produced a VALID vessel {opened:?}");
        }
    }
}

#[test]
fn mutated_vessels_never_panic_and_never_open() {
    mutation_sweep(0, 500);
}

#[test]
fn mutated_vessels_never_open_second_quarter() {
    mutation_sweep(500, 500);
}

#[test]
fn mutated_vessels_never_open_third_quarter() {
    mutation_sweep(1000, 500);
}

#[test]
fn mutated_vessels_never_open_fourth_quarter() {
    mutation_sweep(1500, 500);
}

#[test]
fn monotonic_gate_refusals_are_typed() {
    let v1 = decode(&vessel_v(1), &test_pins()).unwrap();
    assert!(v1.check_monotonic(&vessel::substrate()).is_ok());
    assert_eq!(
        v1.check_monotonic(&ApplyState { artifact_version: 2, commitment: [0; 32] }),
        Err(ApplyRefusal::OlderThanCurrent { current: 2, offered: 1 })
    );
}

#[test]
fn peek_reads_structure_without_pins() {
    let v = signed_vessel();
    let (h, sig) = vessel::peek(&v).expect("peek");
    assert_eq!(h.format_version, FORMAT_VERSION);
    assert_eq!(h.class, Class::PublicRelease);
    assert_eq!(h.key_id, 1);
    assert_eq!(h.artifact_version, 5);
    assert_eq!(h.payload_len, payload().len() as u64);
    assert_eq!(&sig[..], &v[HEADER_LEN..PREFIX_LEN]);
    assert_eq!(vessel::peek(&v[..10]), Err(VesselError::Truncated { len: 10 }));
}

#[test]
fn encoded_header_is_the_wire_table() {
    let v = encode_public(&test_seed(), 3, 7, [5u8; 32], &payload());
    assert_eq!(&v[..HEADER_LEN], &header_bytes(0, 3, 7, [5u8; 32], payload().len() as u64)[..]);
    assert_eq!(&v[PREFIX_LEN..], &payload()[..]);
    assert_eq!(v.len(), PREFIX_LEN + payload().len());
    // the signature is the dalek signature over header || payload
    let mut msg = v[..HEADER_LEN].to_vec();
    msg.extend_from_slice(&payload());
    assert_eq!(&v[HEADER_LEN..PREFIX_LEN], &test_key().sign(&msg).to_bytes()[..]);
}

#[test]
fn bounded_read_refuses_past_the_ceiling() {
    let big = vec![0u8; PREFIX_LEN + MAX_PAYLOAD + 1];
    assert_eq!(
        vessel::decode_bounded(&big, &test_pins()),
        Err(VesselError::TooLarge {
            len: (PREFIX_LEN + MAX_PAYLOAD + 1) as u64,
            cap: (PREFIX_LEN + MAX_PAYLOAD) as u64
        })
    );
    assert!(vessel::decode_bounded(&signed_vessel(), &test_pins()).is_ok());
}

#[test]
fn commitment_hex_is_lowercase_hex_of_the_commitment() {
    let got = decode(&signed_vessel(), &test_pins()).unwrap();
    let want: String = got.commitment().iter().map(|b| format!("{b:02x}")).collect();
    assert_eq!(got.commitment_hex(), want);
    assert_eq!(got.commitment_hex().len(), 64);
}

#[test]
fn class_names() {
    assert_eq!(Class::PublicRelease.as_str(), "public-release");
    assert_eq!(Class::HostedOnly.as_str(), "hosted-only");
}

#[test]
fn pin_resolution_order() {
    let k1 = test_key().verifying_key().to_bytes();
    let k2 = SigningKey::from_bytes(&[9u8; 32]).verifying_key().to_bytes();
    let pins = PinTable::with_key(1, k1).with_wildcard(k2);
    assert_eq!(pins.resolve_key(1), Ok(&k1));
    assert_eq!(pins.resolve_key(2), Ok(&k2));
    let revoked = pins.clone().revoke(1);
    assert_eq!(revoked.resolve_key(1), Err(VesselError::RevokedKey(1)));
    assert_eq!(PinTable::empty().resolve_key(4), Err(VesselError::UnknownKey(4)));
}

#[test]
fn pins_from_bytes_skips_undecodable_keys() {
    let bad = (0u8..=255)
        .map(|i| {
            let mut b = [0u8; 32];
            b[0] = i;
            b[1] = 0x80;
            b
        })
        .find(|b| ed25519_dalek::VerifyingKey::from_bytes(b).is_err())
        .expect("some bytes do not decompress");
    let good = test_key().verifying_key().to_bytes();
    let t = pins_from_bytes(&[(5, bad), (1, good)]);
    assert_eq!(t.resolve_key(5), Err(VesselError::UnknownKey(5)));
    assert_eq!(t.resolve_key(1), Ok(&good));
}

#[test]
fn refusal_texts() {
    assert_eq!(VesselError::BadMagic.message(), "bad magic (not a vessel)");
    assert_eq!(VesselError::UnknownFlags(2).message(), "unknown flag bits 0x2 (reserved bits must be 0)");
    assert_eq!(VesselError::UnknownFlags(255).message(), "unknown flag bits 0xff (reserved bits must be 0)");
    assert_eq!(
        VesselError::Truncated { len: 10 }.message(),
        "truncated: 10 B < header+signature (132 B)"
    );
    assert_eq!(
        VesselError::UnknownFormatVersion(2).message(),
        "unknown format version 2 (reader: 1)"
    );
    assert_eq!(
        VesselError::PayloadLenMismatch { header: 57, file: 58 }.message(),
        "payload_len mismatch: header says 57, file carries 58"
    );
    assert_eq!(VesselError::UnknownKey(7).message(), "key-id 7 is not pinned (fail-closed)");
    assert_eq!(VesselError::RevokedKey(7).message(), "key-id 7 is REVOKED (fail-closed)");
    assert_eq!(VesselError::Io("gone".to_string()).message(), "io: gone");
    assert_eq!(
        VesselError::TooLarge { len: 5, cap: 4 }.message(),
        "file 5 B exceeds the 4 B ceiling"
    );
    assert_eq!(
        VesselError::PayloadTooLarge { len: 1048577, cap: 1048576 }.message(),
        "payload 1048577 B exceeds cap 1048576 B"
    );
    assert_eq!(
        VesselError::HostedOnly.message(),
        "hosted-only artifact — refused on uncontrolled hardware (fail-closed)"
    );
    assert_eq!(VesselError::BadSignature.message(), "signature failed strict verification");
    assert_eq!(
        ApplyRefusal::OlderThanCurrent { current: 6, offered: 5 }.message(),
        "downgrade refused: artifact v5 < current v6 (force is an operator action and logs)"
    );
    assert_eq!(
        ApplyRefusal::VersionFork { version: 5 }.message(),
        "lineage fork refused: v5 with a different commitment than current"
    );
}
