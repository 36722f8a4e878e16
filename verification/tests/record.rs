use ed25519_dalek::{Signer, SigningKey};
use reflexer::record::{manifest_for, seed_from_bytes, signed_message, unhex, verify_manifest, TRAJECTORY_DOMAIN};
use reflexer::text::hex;

fn seed() -> [u8; 32] {
    [3u8; 32]
}

const ROWS: &[u8] = b"{\"seq\":0,\"request\":{},\"outcomes\":[]}\n";

#[test]
fn signed_message_is_the_domain_line_format() {
    assert_eq!(
        signed_message(1, "abc", "68cae9d382014662"),
        "reflexer-trajectory-v1\n1\nabc\n68cae9d382014662\n"
    );
    assert_eq!(TRAJECTORY_DOMAIN, "reflexer-trajectory-v1");
    assert_eq!(signed_message(0, "", ""), "reflexer-trajectory-v1\n0\n\n\n");
}

#[test]
fn manifest_roundtrip_verifies_and_tamper_fails() {
    let digest = *blake3::hash(ROWS).as_bytes();
    let m = manifest_for(1, &digest, "68cae9d382014662", &seed());
    assert_eq!(m.rows, 1);
    assert_eq!(m.proto, 1);
    assert_eq!(m.rows_blake3, blake3::hash(ROWS).to_string());
    assert_eq!(verify_manifest(&m, ROWS), Ok(()));
    let mut tampered = ROWS.to_vec();
    tampered[0] ^= 1;
    assert_eq!(verify_manifest(&m, &tampered), Err("rows blake3 mismatch"));
}

#[test]
fn manifest_signature_is_the_dalek_signature() {
    let digest = *blake3::hash(ROWS).as_bytes();
    let m = manifest_for(4, &digest, "g", &seed());
    let key = SigningKey::from_bytes(&seed());
    assert_eq!(m.verifying_key, hex(&key.verifying_key().to_bytes()));
    let msg = signed_message(4, &m.rows_blake3, "g");
    assert_eq!(m.signature, hex(&key.sign(msg.as_bytes()).to_bytes()));
}

#[test]
fn manifest_refusals_are_typed() {
    let digest = *blake3::hash(ROWS).as_bytes();
    let good = manifest_for(1, &digest, "g", &seed());
    let mut m = good.clone();
    m.verifying_key = "zz".to_string();
    assert_eq!(verify_manifest(&m, ROWS), Err("bad verifying key hex"));
    let mut m = good.clone();
    m.verifying_key = "abcd".to_string();
    assert_eq!(verify_manifest(&m, ROWS), Err("verifying key must be 32 bytes"));
    let mut m = good.clone();
    m.signature = "0".to_string();
    assert_eq!(verify_manifest(&m, ROWS), Err("bad signature hex"));
    let mut m = good.clone();
    m.signature = "00".repeat(63);
    assert_eq!(verify_manifest(&m, ROWS), Err("signature must be 64 bytes"));
    let mut m = good.clone();
    m.rows = 2;
    assert_eq!(verify_manifest(&m, ROWS), Err("signature does not verify"));
    let mut m = good.clone();
    m.genome = "other".to_string();
    assert_eq!(verify_manifest(&m, ROWS), Err("signature does not verify"));
}

#[test]
fn unhex_reads_hex_and_refuses_the_rest() {
    assert_eq!(unhex("00ff10"), Some(vec![0, 255, 16]));
    assert_eq!(unhex("  AbCd \n"), Some(vec![0xab, 0xcd]));
    assert_eq!(unhex(""), Some(vec![]));
    assert_eq!(unhex("abc"), None);
    assert_eq!(unhex("zz"), None);
    assert_eq!(unhex("+f"), Some(vec![15]));
    assert_eq!(unhex("f+"), None);
    assert_eq!(unhex("\u{a0}0a\u{3000}"), Some(vec![10]));
    assert_eq!(unhex("é0"), None);
    let bytes: Vec<u8> = (0u8..=255).collect();
    assert_eq!(unhex(&hex(&bytes)), Some(bytes));
}

#[test]
fn hex_is_lowercase_two_digits_per_byte() {
    assert_eq!(hex(&[0x00, 0x0f, 0xa0, 0xff]), "000fa0ff");
    assert_eq!(hex(&[]), "");
}

#[test]
fn key_file_must_be_a_32_byte_seed() {
    assert_eq!(seed_from_bytes(&[7u8; 32]), Ok([7u8; 32]));
    assert_eq!(seed_from_bytes(&[7u8; 31]), Err("key file must be 32 bytes, got 31".to_string()));
    assert_eq!(seed_from_bytes(&[]), Err("key file must be 32 bytes, got 0".to_string()));
}
