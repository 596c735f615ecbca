use crystal_server::web3::{
    address_from_pk_xy, address_from_verifying, eip191_message, generate_test_wallet,
    check_signed, personal_sign, recover_address, Web3Auth, Web3Error,
};
use k256::ecdsa::SigningKey;
use sha3::{Digest, Keccak256};

const TEST_SECRET: [u8; 32] = [7u8; 32];
const OTHER_SECRET: [u8; 32] = [9u8; 32];

fn address_of(secret: &[u8]) -> String {
    let key = SigningKey::from_slice(secret).expect("valid key");
    let point = key.verifying_key().to_encoded_point(false);
    address_from_verifying(point.as_bytes()).expect("uncompressed key")
}

#[test]
fn address_derivation_is_40_hex_chars() {
    let addr = address_of(&TEST_SECRET);
    assert!(addr.starts_with("0x"));
    assert_eq!(addr.len(), 42);
    assert!(addr[2..].chars().all(|c| c.is_ascii_hexdigit()));
}

#[test]
fn normalize_address_accepts_and_lowercases() {
    let raw = "0xAbCdEf0000000000000000000000000000000001";
    let (lower, bytes) = Web3Auth::normalize_address(raw).unwrap();
    assert_eq!(lower, "0xabcdef0000000000000000000000000000000001");
    assert_eq!(bytes.len(), 20);
    assert!(Web3Auth::normalize_address("0xzz").is_err());
    assert!(Web3Auth::normalize_address("0x1234").is_err());
}

#[test]
fn full_challenge_signature_verification() {
    let addr = address_of(&TEST_SECRET);
    let mut auth = Web3Auth::new();
    let ch = auth.issue_challenge(&addr);
    assert_eq!(ch.address, addr);
    assert!(ch.expires_in > 0);
    let sig = personal_sign(&TEST_SECRET, &ch.message).unwrap();
    let (recovered_addr, _) = auth.verify_and_consume(&addr, &ch.message, &sig).unwrap();
    assert_eq!(recovered_addr, addr);
}

#[test]
fn wrong_signer_is_rejected() {
    let addr = address_of(&TEST_SECRET);
    let mut auth = Web3Auth::new();
    let ch = auth.issue_challenge(&addr);
    let sig = personal_sign(&OTHER_SECRET, &ch.message).unwrap();
    assert_eq!(
        auth.verify_and_consume(&addr, &ch.message, &sig),
        Err(Web3Error::InvalidSignature)
    );
}

#[test]
fn challenge_is_single_use() {
    let addr = address_of(&TEST_SECRET);
    let mut auth = Web3Auth::new();
    let ch = auth.issue_challenge(&addr);
    let sig = personal_sign(&TEST_SECRET, &ch.message).unwrap();
    assert!(auth.verify_and_consume(&addr, &ch.message, &sig).is_ok());
    assert!(auth.verify_and_consume(&addr, &ch.message, &sig).is_err());
}

#[test]
fn tampered_message_is_rejected() {
    let addr = address_of(&TEST_SECRET);
    let mut auth = Web3Auth::new();
    let ch = auth.issue_challenge(&addr);
    let sig = personal_sign(&TEST_SECRET, &ch.message).unwrap();
    assert!(auth.verify_and_consume(&addr, &"篡改后的消息", &sig).is_err());
}

#[test]
fn second_attempt_reports_expired_and_bad_address_is_invalid() {
    let addr = address_of(&TEST_SECRET);
    let mut auth = Web3Auth::new();
    let ch = auth.issue_challenge(&addr);
    let sig = personal_sign(&TEST_SECRET, &ch.message).unwrap();
    assert!(auth.verify_and_consume(&addr, &ch.message, &sig).is_ok());
    assert_eq!(
        auth.verify_and_consume(&addr, &ch.message, &sig),
        Err(Web3Error::ChallengeExpired)
    );
    assert_eq!(
        auth.verify_and_consume("0xnothex", &ch.message, &sig),
        Err(Web3Error::InvalidAddress)
    );
    // a rejected signature still uses the challenge up
    let ch2 = auth.issue_challenge(&addr);
    let bad = personal_sign(&OTHER_SECRET, &ch2.message).unwrap();
    assert_eq!(auth.verify_and_consume(&addr, &ch2.message, &bad), Err(Web3Error::InvalidSignature));
    let good = personal_sign(&TEST_SECRET, &ch2.message).unwrap();
    assert_eq!(auth.verify_and_consume(&addr, &ch2.message, &good), Err(Web3Error::ChallengeExpired));
}

#[test]
fn upper_case_address_logs_in_as_lower_case() {
    let addr = address_of(&TEST_SECRET);
    let upper = format!("  0x{}  ", addr[2..].to_ascii_uppercase());
    let mut auth = Web3Auth::new();
    let ch = auth.issue_challenge(&addr);
    let sig = personal_sign(&TEST_SECRET, &ch.message).unwrap();
    let (a, bytes) = auth.verify_and_consume(&upper, &ch.message, &sig).unwrap();
    assert_eq!(a, addr);
    assert_eq!(bytes[0], u8::from_str_radix(&addr[2..4], 16).unwrap());
}

#[test]
fn eip191_message_layout() {
    let m = eip191_message("hi");
    let mut expected = b"\x19Ethereum Signed Message:\n".to_vec();
    expected.extend_from_slice(b"2hi");
    assert_eq!(m, expected);
    let m2 = eip191_message("你好");
    assert!(m2.ends_with("6你好".as_bytes()));
}

#[test]
fn signature_recovers_to_signer_and_v_is_27_or_28() {
    let sig = personal_sign(&TEST_SECRET, "hello").unwrap();
    assert_eq!(sig.len(), 65);
    assert!(sig[64] == 27 || sig[64] == 28);
    let a = recover_address("hello", &sig).unwrap();
    let (_, expected) = Web3Auth::normalize_address(&address_of(&TEST_SECRET)).unwrap();
    assert_eq!(a, expected);
    // a v of 0/1 is accepted too
    let mut sig01 = sig.clone();
    sig01[64] -= 27;
    assert_eq!(recover_address("hello", &sig01), Some(expected));
    assert!(recover_address("hello", &sig[..64]).is_none());
    assert!(personal_sign(&[0u8; 32], "x").is_none());
}

#[test]
fn keccak_based_address_of_known_key() {
    // public key of the secret key 1 is the generator point G
    let mut one = [0u8; 32];
    one[31] = 1;
    assert_eq!(address_of(&one), "0x7e5f4552091a69125d5dfcb7b8c2659029395bdf");
    let key = SigningKey::from_slice(&one).unwrap();
    let p = key.verifying_key().to_encoded_point(false);
    assert_eq!(address_from_pk_xy(&p.as_bytes()[1..]), "0x7e5f4552091a69125d5dfcb7b8c2659029395bdf");
    assert!(address_from_verifying(&p.as_bytes()[1..]).is_none());
}

#[test]
fn generated_wallet_is_consistent() {
    let (sk, addr) = generate_test_wallet().unwrap();
    assert_eq!(sk.len(), 32);
    assert_eq!(address_of(&sk), addr);
}

#[test]
fn web3_error_descriptions() {
    assert_eq!(Web3Error::InvalidAddress.describe(), "invalid wallet address");
    assert_eq!(Web3Error::ChallengeExpired.describe(), "challenge expired or missing");
    assert_eq!(Web3Error::InvalidSignature.describe(), "invalid signature or address mismatch");
}

/// A signature made over the standard EIP-191 pre-image (as a wallet makes
/// it, without going through this library) recovers to the signer.
#[test]
fn standard_personal_sign_signature_verifies() {
    let key = SigningKey::from_slice(&TEST_SECRET).unwrap();
    let msg = "hello";
    let mut pre = b"\x19Ethereum Signed Message:\n".to_vec();
    pre.extend_from_slice(msg.len().to_string().as_bytes());
    pre.extend_from_slice(msg.as_bytes());
    let digest = Keccak256::digest(&pre);
    let (sig, recid) = key.sign_prehash_recoverable(&digest).unwrap();
    let mut bytes = sig.to_bytes().to_vec();
    bytes.push(27 + recid.to_byte());
    let (_, expected) = Web3Auth::normalize_address(&address_of(&TEST_SECRET)).unwrap();
    assert_eq!(recover_address(msg, &bytes), Some(expected));
    assert_eq!(check_signed(&expected, msg, &bytes, 0), Ok(()));
    assert_eq!(check_signed(&expected, msg, &bytes, 300_000_000_001), Err(Web3Error::ChallengeExpired));
    assert_eq!(check_signed(&expected, msg, &bytes, 300_000_000_000), Ok(()));
    assert_eq!(check_signed(&expected, "hello!", &bytes, 0), Err(Web3Error::InvalidSignature));
}
