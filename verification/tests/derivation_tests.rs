use backup_reader::auth::Auth;
use backup_reader::auth::HttpBasicAuth;
use backup_reader::kdf::derive_backup_id;
use backup_reader::kdf::derive_backup_key;
use backup_reader::kdf::derive_key_material;
use backup_reader::kdf::KeyError;
use backup_reader::textfmt::decimal_string;
use backup_reader::textfmt::hex_encode;
use hmac::Mac;

fn reference_hmac(key: &[u8], msg: &[u8]) -> Vec<u8> {
    let mut m = hmac::Hmac::<sha2::Sha256>::new_from_slice(key).unwrap();
    m.update(msg);
    m.finalize().into_bytes().to_vec()
}

#[test]
fn derivation_is_deterministic() {
    let master = [b'M'; 32];
    let aci = [0x11u8; 16];
    let key1 = derive_backup_key(&master).unwrap();
    let key2 = derive_backup_key(&master).unwrap();
    assert_eq!(key1.bytes, key2.bytes);
    assert_eq!(key1.bytes.len(), 32);
    let id1 = derive_backup_id(&key1, &aci).unwrap();
    let id2 = derive_backup_id(&key2, &aci).unwrap();
    assert_eq!(id1.bytes, id2.bytes);
    assert_eq!(id1.bytes.len(), 16);
    let km1 = derive_key_material(&key1, &id1);
    let km2 = derive_key_material(&key2, &id2);
    assert_eq!(km1.cipher_key, km2.cipher_key);
    assert_eq!(km1.mac_key, km2.mac_key);
    assert_eq!(km1.cipher_key.len(), 32);
    assert_eq!(km1.mac_key.len(), 32);
    assert_ne!(km1.cipher_key, km1.mac_key);
}

#[test]
fn backup_id_binds_the_account() {
    let master = [b'M'; 32];
    let key = derive_backup_key(&master).unwrap();
    let id_a = derive_backup_id(&key, &[0x11u8; 16]).unwrap();
    let id_b = derive_backup_id(&key, &[0x22u8; 16]).unwrap();
    assert_ne!(id_a.bytes, id_b.bytes);
}

#[test]
fn malformed_lengths_are_rejected_before_derivation() {
    assert_eq!(derive_backup_key(&[0u8; 31]).unwrap_err(), KeyError::MasterSecretLength);
    assert_eq!(derive_backup_key(&[0u8; 33]).unwrap_err(), KeyError::MasterSecretLength);
    let key = derive_backup_key(&[0u8; 32]).unwrap();
    assert_eq!(derive_backup_id(&key, &[0u8; 15]).unwrap_err(), KeyError::AccountIdLength);
    assert_eq!(derive_backup_id(&key, &[0u8; 17]).unwrap_err(), KeyError::AccountIdLength);
}

#[test]
fn derivation_matches_the_documented_construction() {
    let master = [b'M'; 32];
    let key = derive_backup_key(&master).unwrap();
    assert_eq!(key.bytes, reference_hmac(&master, &[1]));
    let aci = [0x11u8; 16];
    let id = derive_backup_id(&key, &aci).unwrap();
    let mut msg = vec![2u8];
    msg.extend_from_slice(&aci);
    assert_eq!(id.bytes, reference_hmac(&key.bytes, &msg)[..16].to_vec());
}

#[test]
fn hex_encoding_is_lowercase_two_digits_per_byte() {
    assert_eq!(hex_encode(&[0x0f, 0xa0]), "0fa0");
    assert_eq!(hex_encode(&[]), "");
    assert_eq!(hex_encode(&[0x00, 0xff]), "00ff");
}

#[test]
fn decimal_rendering_is_exact() {
    assert_eq!(decimal_string(0), "0");
    assert_eq!(decimal_string(7), "7");
    assert_eq!(decimal_string(1234567890), "1234567890");
    assert_eq!(decimal_string(u64::MAX), "18446744073709551615");
}

#[test]
fn hmac_wrapper_matches_the_crate() {
    let key = [9u8; 32];
    let msg = b"some message";
    let ours = backup_reader::crypto::hmac_sha256(&key, msg);
    assert_eq!(ours, reference_hmac(&key, msg));
    assert_eq!(ours.len(), 32);
    assert_ne!(ours, msg.to_vec());
}

#[test]
fn otp_matches_the_documented_construction() {
    let secret = [7u8; 32];
    let ts: u64 = 1700000000;
    let line = Auth::otp("abcd", &secret, ts);
    let digest = reference_hmac(&secret, b"abcd:1700000000");
    let expected = format!("{}:{}", ts, &hex::encode(digest)[..20]);
    assert_eq!(line, expected);
}

#[test]
fn otp_accepts_a_non_ascii_username() {
    let secret = [3u8; 32];
    let ts: u64 = 42;
    let line = Auth::otp("naïve", &secret, ts);
    let digest = reference_hmac(&secret, "naïve:42".as_bytes());
    let expected = format!("{}:{}", ts, &hex::encode(digest)[..20]);
    assert_eq!(line, expected);
}

#[test]
fn from_uid_and_secret_builds_hex_username_and_otp_password() {
    let auth = Auth::from_uid_and_secret([0x11u8; 16], [b'S'; 32]);
    assert_eq!(auth.username(), "11111111111111111111111111111111");
    let (ts_part, otp_part) = auth.password().split_once(':').unwrap();
    let ts: u64 = ts_part.parse().unwrap();
    assert_eq!(otp_part.len(), 20);
    assert!(otp_part.chars().all(|c| c.is_ascii_hexdigit()));
    let expected = Auth::otp(&auth.username, &[b'S'; 32], ts);
    assert_eq!(auth.password(), expected);
}
