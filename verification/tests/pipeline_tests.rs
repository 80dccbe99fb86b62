use backup_reader::errors::FramingError;
use backup_reader::errors::ReadError;
use backup_reader::errors::ValidationError;
use backup_reader::frames::Frame;
use backup_reader::kdf::derive_backup_id;
use backup_reader::kdf::derive_backup_key;
use backup_reader::kdf::derive_key_material;
use backup_reader::kdf::BackupKeyMaterial;
use backup_reader::read::read_all_encrypted;
use backup_reader::read::read_all_from_source;
use backup_reader::read::read_all_plain;
use backup_reader::read::read_all_plain_with;
use backup_reader::read::MemoryFrameSource;
use backup_reader::validate::FrameVisitor;
use backup_reader::validate::NoopVisitor;
use backup_reader::validate::UnknownFieldRecord;
use hmac::Mac;

fn field(id: u8, data: &[u8]) -> Vec<u8> {
    let mut out = vec![id, (data.len() & 0xff) as u8, ((data.len() >> 8) & 0xff) as u8];
    out.extend_from_slice(data);
    out
}

fn frame_bytes(tag: u8, fields: &[Vec<u8>]) -> Vec<u8> {
    let mut payload = vec![tag];
    for f in fields {
        payload.extend_from_slice(f);
    }
    let mut out = (payload.len() as u32).to_le_bytes().to_vec();
    out.extend_from_slice(&payload);
    out
}

fn le64(v: u64) -> Vec<u8> {
    v.to_le_bytes().to_vec()
}

fn version_frame(v: u64) -> Vec<u8> {
    frame_bytes(0, &[field(1, &le64(v))])
}

fn decl_frame(id: u64, data: &[u8]) -> Vec<u8> {
    frame_bytes(1, &[field(1, &le64(id)), field(2, data)])
}

fn ref_frame(id: u64) -> Vec<u8> {
    frame_bytes(2, &[field(1, &le64(id))])
}

fn stream(frames: &[Vec<u8>]) -> Vec<u8> {
    frames.concat()
}

fn hmac32(key: &[u8], msg: &[u8]) -> Vec<u8> {
    let mut m = hmac::Hmac::<sha2::Sha256>::new_from_slice(key).unwrap();
    m.update(msg);
    m.finalize().into_bytes().to_vec()
}

fn keystream_xor(key: &[u8], data: &[u8]) -> Vec<u8> {
    let mut out = Vec::new();
    for (j, b) in data.iter().enumerate() {
        let block = hmac32(key, &((j / 32) as u64).to_le_bytes());
        out.push(b ^ block[j % 32]);
    }
    out
}

fn rle_compress(data: &[u8]) -> Vec<u8> {
    let mut out = Vec::new();
    let mut i = 0;
    while i < data.len() {
        let b = data[i];
        let mut n = 1;
        while i + n < data.len() && data[i + n] == b && n < 255 {
            n += 1;
        }
        out.push(n as u8);
        out.push(b);
        i += n;
    }
    out
}

fn test_key_material() -> BackupKeyMaterial {
    let master = [b'M'; 32];
    let aci = [0x11u8; 16];
    let key = derive_backup_key(&master).unwrap();
    let id = derive_backup_id(&key, &aci).unwrap();
    derive_key_material(&key, &id)
}

fn container_for(km: &BackupKeyMaterial, plaintext: &[u8]) -> Vec<u8> {
    let compressed = rle_compress(plaintext);
    let ct = keystream_xor(&km.cipher_key, &compressed);
    let mut body = vec![0x53, 0x42, 0x41, 0x4b];
    body.extend_from_slice(&ct);
    let tag = hmac32(&km.mac_key, &body);
    let mut c = body;
    c.extend_from_slice(&tag);
    c
}

fn read_err_message(bytes: &[u8]) -> String {
    let r = read_all_plain(bytes);
    assert!(r.found_unknown_fields.is_empty());
    r.result.unwrap_err().message()
}

#[test]
fn plain_read_valid_stream() {
    let s = stream(&[version_frame(1), decl_frame(7, b"hi"), decl_frame(8, b""), ref_frame(7)]);
    let r = read_all_plain(&s);
    let backup = r.result.unwrap();
    assert_eq!(backup.version, 1);
    assert_eq!(backup.entities.len(), 2);
    assert_eq!(backup.entities[0].id, 7);
    assert_eq!(backup.entities[0].data, b"hi".to_vec());
    assert_eq!(backup.entities[1].id, 8);
    assert_eq!(backup.entities[1].data, Vec::<u8>::new());
    assert_eq!(backup.refs, vec![7]);
    assert!(r.found_unknown_fields.is_empty());
}

#[test]
fn repeated_reads_are_identical() {
    let s = stream(&[version_frame(1), decl_frame(7, b"abc"), ref_frame(7)]);
    let r1 = read_all_plain(&s);
    let r2 = read_all_plain(&s);
    assert_eq!(r1, r2);
}

#[test]
fn unknown_field_is_reported_once_and_backup_unchanged() {
    let plain = stream(&[version_frame(1), decl_frame(7, b"hi"), ref_frame(7)]);
    let augmented = stream(&[
        version_frame(1),
        frame_bytes(1, &[field(1, &le64(7)), field(9, b"zz"), field(2, b"hi")]),
        ref_frame(7),
    ]);
    let r_plain = read_all_plain(&plain);
    let r_aug = read_all_plain(&augmented);
    assert_eq!(r_aug.result.as_ref().unwrap(), r_plain.result.as_ref().unwrap());
    assert!(r_plain.found_unknown_fields.is_empty());
    assert_eq!(
        r_aug.found_unknown_fields,
        vec![UnknownFieldRecord { frame_index: 1, field_id: 9 }]
    );
}

#[test]
fn unknown_field_in_version_frame_is_reported() {
    let s = stream(&[frame_bytes(0, &[field(1, &le64(1)), field(5, b"x")]), decl_frame(3, b"")]);
    let r = read_all_plain(&s);
    assert!(r.result.is_ok());
    assert_eq!(
        r.found_unknown_fields,
        vec![UnknownFieldRecord { frame_index: 0, field_id: 5 }]
    );
}

#[test]
fn missing_version_frame_message() {
    assert_eq!(read_err_message(&[]), "missing version frame");
    let s = stream(&[decl_frame(7, b"")]);
    assert_eq!(read_err_message(&s), "missing version frame");
}

#[test]
fn unsupported_version_message() {
    let s = stream(&[version_frame(2)]);
    assert_eq!(read_err_message(&s), "unsupported version: 2");
}

#[test]
fn duplicate_version_frame_message() {
    let s = stream(&[version_frame(1), version_frame(1)]);
    assert_eq!(read_err_message(&s), "duplicate version frame");
}

#[test]
fn missing_version_field_message() {
    let s = stream(&[frame_bytes(0, &[])]);
    assert_eq!(read_err_message(&s), "missing version field");
}

#[test]
fn malformed_version_field_message() {
    let s = stream(&[frame_bytes(0, &[field(1, &[1, 0])])]);
    assert_eq!(read_err_message(&s), "malformed version field");
}

#[test]
fn duplicate_identifier_message() {
    let s = stream(&[version_frame(1), decl_frame(7, b"a"), decl_frame(7, b"b")]);
    assert_eq!(read_err_message(&s), "duplicate identifier: 7");
}

#[test]
fn dangling_reference_message() {
    let s = stream(&[version_frame(1), ref_frame(9)]);
    assert_eq!(read_err_message(&s), "dangling reference: 9");
}

#[test]
fn forward_reference_is_invalid() {
    let s = stream(&[version_frame(1), ref_frame(7), decl_frame(7, b"")]);
    assert_eq!(read_err_message(&s), "dangling reference: 7");
}

#[test]
fn missing_identifier_field_message() {
    let s = stream(&[version_frame(1), frame_bytes(1, &[])]);
    assert_eq!(read_err_message(&s), "missing identifier field");
}

#[test]
fn malformed_identifier_field_message() {
    let s = stream(&[version_frame(1), frame_bytes(1, &[field(1, &[9])])]);
    assert_eq!(read_err_message(&s), "malformed identifier field");
}

#[test]
fn missing_reference_field_message() {
    let s = stream(&[version_frame(1), frame_bytes(2, &[])]);
    assert_eq!(read_err_message(&s), "missing reference field");
}

#[test]
fn malformed_reference_field_message() {
    let s = stream(&[version_frame(1), frame_bytes(2, &[field(1, &[9, 9, 9])])]);
    assert_eq!(read_err_message(&s), "malformed reference field");
}

#[test]
fn unrecognized_frame_type_message() {
    let s = stream(&[version_frame(1), frame_bytes(3, &[])]);
    assert_eq!(read_err_message(&s), "unrecognized frame type: 3");
}

#[test]
fn truncated_frame_message() {
    let good = version_frame(1);
    let offset = good.len();
    let mut s = good;
    s.extend_from_slice(&[1, 0]);
    assert_eq!(read_err_message(&s), format!("truncated frame at offset {}", offset));
    let r = read_all_plain(&[9, 0, 0, 0, 1]);
    assert_eq!(
        r.result.unwrap_err(),
        ReadError::Framing(FramingError::Truncated { offset: 0 })
    );
}

#[test]
fn malformed_payload_message() {
    let s = vec![0u8, 0, 0, 0];
    assert_eq!(read_err_message(&s), "malformed frame payload at offset 0");
    let s2 = frame_bytes(1, &[field(1, &le64(7))]);
    let mut truncated_field = s2.clone();
    truncated_field[4 + 2] = 200;
    let r = read_all_plain(&truncated_field);
    assert_eq!(
        r.result.unwrap_err(),
        ReadError::Framing(FramingError::Malformed { offset: 0 })
    );
}

#[test]
fn fixed_error_messages() {
    assert_eq!(ReadError::Io.message(), "input/output error: origin unavailable");
    assert_eq!(
        ReadError::Authentication.message(),
        "authentication failed: integrity tag mismatch"
    );
    assert_eq!(ReadError::Cipher.message(), "malformed ciphertext framing");
    assert_eq!(ReadError::Decompression.message(), "corrupt compressed payload");
    assert_eq!(
        ReadError::Validation(ValidationError::DuplicateIdentifier { id: 7 }).message(),
        "duplicate identifier: 7"
    );
    assert_eq!(
        ReadError::Framing(FramingError::Truncated { offset: 12 }).message(),
        "truncated frame at offset 12"
    );
}

#[test]
fn encrypted_round_trip_matches_plain_read() {
    let km = test_key_material();
    let plain = stream(&[version_frame(1), decl_frame(7, b"hello"), ref_frame(7)]);
    let c = container_for(&km, &plain);
    let r_enc = read_all_encrypted(&km, &c);
    let r_plain = read_all_plain(&plain);
    assert_eq!(r_enc, r_plain);
    assert!(r_enc.result.is_ok());
    let again = read_all_encrypted(&km, &c);
    assert_eq!(again, r_enc);
}

#[test]
fn tag_bit_flips_always_fail_authentication() {
    let km = test_key_material();
    let plain = stream(&[version_frame(1), decl_frame(7, b"x")]);
    let c = container_for(&km, &plain);
    let tag_start = c.len() - 32;
    for byte in tag_start..c.len() {
        for bit in 0..8 {
            let mut flipped = c.clone();
            flipped[byte] ^= 1 << bit;
            let r = read_all_encrypted(&km, &flipped);
            assert_eq!(r.result.unwrap_err(), ReadError::Authentication);
            assert!(r.found_unknown_fields.is_empty());
        }
    }
}

#[test]
fn ciphertext_bit_flips_always_fail_authentication() {
    let km = test_key_material();
    let plain = stream(&[version_frame(1), decl_frame(7, b"x")]);
    let c = container_for(&km, &plain);
    let tag_start = c.len() - 32;
    for byte in 0..tag_start {
        for bit in 0..8 {
            let mut flipped = c.clone();
            flipped[byte] ^= 1 << bit;
            let r = read_all_encrypted(&km, &flipped);
            assert_eq!(r.result.unwrap_err(), ReadError::Authentication);
        }
    }
}

#[test]
fn short_container_is_cipher_error() {
    let km = test_key_material();
    let r = read_all_encrypted(&km, &[0u8; 35]);
    assert_eq!(r.result.unwrap_err(), ReadError::Cipher);
}

#[test]
fn authenticated_bad_magic_is_cipher_error() {
    let km = test_key_material();
    let mut body = vec![b'X', b'Y', b'Z', b'W'];
    body.extend_from_slice(&[1, 2, 3]);
    let tag = hmac32(&km.mac_key, &body);
    let mut c = body;
    c.extend_from_slice(&tag);
    let r = read_all_encrypted(&km, &c);
    assert_eq!(r.result.unwrap_err(), ReadError::Cipher);
}

#[test]
fn corrupt_compressed_payload_is_decompression_error() {
    let km = test_key_material();
    let compressed = vec![1u8];
    let ct = keystream_xor(&km.cipher_key, &compressed);
    let mut body = vec![0x53, 0x42, 0x41, 0x4b];
    body.extend_from_slice(&ct);
    let tag = hmac32(&km.mac_key, &body);
    let mut c = body;
    c.extend_from_slice(&tag);
    let r = read_all_encrypted(&km, &c);
    assert_eq!(r.result.unwrap_err(), ReadError::Decompression);
}

#[test]
fn memory_source_two_pass_read_matches_buffered_read() {
    let km = test_key_material();
    let plain = stream(&[version_frame(1), decl_frame(7, b"hello"), ref_frame(7)]);
    let c = container_for(&km, &plain);
    let mut source = MemoryFrameSource { bytes: c.clone() };
    let mut visitor = NoopVisitor;
    let from_source = read_all_from_source(&km, &mut source, &mut visitor);
    let buffered = read_all_encrypted(&km, &c);
    assert_eq!(from_source, buffered);
}

struct TraceVisitor {
    seen: Vec<(u64, u8)>,
}

impl FrameVisitor for TraceVisitor {
    fn on_frame(&mut self, index: u64, frame: &Frame) {
        self.seen.push((index, frame.tag));
    }
}

#[test]
fn visitor_sees_each_accepted_frame_in_order() {
    let s = stream(&[version_frame(1), decl_frame(7, b"a"), ref_frame(7)]);
    let mut visitor = TraceVisitor { seen: Vec::new() };
    let r = read_all_plain_with(&s, &mut visitor);
    assert!(r.result.is_ok());
    assert_eq!(visitor.seen, vec![(0, 0), (1, 1), (2, 2)]);
}

#[test]
fn visitor_does_not_change_the_outcome() {
    let s = stream(&[version_frame(1), decl_frame(7, b"a"), ref_frame(7)]);
    let mut visitor = TraceVisitor { seen: Vec::new() };
    let with_visitor = read_all_plain_with(&s, &mut visitor);
    let without = read_all_plain(&s);
    assert_eq!(with_visitor, without);
}

#[test]
fn rle_decompress_roundtrip_and_rejects_corrupt() {
    let data = b"aaaabbbcx".to_vec();
    let compressed = rle_compress(&data);
    assert_eq!(backup_reader::compress::rle_decompress(&compressed), Some(data));
    assert_eq!(backup_reader::compress::rle_decompress(&[3]), None);
    assert_eq!(backup_reader::compress::rle_decompress(&[0, 7]), None);
    assert_eq!(backup_reader::compress::rle_decompress(&[]), Some(Vec::new()));
}
