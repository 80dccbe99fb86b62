//! The read pipeline.  A plain read decodes and validates an
//! already-decrypted frame stream.  An encrypted read first streams the
//! whole protected span through the keyed MAC and compares the resulting
//! tag, in constant time, against the trailing tag of the container; only on
//! a match does it decrypt, decompress, and hand the plaintext to the frame
//! decoder.  Authentication strictly precedes decryption: not one plaintext
//! byte is produced from an unauthenticated container.

use vstd::prelude::*;

use crate::compress::rle_decode;
use crate::compress::rle_decompress;
use crate::crypto::constant_time_eq;
use crate::crypto::hmac_sha256;
use crate::crypto::hmac_sha256_of;
use crate::crypto::keystream_apply;
use crate::crypto::keystream_transform;
use crate::errors::ReadError;
use crate::frames::parse_frames;
use crate::frames::spec_parse_frames;
use crate::kdf::BackupKeyMaterial;
use crate::validate::Backup;
use crate::validate::BackupV;
use crate::validate::FrameVisitor;
use crate::validate::NoopVisitor;
use crate::validate::UnknownFieldRecord;
use crate::validate::build_backup;
use crate::validate::spec_build;

verus! {

/// First byte of the container magic.
pub const MAGIC_0: u8 = 0x53;

/// Second byte of the container magic.
pub const MAGIC_1: u8 = 0x42;

/// Third byte of the container magic.
pub const MAGIC_2: u8 = 0x41;

/// Fourth byte of the container magic.
pub const MAGIC_3: u8 = 0x4b;

/// The shortest well-framed container: the magic and the trailing tag.
pub const MIN_CONTAINER_LEN: usize = 36;

/// The four magic bytes that open every encrypted container.
pub open spec fn magic_seq() -> Seq<u8> {
    seq![MAGIC_0, MAGIC_1, MAGIC_2, MAGIC_3]
}

/// The terminal output envelope of a read: a fully validated backup or a
/// terminal error, together with the unknown-field reports gathered on the
/// way.  The reports accompany success only; a failed read carries none.
#[derive(Debug, PartialEq, Eq)]
pub struct ReadResult {
    pub result: Result<Backup, ReadError>,
    pub found_unknown_fields: Vec<UnknownFieldRecord>,
}

/// The outcome of reading a plaintext frame stream: decode the frames, then
/// consume them into a validated backup.
pub open spec fn spec_read_plain(s: Seq<u8>) -> Result<
    (BackupV, Seq<UnknownFieldRecord>),
    ReadError,
> {
    match spec_parse_frames(s, 0) {
        Result::Err(fe) => Err(ReadError::Framing(fe)),
        Result::Ok(frames) => match spec_build(frames) {
            Result::Err(ve) => Err(ReadError::Validation(ve)),
            Result::Ok(p) => Ok(p),
        },
    }
}

/// The outcome of reading an encrypted container: locate the trailing tag,
/// compare it against the keyed MAC of everything before it, and only on a
/// match check the magic, decrypt, decompress, and read the plaintext.
/// The order of the cases is the integrity-first invariant: a tag mismatch
/// is reported before anything is done with the protected bytes.
pub open spec fn spec_read_encrypted(mac_key: Seq<u8>, cipher_key: Seq<u8>, c: Seq<u8>) -> Result<
    (BackupV, Seq<UnknownFieldRecord>),
    ReadError,
> {
    if c.len() < MIN_CONTAINER_LEN {
        Err(ReadError::Cipher)
    } else {
        let body = c.subrange(0, c.len() - 32);
        let tag = c.subrange(c.len() - 32, c.len() as int);
        if tag != hmac_sha256_of(mac_key, body) {
            Err(ReadError::Authentication)
        } else if body.subrange(0, 4) != magic_seq() {
            Err(ReadError::Cipher)
        } else {
            let plaintext = keystream_apply(cipher_key, body.skip(4));
            match rle_decode(plaintext) {
                Option::None => Err(ReadError::Decompression),
                Option::Some(d) => spec_read_plain(d),
            }
        }
    }
}

/// Drains an already-decrypted frame stream to completion or first failure,
/// invoking `visitor` once per accepted frame.
pub fn read_all_plain_with<V: FrameVisitor>(bytes: &[u8], visitor: &mut V) -> (r: ReadResult)
    ensures
        match spec_read_plain(bytes@) {
            Result::Ok(p) => r.result matches Ok(b) && b@ == p.0 && r.found_unknown_fields@ == p.1,
            Result::Err(e) => r.result == Result::<Backup, ReadError>::Err(e)
                && r.found_unknown_fields@ == Seq::<UnknownFieldRecord>::empty(),
        },
{
    match parse_frames(bytes) {
        Result::Err(fe) => ReadResult {
            result: Err(ReadError::Framing(fe)),
            found_unknown_fields: Vec::new(),
        },
        Result::Ok(frames) => {
            let (res, unknown) = build_backup(&frames, visitor);
            match res {
                Result::Ok(b) => ReadResult { result: Ok(b), found_unknown_fields: unknown },
                Result::Err(ve) => ReadResult {
                    result: Err(ReadError::Validation(ve)),
                    found_unknown_fields: unknown,
                },
            }
        },
    }
}

/// Drains an already-decrypted frame stream with the default no-op visitor.
pub fn read_all_plain(bytes: &[u8]) -> (r: ReadResult)
    ensures
        match spec_read_plain(bytes@) {
            Result::Ok(p) => r.result matches Ok(b) && b@ == p.0 && r.found_unknown_fields@ == p.1,
            Result::Err(e) => r.result == Result::<Backup, ReadError>::Err(e)
                && r.found_unknown_fields@ == Seq::<UnknownFieldRecord>::empty(),
        },
{
    let mut visitor = NoopVisitor;
    read_all_plain_with(bytes, &mut visitor)
}

/// Drains an encrypted container held in memory: authenticate, then decrypt,
/// decompress and read, invoking `visitor` once per accepted frame.
pub fn read_all_encrypted_with<V: FrameVisitor>(
    key_material: &BackupKeyMaterial,
    container: &[u8],
    visitor: &mut V,
) -> (r: ReadResult)
    requires
        key_material.wf(),
    ensures
        match spec_read_encrypted(key_material.mac_key@, key_material.cipher_key@, container@) {
            Result::Ok(p) => r.result matches Ok(b) && b@ == p.0 && r.found_unknown_fields@ == p.1,
            Result::Err(e) => r.result == Result::<Backup, ReadError>::Err(e)
                && r.found_unknown_fields@ == Seq::<UnknownFieldRecord>::empty(),
        },
{
    if container.len() < MIN_CONTAINER_LEN {
        return ReadResult { result: Err(ReadError::Cipher), found_unknown_fields: Vec::new() };
    }
    let body = vstd::slice::slice_subrange(container, 0, container.len() - 32);
    let tag = vstd::slice::slice_subrange(container, container.len() - 32, container.len());
    let mac = hmac_sha256(key_material.mac_key.as_slice(), body);
    if !constant_time_eq(tag, mac.as_slice()) {
        return ReadResult {
            result: Err(ReadError::Authentication),
            found_unknown_fields: Vec::new(),
        };
    }
    if body[0] != MAGIC_0 || body[1] != MAGIC_1 || body[2] != MAGIC_2 || body[3] != MAGIC_3 {
        proof {
            assert(body@.subrange(0, 4) != magic_seq());
        }
        return ReadResult { result: Err(ReadError::Cipher), found_unknown_fields: Vec::new() };
    }
    proof {
        assert(body@.subrange(0, 4) =~= magic_seq());
    }
    let ciphertext = vstd::slice::slice_subrange(body, 4, body.len());
    proof {
        assert(ciphertext@ =~= body@.skip(4));
    }
    let plaintext = keystream_transform(key_material.cipher_key.as_slice(), ciphertext);
    match rle_decompress(plaintext.as_slice()) {
        Option::None => ReadResult {
            result: Err(ReadError::Decompression),
            found_unknown_fields: Vec::new(),
        },
        Option::Some(decompressed) => read_all_plain_with(decompressed.as_slice(), visitor),
    }
}

/// Drains an encrypted container with the default no-op visitor.
pub fn read_all_encrypted(key_material: &BackupKeyMaterial, container: &[u8]) -> (r: ReadResult)
    requires
        key_material.wf(),
    ensures
        match spec_read_encrypted(key_material.mac_key@, key_material.cipher_key@, container@) {
            Result::Ok(p) => r.result matches Ok(b) && b@ == p.0 && r.found_unknown_fields@ == p.1,
            Result::Err(e) => r.result == Result::<Backup, ReadError>::Err(e)
                && r.found_unknown_fields@ == Seq::<UnknownFieldRecord>::empty(),
        },
{
    let mut visitor = NoopVisitor;
    read_all_encrypted_with(key_material, container, &mut visitor)
}

/// A repeatable-stream abstraction over the backup's physical origin.
/// `open` may be called more than once over the same logical origin; each
/// successful call yields the full content of that origin from the start,
/// which is what lets authenticated decryption make two independent passes.
/// `open` returns `None` when the origin is currently unavailable.
pub trait FrameSource {
    /// The byte content of the logical origin.
    spec fn contents(&self) -> Seq<u8>;

    /// Opens one independent pass over the origin.
    fn open(&mut self) -> (r: Option<Vec<u8>>)
        ensures
            final(self).contents() == old(self).contents(),
            r matches Some(v) ==> v@ == final(self).contents(),
    ;
}

/// A frame source over bytes already held in memory; opening it never fails.
pub struct MemoryFrameSource {
    pub bytes: Vec<u8>,
}

impl FrameSource for MemoryFrameSource {
    open spec fn contents(&self) -> Seq<u8> {
        self.bytes@
    }

    fn open(&mut self) -> (r: Option<Vec<u8>>)
        ensures
            final(self).contents() == old(self).contents(),
            r matches Some(v) ==> v@ == final(self).contents(),
            r is Some,
    {
        Some(vstd::slice::slice_to_vec(self.bytes.as_slice()))
    }
}

/// Performs the full two-pass encrypted read over a repeatable origin: the
/// first pass streams the container through the keyed MAC and compares the
/// trailing tag; only on a match does the second pass re-open the origin and
/// decrypt.  An unavailable origin, in either pass, is an `Io` failure; with
/// an available origin the outcome is exactly that of reading its content.
pub fn read_all_from_source<S: FrameSource, V: FrameVisitor>(
    key_material: &BackupKeyMaterial,
    source: &mut S,
    visitor: &mut V,
) -> (r: ReadResult)
    requires
        key_material.wf(),
    ensures
        final(source).contents() == old(source).contents(),
        r.result == Result::<Backup, ReadError>::Err(ReadError::Io) || match spec_read_encrypted(
            key_material.mac_key@,
            key_material.cipher_key@,
            old(source).contents(),
        ) {
            Result::Ok(p) => r.result matches Ok(b) && b@ == p.0 && r.found_unknown_fields@ == p.1,
            Result::Err(e) => r.result == Result::<Backup, ReadError>::Err(e)
                && r.found_unknown_fields@ == Seq::<UnknownFieldRecord>::empty(),
        },
        r.result == Result::<Backup, ReadError>::Err(ReadError::Io)
            ==> r.found_unknown_fields@ == Seq::<UnknownFieldRecord>::empty(),
{
    let first_pass = match source.open() {
        Option::None => {
            return ReadResult { result: Err(ReadError::Io), found_unknown_fields: Vec::new() };
        },
        Option::Some(v) => v,
    };
    if first_pass.len() < MIN_CONTAINER_LEN {
        return ReadResult { result: Err(ReadError::Cipher), found_unknown_fields: Vec::new() };
    }
    let body = vstd::slice::slice_subrange(first_pass.as_slice(), 0, first_pass.len() - 32);
    let tag = vstd::slice::slice_subrange(
        first_pass.as_slice(),
        first_pass.len() - 32,
        first_pass.len(),
    );
    let mac = hmac_sha256(key_material.mac_key.as_slice(), body);
    if !constant_time_eq(tag, mac.as_slice()) {
        return ReadResult {
            result: Err(ReadError::Authentication),
            found_unknown_fields: Vec::new(),
        };
    }
    let second_pass = match source.open() {
        Option::None => {
            return ReadResult { result: Err(ReadError::Io), found_unknown_fields: Vec::new() };
        },
        Option::Some(v) => v,
    };
    read_all_encrypted_with(key_material, second_pass.as_slice(), visitor)
}

/// Determinism of a plain read: the outcome is a function of the input
/// bytes alone, so byte-identical streams yield identical results.
pub proof fn lemma_read_plain_deterministic(s1: Seq<u8>, s2: Seq<u8>)
    requires
        s1 == s2,
    ensures
        spec_read_plain(s1) == spec_read_plain(s2),
{
}

/// Determinism of an encrypted read: the outcome is a function of the key
/// material and the container bytes alone.
pub proof fn lemma_read_encrypted_deterministic(
    mac_key: Seq<u8>,
    cipher_key: Seq<u8>,
    c1: Seq<u8>,
    c2: Seq<u8>,
)
    requires
        c1 == c2,
    ensures
        spec_read_encrypted(mac_key, cipher_key, c1) == spec_read_encrypted(mac_key, cipher_key, c2),
{
}

/// Integrity first: whenever the trailing tag of a well-framed container is
/// not the keyed MAC of the bytes before it, the read fails with the
/// authentication error — never a validation error, and never a backup.
pub proof fn lemma_integrity_first(mac_key: Seq<u8>, cipher_key: Seq<u8>, c: Seq<u8>)
    requires
        c.len() >= MIN_CONTAINER_LEN,
        c.subrange(c.len() - 32, c.len() as int) != hmac_sha256_of(
            mac_key,
            c.subrange(0, c.len() - 32),
        ),
    ensures
        spec_read_encrypted(mac_key, cipher_key, c) == Result::<
            (BackupV, Seq<UnknownFieldRecord>),
            ReadError,
        >::Err(ReadError::Authentication),
{
}

/// Flipping any single byte of the trailing tag of an authentic container
/// yields the authentication error: the body is unchanged, so its MAC still
/// equals the original tag, from which the altered tag differs.
pub proof fn lemma_tag_flip_fails(
    mac_key: Seq<u8>,
    cipher_key: Seq<u8>,
    c: Seq<u8>,
    altered: Seq<u8>,
    i: int,
)
    requires
        c.len() >= MIN_CONTAINER_LEN,
        c.subrange(c.len() - 32, c.len() as int) == hmac_sha256_of(
            mac_key,
            c.subrange(0, c.len() - 32),
        ),
        altered.len() == c.len(),
        c.len() - 32 <= i < c.len(),
        altered[i] != c[i],
        forall|j: int| 0 <= j < c.len() && j != i ==> altered[j] == c[j],
    ensures
        spec_read_encrypted(mac_key, cipher_key, altered) == Result::<
            (BackupV, Seq<UnknownFieldRecord>),
            ReadError,
        >::Err(ReadError::Authentication),
{
    assert(altered.subrange(0, altered.len() - 32) =~= c.subrange(0, c.len() - 32));
    let tag_c = c.subrange(c.len() - 32, c.len() as int);
    let tag_a = altered.subrange(altered.len() - 32, altered.len() as int);
    assert(tag_a[i - (c.len() - 32)] != tag_c[i - (c.len() - 32)]);
    lemma_integrity_first(mac_key, cipher_key, altered);
}

/// Flipping any single byte of the ciphertext of an authentic container
/// yields the authentication error, provided the keyed MAC of the altered
/// body differs from that of the original — which collision resistance of
/// the MAC gives in practice, and which no computation inside this library
/// can decide.
pub proof fn lemma_ciphertext_flip_fails(
    mac_key: Seq<u8>,
    cipher_key: Seq<u8>,
    c: Seq<u8>,
    altered: Seq<u8>,
    i: int,
)
    requires
        c.len() >= MIN_CONTAINER_LEN,
        c.subrange(c.len() - 32, c.len() as int) == hmac_sha256_of(
            mac_key,
            c.subrange(0, c.len() - 32),
        ),
        altered.len() == c.len(),
        0 <= i < c.len() - 32,
        altered[i] != c[i],
        forall|j: int| 0 <= j < c.len() && j != i ==> altered[j] == c[j],
        hmac_sha256_of(mac_key, altered.subrange(0, altered.len() - 32)) != hmac_sha256_of(
            mac_key,
            c.subrange(0, c.len() - 32),
        ),
    ensures
        spec_read_encrypted(mac_key, cipher_key, altered) == Result::<
            (BackupV, Seq<UnknownFieldRecord>),
            ReadError,
        >::Err(ReadError::Authentication),
{
    assert(altered.subrange(altered.len() - 32, altered.len() as int) =~= c.subrange(
        c.len() - 32,
        c.len() as int,
    ));
    lemma_integrity_first(mac_key, cipher_key, altered);
}

} // verus!
