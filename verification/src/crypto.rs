//! Keyed-MAC and cipher primitives for the authenticated container:
//! an HMAC-SHA-256 digest (the integrity tag and the key-derivation PRF),
//! constant-time tag comparison, and a counter-mode keystream cipher built
//! from the same PRF.

use hmac::Mac;
use vstd::prelude::*;

verus! {

/// What HMAC-SHA-256 returns for a given key and message: a 32-byte digest
/// that is a pure function of the two byte strings alone.
pub uninterp spec fn hmac_sha256_of(key: Seq<u8>, msg: Seq<u8>) -> Seq<u8>;

/// Relies on the hmac crate's `Hmac::<Sha256>` (`new_from_slice`, `update`,
/// `finalize`): the digest is 32 bytes (SHA-256 output size) and depends on
/// key and message alone; `new_from_slice` accepts a key of any length, so
/// the call cannot fail.
#[verifier::external_body]
pub fn hmac_sha256(key: &[u8], msg: &[u8]) -> (r: Vec<u8>)
    ensures
        r@ == hmac_sha256_of(key@, msg@),
        r@.len() == 32,
{
    let mut mac = hmac::Hmac::<sha2::Sha256>::new_from_slice(key)
        .expect("HMAC accepts a key of any length");
    mac.update(msg);
    mac.finalize().into_bytes().to_vec()
}

/// Compares two byte strings without an early exit on the first difference,
/// so that the comparison of an integrity tag does not leak, through timing,
/// how long a matching prefix an attacker has achieved.
pub fn constant_time_eq(a: &[u8], b: &[u8]) -> (r: bool)
    ensures
        r == (a@ == b@),
{
    if a.len() != b.len() {
        proof {
            assert(a@ != b@);
        }
        return false;
    }
    let mut diff: u8 = 0;
    let mut i: usize = 0;
    while i < a.len()
        invariant
            i <= a@.len(),
            a@.len() == b@.len(),
            (diff == 0) <==> (forall|j: int| 0 <= j < i ==> a@[j] == b@[j]),
        decreases a@.len() - i,
    {
        let x = a[i];
        let y = b[i];
        let d = x ^ y;
        proof {
            assert((x ^ y) == 0 <==> x == y) by (bit_vector);
            assert(((diff | d) == 0) <==> (diff == 0 && d == 0)) by (bit_vector);
        }
        diff = diff | d;
        i = i + 1;
    }
    proof {
        if diff == 0 {
            assert(a@ =~= b@);
        }
    }
    diff == 0
}

/// The little-endian bytes of the block counter fed to the keystream PRF.
pub open spec fn le64(n: nat) -> Seq<u8> {
    seq![
        (n % 256) as u8,
        ((n / 256) % 256) as u8,
        ((n / 0x10000) % 256) as u8,
        ((n / 0x1000000) % 256) as u8,
        ((n / 0x100000000) % 256) as u8,
        ((n / 0x10000000000) % 256) as u8,
        ((n / 0x1000000000000) % 256) as u8,
        ((n / 0x100000000000000) % 256) as u8,
    ]
}

fn le64_bytes(n: u64) -> (r: Vec<u8>)
    ensures
        r@ == le64(n as nat),
{
    let mut v: Vec<u8> = Vec::new();
    v.push((n % 256) as u8);
    v.push(((n / 256) % 256) as u8);
    v.push(((n / 0x10000) % 256) as u8);
    v.push(((n / 0x1000000) % 256) as u8);
    v.push(((n / 0x100000000) % 256) as u8);
    v.push(((n / 0x10000000000) % 256) as u8);
    v.push(((n / 0x1000000000000) % 256) as u8);
    v.push(((n / 0x100000000000000) % 256) as u8);
    proof {
        assert(v@ =~= le64(n as nat));
    }
    v
}

/// Byte `j` of the keystream for `key`: byte `j % 32` of the PRF applied to
/// the little-endian encoding of block counter `j / 32`.
pub open spec fn keystream_byte(key: Seq<u8>, j: nat) -> u8 {
    hmac_sha256_of(key, le64(j / 32))[(j % 32) as int]
}

/// The plaintext that the keystream cipher produces from `ct` under `key`:
/// each byte XOR-ed with the matching keystream byte.  The same map encrypts,
/// since XOR is an involution.
pub open spec fn keystream_apply(key: Seq<u8>, ct: Seq<u8>) -> Seq<u8> {
    Seq::new(ct.len(), |j: int| ct[j] ^ keystream_byte(key, j as nat))
}

/// Applies the keystream cipher to `ct` under `key`.
pub fn keystream_transform(key: &[u8], ct: &[u8]) -> (r: Vec<u8>)
    ensures
        r@ == keystream_apply(key@, ct@),
{
    let mut out: Vec<u8> = Vec::new();
    let mut block: Vec<u8> = Vec::new();
    let mut ctr: u64 = 0;
    let mut i: usize = 0;
    while i < ct.len()
        invariant
            i <= ct@.len(),
            out@.len() == i,
            ctr as nat == i as nat / 32,
            forall|j: int| 0 <= j < i ==> out@[j] == (ct@[j] ^ keystream_byte(key@, j as nat)),
            i % 32 != 0 ==> (block@ == hmac_sha256_of(key@, le64(i as nat / 32)) && block@.len() == 32),
        decreases ct@.len() - i,
    {
        if i % 32 == 0 {
            let counter = le64_bytes(ctr);
            block = hmac_sha256(key, counter.as_slice());
        }
        let b = block[i % 32];
        proof {
            assert(b == keystream_byte(key@, i as nat));
        }
        out.push(ct[i] ^ b);
        if i % 32 == 31 {
            ctr = ctr + 1;
        }
        i = i + 1;
    }
    proof {
        assert(out@ =~= keystream_apply(key@, ct@));
    }
    out
}

} // verus!
