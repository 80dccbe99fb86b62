//! Key derivation: a master secret yields the backup key, the backup key and
//! the account identifier yield the backup id (binding a container to exactly
//! one account), and the pair yields independent cipher and MAC keys (key
//! separation).  All three steps are deterministic, pure functions of their
//! inputs, built on the HMAC-SHA-256 PRF with distinct domain-separation tags.

use vstd::prelude::*;

use crate::crypto::hmac_sha256;
use crate::crypto::hmac_sha256_of;

verus! {

/// Width of a well-formed master secret, in bytes.
pub const MASTER_SECRET_LEN: usize = 32;

/// Width of a well-formed account identifier, in bytes.
pub const ACCOUNT_ID_LEN: usize = 16;

/// Width of the derived backup id, in bytes.
pub const BACKUP_ID_LEN: usize = 16;

/// Width of each derived working key, in bytes.
pub const DERIVED_KEY_LEN: usize = 32;

/// A malformed-length input, rejected before any derivation is attempted.
#[derive(Clone, Copy, Debug, PartialEq, Eq, Structural)]
pub enum KeyError {
    /// The master secret is not `MASTER_SECRET_LEN` bytes wide.
    MasterSecretLength,
    /// The account identifier is not `ACCOUNT_ID_LEN` bytes wide.
    AccountIdLength,
}

/// The key derived once from a master secret.
#[derive(Debug)]
pub struct BackupKey {
    pub bytes: Vec<u8>,
}

/// The identifier binding a container to one account.
#[derive(Debug)]
pub struct BackupId {
    pub bytes: Vec<u8>,
}

/// The working keys of one read session: a cipher key and a MAC key,
/// independently derived so that compromise of one does not aid forging
/// with the other.
pub struct BackupKeyMaterial {
    pub cipher_key: Vec<u8>,
    pub mac_key: Vec<u8>,
}

impl BackupKey {
    pub open spec fn wf(&self) -> bool {
        self.bytes@.len() == 32
    }
}

impl BackupId {
    pub open spec fn wf(&self) -> bool {
        self.bytes@.len() == 16
    }
}

impl BackupKeyMaterial {
    pub open spec fn wf(&self) -> bool {
        self.cipher_key@.len() == 32 && self.mac_key@.len() == 32
    }
}

/// The backup key derived from a well-formed master secret: the PRF keyed by
/// the master secret, applied to domain-separation tag 1.
pub open spec fn spec_backup_key(master: Seq<u8>) -> Seq<u8> {
    hmac_sha256_of(master, seq![1u8])
}

/// The backup id derived from a backup key and a well-formed account
/// identifier: the first 16 bytes of the PRF keyed by the backup key, applied
/// to domain-separation tag 2 followed by the account identifier.
pub open spec fn spec_backup_id(key: Seq<u8>, account_id: Seq<u8>) -> Seq<u8> {
    hmac_sha256_of(key, seq![2u8] + account_id).take(16)
}

/// The cipher key of the derived key material: the PRF keyed by the backup
/// key, applied to domain-separation tag 3 followed by the backup id.
pub open spec fn spec_cipher_key(key: Seq<u8>, id: Seq<u8>) -> Seq<u8> {
    hmac_sha256_of(key, seq![3u8] + id)
}

/// The MAC key of the derived key material: the PRF keyed by the backup key,
/// applied to domain-separation tag 4 followed by the backup id.
pub open spec fn spec_mac_key(key: Seq<u8>, id: Seq<u8>) -> Seq<u8> {
    hmac_sha256_of(key, seq![4u8] + id)
}

/// Appends every byte of `s` to `v`, in order.
pub fn push_all(v: &mut Vec<u8>, s: &[u8])
    ensures
        final(v)@ == old(v)@ + s@,
{
    let mut i: usize = 0;
    while i < s.len()
        invariant
            i <= s@.len(),
            v@ == old(v)@ + s@.take(i as int),
        decreases s@.len() - i,
    {
        v.push(s[i]);
        proof {
            assert(v@ =~= old(v)@ + s@.take(i as int + 1));
        }
        i = i + 1;
    }
    proof {
        assert(old(v)@ + s@.take(s@.len() as int) =~= old(v)@ + s@);
    }
}

fn tagged_message(tag: u8, rest: &[u8]) -> (r: Vec<u8>)
    ensures
        r@ == seq![tag] + rest@,
{
    let mut msg: Vec<u8> = Vec::new();
    msg.push(tag);
    proof {
        assert(msg@ =~= seq![tag]);
    }
    push_all(&mut msg, rest);
    msg
}

/// Derives the backup key from a master secret.  Succeeds exactly on
/// well-formed (32-byte) master secrets; no error path exists beyond the
/// length check.
pub fn derive_backup_key(master_secret: &[u8]) -> (r: Result<BackupKey, KeyError>)
    ensures
        r is Ok <==> master_secret@.len() == MASTER_SECRET_LEN,
        r is Err ==> r == Result::<BackupKey, KeyError>::Err(KeyError::MasterSecretLength),
        r matches Ok(k) ==> k.bytes@ == spec_backup_key(master_secret@) && k.wf(),
{
    if master_secret.len() != MASTER_SECRET_LEN {
        return Err(KeyError::MasterSecretLength);
    }
    let mut tag: Vec<u8> = Vec::new();
    tag.push(1u8);
    proof {
        assert(tag@ =~= seq![1u8]);
    }
    let bytes = hmac_sha256(master_secret, tag.as_slice());
    Ok(BackupKey { bytes })
}

/// Derives the backup id binding a container to the given account.  Succeeds
/// exactly on well-formed (16-byte) account identifiers.
pub fn derive_backup_id(key: &BackupKey, account_id: &[u8]) -> (r: Result<BackupId, KeyError>)
    requires
        key.wf(),
    ensures
        r is Ok <==> account_id@.len() == ACCOUNT_ID_LEN,
        r is Err ==> r == Result::<BackupId, KeyError>::Err(KeyError::AccountIdLength),
        r matches Ok(id) ==> id.bytes@ == spec_backup_id(key.bytes@, account_id@) && id.wf(),
{
    if account_id.len() != ACCOUNT_ID_LEN {
        return Err(KeyError::AccountIdLength);
    }
    let msg = tagged_message(2u8, account_id);
    let mut digest = hmac_sha256(key.bytes.as_slice(), msg.as_slice());
    digest.truncate(BACKUP_ID_LEN);
    proof {
        assert(digest@ =~= spec_backup_id(key.bytes@, account_id@));
    }
    Ok(BackupId { bytes: digest })
}

/// Derives the working key material of one read session from the backup key
/// and the backup id.  Total on well-formed inputs: no error path exists.
pub fn derive_key_material(key: &BackupKey, id: &BackupId) -> (r: BackupKeyMaterial)
    requires
        key.wf(),
        id.wf(),
    ensures
        r.cipher_key@ == spec_cipher_key(key.bytes@, id.bytes@),
        r.mac_key@ == spec_mac_key(key.bytes@, id.bytes@),
        r.wf(),
{
    let cipher_msg = tagged_message(3u8, id.bytes.as_slice());
    let mac_msg = tagged_message(4u8, id.bytes.as_slice());
    let cipher_key = hmac_sha256(key.bytes.as_slice(), cipher_msg.as_slice());
    let mac_key = hmac_sha256(key.bytes.as_slice(), mac_msg.as_slice());
    BackupKeyMaterial { cipher_key, mac_key }
}

/// Determinism of the derivation chain: the backup id and both working keys
/// are functions of the master secret and the account identifier alone, so
/// the same `(master, account)` pair always yields bit-identical results.
pub proof fn lemma_derivation_deterministic(
    master1: Seq<u8>,
    account1: Seq<u8>,
    master2: Seq<u8>,
    account2: Seq<u8>,
)
    requires
        master1 == master2,
        account1 == account2,
    ensures
        spec_backup_key(master1) == spec_backup_key(master2),
        spec_backup_id(spec_backup_key(master1), account1) == spec_backup_id(
            spec_backup_key(master2),
            account2,
        ),
        spec_cipher_key(
            spec_backup_key(master1),
            spec_backup_id(spec_backup_key(master1), account1),
        ) == spec_cipher_key(
            spec_backup_key(master2),
            spec_backup_id(spec_backup_key(master2), account2),
        ),
        spec_mac_key(
            spec_backup_key(master1),
            spec_backup_id(spec_backup_key(master1), account1),
        ) == spec_mac_key(
            spec_backup_key(master2),
            spec_backup_id(spec_backup_key(master2), account2),
        ),
{
}

} // verus!
