//! Backup manifest and restore validation primitives.
use vstd::prelude::*;
use crate::digest::{sha256, sha256_digest};
use crate::text::{trim, is_blank, owned, str_eq};

verus! {

/// What a backup promises about its payload.
#[derive(Debug, Clone, PartialEq, Eq)]
pub struct BackupManifest {
    pub backup_id: String,
    pub schema_version: String,
    pub bytes: u64,
    pub sha256: [u8; 32],
}

/// Why a manifest could not be made or a restore was refused.
#[derive(Debug, Clone, Copy, PartialEq, Eq, Structural)]
pub enum RestoreError {
    EmptyId,
    SchemaMismatch,
    SizeMismatch,
    ChecksumMismatch,
}

/// The verdict on restoring `payload` under `expected_schema` against a
/// manifest with the given schema, size and digest.
pub open spec fn restore_verdict(
    schema: Seq<char>,
    bytes: nat,
    digest: Seq<u8>,
    expected_schema: Seq<char>,
    payload: Seq<u8>,
) -> Result<(), RestoreError> {
    if schema != expected_schema {
        Err(RestoreError::SchemaMismatch)
    } else if bytes != payload.len() {
        Err(RestoreError::SizeMismatch)
    } else if digest != sha256(payload) {
        Err(RestoreError::ChecksumMismatch)
    } else {
        Ok(())
    }
}

/// Creates a manifest for an immutable database backup payload.
pub fn create_manifest(backup_id: &str, schema_version: &str, payload: &[u8]) -> (r: Result<
    BackupManifest,
    RestoreError,
>)
    ensures
        (trim(backup_id@).len() == 0 || trim(schema_version@).len() == 0) ==> r == Err::<
            BackupManifest,
            RestoreError,
        >(RestoreError::EmptyId),
        !(trim(backup_id@).len() == 0 || trim(schema_version@).len() == 0) ==> (r matches Ok(m)
            && m.backup_id@ == backup_id@ && m.schema_version@ == schema_version@ && m.bytes
            == payload@.len() && m.sha256@ == sha256(payload@)),
{
    if is_blank(backup_id) || is_blank(schema_version) {
        return Err(RestoreError::EmptyId);
    }
    Ok(
        BackupManifest {
            backup_id: owned(backup_id),
            schema_version: owned(schema_version),
            bytes: payload.len() as u64,
            sha256: sha256_digest(payload),
        },
    )
}

fn digests_equal(a: &[u8; 32], b: &[u8; 32]) -> (r: bool)
    ensures
        r == (a@ == b@),
{
    let mut i: usize = 0;
    while i < 32
        invariant
            i <= 32,
            a@.len() == 32,
            b@.len() == 32,
            forall|j: int| 0 <= j < i ==> a@[j] == b@[j],
        decreases 32 - i,
    {
        if a[i] != b[i] {
            return false;
        }
        i = i + 1;
    }
    assert(a@ =~= b@);
    true
}

/// Validates a restore payload before it can replace a local fixture database.
pub fn validate_restore(manifest: &BackupManifest, expected_schema: &str, payload: &[u8]) -> (r:
    Result<(), RestoreError>)
    ensures
        r == restore_verdict(
            manifest.schema_version@,
            manifest.bytes as nat,
            manifest.sha256@,
            expected_schema@,
            payload@,
        ),
{
    if !str_eq(manifest.schema_version.as_str(), expected_schema) {
        return Err(RestoreError::SchemaMismatch);
    }
    if manifest.bytes != payload.len() as u64 {
        return Err(RestoreError::SizeMismatch);
    }
    let digest = sha256_digest(payload);
    if !digests_equal(&manifest.sha256, &digest) {
        return Err(RestoreError::ChecksumMismatch);
    }
    Ok(())
}

/// A payload restores against the manifest made from it: same schema, same
/// size, same digest.
pub proof fn restore_accepts_own_backup(schema: Seq<char>, payload: Seq<u8>)
    ensures
        restore_verdict(schema, payload.len(), sha256(payload), schema, payload) == Ok::<
            (),
            RestoreError,
        >(()),
{
}

/// A payload of another length than the manifest records is refused.
pub proof fn restore_refuses_resized_payload(schema: Seq<char>, original: Seq<u8>, other: Seq<u8>)
    requires
        original.len() != other.len(),
    ensures
        restore_verdict(schema, original.len(), sha256(original), schema, other) == Err::<
            (),
            RestoreError,
        >(RestoreError::SizeMismatch),
{
}

} // verus!
