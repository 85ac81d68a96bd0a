//! Immutable in-memory artifact store semantics used by report persistence.
use vstd::prelude::*;
use crate::digest::{sha256, sha256_digest};
use crate::text::{trim, is_blank, owned};

verus! {

/// Maximum artifact size accepted by the report path (10 MiB).
pub const MAX_ARTIFACT_BYTES: usize = 10485760;

#[derive(Debug, Clone, Copy, PartialEq, Eq, Structural)]
pub enum ArtifactFormat {
    Json,
    Html,
}

#[derive(Debug, Clone, Copy, PartialEq, Eq, Structural)]
pub enum ArtifactPrivacy {
    Internal,
    Shareable,
}

/// Stored bytes with their recorded size and content-addressed checksum.
#[derive(Debug, Clone, PartialEq, Eq)]
pub struct StoredArtifact {
    pub storage_key: String,
    pub format: ArtifactFormat,
    pub privacy: ArtifactPrivacy,
    pub content_bytes: usize,
    pub sha256: [u8; 32],
    content: Vec<u8>,
}

#[derive(Debug, Clone, Copy, PartialEq, Eq, Structural)]
pub enum ArtifactError {
    TooLarge,
    EmptyKey,
    ChecksumMismatch,
}

/// The verdict on presented bytes against a recorded digest.
pub open spec fn verification(recorded: Seq<u8>, presented: Seq<u8>) -> Result<(), ArtifactError> {
    if sha256(presented) == recorded {
        Ok(())
    } else {
        Err(ArtifactError::ChecksumMismatch)
    }
}

impl StoredArtifact {
    /// The stored bytes.
    pub closed spec fn stored(&self) -> Seq<u8> {
        self.content@
    }

    /// The recorded SHA-256 checksum.
    pub closed spec fn recorded_digest(&self) -> Seq<u8> {
        self.sha256@
    }

    /// The recorded size in bytes.
    pub closed spec fn recorded_size(&self) -> nat {
        self.content_bytes as nat
    }

    /// The storage key.
    pub closed spec fn key(&self) -> Seq<char> {
        self.storage_key@
    }

    pub closed spec fn artifact_format(&self) -> ArtifactFormat {
        self.format
    }

    pub closed spec fn artifact_privacy(&self) -> ArtifactPrivacy {
        self.privacy
    }

    /// Verifies that supplied bytes still match the recorded checksum.
    pub fn verify(&self, content: &[u8]) -> (r: Result<(), ArtifactError>)
        ensures
            r == verification(self.recorded_digest(), content@),
    {
        let digest = sha256_digest(content);
        let mut i: usize = 0;
        while i < 32
            invariant
                i <= 32,
                digest@.len() == 32,
                digest@ == sha256(content@),
                self.sha256@.len() == 32,
                forall|j: int| 0 <= j < i ==> digest@[j] == self.sha256@[j],
            decreases 32 - i,
        {
            if digest[i] != self.sha256[i] {
                assert(digest@[i as int] != self.sha256@[i as int]);
                assert(digest@ != self.sha256@);
                return Err(ArtifactError::ChecksumMismatch);
            }
            i = i + 1;
        }
        assert(digest@ =~= self.sha256@);
        Ok(())
    }

    /// Returns immutable artifact bytes for download.
    pub fn content(&self) -> (c: &[u8])
        ensures
            c@ == self.stored(),
    {
        self.content.as_slice()
    }
}

/// Stores immutable bytes and records their content-addressed checksum.
pub fn store_artifact(
    key: &str,
    format: ArtifactFormat,
    privacy: ArtifactPrivacy,
    content: Vec<u8>,
) -> (r: Result<StoredArtifact, ArtifactError>)
    ensures
        trim(key@).len() == 0 ==> r == Err::<StoredArtifact, ArtifactError>(
            ArtifactError::EmptyKey,
        ),
        trim(key@).len() != 0 && content@.len() > MAX_ARTIFACT_BYTES ==> r == Err::<
            StoredArtifact,
            ArtifactError,
        >(ArtifactError::TooLarge),
        trim(key@).len() != 0 && content@.len() <= MAX_ARTIFACT_BYTES ==> (r matches Ok(a) && {
            &&& a.key() == key@
            &&& a.artifact_format() == format
            &&& a.artifact_privacy() == privacy
            &&& a.recorded_size() == content@.len()
            &&& a.recorded_digest() == sha256(content@)
            &&& a.stored() == content@
        }),
{
    if is_blank(key) {
        return Err(ArtifactError::EmptyKey);
    }
    if content.len() > MAX_ARTIFACT_BYTES {
        return Err(ArtifactError::TooLarge);
    }
    let sha256 = sha256_digest(content.as_slice());
    Ok(
        StoredArtifact {
            storage_key: owned(key),
            format,
            privacy,
            content_bytes: content.len(),
            sha256,
            content,
        },
    )
}

/// Bytes verify against the digest recorded when they were stored; bytes whose
/// digest differs are refused with `ChecksumMismatch`.
pub proof fn stored_content_verifies(stored: Seq<u8>, presented: Seq<u8>)
    ensures
        verification(sha256(stored), stored) == Ok::<(), ArtifactError>(()),
        sha256(presented) != sha256(stored) ==> verification(sha256(stored), presented) == Err::<
            (),
            ArtifactError,
        >(ArtifactError::ChecksumMismatch),
{
}

} // verus!
