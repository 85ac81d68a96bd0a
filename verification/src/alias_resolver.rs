//! A deterministic trace alias index, scoped by project and environment.
use vstd::prelude::*;
use crate::text::{str_eq, owned};

verus! {

/// What an observation of an alias key resolves to.
#[derive(Debug, Clone, Copy, PartialEq, Eq, Structural)]
pub enum AliasResolution {
    /// The key was seen before; this trace is an alias of the canonical one.
    Canonical(u128),
    /// The key is ambiguous.
    Conflict,
    /// The key was not seen before; this trace becomes its canonical trace.
    Unrelated,
}

/// One indexed alias key and the canonical trace it resolves to.
#[derive(Debug, Clone, PartialEq, Eq)]
pub struct AliasEntry {
    pub project_id: u128,
    pub environment_id: u128,
    pub key_id: String,
    pub fingerprint: String,
    pub canonical: u128,
}

/// The identity of an alias key: project, environment, key id and fingerprint.
pub type AliasKey = (u128, u128, Seq<char>, Seq<char>);

pub open spec fn entry_key(e: AliasEntry) -> AliasKey {
    (e.project_id, e.environment_id, e.key_id@, e.fingerprint@)
}

/// The canonical trace of a key, if the key is indexed.
pub open spec fn canonical_of(entries: Seq<AliasEntry>, key: AliasKey) -> Option<u128>
    decreases entries.len(),
{
    if entries.len() == 0 {
        None
    } else if entry_key(entries.last()) == key {
        Some(entries.last().canonical)
    } else {
        canonical_of(entries.drop_last(), key)
    }
}

/// An index that holds each key once.
pub open spec fn keys_unique(entries: Seq<AliasEntry>) -> bool {
    forall|i: int, j: int|
        0 <= i < entries.len() && 0 <= j < entries.len() && i != j ==> entry_key(entries[i])
            != entry_key(entries[j])
}

proof fn lemma_canonical_of_found(entries: Seq<AliasEntry>, key: AliasKey, i: int)
    requires
        keys_unique(entries),
        0 <= i < entries.len(),
        entry_key(entries[i]) == key,
    ensures
        canonical_of(entries, key) == Some(entries[i].canonical),
    decreases entries.len(),
{
    if i < entries.len() - 1 {
        let rest = entries.drop_last();
        assert(rest[i] == entries[i]);
        assert(entry_key(entries.last()) != key);
        lemma_canonical_of_found(rest, key, i);
    }
}

proof fn lemma_canonical_of_absent(entries: Seq<AliasEntry>, key: AliasKey)
    requires
        forall|i: int| 0 <= i < entries.len() ==> entry_key(#[trigger] entries[i]) != key,
    ensures
        canonical_of(entries, key) is None,
    decreases entries.len(),
{
    if entries.len() > 0 {
        let rest = entries.drop_last();
        assert forall|i: int| 0 <= i < rest.len() implies entry_key(#[trigger] rest[i]) != key by {
            assert(rest[i] == entries[i]);
        }
        lemma_canonical_of_absent(rest, key);
    }
}

/// Indexes alias keys to the first trace observed with them.
pub struct AliasResolver {
    index: Vec<AliasEntry>,
}

impl AliasResolver {
    #[verifier::type_invariant]
    spec fn unique(self) -> bool {
        keys_unique(self.index@)
    }

    /// The indexed entries.
    pub closed spec fn entries(self) -> Seq<AliasEntry> {
        self.index@
    }

    /// An empty index.
    pub fn new() -> (r: AliasResolver)
        ensures
            r.entries() == Seq::<AliasEntry>::empty(),
    {
        AliasResolver { index: Vec::new() }
    }

    /// Resolves an observed alias key: a key seen before resolves to its
    /// canonical trace; a new key is indexed to this trace.
    pub fn observe(
        &mut self,
        project_id: u128,
        environment_id: u128,
        trace_id: u128,
        key_id: &str,
        fingerprint: &str,
    ) -> (r: AliasResolution)
        ensures
            match canonical_of(old(self).entries(), (project_id, environment_id, key_id@, fingerprint@)) {
                Some(c) => r == AliasResolution::Canonical(c) && final(self).entries() == old(
                    self,
                ).entries(),
                None => r == AliasResolution::Unrelated && final(self).entries().len() == old(
                    self,
                ).entries().len() + 1 && final(self).entries().drop_last() == old(self).entries()
                    && entry_key(final(self).entries().last()) == (
                    project_id,
                    environment_id,
                    key_id@,
                    fingerprint@,
                ) && final(self).entries().last().canonical == trace_id,
            },
    {
        proof {
            use_type_invariant(&*self);
        }
        let ghost key: AliasKey = (project_id, environment_id, key_id@, fingerprint@);
        let mut i: usize = 0;
        while i < self.index.len()
            invariant
                i <= self.index@.len(),
                key == (project_id, environment_id, key_id@, fingerprint@),
                self.index@ == old(self).index@,
                keys_unique(self.index@),
                forall|j: int| 0 <= j < i ==> entry_key(#[trigger] self.index@[j]) != key,
            decreases self.index@.len() - i,
        {
            let e = &self.index[i];
            if e.project_id == project_id && e.environment_id == environment_id && str_eq(
                e.key_id.as_str(),
                key_id,
            ) && str_eq(e.fingerprint.as_str(), fingerprint) {
                proof {
                    assert(entry_key(self.index@[i as int]) == key);
                    lemma_canonical_of_found(self.index@, key, i as int);
                }
                return AliasResolution::Canonical(e.canonical);
            }
            i = i + 1;
        }
        proof {
            lemma_canonical_of_absent(self.index@, key);
        }
        let entry = AliasEntry {
            project_id,
            environment_id,
            key_id: owned(key_id),
            fingerprint: owned(fingerprint),
            canonical: trace_id,
        };
        let ghost before = self.index@;
        proof {
            let pushed = before.push(entry);
            assert forall|a: int, b: int|
                0 <= a < pushed.len() && 0 <= b < pushed.len() && a != b implies entry_key(pushed[a])
                != entry_key(pushed[b]) by {
                if a < before.len() && b < before.len() {
                    assert(pushed[a] == before[a]);
                    assert(pushed[b] == before[b]);
                } else if a < before.len() {
                    assert(pushed[a] == before[a]);
                } else {
                    assert(pushed[b] == before[b]);
                }
            }
        }
        let mut index: Vec<AliasEntry> = Vec::new();
        std::mem::swap(&mut index, &mut self.index);
        index.push(entry);
        self.index = index;
        assert(self.index@.drop_last() == before);
        AliasResolution::Unrelated
    }
}

/// Resolution is deterministic and scoped: once a key is indexed, it keeps
/// resolving to its first trace, and indexing a key leaves every other key,
/// such as the same key in another environment, as it was.
pub proof fn alias_resolution_is_stable(entries: Seq<AliasEntry>, added: AliasEntry, key: AliasKey)
    ensures
        canonical_of(entries.push(added), entry_key(added)) == Some(added.canonical),
        key != entry_key(added) ==> canonical_of(entries.push(added), key) == canonical_of(entries, key),
{
    assert(entries.push(added).drop_last() == entries);
}

} // verus!
