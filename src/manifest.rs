use vstd::prelude::*;

use crate::error::CoreError;

verus! {

/// The kinds of game version a manifest lists.
#[derive(Debug, Clone, Copy, PartialEq, Eq, Structural)]
pub enum VersionKind {
    Release,
    Snapshot,
    OldAlpha,
    OldBeta,
}

/// A version of the manifest: its id and where its client descriptor is.
#[derive(Debug, Clone)]
pub struct Version {
    pub id: String,
    pub url: String,
}

/// The newest release and snapshot ids.
#[derive(Debug, Clone)]
pub struct Latest {
    pub release: String,
    pub snapshot: String,
}

/// The list of game versions and where each version's descriptor is fetched from.
#[derive(Debug, Clone)]
pub struct VersionManifest {
    pub versions: Vec<Version>,
}

/// Index of the first version with the given id.
pub open spec fn first_version(versions: Seq<Version>, id: Seq<char>) -> Option<int>
    decreases versions.len(),
{
    if versions.len() == 0 {
        None
    } else {
        match first_version(versions.drop_last(), id) {
            Some(i) => Some(i),
            None => if versions.last().id@ == id {
                Some(versions.len() - 1)
            } else {
                None
            },
        }
    }
}

proof fn lemma_first_version(versions: Seq<Version>, id: Seq<char>, i: int)
    requires
        0 <= i <= versions.len(),
        forall|j: int| 0 <= j < i ==> #[trigger] versions[j].id@ != id,
    ensures
        i < versions.len() && versions[i].id@ == id ==> first_version(versions, id) == Some(i),
        i == versions.len() ==> first_version(versions, id) is None,
    decreases versions.len(),
{
    if versions.len() > 0 {
        if i < versions.len() {
            lemma_first_version(versions.drop_last(), id, i);
        } else {
            lemma_first_version(versions.drop_last(), id, i - 1);
        }
    }
}

impl VersionManifest {
    /// The descriptor url of version `id`, or `MinecraftVersionNotFound` where
    /// the manifest does not list it.
    pub fn resolve_version_url(&self, id: &str) -> (r: Result<&String, CoreError>)
        ensures
            r is Ok == first_version(self.versions@, id@) is Some,
            r matches Ok(u) ==> *u == self.versions@[first_version(self.versions@, id@)->0].url,
            r matches Err(e) ==> e is MinecraftVersionNotFound,
    {
        let key = id.to_owned();
        let mut i: usize = 0;
        while i < self.versions.len()
            invariant
                i <= self.versions@.len(),
                key@ == id@,
                forall|j: int| 0 <= j < i ==> #[trigger] self.versions@[j].id@ != id@,
            decreases self.versions.len() - i,
        {
            if self.versions[i].id == key {
                proof {
                    lemma_first_version(self.versions@, id@, i as int);
                }
                return Ok(&self.versions[i].url);
            }
            i = i + 1;
        }
        proof {
            lemma_first_version(self.versions@, id@, i as int);
        }
        Err(CoreError::MinecraftVersionNotFound)
    }
}

/// The version manifest the launcher works from.
#[derive(Debug, Clone)]
pub struct Manifest {
    inner: VersionManifest,
}

impl Manifest {
    pub closed spec fn spec_inner(&self) -> VersionManifest {
        self.inner
    }

    pub fn new(inner: VersionManifest) -> (r: Manifest)
        ensures
            r.spec_inner() == inner,
    {
        Manifest { inner }
    }

    /// The versions, in the manifest's order.
    pub fn versions(&self) -> (r: &Vec<Version>)
        ensures
            r@ == self.spec_inner().versions@,
    {
        &self.inner.versions
    }

    /// Where the client descriptor of `version` is fetched from.
    pub fn version_url(&self, version: &str) -> (r: Result<&String, CoreError>)
        ensures
            r is Ok == first_version(self.spec_inner().versions@, version@) is Some,
            r matches Ok(u) ==> *u == self.spec_inner().versions@[first_version(
                self.spec_inner().versions@,
                version@,
            )->0].url,
            r matches Err(e) ==> e is MinecraftVersionNotFound,
    {
        self.inner.resolve_version_url(version)
    }
}

} // verus!
