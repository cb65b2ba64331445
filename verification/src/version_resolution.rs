//! The versions of a package that a registry has published.
use vstd::prelude::*;
use crate::archive::{ArchiveError, archive_listing, extract_commit_hash, inspect, inspection};
use crate::timestamp::Timestamp;

verus! {

/// The address under which the registry serves its files.
pub open spec fn registry_base() -> Seq<char> {
    "https://crates.io/"@
}

/// One version as the registry lists it: its number, the time it was
/// published and the path of its archive, relative to the registry.
#[derive(Debug, PartialEq, Eq)]
pub struct PublishedVersion {
    pub num: String,
    pub created_at: Timestamp,
    pub dl_path: String,
}

/// What a `PublishedVersion` holds, as plain text.
pub struct PublishedRecord {
    pub num: Seq<char>,
    pub created_at: Timestamp,
    pub dl_path: Seq<char>,
}

impl DeepView for PublishedVersion {
    type V = PublishedRecord;

    open spec fn deep_view(&self) -> PublishedRecord {
        PublishedRecord { num: self.num@, created_at: self.created_at, dl_path: self.dl_path@ }
    }
}

impl Clone for PublishedVersion {
    fn clone(&self) -> (copy: PublishedVersion)
        ensures
            copy == *self,
    {
        PublishedVersion {
            num: self.num.clone(),
            created_at: self.created_at,
            dl_path: self.dl_path.clone(),
        }
    }
}

impl PublishedVersion {
    /// A listed version of these three parts.
    pub fn new(num: String, created_at: Timestamp, dl_path: String) -> (version: PublishedVersion)
        ensures
            version == (PublishedVersion { num, created_at, dl_path }),
    {
        PublishedVersion { num, created_at, dl_path }
    }
}

/// One published version with the full address of its archive.
#[derive(Debug, PartialEq, Eq)]
pub struct CrateVersion {
    pub name: String,
    pub created_at: Timestamp,
    pub dl_url: String,
}

/// What a `CrateVersion` holds, as plain text.
pub struct RegistryVersion {
    pub name: Seq<char>,
    pub created_at: Timestamp,
    pub dl_url: Seq<char>,
}

impl DeepView for CrateVersion {
    type V = RegistryVersion;

    open spec fn deep_view(&self) -> RegistryVersion {
        RegistryVersion { name: self.name@, created_at: self.created_at, dl_url: self.dl_url@ }
    }
}

impl Clone for CrateVersion {
    fn clone(&self) -> (copy: CrateVersion)
        ensures
            copy == *self,
    {
        CrateVersion {
            name: self.name.clone(),
            created_at: self.created_at,
            dl_url: self.dl_url.clone(),
        }
    }
}

/// Why a registry listing could not be used.
#[derive(Debug, PartialEq, Eq)]
pub enum RegistryError {
    /// The registry gave a download path that forms no address; it is held
    /// here as the registry gave it.
    DownloadPath(String),
}

/// What `reqwest::Url::join` makes of a reference on the URL that
/// `reqwest::Url::parse` reads from `base`, written out as text; `None` where
/// either of the two fails.
pub uninterp spec fn joined_url(base: Seq<char>, reference: Seq<char>) -> Option<Seq<char>>;

/// Parses `base` with `reqwest::Url::parse`, resolves `reference` against it
/// with `Url::join` and writes the result out. Both calls depend on the two
/// texts alone; an error of either one comes back as `None`.
#[verifier::external_body]
pub(crate) fn join_url(base: &str, reference: &str) -> (url: Option<String>)
    ensures
        url.deep_view() == joined_url(base@, reference@),
{
    reqwest::Url::parse(base).ok()?.join(reference).ok().map(|url| url.into())
}

/// The version that a listed one becomes, where its download path forms an
/// address under the registry.
pub open spec fn located(published: PublishedRecord) -> Option<RegistryVersion> {
    match joined_url(registry_base(), published.dl_path) {
        Some(dl_url) => Some(
            RegistryVersion { name: published.num, created_at: published.created_at, dl_url },
        ),
        None => None,
    }
}

/// The versions of a listing in the listing's order, or the first download
/// path in it that forms no address.
pub open spec fn crate_versions(listing: Seq<PublishedRecord>) -> Result<
    Seq<RegistryVersion>,
    Seq<char>,
>
    decreases listing.len(),
{
    if listing.len() == 0 {
        Ok(Seq::empty())
    } else {
        match crate_versions(listing.drop_last()) {
            Err(path) => Err(path),
            Ok(versions) => match located(listing.last()) {
                Some(version) => Ok(versions.push(version)),
                None => Err(listing.last().dl_path),
            },
        }
    }
}

/// The place of the version called `name`: the last one of that name, as a
/// map built from the listing would hold it.
pub open spec fn position_of(versions: Seq<RegistryVersion>, name: Seq<char>) -> Option<int>
    decreases versions.len(),
{
    if versions.len() == 0 {
        None
    } else if versions.last().name == name {
        Some(versions.len() - 1)
    } else {
        position_of(versions.drop_last(), name)
    }
}

impl CrateVersion {
    /// Turns the registry's listing of a crate into versions with full
    /// archive addresses, in the listing's order. The first download path
    /// that forms no address under the registry fails the whole listing.
    pub fn for_crate(listing: &Vec<PublishedVersion>) -> (versions: Result<
        Vec<CrateVersion>,
        RegistryError,
    >)
        ensures
            match versions {
                Ok(versions) => crate_versions(listing.deep_view()) == Ok::<
                    Seq<RegistryVersion>,
                    Seq<char>,
                >(versions.deep_view()),
                Err(RegistryError::DownloadPath(path)) => crate_versions(listing.deep_view())
                    == Err::<Seq<RegistryVersion>, Seq<char>>(path@),
            },
    {
        let mut versions: Vec<CrateVersion> = Vec::new();
        let mut i: usize = 0;
        proof {
            assert(versions.deep_view() =~= Seq::empty());
        }
        while i < listing.len()
            invariant
                i <= listing.len(),
                crate_versions(listing.deep_view().take(i as int)) == Ok::<
                    Seq<RegistryVersion>,
                    Seq<char>,
                >(versions.deep_view()),
            decreases listing.len() - i,
        {
            let published = &listing[i];
            proof {
                let all = listing.deep_view();
                assert(all.take(i + 1).drop_last() =~= all.take(i as int));
                lemma_crate_versions_fail_early(all, i + 1);
            }
            let ghost before = versions.deep_view();
            match join_url("https://crates.io/", published.dl_path.as_str()) {
                Some(dl_url) => {
                    versions.push(
                        CrateVersion {
                            name: published.num.clone(),
                            created_at: published.created_at,
                            dl_url,
                        },
                    );
                    proof {
                        assert(versions.deep_view() =~= before.push(
                            located(published.deep_view()).unwrap(),
                        ));
                    }
                },
                None => {
                    return Err(RegistryError::DownloadPath(published.dl_path.clone()));
                },
            }
            i = i + 1;
        }
        proof {
            assert(listing.deep_view().take(i as int) =~= listing.deep_view());
        }
        Ok(versions)
    }

    /// Finds the commit this version was built from in the bytes of its
    /// archive, as `extract_commit_hash` does.
    pub fn resolve_commit_hash(&self, archive: &[u8]) -> (outcome: Result<
        Option<String>,
        ArchiveError,
    >)
        ensures
            inspection(outcome) == inspect(archive_listing(archive@)),
    {
        extract_commit_hash(archive)
    }
}

/// Looks a version up by its exact name. Where the registry listed a name
/// more than once, the last listing counts.
pub fn find_version(versions: &Vec<CrateVersion>, name: &String) -> (found: Option<usize>)
    ensures
        match found {
            Some(index) => index < versions.len() && position_of(versions.deep_view(), name@)
                == Some(index as int),
            None => position_of(versions.deep_view(), name@) is None,
        },
{
    let mut i: usize = versions.len();
    proof {
        assert(versions.deep_view().take(i as int) =~= versions.deep_view());
    }
    while i > 0
        invariant
            i <= versions.len(),
            position_of(versions.deep_view(), name@) == position_of(
                versions.deep_view().take(i as int),
                name@,
            ),
        decreases i,
    {
        i = i - 1;
        proof {
            let all = versions.deep_view();
            assert(all.take(i + 1).drop_last() =~= all.take(i as int));
        }
        if versions[i].name == *name {
            return Some(i);
        }
    }
    None
}

/// A listing that fails at some length fails at every greater length, with
/// the same path.
proof fn lemma_crate_versions_fail_early(listing: Seq<PublishedRecord>, length: int)
    requires
        0 <= length <= listing.len(),
    ensures
        crate_versions(listing.take(length)) matches Err(path) ==> crate_versions(listing)
            == Err::<Seq<RegistryVersion>, Seq<char>>(path),
    decreases listing.len() - length,
{
    if length < listing.len() {
        assert(listing.take(length + 1).drop_last() =~= listing.take(length));
        lemma_crate_versions_fail_early(listing, length + 1);
    } else {
        assert(listing.take(length) =~= listing);
    }
}

/// The place that `position_of` gives holds a version of the wanted name, and
/// no version behind it has that name. Where it gives none, no version has
/// the name.
pub proof fn lemma_position_of(versions: Seq<RegistryVersion>, name: Seq<char>)
    ensures
        match position_of(versions, name) {
            Some(place) => {
                &&& 0 <= place < versions.len()
                &&& versions[place].name == name
                &&& forall|j: int|
                    place < j < versions.len() ==> (#[trigger] versions[j]).name != name
            },
            None => forall|j: int|
                0 <= j < versions.len() ==> (#[trigger] versions[j]).name != name,
        },
    decreases versions.len(),
{
    if versions.len() > 0 && versions.last().name != name {
        let front = versions.drop_last();
        lemma_position_of(front, name);
        match position_of(front, name) {
            Some(place) => {
                assert forall|j: int| place < j < versions.len() implies (
                #[trigger] versions[j]).name != name by {
                    if j < front.len() {
                        assert(versions[j] == front[j]);
                    }
                }
            },
            None => {
                assert forall|j: int| 0 <= j < versions.len() implies (
                #[trigger] versions[j]).name != name by {
                    if j < front.len() {
                        assert(versions[j] == front[j]);
                    }
                }
            },
        }
    }
}

/// A listing gives versions exactly where every download path in it forms an
/// address; the versions then stand for the listed ones, one for one. Where
/// it gives none, the path it names is the first one that forms no address.
pub proof fn lemma_crate_versions(listing: Seq<PublishedRecord>)
    ensures
        match crate_versions(listing) {
            Ok(versions) => {
                &&& versions.len() == listing.len()
                &&& forall|i: int|
                    0 <= i < listing.len() ==> located(#[trigger] listing[i]) == Some(versions[i])
            },
            Err(path) => exists|k: int|
                {
                    &&& 0 <= k < listing.len()
                    &&& located(#[trigger] listing[k]) is None
                    &&& listing[k].dl_path == path
                    &&& forall|i: int| 0 <= i < k ==> located(#[trigger] listing[i]) is Some
                },
        },
    decreases listing.len(),
{
    if listing.len() > 0 {
        let front = listing.drop_last();
        lemma_crate_versions(front);
        match crate_versions(front) {
            Ok(versions) => {
                assert forall|i: int| 0 <= i < front.len() implies located(#[trigger] listing[i])
                    == Some(versions[i]) by {
                    assert(listing[i] == front[i]);
                }
            },
            Err(path) => {
                let k = choose|k: int|
                    {
                        &&& 0 <= k < front.len()
                        &&& located(#[trigger] front[k]) is None
                        &&& front[k].dl_path == path
                        &&& forall|i: int| 0 <= i < k ==> located(#[trigger] front[i]) is Some
                    };
                assert forall|i: int| 0 <= i < k implies located(#[trigger] listing[i]) is Some by {
                    assert(listing[i] == front[i]);
                }
            },
        }
    }
}

} // verus!
