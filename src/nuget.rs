use vstd::prelude::*;

use dashmap::DashMap;
use url::Url;

use crate::error::Error;
use crate::text::{ascii_lowercase, lower, push_text};
use crate::version::{lemma_normalize_idempotent, normalize_version, normalized};

verus! {

/// The concurrent hash map of the dashmap crate, held opaque: its contents are
/// `cache_entries`.
#[verifier::external_type_specification]
#[verifier::external_body]
#[verifier::reject_recursive_types(K)]
#[verifier::reject_recursive_types(V)]
#[verifier::reject_recursive_types(S)]
pub struct ExDashMap<K, V, S>(DashMap<K, V, S>);

/// The versions a repository lists for one package, or none where the lookup failed.
pub type VersionIndex = Option<Vec<String>>;

/// The text view of a version index entry.
pub open spec fn index_view(v: VersionIndex) -> Option<Seq<Seq<char>>> {
    match v {
        Some(vs) => Some(vs@.map_values(|s: String| s@)),
        None => None,
    }
}

/// What a version-index cache holds: package id to the versions looked up for it.
pub uninterp spec fn cache_entries(m: DashMap<String, VersionIndex>) -> Map<
    Seq<char>,
    Option<Seq<Seq<char>>>,
>;

/// Relies on DashMap::new: a map with no entries.
#[verifier::external_body]
fn cache_new() -> (r: DashMap<String, VersionIndex>)
    ensures
        cache_entries(r).is_empty(),
{
    DashMap::new()
}

/// Relies on DashMap::get: the value stored under the key, if any (cloned out of the guard).
#[verifier::external_body]
fn cache_get(m: &DashMap<String, VersionIndex>, key: &String) -> (r: Option<VersionIndex>)
    ensures
        match r {
            Some(v) => cache_entries(*m).contains_key(key@) && cache_entries(*m)[key@]
                == index_view(v),
            None => !cache_entries(*m).contains_key(key@),
        },
{
    m.get(key).map(|e| e.value().clone())
}

/// Relies on DashMap::insert: stores the value under the key, replacing any earlier one.
#[verifier::external_body]
fn cache_insert(m: &mut DashMap<String, VersionIndex>, key: String, value: VersionIndex)
    ensures
        cache_entries(*final(m)) == cache_entries(*old(m)).insert(key@, index_view(value)),
{
    m.insert(key, value);
}

/// The address that `url::Url::join` gives for `rel` against the base address `base`
/// read by `url::Url::parse`; `None` where either call fails.
pub uninterp spec fn url_join(base: Seq<char>, rel: Seq<char>) -> Option<Seq<char>>;

/// Relies on url::Url::parse and url::Url::join: resolves `rel` against the base address. The base address
/// is kept as the serialization of a parsed `Url`, which url::Url::parse reads back as
/// the same address; `None` where either call fails.
#[verifier::external_body]
fn join_url(base: &str, rel: &str) -> (r: Option<String>)
    ensures
        match r {
            Some(u) => url_join(base@, rel@) == Some(u@),
            None => url_join(base@, rel@) is None,
        },
{
    let base = Url::parse(base).ok()?;
    base.join(rel).ok().map(String::from)
}

/// The capability type a service index gives the package base address under.
pub const PACKAGE_BASE_ADDRESS_TYPE: &'static str = "PackageBaseAddress/3.0.0";

/// The service index of the default public repository.
pub const NUGET_ORG_INDEX_URL: &'static str = "https://api.nuget.org/v3/index.json";

/// One capability listed in a repository's service index.
#[derive(Debug, Clone)]
pub struct Resource {
    /// The address of the capability (`@id`).
    pub url: String,
    /// The capability type (`@type`).
    pub typ: String,
}

/// `i` is the first resource of `rs` of the package base address type.
pub open spec fn is_first_base_address(rs: Seq<Resource>, i: int) -> bool {
    &&& 0 <= i < rs.len()
    &&& rs[i].typ@ == PACKAGE_BASE_ADDRESS_TYPE@
    &&& forall|j: int| 0 <= j < i ==> rs[j].typ@ != PACKAGE_BASE_ADDRESS_TYPE@
}

/// Outcome of a cached index lookup of `version` of `id`: `None` where the index of the
/// package was never looked up; `Some(b)` where it was, `b` telling whether it lists the
/// version once normalized.
pub open spec fn lookup(
    cache: Map<Seq<char>, Option<Seq<Seq<char>>>>,
    id: Seq<char>,
    version: Seq<char>,
) -> Option<bool> {
    if !cache.contains_key(lower(id)) {
        None
    } else {
        match cache[lower(id)] {
            Some(vs) => Some(vs.contains(normalized(version))),
            None => Some(false),
        }
    }
}

/// The cache once the index `versions` of `id` is recorded: an entry is written once only.
pub open spec fn recorded(
    cache: Map<Seq<char>, Option<Seq<Seq<char>>>>,
    id: Seq<char>,
    versions: Option<Seq<Seq<char>>>,
) -> Map<Seq<char>, Option<Seq<Seq<char>>>> {
    if cache.contains_key(lower(id)) {
        cache
    } else {
        cache.insert(
            lower(id),
            match versions {
                Some(vs) => Some(vs.map_values(|v: Seq<char>| normalized(v))),
                None => None,
            },
        )
    }
}

/// Every version held in the cache is in normal form: it has no build metadata.
pub open spec fn versions_normalized(cache: Map<Seq<char>, Option<Seq<Seq<char>>>>) -> bool {
    forall|k: Seq<char>|
        #[trigger] cache.contains_key(k) ==> match cache[k] {
            Some(vs) => forall|i: int| 0 <= i < vs.len() ==> normalized(#[trigger] vs[i]) == vs[i],
            None => true,
        }
}

/// The path of a package's artifact below the base address:
/// `{id}/{version}/{id}.{version}.nupkg`, id lower-cased and version normalized.
pub open spec fn download_path(id: Seq<char>, version: Seq<char>) -> Seq<char> {
    let i = lower(id);
    let v = normalized(version);
    i + seq!['/'] + v + seq!['/'] + i + seq!['.'] + v + ".nupkg"@
}

/// The path of a package's version index below the base address: `{id}/index.json`.
pub open spec fn index_path(id: Seq<char>) -> Seq<char> {
    lower(id) + "/index.json"@
}

/// One package repository: its package base address and its version-index cache.
pub struct NuGet {
    package_base_address: String,
    package_cache: DashMap<String, VersionIndex>,
}

impl NuGet {
    /// The package base address.
    pub closed spec fn base(&self) -> Seq<char> {
        self.package_base_address@
    }

    /// The version indexes looked up so far, by lower-cased package id.
    pub closed spec fn cache(&self) -> Map<Seq<char>, Option<Seq<Seq<char>>>> {
        cache_entries(self.package_cache)
    }

    /// A repository from the resources of its service index, with an empty cache. The
    /// base address is that of the first package base address resource.
    pub fn new(resources: &Vec<Resource>) -> (r: Result<NuGet, Error>)
        ensures
            match r {
                Ok(n) => exists|i: int|
                    is_first_base_address(resources@, i) && n.base() == resources@[i].url@
                        && n.cache().is_empty() && versions_normalized(n.cache()),
                Err(e) => e is MalformedServiceIndex && forall|i: int|
                    0 <= i < resources@.len() ==> resources@[i].typ@
                        != PACKAGE_BASE_ADDRESS_TYPE@,
            },
    {
        let wanted = PACKAGE_BASE_ADDRESS_TYPE.to_owned();
        let mut i: usize = 0;
        while i < resources.len()
            invariant
                i <= resources@.len(),
                wanted@ == PACKAGE_BASE_ADDRESS_TYPE@,
                forall|j: int| 0 <= j < i ==> resources@[j].typ@ != PACKAGE_BASE_ADDRESS_TYPE@,
            decreases resources@.len() - i,
        {
            if resources[i].typ == wanted {
                let n = NuGet {
                    package_base_address: resources[i].url.clone(),
                    package_cache: cache_new(),
                };
                assert(is_first_base_address(resources@, i as int));
                return Ok(n);
            }
            i = i + 1;
        }
        Err(Error::MalformedServiceIndex)
    }

    /// The service index address of the default public repository, used where no
    /// repository is configured.
    pub fn nuget_org() -> (r: String)
        ensures
            r@ == NUGET_ORG_INDEX_URL@,
    {
        NUGET_ORG_INDEX_URL.to_owned()
    }

    /// Whether this repository publishes `version` of `package`, from the cache alone:
    /// `None` where the package's version index has not been looked up yet.
    pub fn has_version(&self, package: &str, version: &str) -> (r: Option<bool>)
        ensures
            r == lookup(self.cache(), package@, version@),
    {
        let key = ascii_lowercase(package);
        match cache_get(&self.package_cache, &key) {
            None => None,
            Some(None) => Some(false),
            Some(Some(versions)) => {
                let wanted = normalize_version(version);
                let mut i: usize = 0;
                while i < versions.len()
                    invariant
                        i <= versions@.len(),
                        wanted@ == normalized(version@),
                        self.cache().contains_key(lower(package@)),
                        self.cache()[lower(package@)] == index_view(Some(versions)),
                        forall|j: int| 0 <= j < i ==> versions@[j]@ != wanted@,
                    decreases versions@.len() - i,
                {
                    if versions[i] == wanted {
                        assert(index_view(Some(versions))->0[i as int] == wanted@);
                        return Some(true);
                    }
                    i = i + 1;
                }
                assert(!index_view(Some(versions))->0.contains(wanted@));
                Some(false)
            },
        }
    }

    /// The address of the version index of `package` in this repository, if it can be
    /// composed.
    pub fn index_url(&self, package: &str) -> (r: Option<String>)
        ensures
            match r {
                Some(u) => url_join(self.base(), index_path(package@)) == Some(u@),
                None => url_join(self.base(), index_path(package@)) is None,
            },
    {
        let mut rel = ascii_lowercase(package);
        push_text(&mut rel, "/index.json");
        join_url(self.package_base_address.as_str(), rel.as_str())
    }

    /// Records the version index looked up for `package` (`None` where the lookup
    /// failed), its versions normalized. An id already recorded keeps its entry.
    pub fn record(&mut self, package: &str, versions: VersionIndex)
        ensures
            final(self).base() == old(self).base(),
            final(self).cache() == recorded(old(self).cache(), package@, index_view(versions)),
            versions_normalized(old(self).cache()) ==> versions_normalized(final(self).cache()),
    {
        let key = ascii_lowercase(package);
        if cache_get(&self.package_cache, &key).is_some() {
            return;
        }
        let entry = match versions {
            None => None,
            Some(vs) => {
                let mut out: Vec<String> = Vec::new();
                let mut i: usize = 0;
                while i < vs.len()
                    invariant
                        i <= vs@.len(),
                        out@.len() == i,
                        forall|j: int| 0 <= j < i ==> out@[j]@ == normalized(vs@[j]@),
                    decreases vs@.len() - i,
                {
                    out.push(normalize_version(vs[i].as_str()));
                    i = i + 1;
                }
                assert(index_view(Some(out))->0 == index_view(Some(vs))->0.map_values(
                    |v: Seq<char>| normalized(v),
                ));
                Some(out)
            },
        };
        proof {
            if let Some(vs) = index_view(entry) {
                assert forall|i: int| 0 <= i < vs.len() implies normalized(#[trigger] vs[i])
                    == vs[i] by {
                    lemma_normalize_idempotent(index_view(versions)->0[i]);
                }
            }
        }
        cache_insert(&mut self.package_cache, key, entry);
    }

    /// The download address of `version` of `package` in this repository.
    pub fn url(&self, package: &str, version: &str) -> (r: Result<String, Error>)
        ensures
            match r {
                Ok(u) => url_join(self.base(), download_path(package@, version@)) == Some(u@),
                Err(e) => e is InvalidUrl && url_join(
                    self.base(),
                    download_path(package@, version@),
                ) is None,
            },
    {
        let id = ascii_lowercase(package);
        let ver = normalize_version(version);
        let mut rel = String::new();
        push_text(&mut rel, id.as_str());
        push_text(&mut rel, "/");
        push_text(&mut rel, ver.as_str());
        push_text(&mut rel, "/");
        push_text(&mut rel, id.as_str());
        push_text(&mut rel, ".");
        push_text(&mut rel, ver.as_str());
        push_text(&mut rel, ".nupkg");
        proof {
            reveal_strlit("/");
            reveal_strlit(".");
        }
        assert(rel@ == download_path(package@, version@));
        match join_url(self.package_base_address.as_str(), rel.as_str()) {
            Some(u) => Ok(u),
            None => Err(Error::InvalidUrl),
        }
    }
}

/// Once the index of a package is recorded, every later lookup of any version of it is
/// answered from the cache, and recording it again changes nothing.
pub proof fn lemma_recorded_lookup_is_cached(
    cache: Map<Seq<char>, Option<Seq<Seq<char>>>>,
    id: Seq<char>,
    versions: Option<Seq<Seq<char>>>,
    again: Option<Seq<Seq<char>>>,
    version: Seq<char>,
)
    ensures
        lookup(recorded(cache, id, versions), id, version) is Some,
        recorded(recorded(cache, id, versions), id, again) == recorded(cache, id, versions),
{
}

} // verus!
