use vstd::prelude::*;

use crate::error::Error;
use crate::nuget::{download_path, lookup, recorded, url_join, NuGet};
use crate::version::normalized;

verus! {

/// What the cached indexes of the repositories decide for one package reference.
#[derive(Debug, Clone)]
pub enum Resolution {
    /// The repository at `source` is the first to publish the version; `url` is its
    /// download address there.
    Found { source: usize, url: String },
    /// The repository at `source` must have its version index of the package looked up
    /// (and recorded) before resolution can go on.
    NeedsIndex { source: usize },
}

/// A package bound to its download address and the hash of its artifact.
#[derive(Debug, Clone)]
pub struct ResolvedPackage {
    pub id: String,
    /// The version as given, build metadata included.
    pub version: String,
    pub url: String,
    pub hash: String,
}

/// The cache of `repo` shows that it does not publish `version` of `id`.
pub open spec fn rules_out(repo: NuGet, id: Seq<char>, version: Seq<char>) -> bool {
    lookup(repo.cache(), id, version) == Some(false)
}

/// `k` is the first repository whose cache does not rule the version out: every earlier
/// one has looked the package up and does not list the version; `k` is the number of
/// repositories where all rule it out.
pub open spec fn is_first_decision(
    repos: Seq<NuGet>,
    id: Seq<char>,
    version: Seq<char>,
    k: int,
) -> bool {
    &&& 0 <= k <= repos.len()
    &&& forall|j: int| 0 <= j < k ==> rules_out(#[trigger] repos[j], id, version)
    &&& k < repos.len() ==> !rules_out(repos[k], id, version)
}

/// Resolves `package` at `version` against the repositories in their configured order,
/// from their caches: the first that publishes the version wins. Where a repository
/// before that one has not looked the package up, that lookup is asked for instead.
pub fn resolve(repos: &Vec<NuGet>, package: &str, version: &str) -> (r: Result<Resolution, Error>)
    ensures
        match r {
            Ok(Resolution::Found { source, url }) => {
                &&& is_first_decision(repos@, package@, version@, source as int)
                &&& source < repos@.len()
                &&& lookup(repos@[source as int].cache(), package@, version@) == Some(true)
                &&& url_join(repos@[source as int].base(), download_path(package@, version@))
                    == Some(url@)
            },
            Ok(Resolution::NeedsIndex { source }) => {
                &&& is_first_decision(repos@, package@, version@, source as int)
                &&& source < repos@.len()
                &&& lookup(repos@[source as int].cache(), package@, version@) is None
            },
            Err(Error::PackageNotFound { id, version: v }) => {
                &&& is_first_decision(repos@, package@, version@, repos@.len() as int)
                &&& id@ == package@
                &&& v@ == version@
            },
            Err(Error::InvalidUrl) => exists|k: int|
                {
                    &&& is_first_decision(repos@, package@, version@, k)
                    &&& k < repos@.len()
                    &&& lookup(repos@[k].cache(), package@, version@) == Some(true)
                    &&& url_join(repos@[k].base(), download_path(package@, version@)) is None
                },
            Err(_) => false,
        },
{
    let mut i: usize = 0;
    while i < repos.len()
        invariant
            i <= repos@.len(),
            forall|j: int| 0 <= j < i ==> rules_out(#[trigger] repos@[j], package@, version@),
        decreases repos@.len() - i,
    {
        match repos[i].has_version(package, version) {
            None => {
                return Ok(Resolution::NeedsIndex { source: i });
            },
            Some(true) => {
                let url = repos[i].url(package, version);
                assert(is_first_decision(repos@, package@, version@, i as int));
                return match url {
                    Ok(u) => Ok(Resolution::Found { source: i, url: u }),
                    Err(e) => Err(e),
                };
            },
            Some(false) => {},
        }
        i = i + 1;
    }
    Err(Error::PackageNotFound { id: package.to_owned(), version: version.to_owned() })
}

/// The results of all package references in input order, or the first failure in that
/// order. A single failure anywhere, a package not found included, fails the whole run:
/// no results are given then.
pub fn collect_in_order<T>(results: Vec<Result<T, Error>>) -> (r: Result<Vec<T>, Error>)
    ensures
        (exists|i: int| 0 <= i < results@.len() && #[trigger] results@[i] is Err) ==> r is Err,
        match r {
            Ok(v) => v@.len() == results@.len() && forall|i: int|
                0 <= i < results@.len() ==> results@[i] == Ok::<T, Error>(#[trigger] v@[i]),
            Err(e) => exists|i: int|
                0 <= i < results@.len() && results@[i] == Err::<T, Error>(e) && forall|j: int|
                    0 <= j < i ==> #[trigger] results@[j] is Ok,
        },
{
    let ghost all = results@;
    let mut out: Vec<T> = Vec::new();
    for x in it: results
        invariant
            it.seq() == all,
            out@.len() == it.index(),
            forall|i: int| 0 <= i < it.index() ==> all[i] == Ok::<T, Error>(#[trigger] out@[i]),
    {
        match x {
            Ok(v) => {
                out.push(v);
            },
            Err(e) => {
                assert forall|j: int| 0 <= j < it.index() implies #[trigger] all[j] is Ok by {
                    assert(all[j] == Ok::<T, Error>(out@[j]));
                }
                return Err(e);
            },
        }
    }
    assert forall|i: int| 0 <= i < all.len() implies !(#[trigger] all[i] is Err) by {
        assert(all[i] == Ok::<T, Error>(out@[i]));
    }
    Ok(out)
}

/// Repositories are tried in their configured order: where the repository at `i`
/// publishes the version, resolution never settles on a repository after it.
pub proof fn lemma_first_publisher_wins(
    repos: Seq<NuGet>,
    id: Seq<char>,
    version: Seq<char>,
    k: int,
    i: int,
)
    requires
        is_first_decision(repos, id, version, k),
        0 <= i < repos.len(),
        lookup(repos[i].cache(), id, version) == Some(true),
    ensures
        k <= i,
{
    if i < k {
        assert(lookup(repos[i].cache(), id, version) == Some(false));
    }
}

/// Where every repository has looked the package up and none lists the version, the only
/// decision is that it is not found.
pub proof fn lemma_unpublished_is_not_found(
    repos: Seq<NuGet>,
    id: Seq<char>,
    version: Seq<char>,
    k: int,
)
    requires
        forall|j: int| 0 <= j < repos.len() ==> rules_out(#[trigger] repos[j], id, version),
        is_first_decision(repos, id, version, k),
    ensures
        k == repos.len(),
{
}

/// The service index addresses to use: those configured, or the default public
/// repository where none is.
pub fn with_default_source(configured: Vec<String>) -> (r: Vec<String>)
    ensures
        configured@.len() == 0 ==> r@.len() == 1 && r@[0]@ == crate::nuget::NUGET_ORG_INDEX_URL@,
        configured@.len() > 0 ==> r@ == configured@,
{
    if configured.len() == 0 {
        let mut r: Vec<String> = Vec::new();
        r.push(NuGet::nuget_org());
        r
    } else {
        configured
    }
}

} // verus!
