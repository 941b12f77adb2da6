use nuget_to_nix::config::{source_urls, ConfigEvent};
use nuget_to_nix::error::Error;
use nuget_to_nix::hash::{hash_from_output, DEFAULT_HASH_CONCURRENCY};
use nuget_to_nix::nuget::{NuGet, Resource};
use nuget_to_nix::resolve::{collect_in_order, resolve, with_default_source, Resolution};
use nuget_to_nix::text::ascii_lowercase;
use nuget_to_nix::version::normalize_version;

const FLAT: &str = "https://api.nuget.org/v3-flatcontainer/";

fn source(base: &str) -> NuGet {
    let resources = vec![
        Resource { url: "https://example.org/query".to_string(), typ: "SearchQueryService".to_string() },
        Resource { url: base.to_string(), typ: "PackageBaseAddress/3.0.0".to_string() },
    ];
    NuGet::new(&resources).unwrap()
}

fn index(versions: &[&str]) -> Option<Vec<String>> {
    Some(versions.iter().map(|v| v.to_string()).collect())
}

#[test]
fn normalize_strips_build_metadata() {
    assert_eq!(normalize_version("1.2.3+build5"), "1.2.3");
    assert_eq!(normalize_version("1.2.3+build5"), normalize_version("1.2.3"));
    assert_eq!(normalize_version("1.0.0-beta+a+b"), "1.0.0-beta");
    assert_eq!(normalize_version("+meta"), "");
    assert_eq!(normalize_version(""), "");
}

#[test]
fn normalize_is_idempotent() {
    for v in ["1.2.3", "1.2.3+build5", "2.0.0-rc.1+sha.abc", "", "+"] {
        let once = normalize_version(v);
        assert_eq!(normalize_version(&once), once);
    }
}

#[test]
fn lowercase_only_touches_ascii_letters() {
    assert_eq!(ascii_lowercase("Newtonsoft.Json"), "newtonsoft.json");
    assert_eq!(ascii_lowercase("ÄBC-9"), "Äbc-9");
}

#[test]
fn service_index_without_base_address_is_malformed() {
    let resources = vec![Resource { url: "https://example.org/q".to_string(), typ: "SearchQueryService".to_string() }];
    assert!(matches!(NuGet::new(&resources), Err(Error::MalformedServiceIndex)));
    assert!(matches!(NuGet::new(&Vec::new()), Err(Error::MalformedServiceIndex)));
}

#[test]
fn first_base_address_resource_is_taken() {
    let resources = vec![
        Resource { url: "https://a.example/flat/".to_string(), typ: "PackageBaseAddress/3.0.0".to_string() },
        Resource { url: "https://b.example/flat/".to_string(), typ: "PackageBaseAddress/3.0.0".to_string() },
    ];
    let n = NuGet::new(&resources).unwrap();
    assert_eq!(n.url("Foo", "1.0.0").unwrap(), "https://a.example/flat/foo/1.0.0/foo.1.0.0.nupkg");
}

#[test]
fn default_source_is_nuget_org() {
    assert_eq!(NuGet::nuget_org(), "https://api.nuget.org/v3/index.json");
    assert_eq!(with_default_source(Vec::new()), vec!["https://api.nuget.org/v3/index.json".to_string()]);
    let configured = vec!["https://a.example/index.json".to_string()];
    assert_eq!(with_default_source(configured.clone()), configured);
}

#[test]
fn lookup_is_unknown_until_recorded() {
    let mut n = source(FLAT);
    assert_eq!(n.has_version("Foo", "1.0.0"), None);
    n.record("Foo", index(&["1.0.0", "1.1.0"]));
    assert_eq!(n.has_version("Foo", "1.0.0"), Some(true));
    assert_eq!(n.has_version("foo", "1.0.0+abc"), Some(true));
    assert_eq!(n.has_version("FOO", "2.0.0"), Some(false));
    assert_eq!(n.has_version("Bar", "1.0.0"), None);
}

#[test]
fn repeated_lookup_is_a_cache_hit() {
    let mut n = source(FLAT);
    n.record("Foo", index(&["1.0.0"]));
    // a second recording of the same id does not replace the first
    n.record("foo", index(&["9.9.9"]));
    assert_eq!(n.has_version("Foo", "1.0.0"), Some(true));
    assert_eq!(n.has_version("Foo", "9.9.9"), Some(false));
}

#[test]
fn failed_lookup_is_cached_as_absent() {
    let mut n = source(FLAT);
    n.record("Foo", None);
    assert_eq!(n.has_version("Foo", "1.0.0"), Some(false));
    n.record("Foo", index(&["1.0.0"]));
    assert_eq!(n.has_version("Foo", "1.0.0"), Some(false));
}

#[test]
fn index_url_uses_lowercase_id() {
    let n = source(FLAT);
    assert_eq!(n.index_url("Newtonsoft.Json").unwrap(), "https://api.nuget.org/v3-flatcontainer/newtonsoft.json/index.json");
}

#[test]
fn download_url_follows_the_template() {
    let n = source(FLAT);
    assert_eq!(
        n.url("Newtonsoft.Json", "13.0.1+meta").unwrap(),
        "https://api.nuget.org/v3-flatcontainer/newtonsoft.json/13.0.1/newtonsoft.json.13.0.1.nupkg"
    );
}

#[test]
fn first_publishing_source_wins() {
    let mut a = source("https://a.example/flat/");
    let mut b = source("https://b.example/flat/");
    a.record("pkg", index(&["1.0.0"]));
    b.record("pkg", index(&["1.0.0"]));
    let repos = vec![a, b];
    match resolve(&repos, "pkg", "1.0.0").unwrap() {
        Resolution::Found { source, url } => {
            assert_eq!(source, 0);
            assert_eq!(url, "https://a.example/flat/pkg/1.0.0/pkg.1.0.0.nupkg");
        }
        other => panic!("unexpected {:?}", other),
    }
}

#[test]
fn later_source_used_when_earlier_lacks_version() {
    let mut a = source("https://a.example/flat/");
    let mut b = source("https://b.example/flat/");
    a.record("pkg", index(&["0.9.0"]));
    b.record("pkg", index(&["1.0.0"]));
    let repos = vec![a, b];
    match resolve(&repos, "pkg", "1.0.0").unwrap() {
        Resolution::Found { source, url } => {
            assert_eq!(source, 1);
            assert_eq!(url, "https://b.example/flat/pkg/1.0.0/pkg.1.0.0.nupkg");
        }
        other => panic!("unexpected {:?}", other),
    }
}

#[test]
fn unlooked_source_asks_for_its_index() {
    let mut a = source("https://a.example/flat/");
    let b = source("https://b.example/flat/");
    a.record("pkg", None);
    let repos = vec![a, b];
    assert!(matches!(resolve(&repos, "pkg", "1.0.0"), Ok(Resolution::NeedsIndex { source: 1 })));
}

#[test]
fn unpublished_package_is_not_found_and_aborts() {
    let mut a = source("https://a.example/flat/");
    let mut b = source("https://b.example/flat/");
    a.record("pkg", index(&["0.9.0"]));
    b.record("pkg", None);
    let repos = vec![a, b];
    let r = resolve(&repos, "pkg", "1.0.0");
    match &r {
        Err(Error::PackageNotFound { id, version }) => {
            assert_eq!(id, "pkg");
            assert_eq!(version, "1.0.0");
        }
        other => panic!("unexpected {:?}", other),
    }
    let results: Vec<Result<u32, Error>> = vec![Ok(1), r.map(|_| 2), Ok(3)];
    assert!(matches!(collect_in_order(results), Err(Error::PackageNotFound { .. })));
}

#[test]
fn no_sources_means_not_found() {
    assert!(matches!(resolve(&Vec::new(), "pkg", "1.0.0"), Err(Error::PackageNotFound { .. })));
}

#[test]
fn results_keep_input_order() {
    let results: Vec<Result<&str, Error>> = vec![Ok("p1"), Ok("p2"), Ok("p3")];
    assert_eq!(collect_in_order(results).unwrap(), vec!["p1", "p2", "p3"]);
}

#[test]
fn first_failure_in_input_order_is_reported() {
    let results: Vec<Result<u8, Error>> = vec![Ok(1), Err(Error::HashToolUnavailable), Err(Error::InvalidUrl)];
    assert!(matches!(collect_in_order(results), Err(Error::HashToolUnavailable)));
}

#[test]
fn metadata_version_resolves_to_normalized_url() {
    let mut n = source(FLAT);
    n.record("Foo", index(&["2.0.0", "2.0.0+abc"]));
    let repos = vec![n];
    match resolve(&repos, "Foo", "2.0.0+abc").unwrap() {
        Resolution::Found { source, url } => {
            assert_eq!(source, 0);
            assert_eq!(url, "https://api.nuget.org/v3-flatcontainer/foo/2.0.0/foo.2.0.0.nupkg");
        }
        other => panic!("unexpected {:?}", other),
    }
}

#[test]
fn unreachable_repository_aborts_startup() {
    let connected: Vec<Result<NuGet, Error>> = vec![Err(Error::RepositoryUnreachable)];
    assert!(matches!(collect_in_order(connected), Err(Error::RepositoryUnreachable)));
}

#[test]
fn config_lists_valid_sources_until_the_end_tag() {
    let events = vec![
        ConfigEvent::Other,
        ConfigEvent::Add { value: Some("https://a.example/v3/index.json".to_string()) },
        ConfigEvent::Add { value: Some("not a url".to_string()) },
        ConfigEvent::Add { value: Some("https://b.example/v3/index.json".to_string()) },
        ConfigEvent::EndPackageSources,
        ConfigEvent::Add { value: Some("https://c.example/v3/index.json".to_string()) },
    ];
    assert_eq!(
        source_urls(&events).unwrap(),
        vec!["https://a.example/v3/index.json".to_string(), "https://b.example/v3/index.json".to_string()]
    );
}

#[test]
fn config_source_without_value_is_malformed() {
    let events = vec![ConfigEvent::Add { value: None }, ConfigEvent::Eof];
    assert!(matches!(source_urls(&events), Err(Error::MalformedConfig)));
    let after_end = vec![ConfigEvent::Eof, ConfigEvent::Add { value: None }];
    assert_eq!(source_urls(&after_end).unwrap(), Vec::<String>::new());
}

#[test]
fn hash_is_trimmed_tool_output() {
    assert_eq!(hash_from_output(true, Some(0), "  0abc123\n").unwrap(), "0abc123");
    assert!(matches!(hash_from_output(false, Some(1), "x"), Err(Error::HashToolFailed { status: Some(1) })));
    assert!(matches!(hash_from_output(false, None, ""), Err(Error::HashToolFailed { status: None })));
    assert_eq!(DEFAULT_HASH_CONCURRENCY, 10);
}

#[test]
fn repeated_endpoint_is_listed_once() {
    let events = vec![
        ConfigEvent::Add { value: Some("https://a.example/v3/index.json".to_string()) },
        ConfigEvent::Add { value: Some("https://b.example/v3/index.json".to_string()) },
        ConfigEvent::Add { value: Some("https://a.example/v3/index.json".to_string()) },
        ConfigEvent::EndPackageSources,
    ];
    assert_eq!(
        source_urls(&events).unwrap(),
        vec!["https://a.example/v3/index.json".to_string(), "https://b.example/v3/index.json".to_string()]
    );
}

#[test]
fn hash_trims_unicode_white_space() {
    assert_eq!(hash_from_output(true, Some(0), "\u{a0}\t0abc 123\u{3000}\r\n").unwrap(), "0abc 123");
    assert_eq!(hash_from_output(true, Some(0), " \n ").unwrap(), "");
}

#[test]
fn later_failure_still_fails_the_run() {
    let results: Vec<Result<u8, Error>> = vec![
        Ok(1),
        Ok(2),
        Err(Error::PackageNotFound { id: "pkg".to_string(), version: "1.0.0".to_string() }),
    ];
    match collect_in_order(results) {
        Err(Error::PackageNotFound { id, version }) => {
            assert_eq!(id, "pkg");
            assert_eq!(version, "1.0.0");
        }
        other => panic!("unexpected {:?}", other),
    }
}
