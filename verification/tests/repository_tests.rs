use edgedb_pkg::errors::Error;
use edgedb_pkg::query::{Channel, Query};
use edgedb_pkg::repository::{
    filter_package, get_server_package, get_server_packages, index_url, InstallRef, PackageData,
    PackageHash, PackageType, RepositoryData, Verification, DEFAULT_PACKAGE_ROOT,
};
use edgedb_pkg::version::Build;

const ROOT: &str = "https://packages.edgedb.com";

fn good_ref(path: &str, hash_char: char) -> InstallRef {
    InstallRef {
        path: String::from(path),
        kind: String::from("application/x-tar"),
        encoding: Some(String::from("zstd")),
        verification: Verification {
            size: 1000,
            blake2b: Some(hash_char.to_string().repeat(128)),
        },
    }
}

fn server_pkg(version: &str, refs: Vec<InstallRef>) -> PackageData {
    PackageData {
        basename: String::from("edgedb-server"),
        version: String::from(version),
        installrefs: refs,
    }
}

#[test]
fn qualifying_package_resolves() {
    let pkg = server_pkg("1.4+g123", vec![good_ref("/archive/pkg-1.4.tar.zst", 'a')]);
    let info = filter_package(ROOT, &pkg).unwrap();
    assert_eq!(info.version, Build::parse("1.4+g123").unwrap());
    assert_eq!(info.url, "https://packages.edgedb.com/archive/pkg-1.4.tar.zst");
    assert_eq!(info.size, 1000);
    assert_eq!(info.hash, PackageHash::Blake2b("a".repeat(128)));
    assert_eq!(info.kind, PackageType::TarZst);
}

#[test]
fn first_qualifying_reference_wins() {
    let mut bad = good_ref("/skipped.tar.zst", 'b');
    bad.encoding = Some(String::from("gzip"));
    let pkg = server_pkg(
        "1.4",
        vec![bad, good_ref("/chosen.tar.zst", 'c'), good_ref("/later.tar.zst", 'd')],
    );
    let info = filter_package(ROOT, &pkg).unwrap();
    assert_eq!(info.url, "https://packages.edgedb.com/chosen.tar.zst");
    assert_eq!(info.hash, PackageHash::Blake2b("c".repeat(128)));
}

#[test]
fn oversized_hash_drops_entry() {
    // a single install reference whose "blake2b" string has 130 characters
    let mut r = good_ref("/x.tar.zst", 'a');
    r.verification.blake2b = Some("a".repeat(130));
    let data = RepositoryData { packages: vec![server_pkg("1.4", vec![r])] };
    let out = get_server_packages(ROOT, Ok(data)).unwrap();
    assert!(out.is_empty());
}

#[test]
fn disqualified_references_drop_entry() {
    let mut wrong_kind = good_ref("/x.tar.zst", 'a');
    wrong_kind.kind = String::from("application/zip");
    let mut no_encoding = good_ref("/y.tar.zst", 'a');
    no_encoding.encoding = None;
    let mut no_hash = good_ref("/z.tar.zst", 'a');
    no_hash.verification.blake2b = None;
    let data = RepositoryData {
        packages: vec![
            server_pkg("1.2", vec![wrong_kind]),
            server_pkg("1.3", vec![no_encoding]),
            server_pkg("1.4", vec![no_hash]),
        ],
    };
    let out = get_server_packages(ROOT, Ok(data)).unwrap();
    assert!(out.is_empty());
}

#[test]
fn unparsable_version_drops_entry() {
    let data = RepositoryData {
        packages: vec![server_pkg("not-a-version", vec![good_ref("/x.tar.zst", 'a')])],
    };
    let out = get_server_packages(ROOT, Ok(data)).unwrap();
    assert!(out.is_empty());
}

#[test]
fn other_basenames_are_ignored() {
    let mut pkg = server_pkg("1.4", vec![good_ref("/x.tar.zst", 'a')]);
    pkg.basename = String::from("edgedb-cli");
    let data = RepositoryData { packages: vec![pkg] };
    let out = get_server_packages(ROOT, Ok(data)).unwrap();
    assert!(out.is_empty());
}

#[test]
fn not_found_index_is_an_empty_list() {
    // a 404 on the nightly index is not an error
    let out = get_server_packages(ROOT, Err(Error::NotFound));
    assert_eq!(out.unwrap(), Vec::new());
}

#[test]
fn other_fetch_errors_propagate() {
    assert_eq!(
        get_server_packages(ROOT, Err(Error::HttpError)),
        Err(Error::HttpError)
    );
    assert_eq!(
        get_server_packages(ROOT, Err(Error::RetryBudgetExhausted)),
        Err(Error::RetryBudgetExhausted)
    );
}

#[test]
fn best_match_is_the_greatest_version() {
    let data = RepositoryData {
        packages: vec![
            server_pkg("1.2", vec![good_ref("/p12.tar.zst", 'a')]),
            server_pkg("1.4", vec![good_ref("/p14.tar.zst", 'c')]),
            server_pkg("1.3", vec![good_ref("/p13.tar.zst", 'b')]),
        ],
    };
    let packages = get_server_packages(ROOT, Ok(data)).unwrap();
    assert_eq!(packages.len(), 3);
    let query = Query { channel: Channel::Stable, version: None };
    let best = get_server_package(&query, &packages).unwrap();
    assert_eq!(best.version, Build::parse("1.4").unwrap());
    assert_eq!(best.url, "https://packages.edgedb.com/p14.tar.zst");
}

#[test]
fn no_match_is_none_not_an_error() {
    let data = RepositoryData {
        packages: vec![server_pkg("2.0-dev.5", vec![good_ref("/n.tar.zst", 'a')])],
    };
    let packages = get_server_packages(ROOT, Ok(data)).unwrap();
    let query = Query { channel: Channel::Stable, version: None };
    assert_eq!(get_server_package(&query, &packages), None);
    assert_eq!(get_server_package(&query, &Vec::new()), None);
}

#[test]
fn filtered_query_picks_its_version() {
    let data = RepositoryData {
        packages: vec![
            server_pkg("1.2", vec![good_ref("/p12.tar.zst", 'a')]),
            server_pkg("1.4", vec![good_ref("/p14.tar.zst", 'b')]),
        ],
    };
    let packages = get_server_packages(ROOT, Ok(data)).unwrap();
    let query = Query::from_token("1.2").unwrap();
    let best = get_server_package(&query, &packages).unwrap();
    assert_eq!(best.version, Build::parse("1.2").unwrap());
}

#[test]
fn nightly_query_picks_dev_builds() {
    let data = RepositoryData {
        packages: vec![
            server_pkg("2.0-dev.6000", vec![good_ref("/d1.tar.zst", 'a')]),
            server_pkg("2.0-dev.6132", vec![good_ref("/d2.tar.zst", 'b')]),
            server_pkg("1.4", vec![good_ref("/s.tar.zst", 'c')]),
        ],
    };
    let packages = get_server_packages(ROOT, Ok(data)).unwrap();
    let best = get_server_package(&Query::nightly(), &packages).unwrap();
    assert_eq!(best.version, Build::parse("2.0-dev.6132").unwrap());
}

#[test]
fn equal_versions_prefer_the_later_entry() {
    let data = RepositoryData {
        packages: vec![
            server_pkg("1.4", vec![good_ref("/first.tar.zst", 'a')]),
            server_pkg("1.4", vec![good_ref("/second.tar.zst", 'b')]),
        ],
    };
    let packages = get_server_packages(ROOT, Ok(data)).unwrap();
    let query = Query { channel: Channel::Stable, version: None };
    let best = get_server_package(&query, &packages).unwrap();
    assert_eq!(best.url, "https://packages.edgedb.com/second.tar.zst");
}

#[test]
fn index_urls() {
    assert_eq!(
        index_url(DEFAULT_PACKAGE_ROOT, "x86_64-unknown-linux-musl", Channel::Stable).unwrap(),
        "https://packages.edgedb.com/archive/.jsonindexes/x86_64-unknown-linux-musl.json"
    );
    assert_eq!(
        index_url("https://mirror.example", "macos-aarch64", Channel::Nightly).unwrap(),
        "https://mirror.example/archive/.jsonindexes/macos-aarch64.nightly.json"
    );
    assert_eq!(
        index_url("not a url", "p", Channel::Stable),
        Err(Error::InvalidPackageRoot)
    );
}

#[test]
fn cache_file_names() {
    let pkg = server_pkg("1.4+g77", vec![good_ref("/p.tar.zst", 'a')]);
    let info = filter_package(ROOT, &pkg).unwrap();
    assert_eq!(info.cache_file_name(), "edgedb-server_1.4+g77_aaaaaaa.tar.zst");
    assert_eq!(info.kind.as_ext(), ".tar.zst");
}
