//! Catalog-level queries: channel resolution, named channels, version
//! listings and the enriched version-detail view.

use rust_versions::models::{QueryError, RustChannelStore};
use rust_versions::queries::{
    execute_versions, get_all_versions, get_named_channels, get_version_info, resolve_channel,
    VersionQueries,
};
use rust_versions::store::{ArtefactRow, ComponentRow, ReleaseRow, Store};

fn rel(version: &str, date: &str, stable: bool, beta: bool, nightly: bool) -> ReleaseRow {
    ReleaseRow {
        version: version.to_string(),
        release_date: date.to_string(),
        latest_stable: stable,
        latest_beta: beta,
        latest_nightly: nightly,
    }
}

fn crow(
    rust_version: &str,
    name: &str,
    version: &str,
    commit: Option<&str>,
    target: Option<(&str, &str, &str)>,
) -> ComponentRow {
    ComponentRow {
        rust_version: rust_version.to_string(),
        name: name.to_string(),
        version: version.to_string(),
        git_commit: commit.map(|c| c.to_string()),
        profile_complete: true,
        profile_default: true,
        profile_minimal: false,
        target_name: target.map(|t| t.0.to_string()),
        target_url: target.map(|t| t.1.to_string()),
        target_hash: target.map(|t| t.2.to_string()),
    }
}

fn two_release_store() -> Store {
    let releases = vec![
        rel("1.80.0", "2024-07-25", true, false, false),
        rel("1.81.0", "2024-09-05", false, false, false),
    ];
    Store::new(releases, Vec::new(), Vec::new())
}

#[test]
fn named_channels_single_flagged() {
    let store = two_release_store();
    let out = get_named_channels(&store);
    assert_eq!(out.len(), 1);
    assert_eq!(out[0].version, "1.80.0");
    assert!(out[0].latest_stable);
    assert!(out[0].components.is_empty());
    assert!(out[0].artefacts.is_none());
}

#[test]
fn version_info_latest_follows_stable_flag() {
    let store = two_release_store();
    let out = get_version_info(&store, Some("latest".to_string())).unwrap();
    assert_eq!(out.len(), 1);
    assert_eq!(out[0].version, "1.80.0");
}

#[test]
fn version_info_default_token_is_latest() {
    let store = two_release_store();
    let out = get_version_info(&store, None).unwrap();
    assert_eq!(out.len(), 1);
    assert_eq!(out[0].version, "1.80.0");
}

#[test]
fn version_info_literal_version() {
    let store = two_release_store();
    let out = get_version_info(&store, Some("1.81.0".to_string())).unwrap();
    assert_eq!(out.len(), 1);
    assert_eq!(out[0].version, "1.81.0");
    assert!(out[0].components.is_empty());
    assert!(out[0].git_commit.is_none());
    assert!(out[0].artefacts.is_none());
}

#[test]
fn resolve_each_channel_token() {
    let releases = vec![
        rel("1.82.0", "2024-10-17", false, true, false),
        rel("1.81.0", "2024-09-05", true, false, false),
        rel("1.83.0", "2024-11-01", false, false, true),
    ];
    let store = Store::new(releases, Vec::new(), Vec::new());
    let catalog = store.releases();
    assert_eq!(resolve_channel(catalog, &"stable".to_string()).unwrap(), "1.81.0");
    assert_eq!(resolve_channel(catalog, &"latest".to_string()).unwrap(), "1.81.0");
    assert_eq!(resolve_channel(catalog, &"beta".to_string()).unwrap(), "1.82.0");
    assert_eq!(resolve_channel(catalog, &"nightly".to_string()).unwrap(), "1.83.0");
    assert_eq!(resolve_channel(catalog, &"1.82.0".to_string()).unwrap(), "1.82.0");
}

#[test]
fn resolve_unflagged_channel_is_not_found() {
    let store = two_release_store();
    let r = get_version_info(&store, Some("beta".to_string()));
    assert_eq!(r.unwrap_err(), QueryError::NotFound);
    let n = get_version_info(&store, Some("nightly".to_string()));
    assert_eq!(n.unwrap_err(), QueryError::NotFound);
}

#[test]
fn resolve_unknown_version_is_not_found() {
    let store = two_release_store();
    let r = get_version_info(&store, Some("9.99.9".to_string()));
    assert_eq!(r.unwrap_err(), QueryError::NotFound);
}

#[test]
fn resolve_stable_without_any_stable_flag_is_not_found() {
    let releases = vec![rel("1.80.0", "2024-07-25", false, true, false)];
    let store = Store::new(releases, Vec::new(), Vec::new());
    let r = get_version_info(&store, Some("stable".to_string()));
    assert_eq!(r.unwrap_err(), QueryError::NotFound);
}

#[test]
fn all_versions_sorted_most_recent_first() {
    let releases = vec![
        rel("1.79.0", "2024-06-13", false, false, false),
        rel("1.81.0", "2024-09-05", false, false, false),
        rel("1.80.0", "2024-07-25", true, false, false),
    ];
    let store = Store::new(releases, Vec::new(), Vec::new());
    let out = get_all_versions(&store);
    let versions: Vec<&str> = out.iter().map(|v| v.version.as_str()).collect();
    assert_eq!(versions, vec!["1.81.0", "1.80.0", "1.79.0"]);
    assert!(out.iter().all(|v| v.components.is_empty()));
    assert!(out.iter().all(|v| v.git_commit.is_none()));
    assert!(out.iter().all(|v| v.artefacts.is_none()));
    assert!(out.iter().all(|v| v.profiles.is_none() && v.renames.is_none()));
}

#[test]
fn named_channels_caps_at_three_most_recent() {
    let releases = vec![
        rel("1.77.0", "2024-03-21", true, false, false),
        rel("1.80.0", "2024-07-25", true, false, false),
        rel("1.78.0", "2024-05-02", false, true, false),
        rel("1.79.0", "2024-06-13", false, false, true),
        rel("1.76.0", "2024-02-08", false, false, false),
    ];
    let store = Store::new(releases, Vec::new(), Vec::new());
    let out = get_named_channels(&store);
    let versions: Vec<&str> = out.iter().map(|v| v.version.as_str()).collect();
    assert_eq!(versions, vec!["1.80.0", "1.79.0", "1.78.0"]);
}

#[test]
fn commit_hash_sentinel_left_unset() {
    let releases = vec![rel("1.80.0", "2024-07-25", true, false, false)];
    let components = vec![
        crow("1.80.0", "cargo", "1.80.0", Some("None"), None),
        crow("1.80.0", "rustc", "1.80.0", Some("None"), None),
    ];
    let store = Store::new(releases, components, Vec::new());
    let out = get_version_info(&store, Some("1.80.0".to_string())).unwrap();
    assert!(out[0].git_commit.is_none());
    assert_eq!(out[0].components.len(), 2);
}

#[test]
fn commit_hash_first_real_hash_wins() {
    let releases = vec![rel("1.80.0", "2024-07-25", true, false, false)];
    let components = vec![
        crow("1.80.0", "cargo", "1.80.0", Some("None"), None),
        crow("1.80.0", "rustc", "1.80.0", Some("abc123"), None),
        crow("1.80.0", "clippy", "1.80.0", Some("def456"), None),
    ];
    let store = Store::new(releases, components, Vec::new());
    let out = get_version_info(&store, Some("1.80.0".to_string())).unwrap();
    assert_eq!(out[0].git_commit.as_deref(), Some("abc123"));
}

#[test]
fn version_info_dispatch_matches_direct_call() {
    let store = two_release_store();
    let direct = get_version_info(&store, Some("1.80.0".to_string())).unwrap();
    let dispatched = execute_versions(
        &store,
        VersionQueries::GetVersionInfo,
        Some("1.80.0".to_string()),
    )
    .unwrap();
    assert_eq!(direct, dispatched);
    let named = execute_versions(&store, VersionQueries::GetNamedChannels, None).unwrap();
    assert_eq!(named, get_named_channels(&store));
    let all = execute_versions(&store, VersionQueries::GetAllVersions, None).unwrap();
    assert_eq!(all, get_all_versions(&store));
}

#[test]
fn channel_store_holds_current_pointers() {
    let releases = vec![
        rel("1.80.0", "2024-07-25", true, false, false),
        rel("1.82.0", "2024-10-17", false, true, false),
    ];
    let store = Store::new(releases, Vec::new(), Vec::new());
    let mut resolve = |token: &str| {
        get_version_info(&store, Some(token.to_string()))
            .ok()
            .and_then(|mut vs| if vs.is_empty() { None } else { Some(vs.remove(0)) })
    };
    let channels = RustChannelStore {
        stable: resolve("stable"),
        beta: resolve("beta"),
        nightly: resolve("nightly"),
    };
    assert_eq!(channels.stable.unwrap().version, "1.80.0");
    assert_eq!(channels.beta.unwrap().version, "1.82.0");
    assert!(channels.nightly.is_none());
}

#[test]
fn version_info_attaches_artefacts_only_when_present() {
    let releases = vec![
        rel("1.80.0", "2024-07-25", true, false, false),
        rel("1.81.0", "2024-09-05", false, false, false),
    ];
    let artefacts = vec![ArtefactRow {
        rust_version: "1.80.0".to_string(),
        kind: 1,
        url: "https://example.invalid/installer.msi".to_string(),
        hash: "h1".to_string(),
    }];
    let store = Store::new(releases, Vec::new(), artefacts);
    let with = get_version_info(&store, Some("1.80.0".to_string())).unwrap();
    let arts = with[0].artefacts.as_ref().unwrap();
    assert_eq!(arts.len(), 1);
    assert_eq!(arts[0].url, "https://example.invalid/installer.msi");
    let without = get_version_info(&store, Some("1.81.0".to_string())).unwrap();
    assert!(without[0].artefacts.is_none());
}
