//! The aggregator: merging join rows into components, target ordering,
//! duplicate handling, and the single-component query.

use rust_versions::aggregate::get_version_components_rows;
use rust_versions::models::QueryError;
use rust_versions::queries::{
    execute_components, get_rust_component, get_rust_components, ComponentQueries,
};
use rust_versions::store::{ComponentRow, ReleaseRow, Store};

fn crow(
    rust_version: &str,
    name: &str,
    version: &str,
    target: Option<(&str, &str, &str)>,
) -> ComponentRow {
    ComponentRow {
        rust_version: rust_version.to_string(),
        name: name.to_string(),
        version: version.to_string(),
        git_commit: None,
        profile_complete: false,
        profile_default: true,
        profile_minimal: false,
        target_name: target.map(|t| t.0.to_string()),
        target_url: target.map(|t| t.1.to_string()),
        target_hash: target.map(|t| t.2.to_string()),
    }
}

fn rel(version: &str, date: &str) -> ReleaseRow {
    ReleaseRow {
        version: version.to_string(),
        release_date: date.to_string(),
        latest_stable: true,
        latest_beta: false,
        latest_nightly: false,
    }
}

#[test]
fn two_target_rows_merge_into_one_component() {
    let rows = vec![
        crow("1.80.0", "cargo", "1.80.0", Some(("x86_64-linux", "u1", "h1"))),
        crow("1.80.0", "cargo", "1.80.0", Some(("aarch64-linux", "u2", "h2"))),
    ];
    let out = get_version_components_rows(&rows);
    assert_eq!(out.len(), 1);
    assert_eq!(out[0].name, "cargo");
    let targets = out[0].target.as_ref().unwrap();
    assert_eq!(targets.len(), 2);
    assert_eq!(targets[0].name, "x86_64-linux");
    assert_eq!(targets[1].name, "aarch64-linux");
}

#[test]
fn duplicated_rows_duplicate_targets_but_not_components() {
    let base = vec![
        crow("1.80.0", "cargo", "1.80.0", Some(("x86_64-linux", "u1", "h1"))),
        crow("1.80.0", "cargo", "1.80.0", Some(("aarch64-linux", "u2", "h2"))),
    ];
    let mut doubled = Vec::new();
    for r in base.iter().chain(base.iter()) {
        doubled.push(crow(
            &r.rust_version,
            &r.name,
            &r.version,
            Some((
                r.target_name.as_deref().unwrap(),
                r.target_url.as_deref().unwrap(),
                r.target_hash.as_deref().unwrap(),
            )),
        ));
    }
    let once = get_version_components_rows(&base);
    let twice = get_version_components_rows(&doubled);
    assert_eq!(once.len(), 1);
    assert_eq!(twice.len(), 1);
    assert_eq!(twice[0].name, once[0].name);
    assert_eq!(twice[0].version, once[0].version);
    let t1 = once[0].target.as_ref().unwrap();
    let t2 = twice[0].target.as_ref().unwrap();
    assert_eq!(t1.len(), 2);
    assert_eq!(t2.len(), 4);
    assert_eq!(&t2[..2], &t1[..]);
    assert_eq!(&t2[2..], &t1[..]);
}

#[test]
fn null_target_rows_yield_no_targets() {
    // four rows, one of them with every target column absent
    let rows = vec![
        crow("1.80.0", "docs", "1.80.0", None),
        crow("1.80.0", "docs", "1.80.0", Some(("x86_64-linux", "u1", "h1"))),
        crow("1.80.0", "docs", "1.80.0", None),
        crow("1.80.0", "docs", "1.80.0", Some(("aarch64-linux", "u2", "h2"))),
    ];
    let out = get_version_components_rows(&rows);
    assert_eq!(out.len(), 1);
    let targets = out[0].target.as_ref().unwrap();
    assert_eq!(targets.len(), 2);
}

#[test]
fn component_with_only_null_targets_has_absent_target_list() {
    let rows = vec![crow("1.80.0", "docs", "1.80.0", None)];
    let out = get_version_components_rows(&rows);
    assert_eq!(out.len(), 1);
    assert!(out[0].target.is_none());
}

#[test]
fn scalar_fields_come_from_first_row_of_a_name() {
    let mut second = crow("1.80.0", "cargo", "1.80.1", Some(("t2", "u2", "h2")));
    second.profile_complete = true;
    let rows = vec![
        crow("1.80.0", "cargo", "1.80.0", Some(("t1", "u1", "h1"))),
        second,
    ];
    let out = get_version_components_rows(&rows);
    assert_eq!(out.len(), 1);
    assert_eq!(out[0].version, "1.80.0");
    assert!(!out[0].profile_complete);
    assert_eq!(out[0].target.as_ref().unwrap().len(), 2);
}

#[test]
fn components_of_a_version_ignore_other_versions() {
    let releases = vec![rel("1.80.0", "2024-07-25")];
    let components = vec![
        crow("1.80.0", "cargo", "1.80.0", Some(("t1", "u1", "h1"))),
        crow("1.81.0", "rustc", "1.81.0", Some(("t2", "u2", "h2"))),
        crow("1.80.0", "rustc", "1.80.0", None),
    ];
    let store = Store::new(releases, components, Vec::new());
    let out = get_rust_components(&store, &"1.80.0".to_string());
    assert_eq!(out.len(), 2);
    assert_eq!(out[0].name, "cargo");
    assert_eq!(out[1].name, "rustc");
    assert!(out[1].target.is_none());
}

#[test]
fn single_component_query_merges_targets() {
    let releases = vec![rel("1.80.0", "2024-07-25")];
    let components = vec![
        crow("1.80.0", "cargo", "1.80.0", Some(("x86_64-linux", "u1", "h1"))),
        crow("1.80.0", "rustc", "1.80.0", Some(("x86_64-linux", "u3", "h3"))),
        crow("1.80.0", "cargo", "1.80.0", Some(("aarch64-linux", "u2", "h2"))),
    ];
    let store = Store::new(releases, components, Vec::new());
    let c = get_rust_component(&store, &"cargo".to_string(), &"1.80.0".to_string()).unwrap();
    assert_eq!(c.name, "cargo");
    let targets = c.target.as_ref().unwrap();
    assert_eq!(targets.len(), 2);
    assert_eq!(targets[0].url, "u1");
    assert_eq!(targets[1].url, "u2");
}

#[test]
fn single_component_query_not_found_when_no_row_matches() {
    let releases = vec![rel("1.80.0", "2024-07-25")];
    let components = vec![crow("1.80.0", "cargo", "1.80.0", None)];
    let store = Store::new(releases, components, Vec::new());
    let missing_name =
        get_rust_component(&store, &"rustfmt".to_string(), &"1.80.0".to_string());
    assert_eq!(missing_name.unwrap_err(), QueryError::NotFound);
    let missing_version =
        get_rust_component(&store, &"cargo".to_string(), &"1.79.0".to_string());
    assert_eq!(missing_version.unwrap_err(), QueryError::NotFound);
}

#[test]
fn single_component_with_null_targets_is_found_with_absent_list() {
    let releases = vec![rel("1.80.0", "2024-07-25")];
    let components = vec![crow("1.80.0", "docs", "1.80.0", None)];
    let store = Store::new(releases, components, Vec::new());
    let c = get_rust_component(&store, &"docs".to_string(), &"1.80.0".to_string()).unwrap();
    assert_eq!(c.name, "docs");
    assert!(c.target.is_none());
}

#[test]
fn component_dispatch_matches_direct_call() {
    let releases = vec![rel("1.80.0", "2024-07-25")];
    let components = vec![crow("1.80.0", "cargo", "1.80.0", Some(("t1", "u1", "h1")))];
    let store = Store::new(releases, components, Vec::new());
    let direct =
        get_rust_component(&store, &"cargo".to_string(), &"1.80.0".to_string()).unwrap();
    let dispatched = execute_components(
        &store,
        ComponentQueries::GetRustComponent,
        "cargo".to_string(),
        "1.80.0".to_string(),
    )
    .unwrap();
    assert_eq!(direct, dispatched);
}
