//! Artefact-kind decoding and the invalid-data failure, plus the store's
//! distinct-version check.

use rust_versions::models::{ArtefactType, QueryError};
use rust_versions::queries::{get_rust_version_artefacts, get_version_info};
use rust_versions::store::{check_versions_distinct, ArtefactRow, ReleaseRow, Store};

fn rel(version: &str, date: &str, stable: bool) -> ReleaseRow {
    ReleaseRow {
        version: version.to_string(),
        release_date: date.to_string(),
        latest_stable: stable,
        latest_beta: false,
        latest_nightly: false,
    }
}

fn arow(rust_version: &str, kind: i32) -> ArtefactRow {
    ArtefactRow {
        rust_version: rust_version.to_string(),
        kind,
        url: format!("u{}", kind),
        hash: format!("h{}", kind),
    }
}

#[test]
fn artefact_kind_decoding() {
    assert_eq!(ArtefactType::try_from(1).unwrap(), ArtefactType::InstallerMSI);
    assert_eq!(ArtefactType::try_from(2).unwrap(), ArtefactType::InstallerPkg);
    assert_eq!(ArtefactType::try_from(3).unwrap(), ArtefactType::SourceCode);
    assert!(ArtefactType::try_from(0).is_err());
    assert!(ArtefactType::try_from(4).is_err());
    assert!(ArtefactType::try_from(-1).is_err());
}

#[test]
fn artefact_kind_codes_round_trip() {
    for t in [
        ArtefactType::InstallerMSI,
        ArtefactType::InstallerPkg,
        ArtefactType::SourceCode,
    ] {
        assert_eq!(ArtefactType::try_from(t.code()).unwrap(), t);
    }
    assert_eq!(ArtefactType::InstallerMSI.code(), 1);
    assert_eq!(ArtefactType::InstallerPkg.code(), 2);
    assert_eq!(ArtefactType::SourceCode.code(), 3);
}

#[test]
fn artefact_scan_decodes_in_store_order() {
    let rows = vec![arow("1.80.0", 3), arow("1.81.0", 1), arow("1.80.0", 2)];
    let out = get_rust_version_artefacts(&rows, &"1.80.0".to_string()).unwrap();
    assert_eq!(out.len(), 2);
    assert_eq!(out[0].artefact_type, ArtefactType::SourceCode);
    assert_eq!(out[1].artefact_type, ArtefactType::InstallerPkg);
    assert_eq!(out[0].url, "u3");
    assert_eq!(out[1].hash, "h2");
}

#[test]
fn artefact_scan_rejects_unknown_kind() {
    let rows = vec![arow("1.80.0", 1), arow("1.80.0", 7)];
    let r = get_rust_version_artefacts(&rows, &"1.80.0".to_string());
    assert_eq!(r.unwrap_err(), QueryError::InvalidData);
}

#[test]
fn artefact_scan_ignores_bad_kinds_of_other_versions() {
    let rows = vec![arow("1.81.0", 9), arow("1.80.0", 1)];
    let out = get_rust_version_artefacts(&rows, &"1.80.0".to_string()).unwrap();
    assert_eq!(out.len(), 1);
    assert_eq!(out[0].artefact_type, ArtefactType::InstallerMSI);
}

#[test]
fn version_info_aborts_on_corrupt_artefact_kind() {
    let releases = vec![rel("1.80.0", "2024-07-25", true)];
    let artefacts = vec![arow("1.80.0", 1), arow("1.80.0", 0)];
    let store = Store::new(releases, Vec::new(), artefacts);
    let r = get_version_info(&store, Some("1.80.0".to_string()));
    assert_eq!(r.unwrap_err(), QueryError::InvalidData);
}

#[test]
fn distinct_version_check() {
    let distinct = vec![rel("1.80.0", "2024-07-25", true), rel("1.81.0", "2024-09-05", false)];
    assert!(check_versions_distinct(&distinct));
    let duplicated = vec![
        rel("1.80.0", "2024-07-25", true),
        rel("1.81.0", "2024-09-05", false),
        rel("1.80.0", "2024-01-01", false),
    ];
    assert!(!check_versions_distinct(&duplicated));
}
