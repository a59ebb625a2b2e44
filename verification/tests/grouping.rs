//! The inventory builder: grouping, exclusion and duplicate rejection.

use milvue_rs::inventory::ScannedFile;
use milvue_rs::inventory::inventory_from_scans;

fn keyed(path: &str, study: &str, instance: &str) -> ScannedFile {
    ScannedFile {
        path: String::from(path),
        study_key: Some(String::from(study)),
        instance_key: Some(String::from(instance)),
    }
}

fn unreadable(path: &str) -> ScannedFile {
    ScannedFile { path: String::from(path), study_key: None, instance_key: None }
}

#[test]
fn two_files_one_study_ordered() {
    let files = vec![keyed("f1.dcm", "1.2.3", "a"), keyed("f2.dcm", "1.2.3", "b")];
    let inv = inventory_from_scans(&files).unwrap();
    assert_eq!(inv.len(), 1);
    assert_eq!(inv[0].study_key, "1.2.3");
    assert_eq!(inv[0].entries.len(), 2);
    assert_eq!(inv[0].entries[0].instance_key, "a");
    assert_eq!(inv[0].entries[0].path, "f1.dcm");
    assert_eq!(inv[0].entries[1].instance_key, "b");
    assert_eq!(inv[0].entries[1].path, "f2.dcm");
}

#[test]
fn same_study_key_same_study_different_keys_different_studies() {
    let files = vec![
        keyed("f1", "s1", "a"),
        keyed("f2", "s2", "b"),
        keyed("f3", "s1", "c"),
    ];
    let inv = inventory_from_scans(&files).unwrap();
    assert_eq!(inv.len(), 2);
    assert_eq!(inv[0].study_key, "s1");
    assert_eq!(inv[0].entries.len(), 2);
    assert_eq!(inv[0].entries[0].instance_key, "a");
    assert_eq!(inv[0].entries[1].instance_key, "c");
    assert_eq!(inv[1].study_key, "s2");
    assert_eq!(inv[1].entries.len(), 1);
}

#[test]
fn missing_keys_are_excluded_without_failing() {
    let files = vec![
        unreadable("broken.bin"),
        keyed("good.dcm", "s", "i"),
        ScannedFile {
            path: String::from("half.dcm"),
            study_key: None,
            instance_key: Some(String::from("x")),
        },
    ];
    let inv = inventory_from_scans(&files).unwrap();
    assert_eq!(inv.len(), 1);
    assert_eq!(inv[0].entries.len(), 1);
    assert_eq!(inv[0].entries[0].path, "good.dcm");
}

#[test]
fn no_valid_file_means_no_inventory() {
    let files = vec![unreadable("a"), unreadable("b")];
    assert!(inventory_from_scans(&files).is_none());
    let none: Vec<ScannedFile> = vec![];
    assert!(inventory_from_scans(&none).is_none());
}

#[test]
fn service_results_are_skipped() {
    let files = vec![
        keyed("r.dcm", "s", "1.2.826.0.1.3680043.10.457.42"),
        keyed("orig.dcm", "s", "1.9.9"),
    ];
    let inv = inventory_from_scans(&files).unwrap();
    assert_eq!(inv.len(), 1);
    assert_eq!(inv[0].entries.len(), 1);
    assert_eq!(inv[0].entries[0].instance_key, "1.9.9");
}

#[test]
fn only_service_results_means_no_inventory() {
    let files = vec![keyed("r.dcm", "s", "1.2.826.0.1.3680043.10.457.42")];
    assert!(inventory_from_scans(&files).is_none());
}

#[test]
fn duplicate_pair_keeps_the_first_file() {
    let files = vec![
        keyed("first.dcm", "s", "i"),
        keyed("second.dcm", "s", "i"),
        keyed("other.dcm", "s", "j"),
    ];
    let inv = inventory_from_scans(&files).unwrap();
    assert_eq!(inv.len(), 1);
    assert_eq!(inv[0].entries.len(), 2);
    assert_eq!(inv[0].entries[0].instance_key, "i");
    assert_eq!(inv[0].entries[0].path, "first.dcm");
    assert_eq!(inv[0].entries[1].instance_key, "j");
}

#[test]
fn same_instance_key_in_two_studies_is_kept_in_both() {
    let files = vec![keyed("f1", "s1", "i"), keyed("f2", "s2", "i")];
    let inv = inventory_from_scans(&files).unwrap();
    assert_eq!(inv.len(), 2);
    assert_eq!(inv[0].entries.len(), 1);
    assert_eq!(inv[1].entries.len(), 1);
}
