//! Tests of the persistent-volume kind and of selection adoption from a
//! listing.

use click::columns::{validate, ListOptions};
use click::env::{Env, Selection};
use click::pipeline::run_list;
use click::records::Metadata;
use click::volumes::{
    volume_base_columns, volume_extra_columns, ClaimRef, PersistentVolume, PvSpecPart,
    PvStatusPart,
};

fn pv_meta(name: &str, created: i64) -> Metadata {
    Metadata {
        name: Some(name.to_string()),
        namespace: None,
        labels: Vec::new(),
        creation_timestamp: Some(created),
        deletion_timestamp: None,
    }
}

fn volume(name: &str, created: i64) -> PersistentVolume {
    PersistentVolume {
        metadata: pv_meta(name, created),
        spec: Some(PvSpecPart {
            capacity_storage: Some("10Gi".to_string()),
            access_modes: vec!["ReadWriteOnce".to_string(), "ReadOnlyMany".to_string()],
            persistent_volume_reclaim_policy: Some("Retain".to_string()),
            volume_mode: Some("Filesystem".to_string()),
            claim_ref: Some(ClaimRef {
                namespace: Some("apps".to_string()),
                name: Some("data".to_string()),
            }),
            storage_class_name: Some("fast".to_string()),
        }),
        status: Some(PvStatusPart { phase: Some("Bound".to_string()), reason: None }),
    }
}

fn pv_opts() -> ListOptions {
    ListOptions { show: Vec::new(), sort: None, labels: false, filter: None, reverse: false }
}

const NOW: i64 = 2_000_000;

#[test]
fn volume_listing_renders_all_base_cells() {
    let plan = match validate(&pv_opts(), &volume_base_columns(), &volume_extra_columns()) {
        Ok(p) => p,
        Err(_) => panic!("expected a valid plan"),
    };
    let out = run_list(&vec![volume("vol-1", NOW - 7200)], &plan, NOW);
    assert_eq!(out.headers.len(), 9);
    let row = &out.rows[0];
    assert_eq!(row.cells[0].value, "vol-1");
    assert_eq!(row.cells[1].value, "2h");
    assert_eq!(row.cells[2].value, "10Gi");
    assert_eq!(row.cells[3].value, "RWO, ROX");
    assert_eq!(row.cells[4].value, "Retain");
    assert_eq!(row.cells[5].value, "Bound");
    assert_eq!(row.cells[6].value, "apps/data");
    assert_eq!(row.cells[7].value, "fast");
    assert_eq!(row.cells[8].value, "");
}

#[test]
fn unknown_access_mode_renders_unknown() {
    let mut v = volume("vol-1", NOW - 60);
    v.spec.as_mut().unwrap().access_modes = vec!["SomethingNew".to_string()];
    let plan = match validate(&pv_opts(), &volume_base_columns(), &volume_extra_columns()) {
        Ok(p) => p,
        Err(_) => panic!("expected a valid plan"),
    };
    let out = run_list(&vec![v], &plan, NOW);
    assert_eq!(out.rows[0].cells[3].value, "Unknown");
}

#[test]
fn volume_without_claim_renders_empty_claim() {
    let mut v = volume("vol-1", NOW - 60);
    v.spec.as_mut().unwrap().claim_ref = None;
    let plan = match validate(&pv_opts(), &volume_base_columns(), &volume_extra_columns()) {
        Ok(p) => p,
        Err(_) => panic!("expected a valid plan"),
    };
    let out = run_list(&vec![v], &plan, NOW);
    assert_eq!(out.rows[0].cells[6].value, "");
}

#[test]
fn labels_column_has_no_extractor_and_renders_placeholders() {
    let mut opts = pv_opts();
    opts.show = vec!["labels".to_string()];
    let plan = match validate(&opts, &volume_base_columns(), &volume_extra_columns()) {
        Ok(p) => p,
        Err(_) => panic!("expected a valid plan"),
    };
    let out = run_list(&vec![volume("vol-1", NOW - 60)], &plan, NOW);
    assert_eq!(out.headers[9], "Labels");
    assert_eq!(out.rows[0].cells[9].value, "");
}

#[test]
fn volume_mode_extra_column_shows_on_request() {
    let mut opts = pv_opts();
    opts.show = vec!["volumemode".to_string()];
    let plan = match validate(&opts, &volume_base_columns(), &volume_extra_columns()) {
        Ok(p) => p,
        Err(_) => panic!("expected a valid plan"),
    };
    let out = run_list(&vec![volume("vol-1", NOW - 60)], &plan, NOW);
    assert_eq!(out.headers[9], "Volume Mode");
    assert_eq!(out.rows[0].cells[9].value, "Filesystem");
}

#[test]
fn post_sort_by_capacity_compares_rendered_text() {
    let mut small = volume("small", NOW - 60);
    small.spec.as_mut().unwrap().capacity_storage = Some("1Gi".to_string());
    let mut big = volume("big", NOW - 60);
    big.spec.as_mut().unwrap().capacity_storage = Some("5Gi".to_string());
    let mut opts = pv_opts();
    opts.sort = Some("capacity".to_string());
    let plan = match validate(&opts, &volume_base_columns(), &volume_extra_columns()) {
        Ok(p) => p,
        Err(_) => panic!("expected a valid plan"),
    };
    let out = run_list(&vec![big, small], &plan, NOW);
    assert_eq!(out.rows[0].kobj.name, "small");
    assert_eq!(out.rows[1].kobj.name, "big");
}

#[test]
fn listing_adoption_replaces_selection_in_emitted_order() {
    let plan = match validate(&pv_opts(), &volume_base_columns(), &volume_extra_columns()) {
        Ok(p) => p,
        Err(_) => panic!("expected a valid plan"),
    };
    let out = run_list(&vec![volume("x", NOW - 60), volume("y", NOW - 120)], &plan, NOW);
    let mut env = Env::new();
    env.adopt_list(&out);
    match &env.selection {
        Selection::Many(ks) => {
            assert_eq!(ks.len(), 2);
            assert_eq!(ks[0].name, "x");
            assert_eq!(ks[1].name, "y");
        }
        _ => panic!("expected a many selection"),
    }
}
