//! End-to-end tests of the list pipeline over pod records.

use click::cell::SemanticColor;
use click::columns::{validate, ListOptions, Plan, PreSort, SortFunc};
use click::error::{CommandError, ConfigError, TransportError};
use click::pipeline::{list_or_fail, run_list, ListOutput};
use click::pods::{
    pod_base_columns, pod_extra_columns, pod_plan, ContainerState, ContainerStatus, Pod,
    PodSpecPart, PodStatusPart,
};
use click::records::{Label, Metadata};

fn meta(name: &str, created: Option<i64>) -> Metadata {
    Metadata {
        name: Some(name.to_string()),
        namespace: Some("default".to_string()),
        labels: Vec::new(),
        creation_timestamp: created,
        deletion_timestamp: None,
    }
}

fn running_pod(name: &str, created: i64) -> Pod {
    Pod {
        metadata: meta(name, Some(created)),
        spec: Some(PodSpecPart {
            containers: vec!["main".to_string()],
            node_name: Some("node-1".to_string()),
            readiness_gates: Vec::new(),
        }),
        status: Some(PodStatusPart {
            phase: Some("Running".to_string()),
            pod_ip: Some("10.0.0.1".to_string()),
            nominated_node_name: None,
            container_statuses: vec![ContainerStatus {
                ready: true,
                restart_count: 0,
                state: Some(ContainerState { waiting: false, running: true, terminated: false }),
            }],
        }),
    }
}

fn base_opts() -> ListOptions {
    ListOptions { show: Vec::new(), sort: None, labels: false, filter: None, reverse: false }
}

fn plan_for(opts: &ListOptions) -> Plan {
    match validate(opts, &pod_base_columns(), &pod_extra_columns()) {
        Ok(p) => p,
        Err(_) => panic!("expected a valid plan"),
    }
}

const NOW: i64 = 1_000_000;

#[test]
fn plain_listing_has_base_columns_and_fetch_order() {
    let pods: Vec<Pod> = (0..5).map(|i| running_pod(&format!("pod-{}", i), NOW - 60)).collect();
    let out: ListOutput = run_list(&pods, &plan_for(&base_opts()), NOW);
    assert_eq!(out.headers.len(), 5);
    assert_eq!(out.headers[0], "Name");
    assert_eq!(out.headers[1], "Ready");
    assert_eq!(out.headers[2], "Status");
    assert_eq!(out.headers[3], "Restarts");
    assert_eq!(out.headers[4], "Age");
    assert_eq!(out.rows.len(), 5);
    for (i, row) in out.rows.iter().enumerate() {
        assert_eq!(row.kobj.name, format!("pod-{}", i));
        assert_eq!(row.cells.len(), 5);
        assert_eq!(row.cells[0].value, format!("pod-{}", i));
    }
}

#[test]
fn base_cells_render_expected_values() {
    let pod = running_pod("web", NOW - 300);
    let out = run_list(&vec![pod], &plan_for(&base_opts()), NOW);
    let row = &out.rows[0];
    assert_eq!(row.cells[0].value, "web");
    assert_eq!(row.cells[1].value, "1/1");
    assert_eq!(row.cells[2].value, "Running");
    assert_eq!(row.cells[2].foreground, Some(SemanticColor::Success));
    assert_eq!(row.cells[3].value, "0");
    assert_eq!(row.cells[4].value, "5m");
}

#[test]
fn terminating_pod_status_is_danger() {
    let mut pod = running_pod("dying", NOW - 60);
    pod.metadata.deletion_timestamp = Some(NOW - 1);
    let out = run_list(&vec![pod], &plan_for(&base_opts()), NOW);
    assert_eq!(out.rows[0].cells[2].value, "Terminating");
    assert_eq!(out.rows[0].cells[2].foreground, Some(SemanticColor::Danger));
}

#[test]
fn waiting_container_shows_container_creating() {
    let mut pod = running_pod("starting", NOW - 10);
    pod.status.as_mut().unwrap().container_statuses[0].state =
        Some(ContainerState { waiting: true, running: false, terminated: false });
    let out = run_list(&vec![pod], &plan_for(&base_opts()), NOW);
    assert_eq!(out.rows[0].cells[2].value, "ContainerCreating");
    assert_eq!(out.rows[0].cells[2].foreground, Some(SemanticColor::Warn));
}

#[test]
fn missing_name_degrades_to_sentinel() {
    let mut pod = running_pod("x", NOW - 60);
    pod.metadata.name = None;
    let out = run_list(&vec![pod], &plan_for(&base_opts()), NOW);
    assert_eq!(out.rows[0].kobj.name, "<Unknown>");
    assert_eq!(out.rows[0].cells[0].value, "<Unknown>");
}

#[test]
fn filter_keeps_only_matching_names_in_order() {
    let pods = vec![
        running_pod("api-1", NOW - 60),
        running_pod("web-1", NOW - 60),
        running_pod("api-2", NOW - 60),
    ];
    let mut opts = base_opts();
    opts.filter = Some("api".to_string());
    let out = run_list(&pods, &plan_for(&opts), NOW);
    assert_eq!(out.rows.len(), 2);
    assert_eq!(out.rows[0].kobj.name, "api-1");
    assert_eq!(out.rows[1].kobj.name, "api-2");
}

#[test]
fn age_sort_orders_by_timestamp_not_rendered_text() {
    // Rendered ages "9m" and "10m" sort the wrong way as text; the age sort
    // must go by the raw timestamps: the 10m-old record is older and first.
    let pods = vec![running_pod("young", NOW - 9 * 60), running_pod("old", NOW - 10 * 60)];
    let mut opts = base_opts();
    opts.sort = Some("age".to_string());
    let out = run_list(&pods, &plan_for(&opts), NOW);
    assert_eq!(out.rows[0].kobj.name, "old");
    assert_eq!(out.rows[0].cells[4].value, "10m");
    assert_eq!(out.rows[1].kobj.name, "young");
    assert_eq!(out.rows[1].cells[4].value, "9m");
}

#[test]
fn age_sort_example_two_records() {
    // Raw collection [{b, 5m}, {a, 10m}] with the age sort: oldest first
    // gives [a, b]; reversed gives [b, a].
    let pods = vec![running_pod("b", NOW - 5 * 60), running_pod("a", NOW - 10 * 60)];
    let mut opts = base_opts();
    opts.sort = Some("age".to_string());
    let out = run_list(&pods, &plan_for(&opts), NOW);
    assert_eq!(out.rows[0].kobj.name, "a");
    assert_eq!(out.rows[1].kobj.name, "b");
    opts.reverse = true;
    let rev = run_list(&pods, &plan_for(&opts), NOW);
    assert_eq!(rev.rows[0].kobj.name, "b");
    assert_eq!(rev.rows[1].kobj.name, "a");
}

#[test]
fn records_without_timestamp_sort_last() {
    let mut late = running_pod("stampless", NOW - 60);
    late.metadata.creation_timestamp = None;
    let pods = vec![late, running_pod("stamped", NOW - 30)];
    let mut opts = base_opts();
    opts.sort = Some("age".to_string());
    let out = run_list(&pods, &plan_for(&opts), NOW);
    assert_eq!(out.rows[0].kobj.name, "stamped");
    assert_eq!(out.rows[1].kobj.name, "stampless");
}

#[test]
fn name_sort_is_lexicographic_with_stable_ties() {
    let pods = vec![
        running_pod("b", NOW - 60),
        running_pod("a", NOW - 60),
        running_pod("a", NOW - 120),
        running_pod("c", NOW - 60),
    ];
    let mut opts = base_opts();
    opts.sort = Some("name".to_string());
    let out = run_list(&pods, &plan_for(&opts), NOW);
    let names: Vec<&str> = out.rows.iter().map(|r| r.kobj.name.as_str()).collect();
    assert_eq!(names, vec!["a", "a", "b", "c"]);
    // The equal names keep fetch order: the 1m-old record came first.
    assert_eq!(out.rows[0].cells[4].value, "1m");
    assert_eq!(out.rows[1].cells[4].value, "2m");
}

#[test]
fn stable_sort_keeps_fetch_order_for_ties() {
    let pods = vec![
        running_pod("dup", NOW - 100),
        running_pod("abc", NOW - 60),
        running_pod("dup", NOW - 200),
    ];
    let mut opts = base_opts();
    opts.sort = Some("name".to_string());
    let out = run_list(&pods, &plan_for(&opts), NOW);
    assert_eq!(out.rows[0].kobj.name, "abc");
    // The two equal names keep fetch order: 100s-old first, then 200s-old.
    assert_eq!(out.rows[1].cells[4].value, "1m");
    assert_eq!(out.rows[2].cells[4].value, "3m");
    // Reverse inverts the whole ordering, ties included.
    opts.reverse = true;
    let rev = run_list(&pods, &plan_for(&opts), NOW);
    assert_eq!(rev.rows[0].cells[4].value, "3m");
    assert_eq!(rev.rows[1].cells[4].value, "1m");
    assert_eq!(rev.rows[2].kobj.name, "abc");
}

#[test]
fn show_flags_add_extra_columns_in_descriptor_order() {
    let mut opts = base_opts();
    opts.show = vec!["node".to_string(), "ip".to_string()];
    let out = run_list(&vec![running_pod("web", NOW - 60)], &plan_for(&opts), NOW);
    // Descriptor order puts IP before Node regardless of request order.
    assert_eq!(out.headers.len(), 7);
    assert_eq!(out.headers[5], "IP");
    assert_eq!(out.headers[6], "Node");
    assert_eq!(out.rows[0].cells[5].value, "10.0.0.1");
    assert_eq!(out.rows[0].cells[6].value, "node-1");
}

#[test]
fn sorting_by_hidden_column_forces_it_visible() {
    let mut opts = base_opts();
    opts.sort = Some("ip".to_string());
    let plan = plan_for(&opts);
    assert!(plan.columns.iter().any(|c| c == "IP"));
    assert!(matches!(plan.sort, Some(SortFunc::Post(ref d)) if d == "IP"));
}

#[test]
fn age_sort_resolves_to_pre_extraction() {
    let mut opts = base_opts();
    opts.sort = Some("age".to_string());
    let plan = plan_for(&opts);
    assert!(matches!(plan.sort, Some(SortFunc::Pre(PreSort::Age))));
}

#[test]
fn unknown_sort_column_is_config_error() {
    let mut opts = base_opts();
    opts.sort = Some("bogus".to_string());
    match validate(&opts, &pod_base_columns(), &pod_extra_columns()) {
        Err(ConfigError::UnknownColumn { name }) => {
            assert_eq!(name, "bogus");
            let e = ConfigError::UnknownColumn { name };
            assert_eq!(e.message(), "unknown column 'bogus'");
        }
        _ => panic!("expected an unknown-column error"),
    }
}

#[test]
fn unknown_show_flag_is_config_error() {
    let mut opts = base_opts();
    opts.show = vec!["ip".to_string(), "bogus".to_string()];
    match validate(&opts, &pod_base_columns(), &pod_extra_columns()) {
        Err(ConfigError::UnknownColumn { name }) => assert_eq!(name, "bogus"),
        _ => panic!("expected an unknown-column error"),
    }
}

#[test]
fn namespace_column_dropped_inside_namespace_unless_asked() {
    let mut opts = base_opts();
    opts.show = vec!["namespace".to_string()];
    let with = match pod_plan(&opts, &pod_base_columns(), &pod_extra_columns(), true) {
        Ok(p) => p,
        Err(_) => panic!("expected a valid plan"),
    };
    assert!(with.columns.iter().any(|c| c == "Namespace"));
    let mut opts2 = base_opts();
    opts2.sort = Some("namespace".to_string());
    let without = match pod_plan(&opts2, &pod_base_columns(), &pod_extra_columns(), true) {
        Ok(p) => p,
        Err(_) => panic!("expected a valid plan"),
    };
    assert!(!without.columns.iter().any(|c| c == "Namespace"));
}

#[test]
fn labels_switch_and_extractor_render_pairs() {
    let mut pod = running_pod("tagged", NOW - 60);
    pod.metadata.labels = vec![
        Label { key: "app".to_string(), value: "web".to_string() },
        Label { key: "tier".to_string(), value: "front".to_string() },
    ];
    let mut opts = base_opts();
    opts.labels = true;
    let out = run_list(&vec![pod], &plan_for(&opts), NOW);
    assert_eq!(out.headers[5], "Labels");
    assert_eq!(out.rows[0].cells[5].value, "app=web, tier=front");
}

#[test]
fn nominated_node_defaults_to_none_marker() {
    let mut opts = base_opts();
    opts.show = vec!["nominatednode".to_string()];
    let out = run_list(&vec![running_pod("web", NOW - 60)], &plan_for(&opts), NOW);
    assert_eq!(out.rows[0].cells[5].value, "<none>");
}

#[test]
fn missing_status_degrades_to_placeholder_cells() {
    let mut pod = running_pod("empty", NOW - 60);
    pod.status = None;
    let out = run_list(&vec![pod], &plan_for(&base_opts()), NOW);
    // Ready and Restarts have no value without a status; Status still renders.
    assert_eq!(out.rows[0].cells[1].value, "");
    assert_eq!(out.rows[0].cells[2].value, "Unknown");
    assert_eq!(out.rows[0].cells[3].value, "");
}

#[test]
fn restart_counts_sum_over_containers() {
    let mut pod = running_pod("crashy", NOW - 60);
    pod.status.as_mut().unwrap().container_statuses = vec![
        ContainerStatus { ready: true, restart_count: 3, state: None },
        ContainerStatus { ready: false, restart_count: 4, state: None },
    ];
    let out = run_list(&vec![pod], &plan_for(&base_opts()), NOW);
    assert_eq!(out.rows[0].cells[1].value, "1/2");
    assert_eq!(out.rows[0].cells[3].value, "7");
}

#[test]
fn transport_error_propagates_without_a_table() {
    let fetch: Result<Vec<Pod>, TransportError> =
        Err(TransportError { message: "connection refused".to_string() });
    match list_or_fail(fetch, &plan_for(&base_opts()), NOW) {
        Err(CommandError::Transport(t)) => assert_eq!(t.message, "connection refused"),
        _ => panic!("expected the transport error back"),
    }
}

#[test]
fn age_rendering_uses_largest_fitting_unit() {
    let pods = vec![
        running_pod("s", NOW - 59),
        running_pod("m", NOW - 60),
        running_pod("h", NOW - 3600),
        running_pod("d", NOW - 2 * 86400),
    ];
    let out = run_list(&pods, &plan_for(&base_opts()), NOW);
    assert_eq!(out.rows[0].cells[4].value, "59s");
    assert_eq!(out.rows[1].cells[4].value, "1m");
    assert_eq!(out.rows[2].cells[4].value, "1h");
    assert_eq!(out.rows[3].cells[4].value, "2d");
}

#[test]
fn phase_style_str_maps_statuses() {
    assert_eq!(click::pods::phase_style_str("Running"), "Fg");
    assert_eq!(click::pods::phase_style_str("Pending"), "Fg");
    assert_eq!(click::pods::phase_style_str("ContainerCreating"), "Fy");
    assert_eq!(click::pods::phase_style_str("Succeeded"), "Fb");
    assert_eq!(click::pods::phase_style_str("Failed"), "Fr");
    assert_eq!(click::pods::phase_style_str("Terminating"), "Fr");
    assert_eq!(click::pods::phase_style_str("anything-else"), "Fr");
}
