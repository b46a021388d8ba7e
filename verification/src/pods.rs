//! The pod resource kind: the record model, its column extractors, and its
//! descriptor lists.

use vstd::prelude::*;
use crate::cell::Cell;
use crate::cell::CellV;
use crate::cell::SemanticColor;
use crate::columns::Column;
use crate::columns::ListOptions;
use crate::columns::Plan;
use crate::columns::spec_effective_columns;
use crate::columns::spec_first_unknown;
use crate::columns::spec_remove_col;
use crate::columns::spec_resolve_sort;
use crate::columns::validate;
use crate::columns::remove_column;
use crate::columns::view_opt_str;
use crate::error::ConfigError;
use crate::kobj::KObj;
use crate::kobj::KObjV;
use crate::kobj::ObjType;
use crate::kobj::ObjTypeV;
use crate::kobj::dup_string_vec;
use crate::pipeline::Resource;
use crate::pipeline::view_opt_cell;
use crate::records::Metadata;
use crate::records::keyval_string;
use crate::records::spec_keyval;
use crate::text::join_strings;
use crate::text::spec_dec;
use crate::text::spec_join;
use crate::text::str_eq;
use crate::text::u64_to_dec;
use crate::text::vstrs;

verus! {

/// Which of the three container-state slots a container status reports; when
/// none is set the container counts as waiting.
pub struct ContainerState {
    pub waiting: bool,
    pub running: bool,
    pub terminated: bool,
}

/// One container's status inside a pod's status.
pub struct ContainerStatus {
    pub ready: bool,
    pub restart_count: u32,
    pub state: Option<ContainerState>,
}

/// The part of a pod's spec the engine reads.
pub struct PodSpecPart {
    /// The names of the pod's containers.
    pub containers: Vec<String>,
    pub node_name: Option<String>,
    /// The condition types of the pod's readiness gates.
    pub readiness_gates: Vec<String>,
}

/// The part of a pod's status the engine reads.
pub struct PodStatusPart {
    pub phase: Option<String>,
    pub pod_ip: Option<String>,
    pub nominated_node_name: Option<String>,
    pub container_statuses: Vec<ContainerStatus>,
}

/// One raw pod record, reduced to the plain values the engine reads.
pub struct Pod {
    pub metadata: Metadata,
    pub spec: Option<PodSpecPart>,
    pub status: Option<PodStatusPart>,
}

/// The container names of a pod, or empty without a spec.
pub open spec fn spec_pod_containers(p: Pod) -> Seq<Seq<char>> {
    match p.spec {
        Some(sp) => sp.containers@.map_values(|s: String| s@),
        None => Seq::empty(),
    }
}

/// The identity a pod record maps to: its name (or the sentinel when the
/// record lacks one), its namespace, and the pod kind tag with the container
/// names.
pub open spec fn spec_pod_kobj(p: Pod) -> KObjV {
    KObjV {
        name: match p.metadata.name {
            Some(n) => n@,
            None => "<Unknown>"@,
        },
        namespace: match p.metadata.namespace {
            Some(ns) => Some(ns@),
            None => None,
        },
        typ: ObjTypeV::Pod { containers: spec_pod_containers(p) },
    }
}

/// Maps one pod record to its identity handle.
pub fn pod_to_kobj(pod: &Pod) -> (k: KObj)
    ensures
        k@ == spec_pod_kobj(*pod),
{
    let containers: Vec<String> = match &pod.spec {
        Some(sp) => dup_string_vec(&sp.containers),
        None => Vec::new(),
    };
    let name: String = match &pod.metadata.name {
        Some(n) => n.clone(),
        None => String::from_str("<Unknown>"),
    };
    let namespace: Option<String> = match &pod.metadata.namespace {
        Some(ns) => Some(ns.clone()),
        None => None,
    };
    let k = KObj { name, namespace, typ: ObjType::Pod { containers } };
    proof {
        assert(k@.typ->Pod_containers =~= spec_pod_containers(*pod));
        assert(k@ =~~= spec_pod_kobj(*pod));
    }
    k
}

/// Does one container status report a waiting container? An explicit waiting
/// slot counts, and so does a state with no slot set at all.
pub open spec fn spec_cs_waiting(cs: ContainerStatus) -> bool {
    match cs.state {
        Some(st) => st.waiting || (!st.running && !st.terminated),
        None => false,
    }
}

/// Does the pod report some waiting container?
pub open spec fn spec_has_waiting(p: Pod) -> bool {
    match p.status {
        Some(st) => exists|i: int|
            0 <= i < st.container_statuses@.len() && spec_cs_waiting(
                #[trigger] st.container_statuses@[i],
            ),
        None => false,
    }
}

/// Checks whether the pod has a waiting container.
pub fn has_waiting(pod: &Pod) -> (r: bool)
    ensures
        r == spec_has_waiting(*pod),
{
    match &pod.status {
        Some(st) => {
            proof {
                assert(*st == pod.status->0);
            }
            let mut i: usize = 0;
            while i < st.container_statuses.len()
                invariant
                    pod.status is Some,
                    *st == pod.status->0,
                    i <= st.container_statuses@.len(),
                    forall|k: int|
                        0 <= k < i ==> !spec_cs_waiting(#[trigger] st.container_statuses@[k]),
                decreases st.container_statuses@.len() - i,
            {
                let waiting = match &st.container_statuses[i].state {
                    Some(state) => state.waiting || (!state.running && !state.terminated),
                    None => false,
                };
                if waiting {
                    proof {
                        assert(spec_cs_waiting(pod.status->0.container_statuses@[i as int]));
                    }
                    return true;
                }
                i = i + 1;
            }
            false
        },
        None => false,
    }
}

/// The style code a status text maps to, as the table layer understands it.
pub open spec fn spec_phase_style(s: Seq<char>) -> Seq<char> {
    if s == "Pending"@ || s == "Running"@ || s == "Active"@ {
        "Fg"@
    } else if s == "ContainerCreating"@ {
        "Fy"@
    } else if s == "Succeeded"@ {
        "Fb"@
    } else {
        "Fr"@
    }
}

/// Maps a status text to its style code.
pub fn phase_style_str(phase: &str) -> (r: &'static str)
    ensures
        r@ == spec_phase_style(phase@),
{
    if str_eq(phase, "Pending") || str_eq(phase, "Running") || str_eq(phase, "Active") {
        "Fg"
    } else if str_eq(phase, "ContainerCreating") {
        "Fy"
    } else if str_eq(phase, "Succeeded") {
        "Fb"
    } else {
        "Fr"
    }
}

/// The semantic color behind a style code.
pub open spec fn spec_style_color(s: Seq<char>) -> SemanticColor {
    if s == "Fg"@ {
        SemanticColor::Success
    } else if s == "Fy"@ {
        SemanticColor::Warn
    } else if s == "Fb"@ {
        SemanticColor::Info
    } else if s == "Fr"@ {
        SemanticColor::Danger
    } else {
        SemanticColor::Plain
    }
}

/// Maps a style code to its semantic color.
pub fn style_color(style: &str) -> (c: SemanticColor)
    ensures
        c == spec_style_color(style@),
{
    if str_eq(style, "Fg") {
        SemanticColor::Success
    } else if str_eq(style, "Fy") {
        SemanticColor::Warn
    } else if str_eq(style, "Fb") {
        SemanticColor::Info
    } else if str_eq(style, "Fr") {
        SemanticColor::Danger
    } else {
        SemanticColor::Plain
    }
}

/// What the pod IP extractor yields.
pub open spec fn spec_pod_ip(p: Pod) -> Option<CellV> {
    match p.status {
        Some(st) => match st.pod_ip {
            Some(ip) => Some(CellV::plain_of(ip@)),
            None => None,
        },
        None => None,
    }
}

/// Extracts the pod's IP address.
pub fn pod_ip(pod: &Pod) -> (c: Option<Cell>)
    ensures
        view_opt_cell(c) == spec_pod_ip(*pod),
{
    match &pod.status {
        Some(st) => match &st.pod_ip {
            Some(ip) => Some(Cell::plain(ip.clone())),
            None => None,
        },
        None => None,
    }
}

/// What the labels extractor yields: always a cell, empty list included.
pub open spec fn spec_pod_labels(p: Pod) -> Option<CellV> {
    Some(CellV::plain_of(spec_keyval(p.metadata.labels@)))
}

/// Extracts the pod's labels as `key=value` pairs.
pub fn pod_labels(pod: &Pod) -> (c: Option<Cell>)
    ensures
        view_opt_cell(c) == spec_pod_labels(*pod),
{
    Some(Cell::plain(keyval_string(&pod.metadata.labels)))
}

/// What the namespace extractor yields.
pub open spec fn spec_pod_namespace(p: Pod) -> Option<CellV> {
    match p.metadata.namespace {
        Some(ns) => Some(CellV::plain_of(ns@)),
        None => None,
    }
}

/// Extracts the pod's namespace.
pub fn pod_namespace(pod: &Pod) -> (c: Option<Cell>)
    ensures
        view_opt_cell(c) == spec_pod_namespace(*pod),
{
    match &pod.metadata.namespace {
        Some(ns) => Some(Cell::plain(ns.clone())),
        None => None,
    }
}

/// What the node extractor yields.
pub open spec fn spec_pod_node(p: Pod) -> Option<CellV> {
    match p.spec {
        Some(sp) => match sp.node_name {
            Some(n) => Some(CellV::plain_of(n@)),
            None => None,
        },
        None => None,
    }
}

/// Extracts the node the pod runs on.
pub fn pod_node(pod: &Pod) -> (c: Option<Cell>)
    ensures
        view_opt_cell(c) == spec_pod_node(*pod),
{
    match &pod.spec {
        Some(sp) => match &sp.node_name {
            Some(n) => Some(Cell::plain(n.clone())),
            None => None,
        },
        None => None,
    }
}

/// What the nominated-node extractor yields: with a status present it always
/// has a value, `<none>` when no node is nominated.
pub open spec fn spec_pod_nominated_node(p: Pod) -> Option<CellV> {
    match p.status {
        Some(st) => match st.nominated_node_name {
            Some(n) => Some(CellV::plain_of(n@)),
            None => Some(CellV::plain_of("<none>"@)),
        },
        None => None,
    }
}

/// Extracts the pod's nominated node.
pub fn pod_nominated_node(pod: &Pod) -> (c: Option<Cell>)
    ensures
        view_opt_cell(c) == spec_pod_nominated_node(*pod),
{
    match &pod.status {
        Some(st) => match &st.nominated_node_name {
            Some(n) => Some(Cell::plain(n.clone())),
            None => Some(Cell::plain(String::from_str("<none>"))),
        },
        None => None,
    }
}

/// How many of the container statuses report ready.
pub open spec fn spec_ready_count(ss: Seq<ContainerStatus>) -> int
    decreases ss.len(),
{
    if ss.len() == 0 {
        0
    } else {
        spec_ready_count(ss.drop_last()) + if ss.last().ready {
            1int
        } else {
            0int
        }
    }
}

/// What the ready extractor yields: `ready/total` over the container
/// statuses, when a status is present at all.
pub open spec fn spec_ready_counts(p: Pod) -> Option<CellV> {
    match p.status {
        Some(st) => Some(
            CellV::plain_of(
                spec_dec(spec_ready_count(st.container_statuses@) as nat) + "/"@ + spec_dec(
                    st.container_statuses@.len(),
                ),
            ),
        ),
        None => None,
    }
}

/// The ready count never exceeds the number of statuses.
proof fn lemma_ready_count_bounds(ss: Seq<ContainerStatus>)
    ensures
        0 <= spec_ready_count(ss) <= ss.len(),
    decreases ss.len(),
{
    if ss.len() == 0 {
    } else {
        lemma_ready_count_bounds(ss.drop_last());
    }
}

/// Extracts the pod's ready and total container counts as `ready/total`.
pub fn ready_counts(pod: &Pod) -> (c: Option<Cell>)
    ensures
        view_opt_cell(c) == spec_ready_counts(*pod),
{
    match &pod.status {
        Some(st) => {
            let mut ready: u64 = 0;
            let mut i: usize = 0;
            while i < st.container_statuses.len()
                invariant
                    i <= st.container_statuses@.len(),
                    ready == spec_ready_count(st.container_statuses@.take(i as int)),
                    0 <= ready <= i,
                decreases st.container_statuses@.len() - i,
            {
                proof {
                    assert(st.container_statuses@.take(i + 1).drop_last() =~= st
                        .container_statuses@.take(i as int));
                }
                if st.container_statuses[i].ready {
                    ready = ready + 1;
                }
                i = i + 1;
            }
            proof {
                assert(st.container_statuses@.take(st.container_statuses@.len() as int) =~= st
                    .container_statuses@);
            }
            let mut s = u64_to_dec(ready);
            s.append("/");
            let total = u64_to_dec(st.container_statuses.len() as u64);
            s.append(total.as_str());
            Some(Cell::plain(s))
        },
        None => None,
    }
}

/// What the readiness-gates extractor yields: the condition types joined
/// with `, `, or `<none>` when the spec lists none.
pub open spec fn spec_pod_readiness_gates(p: Pod) -> Option<CellV> {
    match p.spec {
        Some(sp) => if sp.readiness_gates@.len() == 0 {
            Some(CellV::plain_of("<none>"@))
        } else {
            Some(
                CellV::plain_of(
                    spec_join(sp.readiness_gates@.map_values(|s: String| s@), ", "@),
                ),
            )
        },
        None => None,
    }
}

/// Extracts the pod's readiness gates.
pub fn pod_readiness_gates(pod: &Pod) -> (c: Option<Cell>)
    ensures
        view_opt_cell(c) == spec_pod_readiness_gates(*pod),
{
    match &pod.spec {
        Some(sp) => {
            if sp.readiness_gates.len() == 0 {
                Some(Cell::plain(String::from_str("<none>")))
            } else {
                Some(Cell::plain(join_strings(&sp.readiness_gates, ", ")))
            }
        },
        None => None,
    }
}

/// The total restart count over the container statuses.
pub open spec fn spec_restart_sum(ss: Seq<ContainerStatus>) -> int
    decreases ss.len(),
{
    if ss.len() == 0 {
        0
    } else {
        spec_restart_sum(ss.drop_last()) + ss.last().restart_count
    }
}

/// A prefix never sums to more than the whole, and sums are non-negative.
proof fn lemma_restart_sum_take(ss: Seq<ContainerStatus>, i: int)
    requires
        0 <= i <= ss.len(),
    ensures
        0 <= spec_restart_sum(ss.take(i)) <= spec_restart_sum(ss),
    decreases ss.len() - i,
{
    if i == ss.len() {
        assert(ss.take(i) =~= ss);
        lemma_restart_sum_nonneg(ss);
    } else {
        lemma_restart_sum_take(ss, i + 1);
        lemma_restart_sum_nonneg(ss.take(i));
        assert(ss.take(i + 1).drop_last() =~= ss.take(i));
        assert(ss.take(i + 1).last() == ss[i]);
        assert(spec_restart_sum(ss.take(i)) <= spec_restart_sum(ss.take(i + 1)));
    }
}

/// Restart sums are non-negative.
proof fn lemma_restart_sum_nonneg(ss: Seq<ContainerStatus>)
    ensures
        spec_restart_sum(ss) >= 0,
    decreases ss.len(),
{
    if ss.len() == 0 {
    } else {
        lemma_restart_sum_nonneg(ss.drop_last());
    }
}

/// Does the machine bound on the restart sum hold? True of every record a
/// real transport can deliver; the sum of the restart counts must fit the
/// counter it is accumulated in.
pub open spec fn spec_pod_wf(p: Pod) -> bool {
    match p.status {
        Some(st) => spec_restart_sum(st.container_statuses@) <= u64::MAX,
        None => true,
    }
}

/// Decides the machine bound, so that a caller holding arbitrary records can
/// establish what the listing functions require of them.
pub fn pod_wf(pod: &Pod) -> (r: bool)
    ensures
        r == spec_pod_wf(*pod),
{
    match &pod.status {
        Some(st) => {
            let mut sum: u64 = 0;
            let mut i: usize = 0;
            while i < st.container_statuses.len()
                invariant
                    pod.status is Some,
                    *st == pod.status->0,
                    i <= st.container_statuses@.len(),
                    sum == spec_restart_sum(st.container_statuses@.take(i as int)),
                decreases st.container_statuses@.len() - i,
            {
                proof {
                    assert(st.container_statuses@.take(i + 1).drop_last() =~= st
                        .container_statuses@.take(i as int));
                    assert(st.container_statuses@.take(i + 1).last() == st
                        .container_statuses@[i as int]);
                }
                let c: u64 = st.container_statuses[i].restart_count as u64;
                if c > u64::MAX - sum {
                    proof {
                        lemma_restart_sum_take(st.container_statuses@, i + 1);
                    }
                    return false;
                }
                sum = sum + c;
                i = i + 1;
            }
            proof {
                assert(st.container_statuses@.take(st.container_statuses@.len() as int) =~= st
                    .container_statuses@);
            }
            true
        },
        None => true,
    }
}

/// What the restarts extractor yields: the summed restart count, when a
/// status is present.
pub open spec fn spec_restart_count(p: Pod) -> Option<CellV> {
    match p.status {
        Some(st) => Some(CellV::plain_of(spec_dec(spec_restart_sum(st.container_statuses@) as nat))),
        None => None,
    }
}

/// Extracts the pod's total restart count.
pub fn restart_count(pod: &Pod) -> (c: Option<Cell>)
    requires
        spec_pod_wf(*pod),
    ensures
        view_opt_cell(c) == spec_restart_count(*pod),
{
    match &pod.status {
        Some(st) => {
            let mut sum: u64 = 0;
            let mut i: usize = 0;
            while i < st.container_statuses.len()
                invariant
                    i <= st.container_statuses@.len(),
                    spec_restart_sum(st.container_statuses@) <= u64::MAX,
                    sum == spec_restart_sum(st.container_statuses@.take(i as int)),
                decreases st.container_statuses@.len() - i,
            {
                proof {
                    assert(st.container_statuses@.take(i + 1).drop_last() =~= st
                        .container_statuses@.take(i as int));
                    assert(st.container_statuses@.take(i + 1).last() == st
                        .container_statuses@[i as int]);
                    lemma_restart_sum_take(st.container_statuses@, i + 1);
                }
                sum = sum + st.container_statuses[i].restart_count as u64;
                i = i + 1;
            }
            proof {
                assert(st.container_statuses@.take(st.container_statuses@.len() as int) =~= st
                    .container_statuses@);
            }
            Some(Cell::plain(u64_to_dec(sum)))
        },
        None => None,
    }
}

/// The status text of a pod: `Terminating` once a deletion stamp exists, else
/// `ContainerCreating` while some container waits, else the reported phase,
/// else `Unknown`.
pub open spec fn spec_pod_status_text(p: Pod) -> Seq<char> {
    if p.metadata.deletion_timestamp is Some {
        "Terminating"@
    } else if spec_has_waiting(p) {
        "ContainerCreating"@
    } else {
        match p.status {
            Some(st) => match st.phase {
                Some(ph) => ph@,
                None => "Unknown"@,
            },
            None => "Unknown"@,
        }
    }
}

/// What the status extractor yields: the status text, styled by the semantic
/// color of its style code; always a value.
pub open spec fn spec_pod_status(p: Pod) -> Option<CellV> {
    Some(
        CellV::fg_of(
            spec_pod_status_text(p),
            spec_style_color(spec_phase_style(spec_pod_status_text(p))),
        ),
    )
}

/// Extracts the pod's styled status cell.
pub fn pod_status(pod: &Pod) -> (c: Option<Cell>)
    ensures
        view_opt_cell(c) == spec_pod_status(*pod),
{
    let status: String = if pod.metadata.deletion_timestamp.is_some() {
        String::from_str("Terminating")
    } else if has_waiting(pod) {
        String::from_str("ContainerCreating")
    } else {
        match &pod.status {
            Some(st) => match &st.phase {
                Some(ph) => ph.clone(),
                None => String::from_str("Unknown"),
            },
            None => String::from_str("Unknown"),
        }
    };
    let style = phase_style_str(status.as_str());
    let color = style_color(style);
    Some(Cell::styled(status, Some(color), None))
}

/// What the pod extractor registry yields for a display name.
pub open spec fn spec_pod_extract(p: Pod, col: Seq<char>) -> Option<CellV> {
    if col == "IP"@ {
        spec_pod_ip(p)
    } else if col == "Labels"@ {
        spec_pod_labels(p)
    } else if col == "Namespace"@ {
        spec_pod_namespace(p)
    } else if col == "Node"@ {
        spec_pod_node(p)
    } else if col == "Nominated Node"@ {
        spec_pod_nominated_node(p)
    } else if col == "Readiness Gates"@ {
        spec_pod_readiness_gates(p)
    } else if col == "Ready"@ {
        spec_ready_counts(p)
    } else if col == "Restarts"@ {
        spec_restart_count(p)
    } else if col == "Status"@ {
        spec_pod_status(p)
    } else {
        None
    }
}

impl Resource for Pod {
    open spec fn inv(&self) -> bool {
        spec_pod_wf(*self)
    }

    open spec fn spec_kobj(&self) -> KObjV {
        spec_pod_kobj(*self)
    }

    open spec fn spec_created(&self) -> Option<i64> {
        self.metadata.creation_timestamp
    }

    open spec fn spec_extract(&self, col: Seq<char>) -> Option<CellV> {
        spec_pod_extract(*self, col)
    }

    fn to_kobj(&self) -> (k: KObj) {
        pod_to_kobj(self)
    }

    fn created(&self) -> (t: Option<i64>) {
        self.metadata.creation_timestamp
    }

    fn extract(&self, col: &str) -> (c: Option<Cell>) {
        if str_eq(col, "IP") {
            pod_ip(self)
        } else if str_eq(col, "Labels") {
            pod_labels(self)
        } else if str_eq(col, "Namespace") {
            pod_namespace(self)
        } else if str_eq(col, "Node") {
            pod_node(self)
        } else if str_eq(col, "Nominated Node") {
            pod_nominated_node(self)
        } else if str_eq(col, "Readiness Gates") {
            pod_readiness_gates(self)
        } else if str_eq(col, "Ready") {
            ready_counts(self)
        } else if str_eq(col, "Restarts") {
            restart_count(self)
        } else if str_eq(col, "Status") {
            pod_status(self)
        } else {
            None
        }
    }
}

/// The base columns of the pod kind, always shown.
pub fn pod_base_columns() -> (cols: Vec<Column>)
    ensures
        cols@.len() == 5,
        cols@[0].flag@ == "name"@ && cols@[0].display@ == "Name"@,
        cols@[1].flag@ == "ready"@ && cols@[1].display@ == "Ready"@,
        cols@[2].flag@ == "status"@ && cols@[2].display@ == "Status"@,
        cols@[3].flag@ == "restarts"@ && cols@[3].display@ == "Restarts"@,
        cols@[4].flag@ == "age"@ && cols@[4].display@ == "Age"@,
{
    let mut cols: Vec<Column> = Vec::new();
    cols.push(Column::of("name", "Name"));
    cols.push(Column::of("ready", "Ready"));
    cols.push(Column::of("status", "Status"));
    cols.push(Column::of("restarts", "Restarts"));
    cols.push(Column::of("age", "Age"));
    cols
}

/// The extra columns of the pod kind, shown on request or for a sort.
pub fn pod_extra_columns() -> (cols: Vec<Column>)
    ensures
        cols@.len() == 6,
        cols@[0].flag@ == "ip"@ && cols@[0].display@ == "IP"@,
        cols@[1].flag@ == "labels"@ && cols@[1].display@ == "Labels"@,
        cols@[2].flag@ == "namespace"@ && cols@[2].display@ == "Namespace"@,
        cols@[3].flag@ == "node"@ && cols@[3].display@ == "Node"@,
        cols@[4].flag@ == "nominatednode"@ && cols@[4].display@ == "Nominated Node"@,
        cols@[5].flag@ == "readinessgates"@ && cols@[5].display@ == "Readiness Gates"@,
{
    let mut cols: Vec<Column> = Vec::new();
    cols.push(Column::of("ip", "IP"));
    cols.push(Column::of("labels", "Labels"));
    cols.push(Column::of("namespace", "Namespace"));
    cols.push(Column::of("node", "Node"));
    cols.push(Column::of("nominatednode", "Nominated Node"));
    cols.push(Column::of("readinessgates", "Readiness Gates"));
    cols
}

/// Validates a pod list request; inside a fixed namespace the namespace
/// column is dropped again unless the request asked for it explicitly.
pub fn pod_plan(opts: &ListOptions, base: &Vec<Column>, extra: &Vec<Column>, in_namespace: bool)
    -> (r: Result<Plan, ConfigError>)
    ensures
        ({
            let sreq = view_opt_str(opts.sort);
            match sreq {
                Some(req) if spec_resolve_sort(req, base@, extra@) is None => r matches Err(
                    ConfigError::UnknownColumn { name },
                ) && name@ == req,
                _ => match spec_first_unknown(vstrs(opts.show@), extra@) {
                    Some(f) => r matches Err(ConfigError::UnknownColumn { name }) && name@ == f,
                    None => r is Ok && {
                        let plan = r->Ok_0;
                        let effective = spec_effective_columns(
                            base@,
                            extra@,
                            vstrs(opts.show@),
                            sreq,
                            opts.labels,
                        );
                        &&& vstrs(plan.columns@) == if in_namespace && !vstrs(opts.show@).contains(
                            "namespace"@,
                        ) {
                            spec_remove_col(effective, "Namespace"@)
                        } else {
                            effective
                        }
                        &&& match sreq {
                            Some(req) => plan.sort is Some && plan.sort->0@
                                == spec_resolve_sort(req, base@, extra@)->0,
                            None => plan.sort is None,
                        }
                        &&& match opts.filter {
                            Some(p) => plan.filter is Some && plan.filter->0@ == p@,
                            None => plan.filter is None,
                        }
                        &&& plan.reverse == opts.reverse
                    },
                },
            }
        }),
{
    let mut plan = match validate(opts, base, extra) {
        Ok(p) => p,
        Err(e) => {
            return Err(e);
        },
    };
    if in_namespace && !crate::columns::vec_contains_str(&opts.show, "namespace") {
        remove_column(&mut plan.columns, "Namespace");
    }
    Ok(plan)
}

} // verus!
