//! The persistent-volume resource kind: the record model, its column
//! extractors, and its descriptor lists.

use vstd::prelude::*;
use crate::cell::Cell;
use crate::cell::CellV;
use crate::columns::Column;
use crate::kobj::KObj;
use crate::kobj::KObjV;
use crate::kobj::ObjType;
use crate::kobj::ObjTypeV;
use crate::pipeline::Resource;
use crate::pipeline::view_opt_cell;
use crate::records::Metadata;
use crate::text::join_strings;
use crate::text::spec_join;
use crate::text::str_eq;
use crate::text::vstrs;

verus! {

/// The claim bound to a volume, as far as the engine reads it.
pub struct ClaimRef {
    pub namespace: Option<String>,
    pub name: Option<String>,
}

/// The part of a volume's spec the engine reads; the capacity is the
/// `storage` quantity's text, kept verbatim.
pub struct PvSpecPart {
    pub capacity_storage: Option<String>,
    pub access_modes: Vec<String>,
    pub persistent_volume_reclaim_policy: Option<String>,
    pub volume_mode: Option<String>,
    pub claim_ref: Option<ClaimRef>,
    pub storage_class_name: Option<String>,
}

/// The part of a volume's status the engine reads.
pub struct PvStatusPart {
    pub phase: Option<String>,
    pub reason: Option<String>,
}

/// One raw persistent-volume record, reduced to the plain values the engine
/// reads.
pub struct PersistentVolume {
    pub metadata: Metadata,
    pub spec: Option<PvSpecPart>,
    pub status: Option<PvStatusPart>,
}

/// The identity a volume record maps to.
pub open spec fn spec_pv_kobj(v: PersistentVolume) -> KObjV {
    KObjV {
        name: match v.metadata.name {
            Some(n) => n@,
            None => "<Unknown>"@,
        },
        namespace: match v.metadata.namespace {
            Some(ns) => Some(ns@),
            None => None,
        },
        typ: ObjTypeV::PersistentVolume,
    }
}

/// Maps one volume record to its identity handle.
pub fn pv_to_kobj(volume: &PersistentVolume) -> (k: KObj)
    ensures
        k@ == spec_pv_kobj(*volume),
{
    let name: String = match &volume.metadata.name {
        Some(n) => n.clone(),
        None => String::from_str("<Unknown>"),
    };
    let namespace: Option<String> = match &volume.metadata.namespace {
        Some(ns) => Some(ns.clone()),
        None => None,
    };
    let k = KObj { name, namespace, typ: ObjType::PersistentVolume };
    proof {
        assert(k@ =~~= spec_pv_kobj(*volume));
    }
    k
}

/// What the capacity extractor yields: the `storage` quantity's text.
pub open spec fn spec_volume_capacity(v: PersistentVolume) -> Option<CellV> {
    match v.spec {
        Some(sp) => match sp.capacity_storage {
            Some(q) => Some(CellV::plain_of(q@)),
            None => None,
        },
        None => None,
    }
}

/// Extracts the volume's storage capacity.
pub fn volume_capacity(volume: &PersistentVolume) -> (c: Option<Cell>)
    ensures
        view_opt_cell(c) == spec_volume_capacity(*volume),
{
    match &volume.spec {
        Some(sp) => match &sp.capacity_storage {
            Some(q) => Some(Cell::plain(q.clone())),
            None => None,
        },
        None => None,
    }
}

/// The short form of one access mode.
pub open spec fn spec_access_mode_short(m: Seq<char>) -> Seq<char> {
    if m == "ReadWriteOnce"@ {
        "RWO"@
    } else if m == "ReadOnlyMany"@ {
        "ROX"@
    } else if m == "ReadWriteMany"@ {
        "RWX"@
    } else if m == "ReadWriteOncePod"@ {
        "RWOP"@
    } else {
        "Unknown"@
    }
}

/// Shortens one access mode to its usual abbreviation.
pub fn access_mode_short(mode: &str) -> (r: &'static str)
    ensures
        r@ == spec_access_mode_short(mode@),
{
    if str_eq(mode, "ReadWriteOnce") {
        "RWO"
    } else if str_eq(mode, "ReadOnlyMany") {
        "ROX"
    } else if str_eq(mode, "ReadWriteMany") {
        "RWX"
    } else if str_eq(mode, "ReadWriteOncePod") {
        "RWOP"
    } else {
        "Unknown"
    }
}

/// What the access-modes extractor yields: the shortened modes joined with
/// `, `, whenever a spec is present.
pub open spec fn spec_volume_access_modes(v: PersistentVolume) -> Option<CellV> {
    match v.spec {
        Some(sp) => Some(
            CellV::plain_of(
                spec_join(
                    sp.access_modes@.map_values(|m: String| spec_access_mode_short(m@)),
                    ", "@,
                ),
            ),
        ),
        None => None,
    }
}

/// Extracts the volume's access modes in short form.
pub fn volume_access_modes(volume: &PersistentVolume) -> (c: Option<Cell>)
    ensures
        view_opt_cell(c) == spec_volume_access_modes(*volume),
{
    match &volume.spec {
        Some(sp) => {
            let mut shorts: Vec<String> = Vec::new();
            let mut i: usize = 0;
            while i < sp.access_modes.len()
                invariant
                    i <= sp.access_modes@.len(),
                    vstrs(shorts@) =~= sp.access_modes@.take(i as int).map_values(
                        |m: String| spec_access_mode_short(m@),
                    ),
                decreases sp.access_modes@.len() - i,
            {
                let ghost before = vstrs(shorts@);
                shorts.push(String::from_str(access_mode_short(sp.access_modes[i].as_str())));
                proof {
                    assert(vstrs(shorts@) =~= before.push(
                        spec_access_mode_short(sp.access_modes@[i as int]@),
                    ));
                    assert(vstrs(shorts@) =~= sp.access_modes@.take(i + 1).map_values(
                        |m: String| spec_access_mode_short(m@),
                    ));
                }
                i = i + 1;
            }
            proof {
                assert(sp.access_modes@.take(sp.access_modes@.len() as int) =~= sp.access_modes@);
            }
            Some(Cell::plain(join_strings(&shorts, ", ")))
        },
        None => None,
    }
}

/// What the reclaim-policy extractor yields.
pub open spec fn spec_volume_reclaim_policy(v: PersistentVolume) -> Option<CellV> {
    match v.spec {
        Some(sp) => match sp.persistent_volume_reclaim_policy {
            Some(p) => Some(CellV::plain_of(p@)),
            None => None,
        },
        None => None,
    }
}

/// Extracts the volume's reclaim policy.
pub fn volume_reclaim_policy(volume: &PersistentVolume) -> (c: Option<Cell>)
    ensures
        view_opt_cell(c) == spec_volume_reclaim_policy(*volume),
{
    match &volume.spec {
        Some(sp) => match &sp.persistent_volume_reclaim_policy {
            Some(p) => Some(Cell::plain(p.clone())),
            None => None,
        },
        None => None,
    }
}

/// What the volume-mode extractor yields.
pub open spec fn spec_volume_mode(v: PersistentVolume) -> Option<CellV> {
    match v.spec {
        Some(sp) => match sp.volume_mode {
            Some(m) => Some(CellV::plain_of(m@)),
            None => None,
        },
        None => None,
    }
}

/// Extracts the volume's mode.
pub fn volume_mode(volume: &PersistentVolume) -> (c: Option<Cell>)
    ensures
        view_opt_cell(c) == spec_volume_mode(*volume),
{
    match &volume.spec {
        Some(sp) => match &sp.volume_mode {
            Some(m) => Some(Cell::plain(m.clone())),
            None => None,
        },
        None => None,
    }
}

/// What the status extractor yields: the reported phase.
pub open spec fn spec_volume_status(v: PersistentVolume) -> Option<CellV> {
    match v.status {
        Some(st) => match st.phase {
            Some(p) => Some(CellV::plain_of(p@)),
            None => None,
        },
        None => None,
    }
}

/// Extracts the volume's phase.
pub fn volume_status(volume: &PersistentVolume) -> (c: Option<Cell>)
    ensures
        view_opt_cell(c) == spec_volume_status(*volume),
{
    match &volume.status {
        Some(st) => match &st.phase {
            Some(p) => Some(Cell::plain(p.clone())),
            None => None,
        },
        None => None,
    }
}

/// What the claim extractor yields: `namespace/name` of the bound claim with
/// empty parts for missing fields, or the empty text with no claim at all.
pub open spec fn spec_volume_claim(v: PersistentVolume) -> Option<CellV> {
    match v.spec {
        Some(sp) => Some(
            CellV::plain_of(
                match sp.claim_ref {
                    Some(cr) => (match cr.namespace {
                        Some(ns) => ns@,
                        None => Seq::empty(),
                    }) + "/"@ + (match cr.name {
                        Some(n) => n@,
                        None => Seq::empty(),
                    }),
                    None => Seq::empty(),
                },
            ),
        ),
        None => None,
    }
}

/// Extracts the claim bound to the volume.
pub fn volume_claim(volume: &PersistentVolume) -> (c: Option<Cell>)
    ensures
        view_opt_cell(c) == spec_volume_claim(*volume),
{
    match &volume.spec {
        Some(sp) => match &sp.claim_ref {
            Some(cr) => {
                let mut claim: String = match &cr.namespace {
                    Some(ns) => ns.clone(),
                    None => String::new(),
                };
                claim.append("/");
                match &cr.name {
                    Some(n) => claim.append(n.as_str()),
                    None => (),
                }
                proof {
                    assert(claim@ =~= spec_volume_claim(*volume)->0.value);
                }
                Some(Cell::plain(claim))
            },
            None => Some(Cell::plain(String::new())),
        },
        None => None,
    }
}

/// What the storage-class extractor yields.
pub open spec fn spec_volume_storage_class(v: PersistentVolume) -> Option<CellV> {
    match v.spec {
        Some(sp) => match sp.storage_class_name {
            Some(sc) => Some(CellV::plain_of(sc@)),
            None => None,
        },
        None => None,
    }
}

/// Extracts the volume's storage class.
pub fn volume_storage_class(volume: &PersistentVolume) -> (c: Option<Cell>)
    ensures
        view_opt_cell(c) == spec_volume_storage_class(*volume),
{
    match &volume.spec {
        Some(sp) => match &sp.storage_class_name {
            Some(sc) => Some(Cell::plain(sc.clone())),
            None => None,
        },
        None => None,
    }
}

/// What the reason extractor yields: the reported reason, or the empty text
/// when a status is present without one.
pub open spec fn spec_volume_reason(v: PersistentVolume) -> Option<CellV> {
    match v.status {
        Some(st) => match st.reason {
            Some(r) => Some(CellV::plain_of(r@)),
            None => Some(CellV::plain_of(Seq::empty())),
        },
        None => None,
    }
}

/// Extracts the volume's status reason.
pub fn volume_reason(volume: &PersistentVolume) -> (c: Option<Cell>)
    ensures
        view_opt_cell(c) == spec_volume_reason(*volume),
{
    match &volume.status {
        Some(st) => match &st.reason {
            Some(r) => Some(Cell::plain(r.clone())),
            None => Some(Cell::plain(String::new())),
        },
        None => None,
    }
}

/// What the volume extractor registry yields for a display name.
pub open spec fn spec_pv_extract(v: PersistentVolume, col: Seq<char>) -> Option<CellV> {
    if col == "Capacity"@ {
        spec_volume_capacity(v)
    } else if col == "Access Modes"@ {
        spec_volume_access_modes(v)
    } else if col == "Reclaim Policy"@ {
        spec_volume_reclaim_policy(v)
    } else if col == "Status"@ {
        spec_volume_status(v)
    } else if col == "Claim"@ {
        spec_volume_claim(v)
    } else if col == "Storage Class"@ {
        spec_volume_storage_class(v)
    } else if col == "Reason"@ {
        spec_volume_reason(v)
    } else if col == "Volume Mode"@ {
        spec_volume_mode(v)
    } else {
        None
    }
}

impl Resource for PersistentVolume {
    open spec fn inv(&self) -> bool {
        true
    }

    open spec fn spec_kobj(&self) -> KObjV {
        spec_pv_kobj(*self)
    }

    open spec fn spec_created(&self) -> Option<i64> {
        self.metadata.creation_timestamp
    }

    open spec fn spec_extract(&self, col: Seq<char>) -> Option<CellV> {
        spec_pv_extract(*self, col)
    }

    fn to_kobj(&self) -> (k: KObj) {
        pv_to_kobj(self)
    }

    fn created(&self) -> (t: Option<i64>) {
        self.metadata.creation_timestamp
    }

    fn extract(&self, col: &str) -> (c: Option<Cell>) {
        if str_eq(col, "Capacity") {
            volume_capacity(self)
        } else if str_eq(col, "Access Modes") {
            volume_access_modes(self)
        } else if str_eq(col, "Reclaim Policy") {
            volume_reclaim_policy(self)
        } else if str_eq(col, "Status") {
            volume_status(self)
        } else if str_eq(col, "Claim") {
            volume_claim(self)
        } else if str_eq(col, "Storage Class") {
            volume_storage_class(self)
        } else if str_eq(col, "Reason") {
            volume_reason(self)
        } else if str_eq(col, "Volume Mode") {
            volume_mode(self)
        } else {
            None
        }
    }
}

/// The base columns of the volume kind, always shown; the flag spellings are
/// the ones this command has always accepted.
pub fn volume_base_columns() -> (cols: Vec<Column>)
    ensures
        cols@.len() == 9,
        cols@[0].flag@ == "name"@ && cols@[0].display@ == "Name"@,
        cols@[1].flag@ == "age"@ && cols@[1].display@ == "Age"@,
        cols@[2].flag@ == "capacity"@ && cols@[2].display@ == "Capacity"@,
        cols@[3].flag@ == "accessmodes"@ && cols@[3].display@ == "Access Modes"@,
        cols@[4].flag@ == "replacepolicy"@ && cols@[4].display@ == "Reclaim Policy"@,
        cols@[5].flag@ == "status"@ && cols@[5].display@ == "Status"@,
        cols@[6].flag@ == "cliam"@ && cols@[6].display@ == "Claim"@,
        cols@[7].flag@ == "storageclass"@ && cols@[7].display@ == "Storage Class"@,
        cols@[8].flag@ == "reason"@ && cols@[8].display@ == "Reason"@,
{
    let mut cols: Vec<Column> = Vec::new();
    cols.push(Column::of("name", "Name"));
    cols.push(Column::of("age", "Age"));
    cols.push(Column::of("capacity", "Capacity"));
    cols.push(Column::of("accessmodes", "Access Modes"));
    cols.push(Column::of("replacepolicy", "Reclaim Policy"));
    cols.push(Column::of("status", "Status"));
    cols.push(Column::of("cliam", "Claim"));
    cols.push(Column::of("storageclass", "Storage Class"));
    cols.push(Column::of("reason", "Reason"));
    cols
}

/// The extra columns of the volume kind; the labels column has no extractor
/// registered, so it renders as placeholders.
pub fn volume_extra_columns() -> (cols: Vec<Column>)
    ensures
        cols@.len() == 2,
        cols@[0].flag@ == "labels"@ && cols@[0].display@ == "Labels"@,
        cols@[1].flag@ == "volumemode"@ && cols@[1].display@ == "Volume Mode"@,
{
    let mut cols: Vec<Column> = Vec::new();
    cols.push(Column::of("labels", "Labels"));
    cols.push(Column::of("volumemode", "Volume Mode"));
    cols
}

} // verus!
