//! Resource identity: a type-erased handle for one cluster object.

use vstd::prelude::*;

verus! {

/// Model of an [`ObjType`]: the resource-kind tag with its sidecar data.
pub ghost enum ObjTypeV {
    Pod { containers: Seq<Seq<char>> },
    PersistentVolume,
    Node,
}

/// The resource-kind tag of a handle, with kind-specific sidecar data
/// (a pod carries its container names).
pub enum ObjType {
    Pod { containers: Vec<String> },
    PersistentVolume,
    Node,
}

impl View for ObjType {
    type V = ObjTypeV;

    open spec fn view(&self) -> ObjTypeV {
        match self {
            ObjType::Pod { containers } => ObjTypeV::Pod {
                containers: containers@.map_values(|s: String| s@),
            },
            ObjType::PersistentVolume => ObjTypeV::PersistentVolume,
            ObjType::Node => ObjTypeV::Node,
        }
    }
}

/// Model of a [`KObj`].
pub ghost struct KObjV {
    pub name: Seq<char>,
    pub namespace: Option<Seq<char>>,
    pub typ: ObjTypeV,
}

/// A type-erased handle for one cluster object: its name, its namespace if it
/// has one, and its kind tag. The name is never empty in a well-formed handle;
/// a source record without one degrades to a sentinel instead.
pub struct KObj {
    pub name: String,
    pub namespace: Option<String>,
    pub typ: ObjType,
}

impl View for KObj {
    type V = KObjV;

    open spec fn view(&self) -> KObjV {
        KObjV {
            name: self.name@,
            namespace: match self.namespace {
                Some(ns) => Some(ns@),
                None => None,
            },
            typ: self.typ@,
        }
    }
}

/// Copies an optional string, field for field.
pub fn dup_opt_string(s: &Option<String>) -> (r: Option<String>)
    ensures
        (r is Some) == (s is Some),
        r is Some ==> r->0@ == s->0@,
{
    match s {
        Some(x) => Some(x.clone()),
        None => None,
    }
}

/// Copies a list of strings, element for element.
pub fn dup_string_vec(v: &Vec<String>) -> (r: Vec<String>)
    ensures
        r@.map_values(|s: String| s@) == v@.map_values(|s: String| s@),
{
    let mut out: Vec<String> = Vec::new();
    let mut i: usize = 0;
    while i < v.len()
        invariant
            i <= v@.len(),
            out@.len() == i,
            forall|k: int| 0 <= k < i ==> out@[k]@ == v@[k]@,
        decreases v@.len() - i,
    {
        out.push(v[i].clone());
        i = i + 1;
    }
    proof {
        assert(out@.map_values(|s: String| s@) =~= v@.map_values(|s: String| s@));
    }
    out
}

impl KObj {
    /// Copies the handle; the copy has the same model.
    pub fn duplicate(&self) -> (r: KObj)
        ensures
            r@ == self@,
    {
        let typ = match &self.typ {
            ObjType::Pod { containers } => ObjType::Pod { containers: dup_string_vec(containers) },
            ObjType::PersistentVolume => ObjType::PersistentVolume,
            ObjType::Node => ObjType::Node,
        };
        let r = KObj { name: self.name.clone(), namespace: dup_opt_string(&self.namespace), typ };
        proof {
            assert(r@ =~~= self@);
        }
        r
    }
}

} // verus!
