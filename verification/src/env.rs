//! The navigation state: current namespace and current selection, and how a
//! multi-object operation resolves against them.
//!
//! The selection is replaced wholesale by every list command, switched to one
//! object by explicit navigation, and cleared by going up; it is never merged
//! or patched. A `Many` selection keeps the order the last listing emitted,
//! and that order is what range specs index into.

use vstd::prelude::*;
use crate::error::ConfigError;
use crate::error::OperationError;
use crate::kobj::KObj;
use crate::kobj::KObjV;
use crate::pipeline::ListOutput;
use crate::range::RangeFault;
use crate::range::resolve_range;
use crate::range::spec_first_fault;
use crate::range::spec_range_indices;
use crate::range::spec_tokens;
use crate::range::vidx;

verus! {

/// The shell's current selection: nothing, one object, or an ordered run of
/// objects.
pub enum Selection {
    Nothing,
    Single(KObj),
    Many(Vec<KObj>),
}

/// The views of a list of handles.
pub open spec fn vkobjs(s: Seq<KObj>) -> Seq<KObjV> {
    s.map_values(|k: KObj| k@)
}

/// Model of a [`Selection`].
pub ghost enum SelectionV {
    Nothing,
    Single(KObjV),
    Many(Seq<KObjV>),
}

impl View for Selection {
    type V = SelectionV;

    open spec fn view(&self) -> SelectionV {
        match self {
            Selection::Nothing => SelectionV::Nothing,
            Selection::Single(k) => SelectionV::Single(k@),
            Selection::Many(ks) => SelectionV::Many(vkobjs(ks@)),
        }
    }
}

/// The navigation state: created once at shell start, mutated only between
/// commands.
pub struct Env {
    pub namespace: Option<String>,
    pub selection: Selection,
}

/// The view of an optional string.
pub open spec fn view_ns(ns: Option<String>) -> Option<Seq<char>> {
    match ns {
        Some(s) => Some(s@),
        None => None,
    }
}

impl Env {
    /// A fresh environment: no namespace, nothing selected.
    pub fn new() -> (e: Env)
        ensures
            e.namespace is None,
            e.selection@ == SelectionV::Nothing,
    {
        Env { namespace: None, selection: Selection::Nothing }
    }

    /// Sets or clears the current namespace; the selection is untouched.
    pub fn set_namespace(&mut self, ns: Option<String>)
        ensures
            view_ns(final(self).namespace) == view_ns(ns),
            final(self).selection == old(self).selection,
    {
        self.namespace = ns;
    }

    /// Adopts a listing's identities, in emitted order, as the new selection;
    /// the prior selection is replaced wholesale.
    pub fn adopt_list(&mut self, out: &ListOutput)
        ensures
            final(self).selection@ == SelectionV::Many(
                out.rows@.map_values(|r: crate::sort::Row| r@.kobj),
            ),
            final(self).namespace == old(self).namespace,
    {
        let mut ks: Vec<KObj> = Vec::new();
        let mut i: usize = 0;
        while i < out.rows.len()
            invariant
                i <= out.rows@.len(),
                ks@.len() == i,
                forall|m: int| 0 <= m < i ==> vkobjs(ks@)[m] == out.rows@[m]@.kobj,
            decreases out.rows@.len() - i,
        {
            let ghost before = ks@;
            ks.push(out.rows[i].kobj.duplicate());
            proof {
                assert forall|m: int| 0 <= m < i + 1 implies vkobjs(ks@)[m] == out.rows@[m]@.kobj
                by {
                    assert(vkobjs(ks@)[m] == ks@[m]@);
                    if m < i {
                        assert(ks@[m] == before[m]);
                        assert(vkobjs(before)[m] == before[m]@);
                    }
                }
            }
            i = i + 1;
        }
        proof {
            assert(vkobjs(ks@) =~= out.rows@.map_values(|r: crate::sort::Row| r@.kobj));
        }
        self.selection = Selection::Many(ks);
    }

    /// Navigates into one object; the prior selection is replaced.
    pub fn enter(&mut self, k: KObj)
        ensures
            final(self).selection@ == SelectionV::Single(k@),
            final(self).namespace == old(self).namespace,
    {
        self.selection = Selection::Single(k);
    }

    /// Clears the selection (going up).
    pub fn clear_selection(&mut self)
        ensures
            final(self).selection@ == SelectionV::Nothing,
            final(self).namespace == old(self).namespace,
    {
        self.selection = Selection::Nothing;
    }

    /// Resolves a range spec against the current selection into the ordered
    /// list of objects an operation will touch, before anything runs: a
    /// `Single` selection ignores range syntax and yields its one object; a
    /// `Many` selection without a spec yields every member in order, with a
    /// spec exactly the members it denotes; with nothing selected, or with a
    /// faulty spec, nothing is touched and the error says why.
    pub fn selection_targets(&self, range: Option<&str>) -> (r: Result<Vec<KObj>, ConfigError>)
        ensures
            match self.selection@ {
                SelectionV::Nothing => r matches Err(ConfigError::NoSelection),
                SelectionV::Single(k) => r is Ok && vkobjs(r->Ok_0@) == seq![k],
                SelectionV::Many(ks) => match range {
                    None => r is Ok && vkobjs(r->Ok_0@) == ks,
                    Some(rs) => match spec_first_fault(spec_tokens(rs@), ks.len() as int) {
                        None => r is Ok && {
                            let idx = spec_range_indices(spec_tokens(rs@));
                            &&& vkobjs(r->Ok_0@).len() == idx.len()
                            &&& forall|j: int|
                                0 <= j < idx.len() ==> vkobjs(r->Ok_0@)[j] == ks[idx[j] - 1]
                        },
                        Some(RangeFault::Malformed { token }) => r matches Err(
                            ConfigError::BadRangeToken { token: t },
                        ) && t@ == token,
                        Some(RangeFault::OutOfBounds) => r matches Err(
                            ConfigError::RangeOutOfBounds { len: l },
                        ) && l == ks.len(),
                    },
                },
            },
    {
        match &self.selection {
            Selection::Nothing => Err(ConfigError::NoSelection),
            Selection::Single(k) => {
                let mut out: Vec<KObj> = Vec::new();
                out.push(k.duplicate());
                proof {
                    assert(vkobjs(out@) =~= seq![k@]);
                }
                Ok(out)
            },
            Selection::Many(ks) => {
                proof {
                    assert(vkobjs(ks@).len() == ks@.len());
                }
                match range {
                    None => {
                        let mut out: Vec<KObj> = Vec::new();
                        let mut i: usize = 0;
                        while i < ks.len()
                            invariant
                                i <= ks@.len(),
                                out@.len() == i,
                                forall|m: int| 0 <= m < i ==> vkobjs(out@)[m] == ks@[m]@,
                            decreases ks@.len() - i,
                        {
                            let ghost before = out@;
                            out.push(ks[i].duplicate());
                            proof {
                                assert forall|m: int|
                                    0 <= m < i + 1 implies vkobjs(out@)[m] == ks@[m]@ by {
                                    assert(vkobjs(out@)[m] == out@[m]@);
                                    if m < i {
                                        assert(out@[m] == before[m]);
                                        assert(vkobjs(before)[m] == before[m]@);
                                    }
                                }
                            }
                            i = i + 1;
                        }
                        proof {
                            assert(vkobjs(out@) =~= vkobjs(ks@));
                        }
                        Ok(out)
                    },
                    Some(rs) => {
                        let indices = match resolve_range(rs, ks.len()) {
                            Ok(ix) => ix,
                            Err(e) => {
                                return Err(e);
                            },
                        };
                        let ghost idx = spec_range_indices(spec_tokens(rs@));
                        let mut out: Vec<KObj> = Vec::new();
                        let mut i: usize = 0;
                        proof {
                            crate::range::lemma_indices_in_bounds(
                                spec_tokens(rs@),
                                ks@.len() as int,
                            );
                        }
                        while i < indices.len()
                            invariant
                                vidx(indices@) == idx,
                                forall|j: int| 0 <= j < idx.len() ==> 1 <= #[trigger] idx[j]
                                    <= ks@.len(),
                                i <= indices@.len(),
                                out@.len() == i,
                                forall|m: int|
                                    0 <= m < i ==> vkobjs(out@)[m] == vkobjs(ks@)[idx[m] - 1],
                            decreases indices@.len() - i,
                        {
                            proof {
                                assert(vidx(indices@)[i as int] == indices@[i as int] as int);
                            }
                            let ghost before = out@;
                            out.push(ks[indices[i] - 1].duplicate());
                            proof {
                                assert forall|m: int|
                                    0 <= m < i + 1 implies vkobjs(out@)[m] == vkobjs(ks@)[idx[m]
                                    - 1] by {
                                    assert(vkobjs(out@)[m] == out@[m]@);
                                    if m < i {
                                        assert(out@[m] == before[m]);
                                        assert(vkobjs(before)[m] == before[m]@);
                                    } else {
                                        assert(vkobjs(ks@)[idx[m] - 1] == ks@[idx[m] - 1]@);
                                    }
                                }
                            }
                            i = i + 1;
                        }
                        Ok(out)
                    },
                }
            },
        }
    }
}

/// Model of one failed member of a multi-object operation.
pub ghost struct ApplyFailureV {
    pub index: int,
    pub message: Seq<char>,
}

/// One failed member of a multi-object operation: which member, and what the
/// per-object collaborator reported.
pub struct ApplyFailure {
    pub index: usize,
    pub error: OperationError,
}

impl View for ApplyFailure {
    type V = ApplyFailureV;

    open spec fn view(&self) -> ApplyFailureV {
        ApplyFailureV { index: self.index as int, message: self.error.message@ }
    }
}

/// The failures among per-member results, in member order.
pub open spec fn spec_failures(rs: Seq<Result<(), Seq<char>>>) -> Seq<ApplyFailureV>
    decreases rs.len(),
{
    if rs.len() == 0 {
        Seq::empty()
    } else {
        let rest = spec_failures(rs.drop_last());
        match rs.last() {
            Ok(_) => rest,
            Err(m) => rest.push(ApplyFailureV { index: rs.len() - 1, message: m }),
        }
    }
}

/// The model of per-member results.
pub open spec fn vresults(rs: Seq<Result<(), OperationError>>) -> Seq<Result<(), Seq<char>>> {
    rs.map_values(
        |r: Result<(), OperationError>|
            match r {
                Ok(_) => Ok(()),
                Err(e) => Err(e.message@),
            },
    )
}

/// Collects the failures of a multi-object operation into one report: every
/// member was attempted, each failure is kept with its member index, in
/// order — partial failure accumulates instead of stopping the run.
pub fn summarize_apply(results: &Vec<Result<(), OperationError>>) -> (failures: Vec<ApplyFailure>)
    ensures
        failures@.map_values(|f: ApplyFailure| f@) == spec_failures(vresults(results@)),
{
    let mut failures: Vec<ApplyFailure> = Vec::new();
    let mut i: usize = 0;
    let ghost all = vresults(results@);
    let n = results.len();
    proof {
        assert(all.take(0) =~= Seq::<Result<(), Seq<char>>>::empty());
        assert(failures@.map_values(|f: ApplyFailure| f@) =~= Seq::<ApplyFailureV>::empty());
    }
    while i < n
        invariant
            all == vresults(results@),
            n == results@.len(),
            i <= n,
            failures@.map_values(|f: ApplyFailure| f@) == spec_failures(all.take(i as int)),
        decreases n - i,
    {
        proof {
            assert(all.take(i + 1).drop_last() =~= all.take(i as int));
            assert(all.take(i + 1).last() == all[i as int]);
        }
        let is_err = results[i].is_err();
        if is_err {
            let ghost before = failures@.map_values(|f: ApplyFailure| f@);
            let msg = match &results[i] {
                Err(e) => e.message.clone(),
                Ok(_) => String::new(),
            };
            failures.push(ApplyFailure { index: i, error: OperationError { message: msg } });
            proof {
                assert(failures@.map_values(|f: ApplyFailure| f@) =~= before.push(
                    ApplyFailureV { index: i as int, message: all[i as int]->Err_0 },
                ));
            }
        }
        i = i + 1;
    }
    proof {
        assert(all.take(n as int) =~= all);
    }
    failures
}

} // verus!
