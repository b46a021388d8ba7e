//! The generic list pipeline: fetch result in, ordered `(identity, row)`
//! pairs out.
//!
//! Every resource-kind command instantiates the pipeline through the
//! [`Resource`] capability trait. The pipeline projects the effective
//! columns, filters by name, sorts (stably), reverses on request, and emits;
//! per-row computation is infallible by construction — a missing value
//! degrades to a placeholder cell, never an aborted row.

use vstd::prelude::*;
use crate::cell::Cell;
use crate::cell::CellV;
use crate::columns::ListOptions;
use crate::columns::Plan;
use crate::columns::PreSort;
use crate::columns::SortFunc;
use crate::columns::SortFuncV;
use crate::columns::view_opt_str;
use crate::error::CommandError;
use crate::error::TransportError;
use crate::kobj::KObj;
use crate::kobj::KObjV;
use crate::kobj::dup_string_vec;
use crate::sort::Ent;
use crate::sort::EntV;
use crate::sort::KeyV;
use crate::sort::Row;
use crate::sort::RowV;
use crate::sort::SortKey;
use crate::sort::key_le;
use crate::sort::lemma_sort_len;
use crate::sort::lemma_sort_sorted;
use crate::sort::reverse_entries;
use crate::sort::sort_entries;
use crate::sort::sorted;
use crate::sort::spec_insert;
use crate::sort::spec_sort;
use crate::sort::vents;
use crate::text::seq_contains;
use crate::text::spec_age_render;
use crate::text::spec_age_secs;
use crate::text::str_contains;
use crate::text::str_eq;
use crate::text::vstrs;
use crate::text::age_string;

verus! {

/// The capability pair a resource kind supplies to the pipeline: mapping a
/// raw record to its identity handle, reading its creation timestamp, and
/// extracting a registered column's cell.
pub trait Resource: Sized {
    /// Well-formedness of one raw record.
    spec fn inv(&self) -> bool;

    /// The identity handle this record maps to.
    spec fn spec_kobj(&self) -> KObjV;

    /// The creation timestamp, in seconds, if the record carries one.
    spec fn spec_created(&self) -> Option<i64>;

    /// What the extractor registry yields for a display name: `None` both for
    /// an unregistered name and for a registered extractor without a value.
    spec fn spec_extract(&self, col: Seq<char>) -> Option<CellV>;

    /// Builds the identity handle.
    fn to_kobj(&self) -> (k: KObj)
        requires
            self.inv(),
        ensures
            k@ == self.spec_kobj(),
    ;

    /// Reads the creation timestamp.
    fn created(&self) -> (t: Option<i64>)
        requires
            self.inv(),
        ensures
            t == self.spec_created(),
    ;

    /// Runs the registered extractor for `col`, if any.
    fn extract(&self, col: &str) -> (c: Option<Cell>)
        requires
            self.inv(),
        ensures
            view_opt_cell(c) == self.spec_extract(col@),
    ;
}

/// The view of an optional cell.
pub open spec fn view_opt_cell(c: Option<Cell>) -> Option<CellV> {
    match c {
        Some(x) => Some(x@),
        None => None,
    }
}

/// The cell a record yields for one effective column: the name and age
/// columns come straight from the identity and the timestamp; everything
/// else goes through the extractor registry; whatever is absent degrades to
/// an empty placeholder cell.
pub open spec fn spec_cell_for<T: Resource>(r: T, col: Seq<char>, now: i64) -> CellV {
    if col == "Name"@ {
        CellV::plain_of(r.spec_kobj().name)
    } else if col == "Age"@ {
        match r.spec_created() {
            Some(t) => CellV::plain_of(spec_age_render(spec_age_secs(t as int, now as int))),
            None => CellV::plain_of(Seq::empty()),
        }
    } else {
        match r.spec_extract(col) {
            Some(c) => c,
            None => CellV::plain_of(Seq::empty()),
        }
    }
}

/// The full row a record projects to under the effective columns.
pub open spec fn spec_row<T: Resource>(r: T, cols: Seq<Seq<char>>, now: i64) -> RowV {
    RowV { kobj: r.spec_kobj(), cells: Seq::new(cols.len(), |i: int| spec_cell_for(r, cols[i], now)) }
}

/// The key the active sort compares a record by: the raw timestamp for the
/// pre-extraction age sort, the rendered text of the named column for a
/// post-extraction sort, and an inert key when no sort is active.
pub open spec fn spec_key<T: Resource>(r: T, sort: Option<SortFuncV>, now: i64) -> KeyV {
    match sort {
        Some(SortFuncV::Pre(PreSort::Age)) => KeyV::Time(r.spec_created()),
        Some(SortFuncV::Post(name)) => KeyV::Text(spec_cell_for(r, name, now).value),
        None => KeyV::Time(None),
    }
}

/// Does a record pass the name filter?
pub open spec fn spec_matches<T: Resource>(r: T, filter: Option<Seq<char>>) -> bool {
    match filter {
        Some(p) => seq_contains(r.spec_kobj().name, p),
        None => true,
    }
}

/// The entries the projection stage emits: one per record passing the name
/// filter, in fetch order, each carrying its row and its sort key.
pub open spec fn spec_entries<T: Resource>(
    rs: Seq<T>,
    cols: Seq<Seq<char>>,
    sort: Option<SortFuncV>,
    filter: Option<Seq<char>>,
    now: i64,
) -> Seq<EntV>
    decreases rs.len(),
{
    if rs.len() == 0 {
        Seq::empty()
    } else {
        let rest = spec_entries(rs.drop_last(), cols, sort, filter, now);
        if spec_matches(rs.last(), filter) {
            rest.push(
                EntV {
                    key: spec_key(rs.last(), sort, now),
                    row: spec_row(rs.last(), cols, now),
                },
            )
        } else {
            rest
        }
    }
}

/// The whole pipeline: project and filter, sort stably when a sort is
/// active, then reverse on request.
pub open spec fn spec_pipeline<T: Resource>(
    rs: Seq<T>,
    cols: Seq<Seq<char>>,
    sort: Option<SortFuncV>,
    filter: Option<Seq<char>>,
    reverse: bool,
    now: i64,
) -> Seq<EntV> {
    let ents = spec_entries(rs, cols, sort, filter, now);
    let ordered = if sort is Some {
        spec_sort(ents)
    } else {
        ents
    };
    if reverse {
        ordered.reverse()
    } else {
        ordered
    }
}

/// The rows of a sequence of entries.
pub open spec fn spec_rows_of(ents: Seq<EntV>) -> Seq<RowV> {
    ents.map_values(|e: EntV| e.row)
}

/// The views of a sequence of rows.
pub open spec fn vrows(s: Seq<Row>) -> Seq<RowV> {
    s.map_values(|r: Row| r@)
}

/// The view of the sort slot of a plan.
pub open spec fn view_opt_sortfunc(s: Option<SortFunc>) -> Option<SortFuncV> {
    match s {
        Some(f) => Some(f@),
        None => None,
    }
}

/// Builds the cell of one record under one effective column.
fn cell_for<T: Resource>(r: &T, col: &str, now: i64) -> (c: Cell)
    requires
        r.inv(),
    ensures
        c@ == spec_cell_for(*r, col@, now),
{
    if str_eq(col, "Name") {
        Cell::plain(r.to_kobj().name)
    } else if str_eq(col, "Age") {
        match r.created() {
            Some(t) => Cell::plain(age_string(t, now)),
            None => Cell::plain(String::new()),
        }
    } else {
        match r.extract(col) {
            Some(c) => c,
            None => Cell::plain(String::new()),
        }
    }
}

/// Projects one record to its row under the effective columns.
fn row_for<T: Resource>(r: &T, columns: &Vec<String>, now: i64) -> (row: Row)
    requires
        r.inv(),
    ensures
        row@ == spec_row(*r, vstrs(columns@), now),
{
    let kobj = r.to_kobj();
    let mut cells: Vec<Cell> = Vec::new();
    let mut i: usize = 0;
    while i < columns.len()
        invariant
            r.inv(),
            i <= columns@.len(),
            cells@.len() == i,
            forall|k: int|
                0 <= k < i ==> cells@[k]@ == spec_cell_for(*r, #[trigger] vstrs(columns@)[k], now),
        decreases columns@.len() - i,
    {
        cells.push(cell_for(r, columns[i].as_str(), now));
        i = i + 1;
    }
    let row = Row { kobj, cells };
    proof {
        assert(row@.cells =~= spec_row(*r, vstrs(columns@), now).cells);
    }
    row
}

/// Builds the sort key of one record under the active sort.
fn key_for<T: Resource>(r: &T, sort: &Option<SortFunc>, now: i64) -> (k: SortKey)
    requires
        r.inv(),
    ensures
        k@ == spec_key(*r, view_opt_sortfunc(*sort), now),
{
    match sort {
        Some(SortFunc::Pre(PreSort::Age)) => SortKey::Time(r.created()),
        Some(SortFunc::Post(name)) => SortKey::Text(cell_for(r, name.as_str(), now).value),
        None => SortKey::Time(None),
    }
}

/// What a listing command emits: the effective headers and the ordered rows;
/// the environment adopts the rows' identities as the new selection.
pub struct ListOutput {
    pub headers: Vec<String>,
    pub rows: Vec<Row>,
}

/// Runs the pipeline over a fetched collection under a validated plan;
/// `now` is the clock reading used to render and compare ages.
pub fn run_list<T: Resource>(records: &Vec<T>, plan: &Plan, now: i64) -> (out: ListOutput)
    requires
        forall|i: int| 0 <= i < records@.len() ==> (#[trigger] records@[i]).inv(),
    ensures
        vstrs(out.headers@) == vstrs(plan.columns@),
        vrows(out.rows@) == spec_rows_of(
            spec_pipeline(
                records@,
                vstrs(plan.columns@),
                view_opt_sortfunc(plan.sort),
                view_opt_str(plan.filter),
                plan.reverse,
                now,
            ),
        ),
{
    let ghost cols = vstrs(plan.columns@);
    let ghost sortv = view_opt_sortfunc(plan.sort);
    let ghost filterv = view_opt_str(plan.filter);
    let mut ents: Vec<Ent> = Vec::new();
    let mut i: usize = 0;
    while i < records.len()
        invariant
            forall|k: int| 0 <= k < records@.len() ==> (#[trigger] records@[k]).inv(),
            i <= records@.len(),
            cols == vstrs(plan.columns@),
            sortv == view_opt_sortfunc(plan.sort),
            filterv == view_opt_str(plan.filter),
            vents(ents@) =~= spec_entries(records@.take(i as int), cols, sortv, filterv, now),
        decreases records@.len() - i,
    {
        let r = &records[i];
        let kobj = r.to_kobj();
        let keep = match &plan.filter {
            Some(p) => str_contains(kobj.name.as_str(), p.as_str()),
            None => true,
        };
        if keep {
            let row = row_for(r, &plan.columns, now);
            let key = key_for(r, &plan.sort, now);
            let ghost before = vents(ents@);
            ents.push(Ent { key, row });
            proof {
                assert(vents(ents@) =~= before.push(
                    EntV { key: spec_key(records@[i as int], sortv, now),
                        row: spec_row(records@[i as int], cols, now) },
                ));
            }
        }
        proof {
            assert(records@.take(i + 1).drop_last() =~= records@.take(i as int));
            assert(records@.take(i + 1).last() == records@[i as int]);
            assert(vents(ents@) =~= spec_entries(records@.take(i + 1), cols, sortv, filterv, now));
        }
        i = i + 1;
    }
    proof {
        assert(records@.take(records@.len() as int) =~= records@);
    }
    if plan.sort.is_some() {
        sort_entries(&mut ents);
    }
    if plan.reverse {
        reverse_entries(&mut ents);
    }
    let ghost target = vents(ents@);
    let headers = dup_string_vec(&plan.columns);
    let mut rows: Vec<Row> = Vec::new();
    while ents.len() > 0
        invariant
            rows@.len() + ents@.len() == target.len(),
            vents(ents@) =~= target.skip(rows@.len() as int),
            forall|m: int| 0 <= m < rows@.len() ==> vrows(rows@)[m] == target[m].row,
        decreases ents@.len(),
    {
        let ghost k: int = rows@.len() as int;
        let e = ents.remove(0);
        proof {
            assert(vents(ents@) =~= target.skip(k as int).drop_first());
            assert(target.skip(k as int).drop_first() =~= target.skip(k + 1));
            assert(e@ == target.skip(k as int)[0]);
        }
        let ghost rowsb = rows@;
        let ghost ev = e@;
        rows.push(e.row);
        proof {
            assert(ev == target[k]);
            assert forall|m: int| 0 <= m < rows@.len() implies vrows(rows@)[m] == target[m].row by {
                assert(vrows(rows@)[m] == rows@[m]@);
                if m < k {
                    assert(rows@[m] == rowsb[m]);
                    assert(vrows(rowsb)[m] == rowsb[m]@);
                } else {
                    assert(rows@[m]@ == ev.row);
                }
            }
        }
    }
    proof {
        assert(vrows(rows@) =~= spec_rows_of(target));
        assert(vstrs(headers@) =~= vstrs(plan.columns@));
    }
    ListOutput { headers, rows }
}

/// A whole listing command from the fetch result on: a failed fetch is
/// propagated unmodified and no table is emitted for it.
pub fn list_or_fail<T: Resource>(
    fetch: Result<Vec<T>, TransportError>,
    plan: &Plan,
    now: i64,
) -> (r: Result<ListOutput, CommandError>)
    requires
        fetch matches Ok(records) ==> forall|i: int|
            0 <= i < records@.len() ==> (#[trigger] records@[i]).inv(),
    ensures
        match fetch {
            Ok(records) => r is Ok && {
                let out = r->Ok_0;
                &&& vstrs(out.headers@) == vstrs(plan.columns@)
                &&& vrows(out.rows@) == spec_rows_of(
                    spec_pipeline(
                        records@,
                        vstrs(plan.columns@),
                        view_opt_sortfunc(plan.sort),
                        view_opt_str(plan.filter),
                        plan.reverse,
                        now,
                    ),
                )
            },
            Err(e) => r matches Err(CommandError::Transport(t)) && t == e,
        },
{
    match fetch {
        Ok(records) => Ok(run_list(&records, plan, now)),
        Err(e) => Err(CommandError::Transport(e)),
    }
}

// ---------------------------------------------------------------------------
// Laws of the pipeline
// ---------------------------------------------------------------------------

/// Without filter, sort or reverse, listing is order-preserving and total:
/// exactly one row per fetched record, in fetch order, each the projection of
/// its record.
pub proof fn lemma_plain_listing_preserves_order<T: Resource>(
    rs: Seq<T>,
    cols: Seq<Seq<char>>,
    now: i64,
)
    ensures
        spec_pipeline(rs, cols, None, None, false, now).len() == rs.len(),
        forall|i: int|
            0 <= i < rs.len() ==> #[trigger] spec_pipeline(rs, cols, None, None, false, now)[i].row
                == spec_row(rs[i], cols, now),
    decreases rs.len(),
{
    if rs.len() == 0 {
    } else {
        lemma_plain_listing_preserves_order(rs.drop_last(), cols, now);
        assert(spec_entries(rs, cols, None, None, now) == spec_entries(
            rs.drop_last(),
            cols,
            None,
            None,
            now,
        ).push(EntV { key: spec_key(rs.last(), None, now), row: spec_row(rs.last(), cols, now) }));
    }
}

/// Every entry the projection stage emits under a filter matches the filter.
proof fn lemma_entries_all_match<T: Resource>(
    rs: Seq<T>,
    cols: Seq<Seq<char>>,
    sort: Option<SortFuncV>,
    pat: Seq<char>,
    now: i64,
)
    ensures
        forall|i: int|
            0 <= i < spec_entries(rs, cols, sort, Some(pat), now).len() ==> seq_contains(
                (#[trigger] spec_entries(rs, cols, sort, Some(pat), now)[i]).row.kobj.name,
                pat,
            ),
    decreases rs.len(),
{
    if rs.len() == 0 {
    } else {
        lemma_entries_all_match(rs.drop_last(), cols, sort, pat, now);
    }
}

/// Inserting keeps "every entry matches".
proof fn lemma_insert_all_match(s: Seq<EntV>, e: EntV, pat: Seq<char>)
    requires
        forall|i: int| 0 <= i < s.len() ==> seq_contains((#[trigger] s[i]).row.kobj.name, pat),
        seq_contains(e.row.kobj.name, pat),
    ensures
        forall|i: int|
            0 <= i < spec_insert(s, e).len() ==> seq_contains(
                (#[trigger] spec_insert(s, e)[i]).row.kobj.name,
                pat,
            ),
    decreases s.len(),
{
    if s.len() == 0 {
    } else if key_le(s.last().key, e.key) {
    } else {
        lemma_insert_all_match(s.drop_last(), e, pat);
    }
}

/// Sorting keeps "every entry matches".
proof fn lemma_sort_all_match(s: Seq<EntV>, pat: Seq<char>)
    requires
        forall|i: int| 0 <= i < s.len() ==> seq_contains((#[trigger] s[i]).row.kobj.name, pat),
    ensures
        forall|i: int|
            0 <= i < spec_sort(s).len() ==> seq_contains(
                (#[trigger] spec_sort(s)[i]).row.kobj.name,
                pat,
            ),
    decreases s.len(),
{
    if s.len() == 0 {
    } else {
        lemma_sort_all_match(s.drop_last(), pat);
        lemma_insert_all_match(spec_sort(s.drop_last()), s.last(), pat);
    }
}

/// Filtering by a pattern keeps exactly the rows whose name contains it: every
/// emitted row's name contains the pattern, wherever sort and reverse moved it.
pub proof fn lemma_filtered_rows_match<T: Resource>(
    rs: Seq<T>,
    cols: Seq<Seq<char>>,
    sort: Option<SortFuncV>,
    pat: Seq<char>,
    reverse: bool,
    now: i64,
)
    ensures
        forall|i: int|
            0 <= i < spec_pipeline(rs, cols, sort, Some(pat), reverse, now).len() ==> seq_contains(
                (#[trigger] spec_pipeline(rs, cols, sort, Some(pat), reverse, now)[i]).row.kobj.name,
                pat,
            ),
{
    let ents = spec_entries(rs, cols, sort, Some(pat), now);
    lemma_entries_all_match(rs, cols, sort, pat, now);
    if sort is Some {
        lemma_sort_all_match(ents, pat);
    }
}

/// How many records pass the name filter.
pub open spec fn spec_match_count<T: Resource>(rs: Seq<T>, filter: Option<Seq<char>>) -> int
    decreases rs.len(),
{
    if rs.len() == 0 {
        0
    } else {
        spec_match_count(rs.drop_last(), filter) + if spec_matches(rs.last(), filter) {
            1int
        } else {
            0int
        }
    }
}

/// The projection stage emits one entry per matching record.
proof fn lemma_entries_count<T: Resource>(
    rs: Seq<T>,
    cols: Seq<Seq<char>>,
    sort: Option<SortFuncV>,
    filter: Option<Seq<char>>,
    now: i64,
)
    ensures
        spec_entries(rs, cols, sort, filter, now).len() == spec_match_count(rs, filter),
    decreases rs.len(),
{
    if rs.len() == 0 {
    } else {
        lemma_entries_count(rs.drop_last(), cols, sort, filter, now);
    }
}

/// The listing emits exactly one row per record passing the name filter,
/// whatever the sort and reverse switches do.
pub proof fn lemma_listing_count<T: Resource>(
    rs: Seq<T>,
    cols: Seq<Seq<char>>,
    sort: Option<SortFuncV>,
    filter: Option<Seq<char>>,
    reverse: bool,
    now: i64,
)
    ensures
        spec_pipeline(rs, cols, sort, filter, reverse, now).len() == spec_match_count(rs, filter),
{
    lemma_entries_count(rs, cols, sort, filter, now);
    if sort is Some {
        lemma_sort_len(spec_entries(rs, cols, sort, filter, now));
    }
}

/// The name filter on already-emitted rows.
pub open spec fn spec_filter_rows(rows: Seq<RowV>, pat: Seq<char>) -> Seq<RowV>
    decreases rows.len(),
{
    if rows.len() == 0 {
        Seq::empty()
    } else {
        let rest = spec_filter_rows(rows.drop_last(), pat);
        if seq_contains(rows.last().kobj.name, pat) {
            rest.push(rows.last())
        } else {
            rest
        }
    }
}

/// Filtering rows that all match is the identity.
pub proof fn lemma_filter_rows_identity(rows: Seq<RowV>, pat: Seq<char>)
    requires
        forall|i: int| 0 <= i < rows.len() ==> seq_contains((#[trigger] rows[i]).kobj.name, pat),
    ensures
        spec_filter_rows(rows, pat) == rows,
    decreases rows.len(),
{
    if rows.len() == 0 {
        assert(spec_filter_rows(rows, pat) =~= rows);
    } else {
        lemma_filter_rows_identity(rows.drop_last(), pat);
        assert(spec_filter_rows(rows, pat) =~= rows.drop_last().push(rows.last()));
        assert(rows.drop_last().push(rows.last()) =~= rows);
    }
}

/// Every row the filter keeps matches the pattern.
proof fn lemma_filter_rows_all_match(rows: Seq<RowV>, pat: Seq<char>)
    ensures
        forall|i: int|
            0 <= i < spec_filter_rows(rows, pat).len() ==> seq_contains(
                (#[trigger] spec_filter_rows(rows, pat)[i]).kobj.name,
                pat,
            ),
    decreases rows.len(),
{
    if rows.len() == 0 {
    } else {
        lemma_filter_rows_all_match(rows.drop_last(), pat);
    }
}

/// Reapplying the same name filter to filtered output changes nothing.
pub proof fn lemma_filter_rows_idempotent(rows: Seq<RowV>, pat: Seq<char>)
    ensures
        spec_filter_rows(spec_filter_rows(rows, pat), pat) == spec_filter_rows(rows, pat),
{
    lemma_filter_rows_all_match(rows, pat);
    lemma_filter_rows_identity(spec_filter_rows(rows, pat), pat);
}

/// A filtered listing is already its own filter's fixed point: applying the
/// same name filter to the emitted rows changes nothing.
pub proof fn lemma_listing_filter_fixed_point<T: Resource>(
    rs: Seq<T>,
    cols: Seq<Seq<char>>,
    sort: Option<SortFuncV>,
    pat: Seq<char>,
    reverse: bool,
    now: i64,
)
    ensures
        spec_filter_rows(
            spec_rows_of(spec_pipeline(rs, cols, sort, Some(pat), reverse, now)),
            pat,
        ) == spec_rows_of(spec_pipeline(rs, cols, sort, Some(pat), reverse, now)),
{
    let rows = spec_rows_of(spec_pipeline(rs, cols, sort, Some(pat), reverse, now));
    lemma_filtered_rows_match(rs, cols, sort, pat, reverse, now);
    assert forall|i: int| 0 <= i < rows.len() implies seq_contains(
        (#[trigger] rows[i]).kobj.name,
        pat,
    ) by {
        assert(rows[i] == spec_pipeline(rs, cols, sort, Some(pat), reverse, now)[i].row);
    }
    lemma_filter_rows_identity(rows, pat);
}

/// A reversed listing is exactly the reverse of the unreversed one, ties
/// included: reversal is applied after the stable sort, so it inverts the
/// whole ordering.
pub proof fn lemma_reverse_inverts_listing<T: Resource>(
    rs: Seq<T>,
    cols: Seq<Seq<char>>,
    sort: Option<SortFuncV>,
    filter: Option<Seq<char>>,
    now: i64,
)
    ensures
        spec_pipeline(rs, cols, sort, filter, true, now) == spec_pipeline(
            rs,
            cols,
            sort,
            filter,
            false,
            now,
        ).reverse(),
{
}

/// Sorting a listing is stable: for every key, the entries carrying it stand
/// in the sorted listing exactly as the projection stage emitted them, so
/// ties keep fetch order.
pub proof fn lemma_listing_ties_keep_fetch_order<T: Resource>(
    rs: Seq<T>,
    cols: Seq<Seq<char>>,
    sort: SortFuncV,
    filter: Option<Seq<char>>,
    now: i64,
    k: KeyV,
)
    ensures
        crate::sort::keep_key(spec_pipeline(rs, cols, Some(sort), filter, false, now), k)
            == crate::sort::keep_key(spec_entries(rs, cols, Some(sort), filter, now), k),
{
    crate::sort::lemma_sort_stable(spec_entries(rs, cols, Some(sort), filter, now), k);
}

/// Under any active sort the unreversed listing is ordered by the sort keys;
/// for the age sort the key is the raw creation timestamp, so the order
/// follows the timestamps no matter how the rendered age strings compare.
pub proof fn lemma_sorted_listing<T: Resource>(
    rs: Seq<T>,
    cols: Seq<Seq<char>>,
    sort: SortFuncV,
    filter: Option<Seq<char>>,
    now: i64,
)
    ensures
        sorted(spec_pipeline(rs, cols, Some(sort), filter, false, now)),
{
    lemma_sort_sorted(spec_entries(rs, cols, Some(sort), filter, now));
}

/// Each entry of an age-sorted listing carries its record's raw timestamp as
/// its key, so the order of `lemma_sorted_listing` is timestamp order.
pub proof fn lemma_age_keys_are_timestamps<T: Resource>(
    rs: Seq<T>,
    cols: Seq<Seq<char>>,
    filter: Option<Seq<char>>,
    now: i64,
)
    ensures
        forall|i: int|
            0 <= i < spec_entries(rs, cols, Some(SortFuncV::Pre(PreSort::Age)), filter, now).len()
                ==> (#[trigger] spec_entries(
                rs,
                cols,
                Some(SortFuncV::Pre(PreSort::Age)),
                filter,
                now,
            )[i]).key is Time,
    decreases rs.len(),
{
    if rs.len() == 0 {
    } else {
        lemma_age_keys_are_timestamps(rs.drop_last(), cols, filter, now);
    }
}

} // verus!
