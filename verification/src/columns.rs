//! Column descriptors, sort resolution, and validation of a list request.
//!
//! A resource kind carries two disjoint ordered descriptor lists: "base"
//! columns, always shown, and "extra" columns, shown only when a show flag
//! requests them or a sort targets them. A show or sort request that names a
//! column absent from the relevant lists is a configuration error caught here,
//! before anything is fetched or emitted.

use vstd::prelude::*;
use crate::error::ConfigError;
use crate::kobj::dup_string_vec;
use crate::text::str_eq;
use crate::text::vstrs;

verus! {

/// One column descriptor: the lowercase user-facing flag and the display name
/// the header and the extractor registry use.
pub struct Column {
    pub flag: String,
    pub display: String,
}

impl Column {
    /// A descriptor built from two literals.
    pub fn of(flag: &str, display: &str) -> (c: Column)
        ensures
            c.flag@ == flag@,
            c.display@ == display@,
    {
        Column { flag: String::from_str(flag), display: String::from_str(display) }
    }
}

/// Is some descriptor in `cols` keyed by `flag`?
pub open spec fn spec_flag_known(cols: Seq<Column>, flag: Seq<char>) -> bool
    decreases cols.len(),
{
    if cols.len() == 0 {
        false
    } else if cols[0].flag@ == flag {
        true
    } else {
        spec_flag_known(cols.drop_first(), flag)
    }
}

/// The display name of the first descriptor in `cols` keyed by `flag`.
pub open spec fn spec_display_for(cols: Seq<Column>, flag: Seq<char>) -> Seq<char>
    decreases cols.len(),
{
    if cols.len() == 0 {
        Seq::empty()
    } else if cols[0].flag@ == flag {
        cols[0].display@
    } else {
        spec_display_for(cols.drop_first(), flag)
    }
}

/// Looks `flag` up in `cols`; `Some` holds a copy of the display name of the
/// first matching descriptor.
pub fn find_display(cols: &Vec<Column>, flag: &str) -> (r: Option<String>)
    ensures
        (r is Some) == spec_flag_known(cols@, flag@),
        r is Some ==> r->0@ == spec_display_for(cols@, flag@),
{
    let mut i: usize = 0;
    proof {
        assert(cols@.skip(0) =~= cols@);
    }
    while i < cols.len()
        invariant
            i <= cols@.len(),
            spec_flag_known(cols@, flag@) == spec_flag_known(cols@.skip(i as int), flag@),
            spec_flag_known(cols@, flag@) ==> spec_display_for(cols@, flag@)
                == spec_display_for(cols@.skip(i as int), flag@),
        decreases cols@.len() - i,
    {
        proof {
            assert(cols@.skip(i as int).drop_first() =~= cols@.skip(i + 1));
        }
        if str_eq(cols[i].flag.as_str(), flag) {
            proof {
                assert(cols@.skip(i as int)[0] == cols@[i as int]);
            }
            return Some(cols[i].display.clone());
        }
        i = i + 1;
    }
    proof {
        assert(cols@.skip(cols@.len() as int) =~= Seq::<Column>::empty());
    }
    None
}

/// Is `s` one of the strings in `v`?
pub fn vec_contains_str(v: &Vec<String>, s: &str) -> (r: bool)
    ensures
        r == vstrs(v@).contains(s@),
{
    let mut i: usize = 0;
    while i < v.len()
        invariant
            i <= v@.len(),
            forall|k: int| 0 <= k < i ==> vstrs(v@)[k] != s@,
        decreases v@.len() - i,
    {
        if str_eq(v[i].as_str(), s) {
            proof {
                assert(vstrs(v@)[i as int] == s@);
            }
            return true;
        }
        i = i + 1;
    }
    false
}

/// The semantic pre-extraction sorts the engine recognises; they compare raw
/// records, not rendered cell text.
pub enum PreSort {
    /// Order by the creation timestamp, oldest first; records without one
    /// come last.
    Age,
}

/// Model of a [`SortFunc`].
pub ghost enum SortFuncV {
    Pre(PreSort),
    Post(Seq<char>),
}

/// A resolved sort: either a pre-extraction comparator on the raw record, or
/// lexicographic comparison of the rendered text of a named column.
pub enum SortFunc {
    Pre(PreSort),
    Post(String),
}

impl View for SortFunc {
    type V = SortFuncV;

    open spec fn view(&self) -> SortFuncV {
        match self {
            SortFunc::Pre(p) => SortFuncV::Pre(*p),
            SortFunc::Post(name) => SortFuncV::Post(name@),
        }
    }
}

/// What a sort request resolves to, if anything: `age` always maps to the
/// pre-extraction age comparator; any other name maps to post-extraction
/// comparison of the base or extra column it is the flag of.
pub open spec fn spec_resolve_sort(
    req: Seq<char>,
    base: Seq<Column>,
    extra: Seq<Column>,
) -> Option<SortFuncV> {
    if req == "age"@ {
        Some(SortFuncV::Pre(PreSort::Age))
    } else if spec_flag_known(base, req) {
        Some(SortFuncV::Post(spec_display_for(base, req)))
    } else if spec_flag_known(extra, req) {
        Some(SortFuncV::Post(spec_display_for(extra, req)))
    } else {
        None
    }
}

/// Resolves a sort request against the two descriptor lists; an unknown name
/// is a configuration error carrying that name.
pub fn resolve_sort(req: &str, base: &Vec<Column>, extra: &Vec<Column>) -> (r: Result<
    SortFunc,
    ConfigError,
>)
    ensures
        match spec_resolve_sort(req@, base@, extra@) {
            Some(f) => r is Ok && r->Ok_0@ == f,
            None => r matches Err(ConfigError::UnknownColumn { name }) && name@ == req@,
        },
{
    if str_eq(req, "age") {
        Ok(SortFunc::Pre(PreSort::Age))
    } else if let Some(d) = find_display(base, req) {
        Ok(SortFunc::Post(d))
    } else if let Some(d) = find_display(extra, req) {
        Ok(SortFunc::Post(d))
    } else {
        Err(ConfigError::UnknownColumn { name: String::from_str(req) })
    }
}

/// The first show flag in `show` that names no extra column, if any.
pub open spec fn spec_first_unknown(show: Seq<Seq<char>>, extra: Seq<Column>) -> Option<Seq<char>>
    decreases show.len(),
{
    if show.len() == 0 {
        None
    } else if !spec_flag_known(extra, show[0]) {
        Some(show[0])
    } else {
        spec_first_unknown(show.drop_first(), extra)
    }
}

/// Checks every show flag against the extra descriptors; the first unknown
/// one is a configuration error carrying that flag.
pub fn validate_show(show: &Vec<String>, extra: &Vec<Column>) -> (r: Result<(), ConfigError>)
    ensures
        match spec_first_unknown(vstrs(show@), extra@) {
            None => r is Ok,
            Some(f) => r matches Err(ConfigError::UnknownColumn { name }) && name@ == f,
        },
{
    let mut i: usize = 0;
    proof {
        assert(vstrs(show@).skip(0) =~= vstrs(show@));
    }
    while i < show.len()
        invariant
            i <= show@.len(),
            spec_first_unknown(vstrs(show@), extra@) == spec_first_unknown(
                vstrs(show@).skip(i as int),
                extra@,
            ),
        decreases show@.len() - i,
    {
        proof {
            assert(vstrs(show@).skip(i as int).drop_first() =~= vstrs(show@).skip(i + 1));
            assert(vstrs(show@).skip(i as int)[0] == show@[i as int]@);
        }
        if find_display(extra, show[i].as_str()).is_none() {
            return Err(ConfigError::UnknownColumn { name: show[i].clone() });
        }
        i = i + 1;
    }
    proof {
        assert(vstrs(show@).skip(show@.len() as int) =~= Seq::<Seq<char>>::empty());
    }
    Ok(())
}

/// The display names of the extra columns selected by the flag list, in
/// descriptor order; the deprecated labels switch selects the `labels` column
/// as if its flag had been given.
pub open spec fn spec_selected(
    extra: Seq<Column>,
    flags: Seq<Seq<char>>,
    labels: bool,
) -> Seq<Seq<char>>
    decreases extra.len(),
{
    if extra.len() == 0 {
        Seq::empty()
    } else {
        let rest = spec_selected(extra.drop_first(), flags, labels);
        if flags.contains(extra[0].flag@) || (labels && extra[0].flag@ == "labels"@) {
            seq![extra[0].display@] + rest
        } else {
            rest
        }
    }
}

/// Appends to `cols` the display name of every extra column selected by
/// `flags` (or by the deprecated labels switch), in descriptor order.
pub fn add_extra_cols(
    cols: &mut Vec<String>,
    labels: bool,
    flags: &Vec<String>,
    extra: &Vec<Column>,
)
    ensures
        vstrs(final(cols)@) == vstrs(old(cols)@) + spec_selected(extra@, vstrs(flags@), labels),
{
    let mut i: usize = 0;
    proof {
        assert(extra@.skip(0) =~= extra@);
    }
    while i < extra.len()
        invariant
            i <= extra@.len(),
            vstrs(old(cols)@) + spec_selected(extra@, vstrs(flags@), labels) == vstrs(cols@)
                + spec_selected(extra@.skip(i as int), vstrs(flags@), labels),
        decreases extra@.len() - i,
    {
        proof {
            assert(extra@.skip(i as int).drop_first() =~= extra@.skip(i + 1));
            assert(extra@.skip(i as int)[0] == extra@[i as int]);
        }
        let pick = vec_contains_str(flags, extra[i].flag.as_str()) || (labels && str_eq(
            extra[i].flag.as_str(),
            "labels",
        ));
        if pick {
            let ghost before = vstrs(cols@);
            cols.push(extra[i].display.clone());
            proof {
                assert(vstrs(cols@) =~= before + seq![extra@[i as int].display@]);
                assert(vstrs(old(cols)@) + spec_selected(extra@, vstrs(flags@), labels) =~= vstrs(
                    cols@,
                ) + spec_selected(extra@.skip(i + 1), vstrs(flags@), labels));
            }
        }
        i = i + 1;
    }
    proof {
        assert(extra@.skip(extra@.len() as int) =~= Seq::<Column>::empty());
        assert(vstrs(old(cols)@) + spec_selected(extra@, vstrs(flags@), labels) =~= vstrs(cols@));
    }
}

/// What remains of `cols` after removing every occurrence of `display`.
pub open spec fn spec_remove_col(cols: Seq<Seq<char>>, display: Seq<char>) -> Seq<Seq<char>>
    decreases cols.len(),
{
    if cols.len() == 0 {
        Seq::empty()
    } else {
        let rest = spec_remove_col(cols.drop_first(), display);
        if cols[0] == display {
            rest
        } else {
            seq![cols[0]] + rest
        }
    }
}

/// Removes every occurrence of `display` from the effective column list (used
/// to drop the namespace column when a namespace is already fixed).
pub fn remove_column(cols: &mut Vec<String>, display: &str)
    ensures
        vstrs(final(cols)@) == spec_remove_col(vstrs(old(cols)@), display@),
{
    let mut out: Vec<String> = Vec::new();
    let mut i: usize = 0;
    proof {
        assert(vstrs(cols@).skip(0) =~= vstrs(cols@));
    }
    while i < cols.len()
        invariant
            i <= cols@.len(),
            cols@ == old(cols)@,
            spec_remove_col(vstrs(cols@), display@) == vstrs(out@) + spec_remove_col(
                vstrs(cols@).skip(i as int),
                display@,
            ),
        decreases cols@.len() - i,
    {
        proof {
            assert(vstrs(cols@).skip(i as int).drop_first() =~= vstrs(cols@).skip(i + 1));
            assert(vstrs(cols@).skip(i as int)[0] == cols@[i as int]@);
        }
        if !str_eq(cols[i].as_str(), display) {
            let ghost before = vstrs(out@);
            out.push(cols[i].clone());
            proof {
                assert(vstrs(out@) =~= before + seq![cols@[i as int]@]);
            }
        }
        proof {
            assert(spec_remove_col(vstrs(cols@), display@) =~= vstrs(out@) + spec_remove_col(
                vstrs(cols@).skip(i + 1),
                display@,
            ));
        }
        i = i + 1;
    }
    proof {
        assert(vstrs(cols@).skip(cols@.len() as int) =~= Seq::<Seq<char>>::empty());
        assert(spec_remove_col(vstrs(cols@), display@) =~= vstrs(out@));
    }
    *cols = out;
}

/// A list request as the option bag hands it over: the requested extra
/// columns, the sort request, the deprecated labels switch, the name filter,
/// and the reverse switch.
pub struct ListOptions {
    pub show: Vec<String>,
    pub sort: Option<String>,
    pub labels: bool,
    pub filter: Option<String>,
    pub reverse: bool,
}

/// A validated list request: the effective column display names in order, the
/// resolved sort, the filter, and the reverse switch.
pub struct Plan {
    pub columns: Vec<String>,
    pub sort: Option<SortFunc>,
    pub filter: Option<String>,
    pub reverse: bool,
}

/// The flag list used for column selection: the show flags, plus the sort
/// request when it names an extra column (so sorting by a hidden column
/// forces that column visible).
pub open spec fn spec_effective_flags(
    show: Seq<Seq<char>>,
    sort: Option<Seq<char>>,
    extra: Seq<Column>,
) -> Seq<Seq<char>> {
    match sort {
        Some(req) => if spec_flag_known(extra, req) {
            show.push(req)
        } else {
            show
        },
        None => show,
    }
}

/// The effective columns of a valid request: every base display name, then
/// the selected extra display names in descriptor order.
pub open spec fn spec_effective_columns(
    base: Seq<Column>,
    extra: Seq<Column>,
    show: Seq<Seq<char>>,
    sort: Option<Seq<char>>,
    labels: bool,
) -> Seq<Seq<char>> {
    base.map_values(|c: Column| c.display@) + spec_selected(
        extra,
        spec_effective_flags(show, sort, extra),
        labels,
    )
}

/// The model of the sort request inside an option bag.
pub open spec fn view_opt_str(s: Option<String>) -> Option<Seq<char>> {
    match s {
        Some(s) => Some(s@),
        None => None,
    }
}

/// Validates a list request against a resource kind's descriptors and builds
/// the plan: an unknown sort name fails first, then an unknown show flag; a
/// valid request yields the effective columns, the resolved sort, and the
/// filter and reverse switches unchanged.
pub fn validate(opts: &ListOptions, base: &Vec<Column>, extra: &Vec<Column>) -> (r: Result<
    Plan,
    ConfigError,
>)
    ensures
        ({
            let sreq = view_opt_str(opts.sort);
            match sreq {
                Some(req) if spec_resolve_sort(req, base@, extra@) is None => r matches Err(
                    ConfigError::UnknownColumn { name },
                ) && name@ == req,
                _ => match spec_first_unknown(vstrs(opts.show@), extra@) {
                    Some(f) => r matches Err(ConfigError::UnknownColumn { name }) && name@ == f,
                    None => r is Ok && {
                        let plan = r->Ok_0;
                        &&& vstrs(plan.columns@) == spec_effective_columns(
                            base@,
                            extra@,
                            vstrs(opts.show@),
                            sreq,
                            opts.labels,
                        )
                        &&& match sreq {
                            Some(req) => plan.sort is Some && plan.sort->0@
                                == spec_resolve_sort(req, base@, extra@)->0,
                            None => plan.sort is None,
                        }
                        &&& match opts.filter {
                            Some(p) => plan.filter is Some && plan.filter->0@ == p@,
                            None => plan.filter is None,
                        }
                        &&& plan.reverse == opts.reverse
                    },
                },
            }
        }),
{
    let sort: Option<SortFunc> = match &opts.sort {
        Some(req) => match resolve_sort(req.as_str(), base, extra) {
            Ok(f) => Some(f),
            Err(e) => {
                return Err(e);
            },
        },
        None => None,
    };
    if let Err(e) = validate_show(&opts.show, extra) {
        return Err(e);
    }
    let mut flags = dup_string_vec(&opts.show);
    if let Some(req) = &opts.sort {
        if find_display(extra, req.as_str()).is_some() {
            let ghost before = vstrs(flags@);
            flags.push(req.clone());
            proof {
                assert(vstrs(flags@) =~= before.push(req@));
            }
        }
    }
    let mut columns: Vec<String> = Vec::new();
    let mut i: usize = 0;
    while i < base.len()
        invariant
            i <= base@.len(),
            vstrs(columns@) =~= base@.map_values(|c: Column| c.display@).take(i as int),
        decreases base@.len() - i,
    {
        let ghost before = vstrs(columns@);
        columns.push(base[i].display.clone());
        proof {
            assert(vstrs(columns@) =~= before.push(base@[i as int].display@));
            assert(vstrs(columns@) =~= base@.map_values(|c: Column| c.display@).take(i + 1));
        }
        i = i + 1;
    }
    proof {
        assert(base@.map_values(|c: Column| c.display@).take(base@.len() as int)
            =~= base@.map_values(|c: Column| c.display@));
    }
    add_extra_cols(&mut columns, opts.labels, &flags, extra);
    let filter = match &opts.filter {
        Some(p) => Some(p.clone()),
        None => None,
    };
    proof {
        assert(vstrs(flags@) =~= spec_effective_flags(
            vstrs(opts.show@),
            view_opt_str(opts.sort),
            extra@,
        ));
    }
    Ok(Plan { columns, sort, filter, reverse: opts.reverse })
}

} // verus!
