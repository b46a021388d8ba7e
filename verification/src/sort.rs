//! The sort engine: sort keys, a total order on them, and a stable sort with
//! an exact functional specification.
//!
//! Sorting is stable by construction: the specification is the recursive
//! insertion sort, which keeps the relative order of entries with equal keys,
//! so ties keep fetch order.

use vstd::prelude::*;
use crate::cell::Cell;
use crate::cell::CellV;
use crate::kobj::KObj;
use crate::kobj::KObjV;
use crate::text::lex_le;
use crate::text::lemma_lex_total;
use crate::text::lemma_lex_trans;

verus! {

/// Model of a [`Row`].
pub ghost struct RowV {
    pub kobj: KObjV,
    pub cells: Seq<CellV>,
}

/// One emitted table row: the identity handle of the record it came from and
/// one cell per effective column.
pub struct Row {
    pub kobj: KObj,
    pub cells: Vec<Cell>,
}

impl View for Row {
    type V = RowV;

    open spec fn view(&self) -> RowV {
        RowV { kobj: self.kobj@, cells: self.cells@.map_values(|c: Cell| c@) }
    }
}

/// Model of a [`SortKey`].
pub ghost enum KeyV {
    /// A creation timestamp; `None` (no timestamp) orders after every `Some`.
    Time(Option<i64>),
    /// Rendered cell text, ordered lexicographically by code point.
    Text(Seq<char>),
}

/// The key an entry is sorted by: a raw timestamp for pre-extraction sorts,
/// rendered cell text for post-extraction sorts.
pub enum SortKey {
    Time(Option<i64>),
    Text(String),
}

impl View for SortKey {
    type V = KeyV;

    open spec fn view(&self) -> KeyV {
        match self {
            SortKey::Time(t) => KeyV::Time(*t),
            SortKey::Text(s) => KeyV::Text(s@),
        }
    }
}

/// The total order on keys: timestamps ascending with missing ones last, text
/// lexicographic; a timestamp key orders before a text key, though one run of
/// the engine never mixes the two.
pub open spec fn key_le(a: KeyV, b: KeyV) -> bool {
    match (a, b) {
        (KeyV::Time(x), KeyV::Time(y)) => match (x, y) {
            (Option::Some(p), Option::Some(q)) => p <= q,
            (Option::Some(_), Option::None) => true,
            (Option::None, Option::Some(_)) => false,
            (Option::None, Option::None) => true,
        },
        (KeyV::Time(_), KeyV::Text(_)) => true,
        (KeyV::Text(_), KeyV::Time(_)) => false,
        (KeyV::Text(s), KeyV::Text(t)) => lex_le(s, t),
    }
}

/// The key order is total.
pub proof fn lemma_key_total(a: KeyV, b: KeyV)
    ensures
        key_le(a, b) || key_le(b, a),
{
    match (a, b) {
        (KeyV::Text(s), KeyV::Text(t)) => lemma_lex_total(s, t),
        _ => {},
    }
}

/// The key order is reflexive.
pub proof fn lemma_key_refl(a: KeyV)
    ensures
        key_le(a, a),
{
    lemma_key_total(a, a);
}

/// The key order is transitive.
pub proof fn lemma_key_trans(a: KeyV, b: KeyV, c: KeyV)
    requires
        key_le(a, b),
        key_le(b, c),
    ensures
        key_le(a, c),
{
    match (a, b, c) {
        (KeyV::Text(s), KeyV::Text(t), KeyV::Text(u)) => lemma_lex_trans(s, t, u),
        _ => {},
    }
}

/// Decides [`key_le`] on two keys.
pub fn key_le_exec(a: &SortKey, b: &SortKey) -> (r: bool)
    ensures
        r == key_le(a@, b@),
{
    match (a, b) {
        (SortKey::Time(x), SortKey::Time(y)) => match (x, y) {
            (Some(p), Some(q)) => *p <= *q,
            (Some(_), None) => true,
            (None, Some(_)) => false,
            (None, None) => true,
        },
        (SortKey::Time(_), SortKey::Text(_)) => true,
        (SortKey::Text(_), SortKey::Time(_)) => false,
        (SortKey::Text(s), SortKey::Text(t)) => crate::text::str_le(s.as_str(), t.as_str()),
    }
}

/// Model of an [`Ent`].
pub ghost struct EntV {
    pub key: KeyV,
    pub row: RowV,
}

/// One entry of the pipeline between projection and emission: the row plus
/// the key the active sort compares it by.
pub struct Ent {
    pub key: SortKey,
    pub row: Row,
}

impl View for Ent {
    type V = EntV;

    open spec fn view(&self) -> EntV {
        EntV { key: self.key@, row: self.row@ }
    }
}

/// The views of a sequence of entries.
pub open spec fn vents(s: Seq<Ent>) -> Seq<EntV> {
    s.map_values(|e: Ent| e@)
}

/// Inserts `e` into `s` from the right: after every entry whose key is at
/// most `e`'s, before the rest. This placement is what makes the sort stable.
pub open spec fn spec_insert(s: Seq<EntV>, e: EntV) -> Seq<EntV>
    decreases s.len(),
{
    if s.len() == 0 {
        seq![e]
    } else if key_le(s.last().key, e.key) {
        s.push(e)
    } else {
        spec_insert(s.drop_last(), e).push(s.last())
    }
}

/// Stable insertion sort by [`key_le`]: the exact result the engine's sort
/// step must produce.
pub open spec fn spec_sort(s: Seq<EntV>) -> Seq<EntV>
    decreases s.len(),
{
    if s.len() == 0 {
        s
    } else {
        spec_insert(spec_sort(s.drop_last()), s.last())
    }
}

/// Is `s` ordered by [`key_le`]?
pub open spec fn sorted(s: Seq<EntV>) -> bool {
    forall|i: int, j: int| 0 <= i <= j < s.len() ==> key_le(s[i].key, s[j].key)
}

/// Inserting keeps every upper bound on the keys.
proof fn lemma_insert_bound(s: Seq<EntV>, e: EntV, b: KeyV)
    requires
        forall|i: int| 0 <= i < s.len() ==> key_le(#[trigger] s[i].key, b),
        key_le(e.key, b),
    ensures
        forall|i: int|
            0 <= i < spec_insert(s, e).len() ==> key_le(#[trigger] spec_insert(s, e)[i].key, b),
    decreases s.len(),
{
    if s.len() == 0 {
    } else if key_le(s.last().key, e.key) {
    } else {
        lemma_insert_bound(s.drop_last(), e, b);
    }
}

/// Inserting into a sorted sequence yields a sorted sequence.
proof fn lemma_insert_sorted(s: Seq<EntV>, e: EntV)
    requires
        sorted(s),
    ensures
        sorted(spec_insert(s, e)),
    decreases s.len(),
{
    if s.len() == 0 {
        lemma_key_refl(e.key);
        assert(spec_insert(s, e) == seq![e]);
        assert(forall|i: int, j: int|
            0 <= i <= j < seq![e].len() ==> key_le(#[trigger] seq![e][i].key, #[trigger] seq![e][j].key));
    } else if key_le(s.last().key, e.key) {
        assert forall|i: int, j: int|
            0 <= i <= j < s.push(e).len() implies key_le(s.push(e)[i].key, s.push(e)[j].key) by {
            if j == s.len() {
                if i < s.len() {
                    lemma_key_trans(s[i].key, s.last().key, e.key);
                } else {
                    lemma_key_refl(e.key);
                }
            }
        }
    } else {
        let dl = s.drop_last();
        assert(sorted(dl)) by {
            assert(forall|i: int, j: int|
                0 <= i <= j < dl.len() ==> key_le(#[trigger] dl[i].key, #[trigger] dl[j].key));
        }
        lemma_insert_sorted(dl, e);
        lemma_key_total(s.last().key, e.key);
        assert(key_le(e.key, s.last().key));
        assert(forall|i: int| 0 <= i < dl.len() ==> key_le(#[trigger] dl[i].key, s.last().key));
        lemma_insert_bound(dl, e, s.last().key);
        let inner = spec_insert(dl, e);
        let r = inner.push(s.last());
        assert forall|i: int, j: int| 0 <= i <= j < r.len() implies key_le(r[i].key, r[j].key) by {
            if j == inner.len() {
                if i < inner.len() {
                    assert(key_le(inner[i].key, s.last().key));
                } else {
                    lemma_key_refl(s.last().key);
                }
            }
        }
    }
}

/// The stable sort sorts.
pub proof fn lemma_sort_sorted(s: Seq<EntV>)
    ensures
        sorted(spec_sort(s)),
    decreases s.len(),
{
    if s.len() == 0 {
    } else {
        lemma_sort_sorted(s.drop_last());
        lemma_insert_sorted(spec_sort(s.drop_last()), s.last());
    }
}

/// Inserting grows the length by one.
pub proof fn lemma_insert_len(s: Seq<EntV>, e: EntV)
    ensures
        spec_insert(s, e).len() == s.len() + 1,
    decreases s.len(),
{
    if s.len() == 0 {
    } else if key_le(s.last().key, e.key) {
    } else {
        lemma_insert_len(s.drop_last(), e);
    }
}

/// The stable sort keeps the length.
pub proof fn lemma_sort_len(s: Seq<EntV>)
    ensures
        spec_sort(s).len() == s.len(),
    decreases s.len(),
{
    if s.len() == 0 {
    } else {
        lemma_sort_len(s.drop_last());
        lemma_insert_len(spec_sort(s.drop_last()), s.last());
    }
}

/// The entries of `s` whose key is exactly `k`, in order.
pub open spec fn keep_key(s: Seq<EntV>, k: KeyV) -> Seq<EntV>
    decreases s.len(),
{
    if s.len() == 0 {
        Seq::empty()
    } else {
        let rest = keep_key(s.drop_last(), k);
        if s.last().key == k {
            rest.push(s.last())
        } else {
            rest
        }
    }
}

/// Inserting an entry only appends it to its own key's subsequence.
proof fn lemma_insert_keeps_key(s: Seq<EntV>, e: EntV, k: KeyV)
    ensures
        keep_key(spec_insert(s, e), k) == if e.key == k {
            keep_key(s, k).push(e)
        } else {
            keep_key(s, k)
        },
    decreases s.len(),
{
    if s.len() == 0 {
        assert(spec_insert(s, e) == seq![e]);
        assert(seq![e].drop_last() =~= s);
    } else if key_le(s.last().key, e.key) {
        assert(s.push(e).drop_last() =~= s);
    } else {
        lemma_key_refl(e.key);
        assert(s.last().key != e.key);
        lemma_insert_keeps_key(s.drop_last(), e, k);
        let inner = spec_insert(s.drop_last(), e);
        assert(inner.push(s.last()).drop_last() =~= inner);
    }
}

/// The sort is stable: for every key, the entries carrying it form the same
/// subsequence before and after sorting, so ties keep fetch order.
pub proof fn lemma_sort_stable(s: Seq<EntV>, k: KeyV)
    ensures
        keep_key(spec_sort(s), k) == keep_key(s, k),
    decreases s.len(),
{
    if s.len() == 0 {
    } else {
        lemma_sort_stable(s.drop_last(), k);
        lemma_insert_keeps_key(spec_sort(s.drop_last()), s.last(), k);
    }
}

/// Where the insertion lands when `j` is the first position from the right
/// whose predecessor's key is at most `e`'s.
proof fn lemma_insert_at(s: Seq<EntV>, e: EntV, j: int)
    requires
        0 <= j <= s.len(),
        forall|m: int| j <= m < s.len() ==> !key_le(#[trigger] s[m].key, e.key),
        j > 0 ==> key_le(s[j - 1].key, e.key),
    ensures
        spec_insert(s, e) =~= s.take(j) + seq![e] + s.skip(j),
    decreases s.len(),
{
    if s.len() == j {
        if j == 0 {
        } else {
            assert(spec_insert(s, e) == s.push(e));
            assert(s.take(j) =~= s);
        }
    } else {
        assert(!key_le(s.last().key, e.key));
        let dl = s.drop_last();
        lemma_insert_at(dl, e, j);
        assert(dl.take(j) =~= s.take(j));
        assert(spec_insert(s, e) =~= (dl.take(j) + seq![e] + dl.skip(j)).push(s.last()));
    }
}

/// Sorts the entries in place; the result is exactly the stable insertion
/// sort of the input.
pub fn sort_entries(v: &mut Vec<Ent>)
    ensures
        vents(final(v)@) == spec_sort(vents(old(v)@)),
{
    let ghost orig = vents(old(v)@);
    let n: usize = v.len();
    if n <= 1 {
        proof {
            if n == 1 {
                assert(orig.drop_last() =~= Seq::<EntV>::empty());
                assert(spec_sort(orig.drop_last()) == orig.drop_last());
                assert(spec_insert(orig.drop_last(), orig.last()) =~= seq![orig.last()]);
                assert(spec_sort(orig) =~= orig);
            }
            assert(vents(v@) =~= spec_sort(orig));
        }
        return;
    }
    proof {
        let one = orig.take(1);
        assert(one.drop_last() =~= Seq::<EntV>::empty());
        assert(spec_sort(one.drop_last()) == one.drop_last());
        assert(spec_insert(one.drop_last(), one.last()) =~= seq![one.last()]);
        assert(spec_sort(one) =~= one);
        assert(vents(v@).take(1) =~= orig.take(1));
    }
    let mut i: usize = 1;
    while i < n
        invariant
            1 <= i <= n,
            n == v@.len(),
            orig.len() == n,
            vents(v@).take(i as int) =~= spec_sort(orig.take(i as int)),
            vents(v@).skip(i as int) =~= orig.skip(i as int),
        decreases n - i,
    {
        let ghost s = vents(v@).take(i as int);
        let ghost e = vents(v@)[i as int];
        proof {
            assert(vents(v@).skip(i as int)[0] == vents(v@)[i as int]);
            assert(orig.skip(i as int)[0] == orig[i as int]);
            assert(e == orig[i as int]);
        }
        let mut j: usize = i;
        while j > 0 && !key_le_exec(&v[j - 1].key, &v[i].key)
            invariant
                0 <= j <= i < n,
                n == v@.len(),
                s == vents(v@).take(i as int),
                e == vents(v@)[i as int],
                forall|m: int| j <= m < i ==> !key_le(#[trigger] s[m].key, e.key),
            decreases j,
        {
            j = j - 1;
        }
        proof {
            assert(j > 0 ==> key_le(s[j - 1].key, e.key));
            lemma_insert_at(s, e, j as int);
        }
        let ghost before = v@;
        let moved = v.remove(i);
        v.insert(j, moved);
        proof {
            assert(v@ =~= before.take(j as int) + seq![before[i as int]] + before.take(
                i as int,
            ).skip(j as int) + before.skip(i + 1));
            assert(vents(v@).take(i + 1) =~= s.take(j as int) + seq![e] + s.skip(j as int));
            assert(vents(v@).take(i + 1) =~= spec_insert(s, e));
            assert(orig.take(i + 1).drop_last() =~= orig.take(i as int));
            assert(orig.take(i + 1).last() == orig[i as int]);
            assert(e == orig[i as int]);
            assert(vents(v@).take(i + 1) =~= spec_sort(orig.take(i + 1)));
            assert forall|m: int| i + 1 <= m < n implies vents(v@)[m] == orig[m] by {
                assert(v@[m] == before.skip(i + 1)[m - (i + 1)]);
                assert(v@[m] == before[m]);
                assert(vents(before)[m] == vents(before).skip(i as int)[m - i]);
                assert(orig[m] == orig.skip(i as int)[m - i]);
            }
            assert(vents(v@).skip(i + 1) =~= orig.skip(i + 1));
        }
        i = i + 1;
    }
    proof {
        assert(orig.take(n as int) =~= orig);
        assert(vents(v@).take(n as int) =~= vents(v@));
        assert(vents(v@) =~= spec_sort(orig));
    }
}

/// Reverses the entries; the result is exactly the reverse of the input.
pub fn reverse_entries(v: &mut Vec<Ent>)
    ensures
        vents(final(v)@) == vents(old(v)@).reverse(),
{
    let ghost orig = vents(old(v)@);
    let n: usize = v.len();
    let mut out: Vec<Ent> = Vec::new();
    while v.len() > 0
        invariant
            orig.len() == n,
            v@.len() + out@.len() == n,
            vents(v@) =~= orig.take(v@.len() as int),
            forall|m: int| 0 <= m < out@.len() ==> vents(out@)[m] == orig[n - 1 - m],
        decreases v@.len(),
    {
        let ghost before = v@;
        match v.pop() {
            Some(e) => {
                let ghost outb = vents(out@);
                out.push(e);
                proof {
                    assert(vents(out@) =~= outb.push(e@));
                    assert(e@ == vents(before).last());
                    assert(vents(v@) =~= vents(before).drop_last());
                }
            },
            None => {
                proof {
                    assert(false);
                }
            },
        }
    }
    proof {
        assert(vents(out@) =~= orig.reverse());
    }
    *v = out;
}

} // verus!
