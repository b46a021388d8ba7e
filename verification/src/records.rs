//! What every raw record carries, whatever its kind: object metadata as the
//! engine reads it, reduced to plain values.
//!
//! The transport layer hands records over in this form; the engine never
//! sees wire-level detail. Timestamps are seconds; a label is one key/value
//! pair, in the order the source delivered them.

use vstd::prelude::*;
use crate::text::spec_join;
use crate::text::join_strings;
use crate::text::vstrs;

verus! {

/// One label: a key/value pair of plain text.
pub struct Label {
    pub key: String,
    pub value: String,
}

/// Object metadata as the engine reads it.
pub struct Metadata {
    /// The object's name; a record may lack one and then degrades to a
    /// sentinel identity rather than failing.
    pub name: Option<String>,
    pub namespace: Option<String>,
    pub labels: Vec<Label>,
    /// Creation time in seconds, if the record carries one.
    pub creation_timestamp: Option<i64>,
    /// Present exactly when the object is being deleted.
    pub deletion_timestamp: Option<i64>,
}

/// The `key=value` text of one label.
pub open spec fn spec_label_text(l: Label) -> Seq<char> {
    l.key@ + "="@ + l.value@
}

/// The rendered form of a label list: `key=value` pairs joined with `, `.
pub open spec fn spec_keyval(ls: Seq<Label>) -> Seq<char> {
    spec_join(ls.map_values(|l: Label| spec_label_text(l)), ", "@)
}

/// Renders a label list as `key=value` pairs joined with `, `.
pub fn keyval_string(labels: &Vec<Label>) -> (s: String)
    ensures
        s@ == spec_keyval(labels@),
{
    let mut parts: Vec<String> = Vec::new();
    let mut i: usize = 0;
    while i < labels.len()
        invariant
            i <= labels@.len(),
            vstrs(parts@) =~= labels@.take(i as int).map_values(|l: Label| spec_label_text(l)),
        decreases labels@.len() - i,
    {
        let mut part = labels[i].key.clone();
        part.append("=");
        part.append(labels[i].value.as_str());
        let ghost before = vstrs(parts@);
        parts.push(part);
        proof {
            assert(vstrs(parts@) =~= before.push(spec_label_text(labels@[i as int])));
            assert(vstrs(parts@) =~= labels@.take(i + 1).map_values(
                |l: Label| spec_label_text(l),
            ));
        }
        i = i + 1;
    }
    proof {
        assert(labels@.take(labels@.len() as int) =~= labels@);
    }
    join_strings(&parts, ", ")
}

} // verus!
