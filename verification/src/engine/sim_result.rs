use crate::names::name_eq;
use crate::node_collection::NodeCollection;
use vstd::prelude::*;
use vstd::string::*;

verus! {

/// The number of columns that come before the unknowns.
pub open spec fn lead_columns(with_time: bool) -> nat {
    if with_time {
        2
    } else {
        1
    }
}

/// The column names of a result table: the iteration count, the time for
/// a transient run, then the unknowns in dictionary order of their names.
pub fn headers(nodes: &NodeCollection, with_time: bool) -> (h: Vec<String>)
    ensures
        h@.len() == lead_columns(with_time) + nodes.entries().len(),
        h@[0]@ == "n_iters"@,
        with_time ==> h@[1]@ == "t"@,
        forall|i: int|
            0 <= i < nodes.entries().len() ==> (#[trigger] h@[lead_columns(with_time) + i])@
                == nodes.entries()[i].name@,
{
    let mut h: Vec<String> = Vec::new();
    h.push("n_iters".to_owned());
    if with_time {
        h.push("t".to_owned());
    }
    let keys = nodes.keys();
    let ghost lead = h@.len();
    let mut i: usize = 0;
    while i < keys.len()
        invariant
            i <= keys@.len(),
            lead == lead_columns(with_time),
            h@.len() == lead + i,
            h@[0]@ == "n_iters"@,
            with_time ==> h@[1]@ == "t"@,
            forall|k: int| 0 <= k < i ==> (#[trigger] h@[lead + k])@ == keys@[k]@,
        decreases keys@.len() - i,
    {
        h.push(keys[i].clone());
        i += 1;
    }
    h
}

/// `r` is the first column called `label`, or nothing when the table has
/// no such column.
pub open spec fn is_column(headers: Seq<String>, label: Seq<char>, r: Option<usize>) -> bool {
    match r {
        Some(i) => i < headers.len() && headers[i as int]@ == label && forall|j: int|
            0 <= j < i ==> headers[j]@ != label,
        None => forall|j: int| 0 <= j < headers.len() ==> headers[j]@ != label,
    }
}

/// Finds the column of a label.
pub fn column_of(headers: &Vec<String>, label: &str) -> (r: Option<usize>)
    ensures
        is_column(headers@, label@, r),
{
    let mut i: usize = 0;
    while i < headers.len()
        invariant
            i <= headers@.len(),
            forall|j: int| 0 <= j < i ==> headers@[j]@ != label@,
        decreases headers@.len() - i,
    {
        if name_eq(headers[i].as_str(), label) {
            return Some(i);
        }
        i += 1;
    }
    None
}

} // verus!
