//! Decisions of the poll cycle that do not touch the filesystem or the
//! terminal: choosing the most recently created session file from a
//! directory listing, and sizing the trailing display window.

use vstd::prelude::*;

verus! {

/// The index of the entry with the greatest timestamp; the earliest such
/// entry wins on ties. `None` exactly when the listing is empty.
pub fn pick_latest(entries: &Vec<(String, u64)>) -> (r: Option<usize>)
    ensures
        r is None <==> entries@.len() == 0,
        r matches Some(i) ==> {
            &&& i < entries@.len()
            &&& forall|j: int| 0 <= j < entries@.len() ==> entries@[j].1 <= entries@[i as int].1
            &&& forall|j: int| 0 <= j < i ==> entries@[j].1 < entries@[i as int].1
        },
{
    if entries.len() == 0 {
        return Option::None;
    }
    let mut best: usize = 0;
    let mut j: usize = 1;
    while j < entries.len()
        invariant
            best < j <= entries@.len(),
            forall|k: int| 0 <= k < j ==> entries@[k].1 <= entries@[best as int].1,
            forall|k: int| 0 <= k < best ==> entries@[k].1 < entries@[best as int].1,
        decreases entries@.len() - j,
    {
        if entries[j].1 > entries[best].1 {
            best = j;
        }
        j = j + 1;
    }
    Option::Some(best)
}

/// The start index of the trailing window of at most `count` entries of a
/// list of length `len`: the whole list when it is shorter than the window.
pub fn trailing_start(len: usize, count: usize) -> (r: usize)
    ensures
        r == if count < len { len - count } else { 0 },
        r <= len,
{
    if count < len {
        len - count
    } else {
        0
    }
}

} // verus!
