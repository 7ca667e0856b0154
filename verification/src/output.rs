//! The list of process ids that is printed in place of the entries.

use std::collections::HashSet;
use vstd::prelude::*;
use crate::model::FdEntry;
use crate::trusted::sorted;

verus! {

/// Whether some entry is of the given process.
pub open spec fn has_pid(entries: Seq<FdEntry>, pid: i32) -> bool {
    exists|k: int| 0 <= k < entries.len() && (#[trigger] entries[k]).pid == pid
}

/// Whether the numbers ascend without a repeat.
pub open spec fn strictly_ascending(s: Seq<i32>) -> bool {
    forall|i: int, j: int| 0 <= i < j < s.len() ==> s[i] < s[j]
}

/// The ids of the processes that the entries are of, each once, in ascending order.
pub fn unique_pids(entries: &Vec<FdEntry>) -> (r: Vec<i32>)
    ensures
        strictly_ascending(r@),
        forall|p: i32| r@.contains(p) <==> has_pid(entries@, p),
{
    broadcast use vstd::std_specs::hash::group_hash_axioms;

    let mut pids: HashSet<i32> = HashSet::new();
    let mut i: usize = 0;
    while i < entries.len()
        invariant
            i <= entries@.len(),
            forall|p: i32|
                pids@.contains(p) <==> exists|k: int|
                    0 <= k < i && (#[trigger] entries@[k]).pid == p,
        decreases entries@.len() - i,
    {
        let ghost before = pids@;
        pids.insert(entries[i].pid);
        proof {
            assert forall|p: i32| pids@.contains(p) <==> exists|k: int|
                0 <= k < i + 1 && (#[trigger] entries@[k]).pid == p by {
                if before.contains(p) {
                    let k = choose|k: int| 0 <= k < i && (#[trigger] entries@[k]).pid == p;
                    assert(0 <= k < i + 1 && entries@[k].pid == p);
                }
                if p == entries@[i as int].pid {
                    assert(0 <= i < i + 1 && entries@[i as int].pid == p);
                }
            }
        }
        i += 1;
    }
    sorted(pids)
}

} // verus!
