//! Contracts for the few functions of the standard library that the crate
//! calls and that come without one.

use crate::id::ProcessId;
use std::collections::HashSet;
use vstd::prelude::*;
use vstd::std_specs::iter::IteratorSpec;

verus! {

/// `HashSet::clone` on a set of process identifiers: the copy holds the same
/// identifiers.
#[verifier::external_body]
pub(crate) fn clone_process_set(set: &HashSet<ProcessId>) -> (copy: HashSet<ProcessId>)
    ensures
        copy@ == set@,
{
    set.clone()
}

/// The members of a set of process identifiers, each once, in the order in
/// which the set hands them out.
pub(crate) fn members(set: &HashSet<ProcessId>) -> (list: Vec<ProcessId>)
    ensures
        list@.to_set() == set@,
        list@.no_duplicates(),
        list@.len() == set@.len(),
{
    broadcast use vstd::std_specs::hash::group_hash_axioms;

    let mut list: Vec<ProcessId> = Vec::new();
    let ghost all = set.iter().remaining();
    for member in iter: set.iter()
        invariant
            all == iter.seq(),
            list@.len() == iter.index(),
            forall|j: int| 0 <= j < list@.len() ==> list@[j] == *(#[trigger] all[j]),
    {
        list.push(*member);
    }
    proof {
        vstd::std_specs::hash::axiom_spec_hash_keys_iter(set);
        assert(list@ =~= all.unref());
    }
    list
}

} // verus!
