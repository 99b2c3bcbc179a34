//! Sets of small numbers.

use std::collections::HashSet;
use vstd::prelude::*;

verus! {

/// The members of a set, each once.
pub fn members(set: &HashSet<u16>) -> (r: Vec<u16>)
    ensures
        r@.no_duplicates(),
        r@.len() == set@.len(),
        forall|n: u16| r@.contains(n) <==> set@.contains(n),
{
    broadcast use vstd::std_specs::hash::group_hash_axioms;

    let mut found: Vec<u16> = Vec::new();
    for item in it: set.iter()
        invariant
            found@ == it.seq().unref().take(it.index() as int),
            it.seq().unref().to_set() == set@,
            it.seq().no_duplicates(),
            it.seq().len() == set@.len(),
            it.index() == it.seq().len() ==> found@.to_set() == set@,
    {
        found.push(*item);
        proof {
            let n = it.index() as int;
            assert(it.seq().unref().take(n + 1) =~= it.seq().unref().take(n).push(
                it.seq().unref()[n],
            ));
            assert(n + 1 == it.seq().len() ==> it.seq().unref().take(n + 1) =~= it.seq().unref());
        }
    }
    proof {
        assert forall|n: u16| found@.contains(n) <==> set@.contains(n) by {
            assert(found@.to_set().contains(n) <==> found@.contains(n));
        }
    }
    found
}

} // verus!
