//! What the ordering of a `BTreeMap`'s iteration means for `u32` keys.
use vstd::prelude::*;
use vstd::std_specs::cmp::OrdSpec;

verus! {

/// A sequence of `u32` keys that a `BTreeMap` yields in increasing order is
/// strictly increasing in the integer sense.
pub proof fn lemma_increasing_keys(s: Seq<u32>)
    requires
        vstd::std_specs::btree::increasing_seq(s),
    ensures
        crate::ecs::strictly_increasing(s),
{
    broadcast use vstd::std_specs::btree::group_btree_axioms;
    vstd::std_specs::btree::axiom_increasing_seq_meaning::<u32>(s);
    assert forall|i: int, j: int| 0 <= i < j < s.len() implies s[i] < s[j] by {
        assert(s[i].cmp_spec(&s[j]) is Less);
    }
}

} // verus!
