//! Facts about sequences that the loops of the crate rely on.

use vstd::prelude::*;

verus! {

/// The elements of a prefix that is one longer are those of the prefix and
/// the element that follows it.
pub proof fn lemma_prefix_to_set_step<T>(s: Seq<T>, i: int)
    requires
        0 <= i < s.len(),
    ensures
        s.subrange(0, i + 1).to_set() == s.subrange(0, i).to_set().insert(s[i]),
{
    let longer = s.subrange(0, i + 1);
    let shorter = s.subrange(0, i);
    assert forall|x: T| longer.to_set().contains(x) == shorter.to_set().insert(s[i]).contains(
        x,
    ) by {
        if longer.contains(x) {
            let k = choose|k: int| 0 <= k < longer.len() && longer[k] == x;
            if k < i {
                assert(shorter[k] == x);
            }
        }
        if shorter.contains(x) {
            let k = choose|k: int| 0 <= k < shorter.len() && shorter[k] == x;
            assert(longer[k] == x);
        }
        if x == s[i] {
            assert(longer[i] == x);
        }
    }
    assert(longer.to_set() =~= shorter.to_set().insert(s[i]));
}

/// The whole sequence is its own longest prefix.
pub proof fn lemma_full_prefix<T>(s: Seq<T>)
    ensures
        s.subrange(0, s.len() as int) == s,
{
    assert(s.subrange(0, s.len() as int) =~= s);
}

} // verus!
