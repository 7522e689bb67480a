//! Finding the first occurrence of a value in a sequence.

use vstd::prelude::*;

verus! {

/// Where nothing before position `i` equals `x`, and the item at `i` does
/// (or `i` is the length), `i` is the first occurrence of `x` (or there is
/// none).
pub proof fn lemma_index_of_first<A>(s: Seq<A>, x: A, i: int)
    requires
        0 <= i <= s.len(),
        forall|j: int| 0 <= j < i ==> s[j] != x,
        i < s.len() ==> s[i] == x,
    ensures
        s.index_of_first(x) == if i < s.len() {
            Some(i)
        } else {
            None::<int>
        },
{
    s.index_of_first_ensures(x);
    match s.index_of_first(x) {
        Some(k) => {
            if i < s.len() {
                if k < i {
                    assert(s[k] != x);
                }
                if i < k {
                    assert(s[i] != x);
                }
            } else {
                assert(s[k] != x);
            }
        },
        None => {
            if i < s.len() {
                assert(s.contains(x));
            }
        },
    }
}

} // verus!
