//! Comparing text.

use vstd::prelude::*;
use vstd::std_specs::iter::IteratorSpec;

verus! {

/// Whether `text` starts with `prefix`.
pub fn starts_with(text: &str, prefix: &str) -> (starts: bool)
    ensures
        starts == prefix@.is_prefix_of(text@),
{
    let mut text_chars = text.chars();
    let mut prefix_chars = prefix.chars();
    let ghost mut read: int = 0;
    loop
        invariant
            0 <= read <= text@.len(),
            read <= prefix@.len(),
            text_chars.remaining() == text@.skip(read),
            prefix_chars.remaining() == prefix@.skip(read),
            forall|j: int| 0 <= j < read ==> text@[j] == prefix@[j],
        decreases prefix@.len() - read,
    {
        match prefix_chars.next() {
            None => {
                assert(prefix@ =~= text@.subrange(0, prefix@.len() as int));
                return true;
            },
            Some(expected) => {
                assert(expected == prefix@[read]);
                match text_chars.next() {
                    None => {
                        assert(text@.len() < prefix@.len());
                        return false;
                    },
                    Some(found) => {
                        assert(found == text@[read]);
                        if found != expected {
                            proof {
                                if prefix@.is_prefix_of(text@) {
                                    assert(text@.subrange(0, prefix@.len() as int)[read]
                                        == prefix@[read]);
                                }
                            }
                            return false;
                        }
                        proof {
                            assert(text@.skip(read).drop_first() =~= text@.skip(read + 1));
                            assert(prefix@.skip(read).drop_first() =~= prefix@.skip(read + 1));
                            read = read + 1;
                        }
                    },
                }
            },
        }
    }
}

/// Whether two texts are the same.
pub fn text_equal(a: &str, b: &str) -> (equal: bool)
    ensures
        equal == (a@ == b@),
{
    let equal: bool = starts_with(a, b) && starts_with(b, a);
    proof {
        if equal {
            assert(a@ =~= b@);
        }
        if a@ == b@ {
            assert(a@ =~= a@.subrange(0, a@.len() as int));
        }
    }
    equal
}

} // verus!
