//! Comparing texts character by character.

use vstd::prelude::*;
use vstd::std_specs::iter::IteratorSpec;

verus! {

broadcast use vstd::string::group_string_axioms;

/// Tells whether `text` begins with `prefix`, character for character.
pub fn starts_with(text: &str, prefix: &str) -> (yes: bool)
    ensures
        yes == prefix@.is_prefix_of(text@),
{
    let mut rest = text.chars();
    let mut wanted = prefix.chars();
    let ghost mut seen: int = 0;
    loop
        invariant
            rest.obeys_prophetic_iter_laws(),
            wanted.obeys_prophetic_iter_laws(),
            0 <= seen <= text@.len(),
            seen <= prefix@.len(),
            rest.remaining() == text@.subrange(seen, text@.len() as int),
            wanted.remaining() == prefix@.subrange(seen, prefix@.len() as int),
            text@.subrange(0, seen) == prefix@.subrange(0, seen),
        decreases prefix@.len() - seen,
    {
        match wanted.next() {
            None => {
                assert(prefix@ =~= text@.subrange(0, seen));
                return true;
            },
            Some(want) => {
                match rest.next() {
                    None => {
                        return false;
                    },
                    Some(have) => {
                        if have != want {
                            assert(text@[seen] != prefix@[seen]);
                            return false;
                        }
                        proof {
                            assert(text@.subrange(0, seen + 1) =~= text@.subrange(0, seen).push(
                                have,
                            ));
                            assert(prefix@.subrange(0, seen + 1) =~= prefix@.subrange(0, seen).push(
                                want,
                            ));
                            seen = seen + 1;
                        }
                    },
                }
            },
        }
    }
}

/// Tells whether two texts hold the same characters.
pub fn same_text(a: &str, b: &str) -> (same: bool)
    ensures
        same == (a@ == b@),
{
    let same = a.unicode_len() == b.unicode_len() && starts_with(a, b);
    proof {
        if same {
            assert(a@ =~= b@);
        }
    }
    same
}

} // verus!
