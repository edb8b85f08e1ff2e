//! Token estimation: a fast heuristic that approximates the token count
//! of a text as one token per four characters, rounded up.

use vstd::prelude::*;

verus! {

/// The estimated token count of a text: `ceil(length / 4)`.
pub open spec fn estimated_tokens(s: Seq<char>) -> int {
    (s.len() as int + 3) / 4
}

/// Rough token count estimation (4 characters per token, rounded up).
pub fn rough_token_count(s: &str) -> (r: usize)
    ensures
        r == estimated_tokens(s@),
{
    let n = s.unicode_len();
    let q = n / 4;
    let rem = n % 4;
    if rem == 0 {
        assert(q == estimated_tokens(s@));
        q
    } else {
        assert(q < usize::MAX) by {
            assert(n == 4 * q + rem);
        }
        assert(q + 1 == estimated_tokens(s@)) by {
            assert(n == 4 * q + rem);
        }
        q + 1
    }
}

} // verus!
