//! Normalising content hashes.
use vstd::prelude::*;
use crate::text::{ascii_lower_seq, ascii_lowercase_chars, chars_of, slice_chars, starts_with, starts_with_chars, string_from};

verus! {

/// A hash without a leading `0x`, in ASCII lower case.
pub open spec fn normalize_sha_spec(s: Seq<char>) -> Seq<char> {
    ascii_lower_seq(
        if starts_with(s, "0x"@) {
            s.skip(2)
        } else {
            s
        },
    )
}

/// Drops a leading `0x` from a hash and writes it in lower case.
pub fn normalize_sha(s: &str) -> (r: String)
    ensures
        r@ == normalize_sha_spec(s@),
{
    let c = chars_of(s);
    let prefix = chars_of("0x");
    proof {
        reveal_strlit("0x");
    }
    let trimmed = if starts_with_chars(&c, &prefix) {
        let t = slice_chars(&c, 2, c.len());
        assert(t@ =~= c@.skip(2));
        t
    } else {
        c
    };
    let l = ascii_lowercase_chars(&trimmed);
    string_from(&l)
}

} // verus!
