//! Uploads of files to the storage that Seer hands out.
use vstd::prelude::*;
use crate::text::{chars_of, contains, contains_chars};

verus! {

/// Whether an upload address belongs to the mock server, whose uploads are skipped.
pub fn is_mock_upload(url: &str) -> (r: bool)
    ensures
        r == contains(url@, "fake-upload"@),
{
    let u = chars_of(url);
    let p = chars_of("fake-upload");
    contains_chars(&u, &p)
}

} // verus!
