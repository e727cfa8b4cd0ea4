//! Hashing of names.

use crate::trusted::{hash_text, hashed_writes};
use std::collections::hash_map::DefaultHasher;
use std::hash::Hasher;
use vstd::prelude::*;
use vstd::std_specs::hash::DefaultHasherAdditionalSpecFns;

verus! {

/// The hash of a text under the standard library's default hasher.
pub open spec fn spec_hash(text: Seq<char>) -> u64 {
    DefaultHasher::spec_finish(hashed_writes(text))
}

/// Hashes a text with the standard library's default hasher, freshly made.
pub fn hash(to_be_hashed: String) -> (digest: u64)
    ensures
        digest == spec_hash(to_be_hashed@),
{
    let mut hasher = DefaultHasher::new();
    hash_text(&to_be_hashed, &mut hasher);
    assert(hasher@ =~= hashed_writes(to_be_hashed@));
    hasher.finish()
}

} // verus!
