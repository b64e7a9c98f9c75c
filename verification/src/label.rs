//! Label addressing: deterministic hashing from literal names to the
//! stable numeric identifiers that address tables and columns.
//!
//! A label authored as a literal name and one authored as a raw numeric
//! constant denote the same table or column exactly when their hashes
//! match, so equality between labels is hash equality, never string
//! equality.

use vstd::prelude::*;

verus! {

/// The stable 32-bit hash of a name, as the table format computes it.
/// The same name yields the same hash in every process and build.
pub uninterp spec fn name_hash(name: Seq<char>) -> u32;

/// Relies on `bdat::hash::murmur3_str`: the pinned hash over the table
/// format's names, a pure function of the string's characters alone.
#[verifier::external_body]
pub(crate) fn hash_name(name: &str) -> (h: u32)
    ensures
        h == name_hash(name@),
{
    bdat::hash::murmur3_str(name)
}

/// A hashed name addressing a table or a column.
///
/// Some labels are authored from literal names, others from raw
/// precomputed hash constants whose original name is unrecoverable;
/// both compare by hash value only.
#[derive(Clone, Copy, PartialEq, Eq, Structural, Debug)]
pub struct Label {
    pub hash: u32,
}

impl Label {
    /// A label from a raw precomputed hash constant.
    pub fn from_hash(hash: u32) -> (l: Label)
        ensures
            l.hash == hash,
    {
        Label { hash }
    }

    /// A label from a literal name, hashed deterministically.
    pub fn from_literal(name: &str) -> (l: Label)
        ensures
            l.hash == name_hash(name@),
    {
        Label { hash: hash_name(name) }
    }
}

} // verus!
