//! One stored pair of the table.

use vstd::prelude::*;

verus! {

/// A key together with the value stored under it.
#[derive(Debug, PartialEq, Eq)]
pub struct Record {
    pub key: String,
    pub value: String,
}

impl Record {
    /// The record as a pair of character sequences.
    pub open spec fn view(&self) -> (Seq<char>, Seq<char>) {
        (self.key@, self.value@)
    }

    /// Builds the record that stores `value` under `key`.
    pub fn new(key: String, value: String) -> (r: Record)
        ensures
            r.key == key,
            r.value == value,
            r@ == (key@, value@),
    {
        Record { key, value }
    }
}

} // verus!
