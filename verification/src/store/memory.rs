//! The factory of in-memory stores.

use crate::store::btree_store::BTreeStore;
use crate::store::error::Result;
use vstd::prelude::*;

verus! {

/// `MemoryStoreFactory` is a factory for in-memory stores.
pub struct MemoryStoreFactory;

impl MemoryStoreFactory {
    /// `new_btree` creates a new `BTreeStore`.
    pub fn new_btree(max_value_size: u32, max_size: u32) -> (r: Result<BTreeStore>)
        ensures
            match r {
                Ok(s) => {
                    &&& max_value_size <= max_size
                    &&& s.items() == Seq::<(Seq<u8>, Seq<u8>)>::empty()
                    &&& s.keys_total() == 0
                    &&& s.values_total() == 0
                    &&& s.value_limit() == max_value_size
                    &&& s.size_limit() == max_size
                },
                Err(e) => e is InvalidSize && max_size < max_value_size,
            },
    {
        BTreeStore::new(max_value_size, max_size)
    }
}

} // verus!
