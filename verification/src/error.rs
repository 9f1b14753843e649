//! Errors of the threat store.

use vstd::prelude::*;

verus! {

/// Why a store operation failed.
#[derive(Debug)]
pub enum StoreError {
    /// The database failed to read or write.
    Db(sled::Error),
    /// A value could not be encoded or compressed.
    Encode,
    /// A stored value is not a compressed frame.
    Decompress,
    /// A stored value does not decode to a value of the expected type.
    Decode,
}

} // verus!
