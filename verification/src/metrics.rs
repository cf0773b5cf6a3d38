//! The integer core of the memory probe: process memory usage is reported in
//! bytes and logged in gigabytes. The whole-mebibyte figure is computed here;
//! the caller divides it by 1024 once more, fractionally, for the
//! human-readable gigabyte line.

use vstd::prelude::*;

verus! {

/// Whole mebibytes in a byte count: two integer divisions by 1024.
pub fn mebibytes_of(bytes: u64) -> (r: u64)
    ensures
        r == bytes / 1024 / 1024,
        r <= bytes,
{
    bytes / 1024 / 1024
}

} // verus!
