//! The size of the progress display.

use vstd::prelude::*;

verus! {

/// The number of blocks a source of `source_size` bytes spans, the last one
/// possibly partial.
pub open spec fn blocks_spanned(source_size: nat, block_size: nat) -> nat
    recommends
        block_size > 0,
{
    if source_size % block_size == 0 {
        source_size / block_size
    } else {
        source_size / block_size + 1
    }
}

/// How many steps the progress display should show: the blocks the source
/// spans, at most `block_limit`. It sizes the display only.
pub fn progress_total(source_size: u64, block_size: u64, block_limit: u64) -> (r: u64)
    requires
        block_size > 0,
    ensures
        r == (if blocks_spanned(source_size as nat, block_size as nat) <= block_limit {
            blocks_spanned(source_size as nat, block_size as nat)
        } else {
            block_limit as nat
        }),
{
    let full = source_size / block_size;
    let spanned = if source_size % block_size == 0 {
        full
    } else {
        assert(full < u64::MAX) by (nonlinear_arith)
            requires
                full == source_size / block_size,
                block_size >= 2,
        ;
        full + 1
    };
    if spanned <= block_limit {
        spanned
    } else {
        block_limit
    }
}

} // verus!
