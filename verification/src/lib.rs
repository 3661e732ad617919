//! A small accounting engine: a verified per-account ledger state
//! machine, and a sharded dispatcher that routes operations to workers
//! over bounded mailboxes and merges their reports.

pub mod account;
pub mod channel;
pub mod processor;

use vstd::prelude::*;

verus! {

/// Bytes in the given number of megabytes.
pub fn get_mb_in_bytes(mb: usize) -> (r: usize)
    requires
        mb * 1024 * 1024 <= usize::MAX,
    ensures
        r == mb * 1024 * 1024,
{
    mb * 1024 * 1024
}

/// How many queued operations fit in the given number of megabytes,
/// going by the in-memory size of one operation.
pub fn calculate_mem_cache(megabytes: usize) -> (r: usize)
    requires
        megabytes * 1024 * 1024 <= usize::MAX,
    ensures
        ({
            let sz = vstd::layout::size_of::<crate::account::AccountOperation>();
            if sz == 0 {
                r == 0
            } else {
                r == (megabytes * 1024 * 1024) as nat / sz
            }
        }),
{
    let message_size = core::mem::size_of::<crate::account::AccountOperation>();
    if message_size == 0 {
        0
    } else {
        get_mb_in_bytes(megabytes) / message_size
    }
}

} // verus!
