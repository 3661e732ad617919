//! The mailbox sizing helpers at the crate root.

use test_accounting::account::AccountOperation;
use test_accounting::{calculate_mem_cache, get_mb_in_bytes};

#[test]
fn mb_in_bytes_is_exact() {
    assert_eq!(get_mb_in_bytes(0), 0);
    assert_eq!(get_mb_in_bytes(1), 1048576);
    assert_eq!(get_mb_in_bytes(25), 26214400);
}

#[test]
fn mem_cache_counts_whole_messages() {
    let message_size = std::mem::size_of::<AccountOperation>();
    assert!(message_size > 0);
    assert_eq!(calculate_mem_cache(25), 26214400 / message_size);
    assert_eq!(calculate_mem_cache(0), 0);
}
