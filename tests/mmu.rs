use aether_kernel::memory::UserMemory;
use aether_kernel::mmu::{make_user_accessible, AF, UXN};

/// Tables at 0x1000 (level 0), 0x2000 (level 1), 0x3000 (level 2) and
/// 0x4000 (level 3), each linking to the next through entry 0.
fn tables() -> UserMemory {
    let mut m = UserMemory::new(0, 0x10000);
    m.write_u64(0x1000, 0x2000 | 3);
    m.write_u64(0x2000, 0x3000 | 3);
    m.write_u64(0x3000, 0x4000 | 3);
    m
}

#[test]
fn page_is_opened_to_user_mode() {
    let mut m = tables();
    let page = 0x9000 | 3 | 0x80 | UXN;
    m.write_u64(0x4008, page);
    let flushed = make_user_accessible(&mut m, 0x1000, 0x1000, 0x10);
    assert_eq!(flushed, vec![0x1000]);
    assert_eq!(m.read_u64(0x4008), 0x9000 | 3 | 0x40 | AF);
}

#[test]
fn range_covers_every_touched_page() {
    let mut m = tables();
    for i in 0..4u64 {
        m.write_u64(0x4000 + 8 * (i + 2), (0x20000 + 0x1000 * i) | 3);
    }
    let flushed = make_user_accessible(&mut m, 0x1000, 0x2800, 0x1900);
    assert_eq!(flushed, vec![0x2000, 0x3000, 0x4000]);
    assert_eq!(m.read_u64(0x4010) & 0x4c0, 0x440);
    assert_eq!(m.read_u64(0x4020) & 0x4c0, 0x440);
    assert_eq!(m.read_u64(0x4028), 0x23000 | 3);
}

#[test]
fn block_descriptor_is_opened_whole() {
    let mut m = tables();
    m.write_u64(0x3008, 0x200000 | 1);
    let flushed = make_user_accessible(&mut m, 0x1000, 0x200000, 0x300000);
    assert_eq!(flushed, vec![0x200000]);
    assert_eq!(m.read_u64(0x3008), 0x200000 | 1 | 0x40 | AF);
}

#[test]
fn invalid_entries_are_passed_over() {
    let mut m = tables();
    let flushed = make_user_accessible(&mut m, 0x1000, 0x5000, 0x2000);
    assert!(flushed.is_empty());
    let untouched = tables();
    assert_eq!(m.bytes, untouched.bytes);
}
