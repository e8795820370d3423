use aether_kernel::bytes::{read_le, read_u16, read_u32, read_u64, u64_to_le};
use aether_kernel::memory::UserMemory;

#[test]
fn little_endian_reads() {
    let b = [0x01u8, 0x02, 0x03, 0x04, 0x05, 0x06, 0x07, 0x08, 0x09];
    assert_eq!(read_u16(&b, 0), 0x0201);
    assert_eq!(read_u32(&b, 1), 0x05040302);
    assert_eq!(read_u64(&b, 1), 0x0908070605040302);
    assert_eq!(read_le(&b, 2, 3), 0x050403);
    assert_eq!(read_le(&b, 2, 0), 0);
}

#[test]
fn little_endian_encoding() {
    assert_eq!(u64_to_le(0x1122334455667788), vec![0x88, 0x77, 0x66, 0x55, 0x44, 0x33, 0x22, 0x11]);
    assert_eq!(u64_to_le(u64::MAX), vec![0xff; 8]);
}

#[test]
fn memory_window_bounds() {
    let mut m = UserMemory::new(0x100, 0x10);
    assert!(m.in_window(0x100, 0x10));
    assert!(!m.in_window(0x100, 0x11));
    assert!(!m.in_window(0xff, 1));
    assert!(m.in_window(0x110, 0));
    m.write_u64(0x108, 0xdead_beef);
    assert_eq!(m.read_u64(0x108), 0xdead_beef);
    m.zero_fill(0x108, 4);
    assert_eq!(m.read_u64(0x108), 0);
    m.make_user_accessible(0x100, 3);
    assert_eq!(m.mapped, vec![(0x100, 3)]);
}
