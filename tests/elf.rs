use aether_kernel::elf::{load_elf, parse_header, ElfError, LoadedSegment, PT_INTERP, PT_LOAD};
use aether_kernel::memory::UserMemory;

fn put(buf: &mut Vec<u8>, off: usize, v: u64, n: usize) {
    for k in 0..n {
        buf[off + k] = (v >> (8 * k)) as u8;
    }
}

/// A 64-byte header followed by `phdrs` program headers of
/// (type, offset, vaddr, filesz, memsz), then `tail`.
fn image(entry: u64, phdrs: &[(u32, u64, u64, u64, u64)], tail: &[u8]) -> Vec<u8> {
    let mut b = vec![0u8; 64 + 56 * phdrs.len()];
    b[0..4].copy_from_slice(&[0x7f, b'E', b'L', b'F']);
    b[4] = 2;
    put(&mut b, 24, entry, 8);
    put(&mut b, 32, 64, 8);
    put(&mut b, 54, 56, 2);
    put(&mut b, 56, phdrs.len() as u64, 2);
    for (i, p) in phdrs.iter().enumerate() {
        let o = 64 + 56 * i;
        put(&mut b, o, p.0 as u64, 4);
        put(&mut b, o + 8, p.1, 8);
        put(&mut b, o + 16, p.2, 8);
        put(&mut b, o + 32, p.3, 8);
        put(&mut b, o + 40, p.4, 8);
    }
    b.extend_from_slice(tail);
    b
}

#[test]
fn load_one_segment_round_trip() {
    let data: Vec<u8> = (1..=16).collect();
    let img = image(0x1010, &[(PT_LOAD, 120, 0x1000, 16, 32)], &data);
    let base = 0x400000u64;
    let mut mem = UserMemory::new(base, 0x2000);
    for b in mem.bytes.iter_mut() {
        *b = 0xff;
    }
    let l = load_elf(&img, base, &mut mem).unwrap();
    assert_eq!(l.segments, vec![LoadedSegment { vaddr: base + 0x1000, size: 32 }]);
    assert_eq!(l.entry_point, base + 0x1010);
    assert_eq!(l.phnum, 1);
    assert_eq!(l.phentsize, 56);
    assert_eq!(l.interp, None);
    let at = 0x1000usize;
    assert_eq!(&mem.bytes[at..at + 16], &data[..]);
    assert!(mem.bytes[at + 16..at + 32].iter().all(|b| *b == 0));
    assert_eq!(mem.bytes[at + 32], 0xff);
    assert_eq!(mem.mapped, vec![(base + 0x1000, 32)]);
}

#[test]
fn zero_magic_is_rejected_without_mapping() {
    let mut img = image(0, &[(PT_LOAD, 0, 0, 0, 16)], &[]);
    img[0..4].copy_from_slice(&[0, 0, 0, 0]);
    let mut mem = UserMemory::new(0, 0x100);
    let r = load_elf(&img, 0, &mut mem);
    assert_eq!(r.err(), Some(ElfError::BadMagic));
    assert!(mem.mapped.is_empty());
    assert!(mem.bytes.iter().all(|b| *b == 0));
}

#[test]
fn short_buffer_is_rejected() {
    let mut mem = UserMemory::new(0, 16);
    assert_eq!(load_elf(&[0x7f, b'E', b'L', b'F'], 0, &mut mem).err(), Some(ElfError::TooSmall));
}

#[test]
fn class_32_is_rejected() {
    let mut img = image(0, &[], &[]);
    img[4] = 1;
    let mut mem = UserMemory::new(0, 16);
    assert_eq!(load_elf(&img, 0, &mut mem).err(), Some(ElfError::NotElf64));
}

#[test]
fn program_header_past_end_is_rejected() {
    let mut img = image(0, &[(PT_LOAD, 0, 0, 0, 0)], &[]);
    img.truncate(100);
    let mut mem = UserMemory::new(0, 0x100);
    assert_eq!(load_elf(&img, 0, &mut mem).err(), Some(ElfError::PhdrOutOfBounds));
}

#[test]
fn segment_bytes_past_end_are_rejected() {
    let img = image(0, &[(PT_LOAD, 100, 0, 100, 100)], &[]);
    let mut mem = UserMemory::new(0, 0x1000);
    assert_eq!(load_elf(&img, 0, &mut mem).err(), Some(ElfError::SegmentOutOfBounds));
}

#[test]
fn file_size_above_memory_size_is_rejected() {
    let img = image(0, &[(PT_LOAD, 0, 0, 32, 16)], &[]);
    let mut mem = UserMemory::new(0, 0x1000);
    assert_eq!(load_elf(&img, 0, &mut mem).err(), Some(ElfError::SegmentSizeMismatch));
}

#[test]
fn segment_outside_memory_is_rejected_and_nothing_is_loaded() {
    let img = image(0, &[(PT_LOAD, 0, 0, 8, 8), (PT_LOAD, 0, 0x5000, 8, 8)], &[]);
    let mut mem = UserMemory::new(0, 0x1000);
    assert_eq!(load_elf(&img, 0, &mut mem).err(), Some(ElfError::Unmappable));
    assert!(mem.mapped.is_empty());
    assert!(mem.bytes.iter().all(|b| *b == 0));
}

#[test]
fn interpreter_path_loses_its_nul() {
    let path = b"/lib/ld.so\0";
    let img = image(0, &[(PT_INTERP, 120, 0, path.len() as u64, path.len() as u64)], path);
    let mut mem = UserMemory::new(0, 16);
    let l = load_elf(&img, 0, &mut mem).unwrap();
    assert_eq!(l.interp, Some(b"/lib/ld.so".to_vec()));
    assert!(l.segments.is_empty());
    assert!(mem.mapped.is_empty());
}

#[test]
fn program_header_address_from_first_segment() {
    let img = image(0x20, &[(PT_LOAD, 0, 0x100, 120, 0x200)], &[]);
    let mut mem = UserMemory::new(0x10000, 0x1000);
    let l = load_elf(&img, 0x10000, &mut mem).unwrap();
    assert_eq!(l.phdr_vaddr, 0x10000 + 64 + 0x100);
    assert_eq!(&mem.bytes[0x100..0x100 + 120], &img[..120]);
}

#[test]
fn header_fields_are_little_endian() {
    let img = image(0x1122334455667788, &[(PT_LOAD, 0, 0, 0, 0)], &[]);
    let h = parse_header(&img);
    assert_eq!(h.e_entry, 0x1122334455667788);
    assert_eq!(h.e_phoff, 64);
    assert_eq!(h.e_phnum, 1);
    assert_eq!(h.e_ident[1], b'E');
}

#[test]
fn segment_not_holding_the_table_gives_no_header_address() {
    let data = [0u8; 16];
    let img = image(0, &[(PT_LOAD, 0, 0x1000, 16, 16)], &data);
    let mut mem = UserMemory::new(0x400000, 0x2000);
    let l = load_elf(&img, 0x400000, &mut mem).unwrap();
    assert_eq!(l.phdr_vaddr, 0);
}
