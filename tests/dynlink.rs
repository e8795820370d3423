use aether_kernel::dynlink::{
    apply_relocation, apply_relocations, init_address, parse_dynamic, Elf64Rela, LoadedLibrary,
    RelocStatus, R_X86_64_64, R_X86_64_GLOB_DAT, R_X86_64_JUMP_SLOT, R_X86_64_NONE,
    R_X86_64_RELATIVE,
};
use aether_kernel::memory::UserMemory;

const BASE: u64 = 0x400000;

fn lib() -> LoadedLibrary {
    LoadedLibrary {
        base_addr: BASE,
        symtab: 0,
        strtab: 0,
        rela: 0,
        relasz: 0,
        jmprel: 0,
        pltrelsz: 0,
        init: 0,
    }
}

/// A library whose symbol table sits at `BASE + 0x80`, symbol 1 holding `value`.
fn with_symbol(mem: &mut UserMemory, value: u64) -> LoadedLibrary {
    let mut l = lib();
    l.symtab = BASE + 0x80;
    mem.write_u64(BASE + 0x80 + 24 + 8, value);
    l
}

#[test]
fn relative_relocation_writes_base_plus_addend() {
    let mut mem = UserMemory::new(BASE, 0x100);
    let rela = Elf64Rela { r_offset: 0x10, r_info: R_X86_64_RELATIVE, r_addend: 0x20 };
    assert_eq!(apply_relocation(&mut mem, &lib(), &rela), RelocStatus::Applied);
    assert_eq!(mem.read_u64(0x400010), 0x400020);
    assert_eq!(&mem.bytes[0x10..0x18], &[0x20, 0x00, 0x40, 0, 0, 0, 0, 0]);
}

#[test]
fn relative_relocation_with_negative_addend() {
    let mut mem = UserMemory::new(BASE, 0x100);
    let rela = Elf64Rela { r_offset: 0x8, r_info: R_X86_64_RELATIVE, r_addend: -0x10 };
    assert_eq!(apply_relocation(&mut mem, &lib(), &rela), RelocStatus::Applied);
    assert_eq!(mem.read_u64(BASE + 8), BASE - 0x10);
}

#[test]
fn glob_dat_writes_symbol_address() {
    let mut mem = UserMemory::new(BASE, 0x100);
    let l = with_symbol(&mut mem, 0x30);
    let rela = Elf64Rela { r_offset: 0x18, r_info: (1 << 32) | R_X86_64_GLOB_DAT, r_addend: 0 };
    assert_eq!(apply_relocation(&mut mem, &l, &rela), RelocStatus::Applied);
    assert_eq!(mem.read_u64(BASE + 0x18), BASE + 0x30);
}

#[test]
fn jump_slot_with_undefined_symbol_is_left() {
    let mut mem = UserMemory::new(BASE, 0x100);
    let l = with_symbol(&mut mem, 0);
    mem.write_u64(BASE + 0x18, 0x1234);
    let rela = Elf64Rela { r_offset: 0x18, r_info: (1 << 32) | R_X86_64_JUMP_SLOT, r_addend: 0 };
    assert_eq!(apply_relocation(&mut mem, &l, &rela), RelocStatus::Unresolved);
    assert_eq!(mem.read_u64(BASE + 0x18), 0x1234);
}

#[test]
fn absolute_relocation_adds_symbol_and_addend() {
    let mut mem = UserMemory::new(BASE, 0x100);
    let l = with_symbol(&mut mem, 0x30);
    let rela = Elf64Rela { r_offset: 0x20, r_info: (1 << 32) | R_X86_64_64, r_addend: 5 };
    assert_eq!(apply_relocation(&mut mem, &l, &rela), RelocStatus::Applied);
    assert_eq!(mem.read_u64(BASE + 0x20), BASE + 0x35);
}

#[test]
fn symbol_relocation_without_table_is_ignored() {
    let mut mem = UserMemory::new(BASE, 0x100);
    let rela = Elf64Rela { r_offset: 0x20, r_info: (1 << 32) | R_X86_64_GLOB_DAT, r_addend: 0 };
    assert_eq!(apply_relocation(&mut mem, &lib(), &rela), RelocStatus::Ignored);
    assert!(mem.bytes.iter().all(|b| *b == 0));
}

#[test]
fn unknown_and_none_types_write_nothing() {
    let mut mem = UserMemory::new(BASE, 0x100);
    let unknown = Elf64Rela { r_offset: 0x20, r_info: 37, r_addend: 1 };
    let none = Elf64Rela { r_offset: 0x20, r_info: R_X86_64_NONE, r_addend: 1 };
    assert_eq!(apply_relocation(&mut mem, &lib(), &unknown), RelocStatus::UnknownType);
    assert_eq!(apply_relocation(&mut mem, &lib(), &none), RelocStatus::Ignored);
    assert!(mem.bytes.iter().all(|b| *b == 0));
}

#[test]
fn target_outside_memory_is_reported() {
    let mut mem = UserMemory::new(BASE, 0x100);
    let rela = Elf64Rela { r_offset: 0xfc, r_info: R_X86_64_RELATIVE, r_addend: 0 };
    assert_eq!(apply_relocation(&mut mem, &lib(), &rela), RelocStatus::OutOfRange);
    assert!(mem.bytes.iter().all(|b| *b == 0));
}

#[test]
fn dynamic_section_is_parsed_up_to_null() {
    let mut mem = UserMemory::new(BASE, 0x200);
    let entries: [(u64, u64); 7] =
        [(5, 0x111), (6, 0x222), (7, 0x400100), (8, 48), (12, 0x50), (1, 3), (0, 0)];
    for (i, (t, v)) in entries.iter().enumerate() {
        mem.write_u64(BASE + 0x40 + 16 * i as u64, *t);
        mem.write_u64(BASE + 0x48 + 16 * i as u64, *v);
    }
    let l = parse_dynamic(&mem, BASE, BASE + 0x40).unwrap();
    assert_eq!(l.base_addr, BASE);
    assert_eq!(l.strtab, 0x111);
    assert_eq!(l.symtab, 0x222);
    assert_eq!(l.rela, 0x400100);
    assert_eq!(l.relasz, 48);
    assert_eq!(l.init, 0x50);
    assert_eq!((l.jmprel, l.pltrelsz), (0, 0));
}

#[test]
fn dynamic_section_without_end_is_rejected() {
    let mut mem = UserMemory::new(BASE, 0x20);
    mem.write_u64(BASE, 5);
    mem.write_u64(BASE + 16, 6);
    assert_eq!(parse_dynamic(&mem, BASE, BASE), None);
}

#[test]
fn relocation_tables_are_applied_in_order() {
    let mut mem = UserMemory::new(BASE, 0x200);
    let table = BASE + 0x100;
    let relas = [(0x10u64, 0x1u64), (0x20, 0x2), (0x10, 0x3)];
    for (i, (off, add)) in relas.iter().enumerate() {
        let at = table + 24 * i as u64;
        mem.write_u64(at, *off);
        mem.write_u64(at + 8, R_X86_64_RELATIVE);
        mem.write_u64(at + 16, *add);
    }
    let mut l = lib();
    l.rela = table;
    l.relasz = 48;
    l.jmprel = table + 48;
    l.pltrelsz = 24;
    apply_relocations(&mut mem, &l);
    assert_eq!(mem.read_u64(BASE + 0x10), BASE + 3);
    assert_eq!(mem.read_u64(BASE + 0x20), BASE + 2);
}

#[test]
fn init_function_address() {
    let mut l = lib();
    assert_eq!(init_address(&l), None);
    l.init = 0x50;
    assert_eq!(init_address(&l), Some(BASE + 0x50));
}
