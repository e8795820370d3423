//! Dynamic linking of a loaded image: the dynamic section, relocations and
//! the init function.
use vstd::prelude::*;
use crate::bytes::{le_at, le_bytes};
use crate::elf::{wrap64, wrap_add};
use crate::memory::{splice, UserMemory};

verus! {

/// Dynamic section entry.
#[derive(Debug, Clone, Copy)]
pub struct Elf64Dyn {
    pub d_tag: i64,
    pub d_val: u64,
}

/// Symbol table entry.
#[derive(Debug, Clone, Copy)]
pub struct Elf64Sym {
    pub st_name: u32,
    pub st_info: u8,
    pub st_other: u8,
    pub st_shndx: u16,
    pub st_value: u64,
    pub st_size: u64,
}

/// Relocation entry with addend.
#[derive(Debug, Clone, Copy, PartialEq, Eq, Structural)]
pub struct Elf64Rela {
    pub r_offset: u64,
    /// Type in the low 32 bits, symbol index in the high 32 bits.
    pub r_info: u64,
    pub r_addend: i64,
}

pub const DT_NULL: u64 = 0;

pub const DT_NEEDED: u64 = 1;

pub const DT_PLTRELSZ: u64 = 2;

pub const DT_PLTGOT: u64 = 3;

pub const DT_HASH: u64 = 4;

pub const DT_STRTAB: u64 = 5;

pub const DT_SYMTAB: u64 = 6;

pub const DT_RELA: u64 = 7;

pub const DT_RELASZ: u64 = 8;

pub const DT_RELAENT: u64 = 9;

pub const DT_STRSZ: u64 = 10;

pub const DT_SYMENT: u64 = 11;

pub const DT_INIT: u64 = 12;

pub const DT_FINI: u64 = 13;

pub const DT_JMPREL: u64 = 23;

pub const R_X86_64_NONE: u64 = 0;

pub const R_X86_64_64: u64 = 1;

pub const R_X86_64_GLOB_DAT: u64 = 6;

pub const R_X86_64_JUMP_SLOT: u64 = 7;

pub const R_X86_64_RELATIVE: u64 = 8;

/// Size of a dynamic entry, a symbol and a relocation entry.
pub const DYN_SIZE: u64 = 16;

pub const SYM_SIZE: u64 = 24;

pub const RELA_SIZE: u64 = 24;

/// The tables of one loaded module.
#[derive(Debug, Clone, Copy, PartialEq, Eq, Structural)]
pub struct LoadedLibrary {
    pub base_addr: u64,
    pub symtab: u64,
    pub strtab: u64,
    pub rela: u64,
    pub relasz: u64,
    pub jmprel: u64,
    pub pltrelsz: u64,
    pub init: u64,
}

/// `lib` after the dynamic entry `(tag, val)`.
pub open spec fn with_dyn(lib: LoadedLibrary, tag: u64, val: u64) -> LoadedLibrary {
    if tag == DT_STRTAB {
        LoadedLibrary { strtab: val, ..lib }
    } else if tag == DT_SYMTAB {
        LoadedLibrary { symtab: val, ..lib }
    } else if tag == DT_RELA {
        LoadedLibrary { rela: val, ..lib }
    } else if tag == DT_RELASZ {
        LoadedLibrary { relasz: val, ..lib }
    } else if tag == DT_JMPREL {
        LoadedLibrary { jmprel: val, ..lib }
    } else if tag == DT_PLTRELSZ {
        LoadedLibrary { pltrelsz: val, ..lib }
    } else if tag == DT_INIT {
        LoadedLibrary { init: val, ..lib }
    } else {
        lib
    }
}

/// The library that the dynamic entries from `addr` on describe, starting
/// from `lib`; `None` when the entries run out of memory before `DT_NULL`.
pub open spec fn scan_dynamic(m: UserMemory, addr: int, lib: LoadedLibrary) -> Option<LoadedLibrary>
    decreases m.end() - addr,
{
    if !m.contains(addr, DYN_SIZE as int) {
        None
    } else if m.u64_at(addr) == DT_NULL {
        Some(lib)
    } else {
        scan_dynamic(m, addr + DYN_SIZE, with_dyn(lib, m.u64_at(addr) as u64, m.u64_at(addr + 8) as u64))
    }
}

/// A library at `base_addr` with no tables.
pub open spec fn empty_library(base_addr: u64) -> LoadedLibrary {
    LoadedLibrary {
        base_addr,
        symtab: 0,
        strtab: 0,
        rela: 0,
        relasz: 0,
        jmprel: 0,
        pltrelsz: 0,
        init: 0,
    }
}

/// Walks the dynamic section at `dyn_addr` up to its `DT_NULL` entry and
/// records the symbol, string and relocation tables and the init function.
/// `None` when the section runs out of memory before its end.
pub fn parse_dynamic(mem: &UserMemory, base_addr: u64, dyn_addr: u64) -> (r: Option<LoadedLibrary>)
    requires
        mem.wf(),
    ensures
        r == scan_dynamic(*mem, dyn_addr as int, empty_library(base_addr)),
{
    let mut lib = LoadedLibrary {
        base_addr,
        symtab: 0,
        strtab: 0,
        rela: 0,
        relasz: 0,
        jmprel: 0,
        pltrelsz: 0,
        init: 0,
    };
    let mut addr: u64 = dyn_addr;
    loop
        invariant
            mem.wf(),
            scan_dynamic(*mem, dyn_addr as int, empty_library(base_addr)) == scan_dynamic(
                *mem,
                addr as int,
                lib,
            ),
        decreases mem.end() - addr,
    {
        if !mem.in_window(addr, DYN_SIZE) {
            return None;
        }
        let tag = mem.read_u64(addr);
        if tag == DT_NULL {
            return Some(lib);
        }
        let val = mem.read_u64(addr + 8);
        if tag == DT_STRTAB {
            lib.strtab = val;
        } else if tag == DT_SYMTAB {
            lib.symtab = val;
        } else if tag == DT_RELA {
            lib.rela = val;
        } else if tag == DT_RELASZ {
            lib.relasz = val;
        } else if tag == DT_JMPREL {
            lib.jmprel = val;
        } else if tag == DT_PLTRELSZ {
            lib.pltrelsz = val;
        } else if tag == DT_INIT {
            lib.init = val;
        }
        addr = addr + DYN_SIZE;
    }
}

/// What applying one relocation did.
#[derive(Debug, Clone, Copy, PartialEq, Eq, Structural)]
pub enum RelocStatus {
    /// A value was written at the target.
    Applied,
    /// `R_X86_64_NONE`, or a symbol relocation without a symbol table.
    Ignored,
    /// The symbol has no value here; the target was left as it was.
    Unresolved,
    /// The relocation type is not handled; the target was left as it was.
    UnknownType,
    /// The target or the symbol lies outside user memory.
    OutOfRange,
}

pub open spec fn r_type(info: u64) -> u64 {
    info % 0x100000000
}

pub open spec fn r_sym(info: u64) -> u64 {
    info / 0x100000000
}

/// Whether `[addr, addr + n)` lies in the bytes `b` placed at `base`.
pub open spec fn fits(base: int, b: Seq<u8>, addr: int, n: int) -> bool {
    base <= addr && addr + n <= base + b.len()
}

/// The little-endian `u64` at `addr` in the bytes `b` placed at `base`.
pub open spec fn word(base: int, b: Seq<u8>, addr: int) -> u64 {
    le_at(b, addr - base, 8) as u64
}

/// The address of symbol `sym`'s value field.
pub open spec fn sym_value_addr(lib: LoadedLibrary, sym: u64) -> int {
    lib.symtab + SYM_SIZE * sym + 8
}

/// The write a relocation makes, as `(address, value)`, and its status.
pub open spec fn reloc_effect(base: int, b: Seq<u8>, lib: LoadedLibrary, rela: Elf64Rela) -> (
    Option<(int, u64)>,
    RelocStatus,
) {
    let t = r_type(rela.r_info);
    let s = r_sym(rela.r_info);
    let target = lib.base_addr + rela.r_offset;
    let addend = rela.r_addend as u64;
    if t == R_X86_64_NONE {
        (None, RelocStatus::Ignored)
    } else if t != R_X86_64_RELATIVE && t != R_X86_64_GLOB_DAT && t != R_X86_64_JUMP_SLOT && t
        != R_X86_64_64 {
        (None, RelocStatus::UnknownType)
    } else if !fits(base, b, target, 8) {
        (None, RelocStatus::OutOfRange)
    } else if t == R_X86_64_RELATIVE {
        (Some((target, wrap64(lib.base_addr + addend))), RelocStatus::Applied)
    } else if lib.symtab == 0 || (t == R_X86_64_64 && s == 0) {
        (None, RelocStatus::Ignored)
    } else if !fits(base, b, sym_value_addr(lib, s), 8) {
        (None, RelocStatus::OutOfRange)
    } else if t == R_X86_64_64 {
        (
            Some(
                (target, wrap64(wrap64(lib.base_addr + word(base, b, sym_value_addr(lib, s))) + addend)),
            ),
            RelocStatus::Applied,
        )
    } else if word(base, b, sym_value_addr(lib, s)) == 0 {
        (None, RelocStatus::Unresolved)
    } else {
        (
            Some((target, wrap64(lib.base_addr + word(base, b, sym_value_addr(lib, s))))),
            RelocStatus::Applied,
        )
    }
}

/// The bytes `b` placed at `base` after the write `w`, if any.
pub open spec fn after_write(base: int, b: Seq<u8>, w: Option<(int, u64)>) -> Seq<u8> {
    match w {
        Some((a, v)) => splice(b, a - base, le_bytes(v as nat, 8)),
        None => b,
    }
}

/// Applies one relocation of `lib`: `RELATIVE` writes `base + addend`,
/// `GLOB_DAT` and `JUMP_SLOT` write `base + symbol value` when the symbol has
/// a value, and `R_X86_64_64` writes `base + symbol value + addend`, at
/// `base + r_offset`. Unknown types and unresolved symbols write nothing.
pub fn apply_relocation(mem: &mut UserMemory, lib: &LoadedLibrary, rela: &Elf64Rela) -> (r:
    RelocStatus)
    requires
        old(mem).wf(),
    ensures
        final(mem).wf(),
        final(mem).base == old(mem).base,
        final(mem).mapped@ == old(mem).mapped@,
        r == reloc_effect(old(mem).base as int, old(mem).bytes@, *lib, *rela).1,
        final(mem).bytes@ == after_write(
            old(mem).base as int,
            old(mem).bytes@,
            reloc_effect(old(mem).base as int, old(mem).bytes@, *lib, *rela).0,
        ),
{
    let t = rela.r_info % 0x100000000;
    let s = rela.r_info / 0x100000000;
    let addend = rela.r_addend as u64;
    if t == R_X86_64_NONE {
        return RelocStatus::Ignored;
    }
    if t != R_X86_64_RELATIVE && t != R_X86_64_GLOB_DAT && t != R_X86_64_JUMP_SLOT && t != R_X86_64_64 {
        return RelocStatus::UnknownType;
    }
    let target128: u128 = lib.base_addr as u128 + rela.r_offset as u128;
    if target128 > u64::MAX as u128 || !mem.in_window(target128 as u64, 8) {
        return RelocStatus::OutOfRange;
    }
    let target = target128 as u64;
    if t == R_X86_64_RELATIVE {
        mem.write_u64(target, wrap_add(lib.base_addr, addend));
        return RelocStatus::Applied;
    }
    if lib.symtab == 0 || (t == R_X86_64_64 && s == 0) {
        return RelocStatus::Ignored;
    }
    let sym128: u128 = lib.symtab as u128 + (SYM_SIZE as u128) * (s as u128) + 8;
    if sym128 > u64::MAX as u128 || !mem.in_window(sym128 as u64, 8) {
        return RelocStatus::OutOfRange;
    }
    let value = mem.read_u64(sym128 as u64);
    if t == R_X86_64_64 {
        mem.write_u64(target, wrap_add(wrap_add(lib.base_addr, value), addend));
        return RelocStatus::Applied;
    }
    if value == 0 {
        return RelocStatus::Unresolved;
    }
    mem.write_u64(target, wrap_add(lib.base_addr, value));
    RelocStatus::Applied
}

/// The relocation entry at `addr` in the bytes `b` placed at `base`.
pub open spec fn rela_at(base: int, b: Seq<u8>, addr: int) -> Elf64Rela {
    Elf64Rela {
        r_offset: word(base, b, addr),
        r_info: word(base, b, addr + 8),
        r_addend: word(base, b, addr + 16) as i64,
    }
}

/// Reads the relocation entry at `addr`.
pub fn read_rela(mem: &UserMemory, addr: u64) -> (r: Elf64Rela)
    requires
        mem.wf(),
        mem.contains(addr as int, RELA_SIZE as int),
    ensures
        r == rela_at(mem.base as int, mem.bytes@, addr as int),
{
    Elf64Rela {
        r_offset: mem.read_u64(addr),
        r_info: mem.read_u64(addr + 8),
        r_addend: mem.read_u64(addr + 16) as i64,
    }
}

/// The bytes `b` placed at `base` after the first `i` entries of the table at
/// `tab` are applied in order; an entry outside memory is passed over.
pub open spec fn relocate_table(base: int, b: Seq<u8>, lib: LoadedLibrary, tab: int, i: nat) -> Seq<
    u8,
>
    decreases i,
{
    if i == 0 {
        b
    } else {
        let prev = relocate_table(base, b, lib, tab, (i - 1) as nat);
        let addr = tab + RELA_SIZE * (i - 1);
        if fits(base, prev, addr, RELA_SIZE as int) {
            after_write(base, prev, reloc_effect(base, prev, lib, rela_at(base, prev, addr)).0)
        } else {
            prev
        }
    }
}

/// The bytes `b` placed at `base` after the `RELA` table and then the PLT
/// table of `lib` are applied.
pub open spec fn relocate_all(base: int, b: Seq<u8>, lib: LoadedLibrary) -> Seq<u8> {
    let b1 = if lib.rela != 0 && lib.relasz > 0 {
        relocate_table(base, b, lib, lib.rela as int, (lib.relasz / RELA_SIZE) as nat)
    } else {
        b
    };
    if lib.jmprel != 0 && lib.pltrelsz > 0 {
        relocate_table(base, b1, lib, lib.jmprel as int, (lib.pltrelsz / RELA_SIZE) as nat)
    } else {
        b1
    }
}

/// Applies every entry of the table at `tab` holding `size` bytes.
fn apply_table(mem: &mut UserMemory, lib: &LoadedLibrary, tab: u64, size: u64)
    requires
        old(mem).wf(),
    ensures
        final(mem).wf(),
        final(mem).base == old(mem).base,
        final(mem).mapped@ == old(mem).mapped@,
        final(mem).bytes@ == relocate_table(
            old(mem).base as int,
            old(mem).bytes@,
            *lib,
            tab as int,
            (size / RELA_SIZE) as nat,
        ),
{
    let count = size / RELA_SIZE;
    let mut i: u64 = 0;
    while i < count
        invariant
            i <= count,
            count == size / RELA_SIZE,
            mem.wf(),
            mem.base == old(mem).base,
            mem.mapped@ == old(mem).mapped@,
            mem.bytes@ == relocate_table(
                old(mem).base as int,
                old(mem).bytes@,
                *lib,
                tab as int,
                i as nat,
            ),
        decreases count - i,
    {
        let addr128: u128 = tab as u128 + (RELA_SIZE as u128) * (i as u128);
        if addr128 <= u64::MAX as u128 && mem.in_window(addr128 as u64, RELA_SIZE) {
            let rela = read_rela(mem, addr128 as u64);
            apply_relocation(mem, lib, &rela);
        }
        i = i + 1;
    }
}

/// Applies the `RELA` table and then the PLT relocation table of `lib`.
pub fn apply_relocations(mem: &mut UserMemory, lib: &LoadedLibrary)
    requires
        old(mem).wf(),
    ensures
        final(mem).wf(),
        final(mem).base == old(mem).base,
        final(mem).mapped@ == old(mem).mapped@,
        final(mem).bytes@ == relocate_all(old(mem).base as int, old(mem).bytes@, *lib),
{
    if lib.rela != 0 && lib.relasz > 0 {
        apply_table(mem, lib, lib.rela, lib.relasz);
    }
    if lib.jmprel != 0 && lib.pltrelsz > 0 {
        apply_table(mem, lib, lib.jmprel, lib.pltrelsz);
    }
}

/// The address at which the module's init function is called, if it has one.
pub fn init_address(lib: &LoadedLibrary) -> (r: Option<u64>)
    ensures
        r == (if lib.init == 0 {
            None
        } else {
            Some(wrap64(lib.base_addr + lib.init))
        }),
{
    if lib.init == 0 {
        None
    } else {
        Some(wrap_add(lib.base_addr, lib.init))
    }
}

} // verus!
