//! ELF64 images: header parsing, validation and loading into user memory.
use vstd::prelude::*;
use crate::bytes::{le_at, read_u16, read_u32, read_u64};
use crate::memory::{splice, zeros, UserMemory};

verus! {

/// Size of the ELF64 file header.
pub const EHDR_SIZE: usize = 64;

/// Size of one ELF64 program header.
pub const PHDR_SIZE: usize = 56;

pub const PT_LOAD: u32 = 1;

pub const PT_INTERP: u32 = 3;

/// The class byte of a 64-bit image.
pub const ELFCLASS64: u8 = 2;

/// ELF64 file header.
#[derive(Debug, Clone, Copy)]
pub struct Elf64Header {
    pub e_ident: [u8; 16],
    pub e_type: u16,
    pub e_machine: u16,
    pub e_version: u32,
    pub e_entry: u64,
    pub e_phoff: u64,
    pub e_shoff: u64,
    pub e_flags: u32,
    pub e_ehsize: u16,
    pub e_phentsize: u16,
    pub e_phnum: u16,
    pub e_shentsize: u16,
    pub e_shnum: u16,
    pub e_shstrndx: u16,
}

/// ELF64 program header.
#[derive(Debug, Clone, Copy)]
pub struct Elf64Phdr {
    pub p_type: u32,
    pub p_flags: u32,
    pub p_offset: u64,
    pub p_vaddr: u64,
    pub p_paddr: u64,
    pub p_filesz: u64,
    pub p_memsz: u64,
    pub p_align: u64,
}

/// One loaded segment: where it lies and how many bytes it spans in memory.
#[derive(Debug, Clone, Copy, PartialEq, Eq, Structural)]
pub struct LoadedSegment {
    pub vaddr: u64,
    pub size: u64,
}

/// What loading an image produced.
pub struct LoadedElf {
    pub entry_point: u64,
    pub segments: Vec<LoadedSegment>,
    /// The interpreter path, without its trailing NUL.
    pub interp: Option<Vec<u8>>,
    pub phdr_vaddr: u64,
    pub phnum: u16,
    pub phentsize: u16,
}

/// Why an image was rejected.
#[derive(Debug, Clone, Copy, PartialEq, Eq, Structural)]
pub enum ElfError {
    /// Shorter than the file header.
    TooSmall,
    /// The first four bytes are not `7F 45 4C 46`.
    BadMagic,
    /// The class byte is not 64-bit.
    NotElf64,
    /// A program header lies beyond the buffer.
    PhdrOutOfBounds,
    /// A segment's file bytes lie beyond the buffer.
    SegmentOutOfBounds,
    /// A loadable segment has more file bytes than memory bytes.
    SegmentSizeMismatch,
    /// A loadable segment does not fit in user memory.
    Unmappable,
}

/// `x` reduced to 64 bits.
pub open spec fn wrap64(x: int) -> u64 {
    (x % 0x10000000000000000) as u64
}

/// `a + b`, wrapping at 64 bits.
pub fn wrap_add(a: u64, b: u64) -> (r: u64)
    ensures
        r == wrap64(a + b),
{
    if a <= u64::MAX - b {
        a + b
    } else {
        a - (u64::MAX - b) - 1
    }
}

pub open spec fn e_entry(d: Seq<u8>) -> nat {
    le_at(d, 24, 8)
}

pub open spec fn e_phoff(d: Seq<u8>) -> nat {
    le_at(d, 32, 8)
}

pub open spec fn e_phentsize(d: Seq<u8>) -> nat {
    le_at(d, 54, 2)
}

pub open spec fn e_phnum(d: Seq<u8>) -> nat {
    le_at(d, 56, 2)
}

/// File offset of program header `i`.
pub open spec fn ph_off(d: Seq<u8>, i: int) -> int {
    e_phoff(d) + i * e_phentsize(d)
}

pub open spec fn ph_type(d: Seq<u8>, i: int) -> nat {
    le_at(d, ph_off(d, i), 4)
}

pub open spec fn ph_offset(d: Seq<u8>, i: int) -> nat {
    le_at(d, ph_off(d, i) + 8, 8)
}

pub open spec fn ph_vaddr(d: Seq<u8>, i: int) -> nat {
    le_at(d, ph_off(d, i) + 16, 8)
}

pub open spec fn ph_filesz(d: Seq<u8>, i: int) -> nat {
    le_at(d, ph_off(d, i) + 32, 8)
}

pub open spec fn ph_memsz(d: Seq<u8>, i: int) -> nat {
    le_at(d, ph_off(d, i) + 40, 8)
}

/// The error of the file header, if any.
pub open spec fn header_error(d: Seq<u8>) -> Option<ElfError> {
    if d.len() < EHDR_SIZE {
        Some(ElfError::TooSmall)
    } else if d[0] != 0x7f || d[1] != 0x45 || d[2] != 0x4c || d[3] != 0x46 {
        Some(ElfError::BadMagic)
    } else if d[4] != ELFCLASS64 {
        Some(ElfError::NotElf64)
    } else {
        None
    }
}

/// The error of program header `i`, for a window of user memory `[lo, hi)`.
pub open spec fn phdr_error(d: Seq<u8>, base: int, lo: int, hi: int, i: int) -> Option<ElfError> {
    if ph_off(d, i) + PHDR_SIZE > d.len() {
        Some(ElfError::PhdrOutOfBounds)
    } else if ph_type(d, i) == PT_LOAD {
        if ph_offset(d, i) + ph_filesz(d, i) > d.len() {
            Some(ElfError::SegmentOutOfBounds)
        } else if ph_filesz(d, i) > ph_memsz(d, i) {
            Some(ElfError::SegmentSizeMismatch)
        } else if !(lo <= base + ph_vaddr(d, i) && base + ph_vaddr(d, i) + ph_memsz(d, i) <= hi) {
            Some(ElfError::Unmappable)
        } else {
            None
        }
    } else if ph_type(d, i) == PT_INTERP {
        if ph_offset(d, i) + ph_filesz(d, i) > d.len() {
            Some(ElfError::SegmentOutOfBounds)
        } else {
            None
        }
    } else {
        None
    }
}

/// The first error among program headers `i .. e_phnum`.
pub open spec fn phdrs_error_from(d: Seq<u8>, base: int, lo: int, hi: int, i: int) -> Option<
    ElfError,
>
    decreases e_phnum(d) - i,
{
    if i >= e_phnum(d) {
        None
    } else if phdr_error(d, base, lo, hi, i).is_some() {
        phdr_error(d, base, lo, hi, i)
    } else {
        phdrs_error_from(d, base, lo, hi, i + 1)
    }
}

/// The error `load_elf` reports for `d` loaded at `base` into `[lo, hi)`, if any.
pub open spec fn elf_error(d: Seq<u8>, base: int, lo: int, hi: int) -> Option<ElfError> {
    if header_error(d).is_some() {
        header_error(d)
    } else {
        phdrs_error_from(d, base, lo, hi, 0)
    }
}

/// The segments that the first `i` program headers load.
pub open spec fn load_segments(d: Seq<u8>, base: int, i: int) -> Seq<LoadedSegment>
    decreases i,
{
    if i <= 0 {
        Seq::empty()
    } else if ph_type(d, i - 1) == PT_LOAD {
        load_segments(d, base, i - 1).push(
            LoadedSegment { vaddr: (base + ph_vaddr(d, i - 1)) as u64, size: ph_memsz(d, i - 1) as u64 },
        )
    } else {
        load_segments(d, base, i - 1)
    }
}

/// The mapping requests of a list of segments.
pub open spec fn segment_ranges(s: Seq<LoadedSegment>) -> Seq<(u64, u64)> {
    s.map_values(|g: LoadedSegment| (g.vaddr, g.size))
}

/// Memory `m` (whose first byte is at address `lo`) after the first `i`
/// program headers are loaded: file bytes copied, the rest zero-filled.
pub open spec fn loaded_bytes(d: Seq<u8>, base: int, lo: int, m: Seq<u8>, i: int) -> Seq<u8>
    decreases i,
{
    if i <= 0 {
        m
    } else if ph_type(d, i - 1) == PT_LOAD {
        let prev = loaded_bytes(d, base, lo, m, i - 1);
        let dest = base + ph_vaddr(d, i - 1) - lo;
        let off = ph_offset(d, i - 1) as int;
        let filesz = ph_filesz(d, i - 1) as int;
        splice(
            splice(prev, dest, d.subrange(off, off + filesz)),
            dest + filesz,
            zeros((ph_memsz(d, i - 1) - filesz) as nat),
        )
    } else {
        loaded_bytes(d, base, lo, m, i - 1)
    }
}

/// Whether the file bytes of segment `i`, which starts at file offset 0,
/// hold the whole program header table.
pub open spec fn holds_phdrs(d: Seq<u8>, i: int) -> bool {
    ph_filesz(d, i) >= e_phoff(d) + e_phnum(d) * e_phentsize(d)
}

/// The address of the program header table, from the last loadable segment
/// at file offset 0 whose file bytes hold the table, among the first `i`
/// program headers (0 if none).
pub open spec fn phdr_address(d: Seq<u8>, base: int, i: int) -> u64
    decreases i,
{
    if i <= 0 {
        0
    } else if ph_type(d, i - 1) == PT_LOAD && ph_offset(d, i - 1) == 0 && holds_phdrs(d, i - 1) {
        wrap64(wrap64(base + e_phoff(d)) + ph_vaddr(d, i - 1))
    } else {
        phdr_address(d, base, i - 1)
    }
}

/// The bytes held, if any.
pub open spec fn bytes_opt_view(o: Option<Vec<u8>>) -> Option<Seq<u8>> {
    match o {
        Some(v) => Some(v@),
        None => None,
    }
}

/// `s` without one trailing NUL.
pub open spec fn strip_nul(s: Seq<u8>) -> Seq<u8> {
    if s.len() > 0 && s.last() == 0 {
        s.drop_last()
    } else {
        s
    }
}

/// The interpreter path of the last interpreter header among the first `i`.
pub open spec fn interp_path(d: Seq<u8>, i: int) -> Option<Seq<u8>>
    decreases i,
{
    if i <= 0 {
        None
    } else if ph_type(d, i - 1) == PT_INTERP {
        let off = ph_offset(d, i - 1) as int;
        Some(strip_nul(d.subrange(off, off + ph_filesz(d, i - 1))))
    } else {
        interp_path(d, i - 1)
    }
}

/// An image of full header length whose first four bytes are not the ELF
/// magic is rejected as `BadMagic`, wherever it would be loaded; `load_elf`
/// then leaves memory, and its log of mappings, as they were.
pub proof fn lemma_bad_magic_rejected(d: Seq<u8>, base: int, lo: int, hi: int)
    requires
        d.len() >= EHDR_SIZE,
        d.subrange(0, 4) != seq![0x7fu8, 0x45u8, 0x4cu8, 0x46u8],
    ensures
        elf_error(d, base, lo, hi) == Some(ElfError::BadMagic),
{
    if d[0] == 0x7f && d[1] == 0x45 && d[2] == 0x4c && d[3] == 0x46 {
        assert(d.subrange(0, 4) =~= seq![0x7fu8, 0x45u8, 0x4cu8, 0x46u8]);
    }
}

proof fn lemma_no_error_from(d: Seq<u8>, base: int, lo: int, hi: int, i: int, j: int)
    requires
        phdrs_error_from(d, base, lo, hi, i).is_none(),
        0 <= i <= j < e_phnum(d),
    ensures
        phdr_error(d, base, lo, hi, j).is_none(),
    decreases j - i,
{
    if i < j {
        lemma_no_error_from(d, base, lo, hi, i + 1, j);
    }
}

/// Parses the file header. The caller has checked the length.
pub fn parse_header(data: &[u8]) -> (h: Elf64Header)
    requires
        data@.len() >= EHDR_SIZE,
    ensures
        h.e_ident@ == data@.subrange(0, 16),
        h.e_type as nat == le_at(data@, 16, 2),
        h.e_machine as nat == le_at(data@, 18, 2),
        h.e_version as nat == le_at(data@, 20, 4),
        h.e_entry as nat == e_entry(data@),
        h.e_phoff as nat == e_phoff(data@),
        h.e_shoff as nat == le_at(data@, 40, 8),
        h.e_flags as nat == le_at(data@, 48, 4),
        h.e_ehsize as nat == le_at(data@, 52, 2),
        h.e_phentsize as nat == e_phentsize(data@),
        h.e_phnum as nat == e_phnum(data@),
        h.e_shentsize as nat == le_at(data@, 58, 2),
        h.e_shnum as nat == le_at(data@, 60, 2),
        h.e_shstrndx as nat == le_at(data@, 62, 2),
{
    let h = Elf64Header {
        e_ident: [
            data[0],
            data[1],
            data[2],
            data[3],
            data[4],
            data[5],
            data[6],
            data[7],
            data[8],
            data[9],
            data[10],
            data[11],
            data[12],
            data[13],
            data[14],
            data[15],
        ],
        e_type: read_u16(data, 16),
        e_machine: read_u16(data, 18),
        e_version: read_u32(data, 20),
        e_entry: read_u64(data, 24),
        e_phoff: read_u64(data, 32),
        e_shoff: read_u64(data, 40),
        e_flags: read_u32(data, 48),
        e_ehsize: read_u16(data, 52),
        e_phentsize: read_u16(data, 54),
        e_phnum: read_u16(data, 56),
        e_shentsize: read_u16(data, 58),
        e_shnum: read_u16(data, 60),
        e_shstrndx: read_u16(data, 62),
    };
    assert(h.e_ident@ =~= data@.subrange(0, 16));
    h
}

/// Parses the program header at file offset `off`.
pub fn parse_phdr(data: &[u8], off: usize) -> (p: Elf64Phdr)
    requires
        off + PHDR_SIZE <= data@.len(),
    ensures
        p.p_type as nat == le_at(data@, off as int, 4),
        p.p_flags as nat == le_at(data@, off + 4, 4),
        p.p_offset as nat == le_at(data@, off + 8, 8),
        p.p_vaddr as nat == le_at(data@, off + 16, 8),
        p.p_paddr as nat == le_at(data@, off + 24, 8),
        p.p_filesz as nat == le_at(data@, off + 32, 8),
        p.p_memsz as nat == le_at(data@, off + 40, 8),
        p.p_align as nat == le_at(data@, off + 48, 8),
{
    let _len = data.len();
    Elf64Phdr {
        p_type: read_u32(data, off),
        p_flags: read_u32(data, off + 4),
        p_offset: read_u64(data, off + 8),
        p_vaddr: read_u64(data, off + 16),
        p_paddr: read_u64(data, off + 24),
        p_filesz: read_u64(data, off + 32),
        p_memsz: read_u64(data, off + 40),
        p_align: read_u64(data, off + 48),
    }
}

/// Reads program header `i` if it lies inside the buffer.
fn phdr_at(data: &[u8], h: &Elf64Header, i: u16) -> (r: Option<Elf64Phdr>)
    requires
        data@.len() >= EHDR_SIZE,
        h.e_phoff as nat == e_phoff(data@),
        h.e_phentsize as nat == e_phentsize(data@),
    ensures
        r.is_none() <==> ph_off(data@, i as int) + PHDR_SIZE > data@.len(),
        r matches Some(p) ==> {
            &&& p.p_type as nat == ph_type(data@, i as int)
            &&& p.p_offset as nat == ph_offset(data@, i as int)
            &&& p.p_vaddr as nat == ph_vaddr(data@, i as int)
            &&& p.p_filesz as nat == ph_filesz(data@, i as int)
            &&& p.p_memsz as nat == ph_memsz(data@, i as int)
        },
{
    let len = data.len();
    proof {
        assert((i as int) * (h.e_phentsize as int) <= 65535 * 65535) by (nonlinear_arith)
            requires
                i <= 65535,
                h.e_phentsize <= 65535,
        ;
    }
    let off: u128 = h.e_phoff as u128 + (i as u128) * (h.e_phentsize as u128);
    if off + (PHDR_SIZE as u128) > len as u128 {
        None
    } else {
        Some(parse_phdr(data, off as usize))
    }
}

/// The error of one program header, as `phdr_error` states it.
fn check_phdr(data: &[u8], p: &Elf64Phdr, base: u64, mem: &UserMemory) -> (r: Option<ElfError>)
    requires
        mem.wf(),
    ensures
        r == ({
            let d = data@;
            let lo = mem.base as int;
            let hi = mem.end();
            if p.p_type == PT_LOAD {
                if p.p_offset + p.p_filesz > d.len() {
                    Some(ElfError::SegmentOutOfBounds)
                } else if p.p_filesz > p.p_memsz {
                    Some(ElfError::SegmentSizeMismatch)
                } else if !(lo <= base + p.p_vaddr && base + p.p_vaddr + p.p_memsz <= hi) {
                    Some(ElfError::Unmappable)
                } else {
                    None
                }
            } else if p.p_type == PT_INTERP {
                if p.p_offset + p.p_filesz > d.len() {
                    Some(ElfError::SegmentOutOfBounds)
                } else {
                    None
                }
            } else {
                None
            }
        }),
{
    let len = data.len() as u128;
    let in_file = (p.p_offset as u128) + (p.p_filesz as u128) <= len;
    if p.p_type == PT_LOAD {
        if !in_file {
            Some(ElfError::SegmentOutOfBounds)
        } else if p.p_filesz > p.p_memsz {
            Some(ElfError::SegmentSizeMismatch)
        } else {
            let dest: u128 = base as u128 + p.p_vaddr as u128;
            if dest > u64::MAX as u128 || !mem.in_window(dest as u64, p.p_memsz) {
                Some(ElfError::Unmappable)
            } else {
                None
            }
        }
    } else if p.p_type == PT_INTERP {
        if !in_file {
            Some(ElfError::SegmentOutOfBounds)
        } else {
            None
        }
    } else {
        None
    }
}

/// Validates `data` as a 64-bit ELF image and loads it at `base_addr`: every
/// loadable segment is mapped, its file bytes copied and the rest zero-filled.
/// Every program header is checked before memory is touched, so a rejected
/// image leaves `mem` as it was.
pub fn load_elf(data: &[u8], base_addr: u64, mem: &mut UserMemory) -> (r: Result<LoadedElf, ElfError>)
    requires
        old(mem).wf(),
    ensures
        final(mem).wf(),
        final(mem).base == old(mem).base,
        final(mem).bytes@.len() == old(mem).bytes@.len(),
        r matches Err(e) ==> elf_error(data@, base_addr as int, old(mem).base as int, old(mem).end())
            == Some(e),
        r is Err ==> *final(mem) == *old(mem),
        r is Ok ==> elf_error(data@, base_addr as int, old(mem).base as int, old(mem).end()).is_none(),
        r matches Ok(l) ==> {
            let d = data@;
            let base = base_addr as int;
            let n = e_phnum(d) as int;
            &&& l.entry_point == wrap64(base + e_entry(d))
            &&& l.segments@ == load_segments(d, base, n)
            &&& bytes_opt_view(l.interp) == interp_path(d, n)
            &&& l.phdr_vaddr == phdr_address(d, base, n)
            &&& l.phnum as nat == e_phnum(d)
            &&& l.phentsize as nat == e_phentsize(d)
            &&& final(mem).mapped@ == old(mem).mapped@ + segment_ranges(load_segments(d, base, n))
            &&& final(mem).bytes@ == loaded_bytes(d, base, old(mem).base as int, old(mem).bytes@, n)
        },
{
    let ghost d = data@;
    let ghost base = base_addr as int;
    let ghost lo = mem.base as int;
    let ghost hi = mem.end();
    if data.len() < EHDR_SIZE {
        return Err(ElfError::TooSmall);
    }
    if data[0] != 0x7f || data[1] != 0x45 || data[2] != 0x4c || data[3] != 0x46 {
        return Err(ElfError::BadMagic);
    }
    if data[4] != ELFCLASS64 {
        return Err(ElfError::NotElf64);
    }
    let h = parse_header(data);
    let phnum = h.e_phnum;
    // First pass: check every program header.
    let mut i: u16 = 0;
    while i < phnum
        invariant
            header_error(d).is_none(),
            d == data@,
            base == base_addr as int,
            mem.wf(),
            lo == mem.base,
            hi == mem.end(),
            h.e_phoff as nat == e_phoff(d),
            h.e_phentsize as nat == e_phentsize(d),
            phnum as nat == e_phnum(d),
            i <= phnum,
            phdrs_error_from(d, base, lo, hi, 0) == phdrs_error_from(d, base, lo, hi, i as int),
            *mem == *old(mem),
        decreases phnum - i,
    {
        match phdr_at(data, &h, i) {
            None => {
                return Err(ElfError::PhdrOutOfBounds);
            },
            Some(p) => {
                let e = check_phdr(data, &p, base_addr, mem);
                assert(e == phdr_error(d, base, lo, hi, i as int));
                if let Some(e) = e {
                    return Err(e);
                }
                assert(phdrs_error_from(d, base, lo, hi, i as int) == phdrs_error_from(
                    d,
                    base,
                    lo,
                    hi,
                    i + 1,
                ));
            },
        }
        i = i + 1;
    }
    // Second pass: load.
    let ghost m0 = mem.bytes@;
    let ghost mapped0 = mem.mapped@;
    let mut segments: Vec<LoadedSegment> = Vec::new();
    let mut interp: Option<Vec<u8>> = None;
    let mut phdr_vaddr: u64 = 0;
    let dlen = data.len();
    let mut i: u16 = 0;
    while i < phnum
        invariant
            header_error(d).is_none(),
            phdrs_error_from(d, base, lo, hi, 0).is_none(),
            dlen == data@.len(),
            d == data@,
            base == base_addr as int,
            mem.wf(),
            lo == mem.base,
            hi == mem.end(),
            m0.len() == mem.bytes@.len(),
            h.e_phoff as nat == e_phoff(d),
            h.e_phentsize as nat == e_phentsize(d),
            phnum as nat == e_phnum(d),
            i <= phnum,
            h.e_phnum as nat == e_phnum(d),
            segments@ == load_segments(d, base, i as int),
            mem.mapped@ == mapped0 + segment_ranges(load_segments(d, base, i as int)),
            mem.bytes@ == loaded_bytes(d, base, lo, m0, i as int),
            phdr_vaddr == phdr_address(d, base, i as int),
            bytes_opt_view(interp) == interp_path(d, i as int),
        decreases phnum - i,
    {
        proof {
            lemma_no_error_from(d, base, lo, hi, 0, i as int);
        }
        let p = match phdr_at(data, &h, i) {
            Some(p) => p,
            None => {
                return Err(ElfError::PhdrOutOfBounds);
            },
        };
        let ghost segs_before = segments@;
        if p.p_type == PT_LOAD {
            let vaddr = base_addr + p.p_vaddr;
            proof {
                assert((h.e_phnum as int) * (h.e_phentsize as int) <= 65535 * 65535) by (nonlinear_arith)
                    requires
                        h.e_phnum <= 65535,
                        h.e_phentsize <= 65535,
                ;
            }
            let table_end: u128 = h.e_phoff as u128 + (h.e_phnum as u128) * (h.e_phentsize as u128);
            if p.p_offset == 0 && p.p_filesz as u128 >= table_end {
                phdr_vaddr = wrap_add(wrap_add(base_addr, h.e_phoff), p.p_vaddr);
            }
            mem.make_user_accessible(vaddr, p.p_memsz);
            mem.write_bytes(vaddr, data, p.p_offset as usize, p.p_filesz as usize);
            mem.zero_fill(vaddr + p.p_filesz, p.p_memsz - p.p_filesz);
            segments.push(LoadedSegment { vaddr, size: p.p_memsz });
            proof {
                let s = load_segments(d, base, i as int + 1);
                assert(s == segs_before.push(LoadedSegment { vaddr, size: p.p_memsz }));
                assert(segment_ranges(s) =~= segment_ranges(segs_before).push((vaddr, p.p_memsz)));
                assert(mapped0 + segment_ranges(s) =~= (mapped0 + segment_ranges(segs_before)).push(
                    (vaddr, p.p_memsz),
                ));
                assert(data@.subrange(p.p_offset as int, p.p_offset + p.p_filesz) == d.subrange(
                    ph_offset(d, i as int) as int,
                    (ph_offset(d, i as int) + ph_filesz(d, i as int)) as int,
                ));
            }
        } else if p.p_type == PT_INTERP {
            let start = p.p_offset as usize;
            let end = (p.p_offset + p.p_filesz) as usize;
            let mut path: Vec<u8> = Vec::new();
            let mut k: usize = start;
            while k < end
                invariant
                    start <= k <= end,
                    end <= data@.len(),
                    path@ == data@.subrange(start as int, k as int),
                decreases end - k,
            {
                path.push(data[k]);
                k = k + 1;
                assert(path@ =~= data@.subrange(start as int, k as int));
            }
            if path.len() > 0 && path[path.len() - 1] == 0 {
                path.pop();
            }
            proof {
                assert(path@ == strip_nul(d.subrange(start as int, end as int))) by {
                    let s = d.subrange(start as int, end as int);
                    if s.len() > 0 && s.last() == 0 {
                        assert(path@ =~= s.drop_last());
                    }
                }
            }
            interp = Some(path);
        }
        i = i + 1;
    }
    Ok(
        LoadedElf {
            entry_point: wrap_add(base_addr, h.e_entry),
            segments,
            interp,
            phdr_vaddr,
            phnum,
            phentsize: h.e_phentsize,
        },
    )
}

} // verus!
