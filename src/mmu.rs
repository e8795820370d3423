//! AArch64 translation tables (4 KiB granule, four levels): granting EL0
//! access to a range of addresses. The tables live in identity-mapped
//! physical memory, which the walk reads and updates through `UserMemory`.
use vstd::prelude::*;
use crate::bytes::{le_at, le_bytes};
use crate::memory::{splice, UserMemory};

verus! {

/// Descriptor is valid.
pub const VALID: u64 = 1;

/// Descriptor points to a table (levels 0 to 2) or is a page (level 3).
pub const TABLE: u64 = 2;

/// AP[2:1] bits, and their value for read/write at EL1 and EL0.
pub const AP_MASK: u64 = 0xc0;

pub const AP_RW_EL1_RW_EL0: u64 = 0x40;

/// Access flag.
pub const AF: u64 = 0x400;

/// User execute-never.
pub const UXN: u64 = 0x40000000000000;

/// Output-address bits of a descriptor or of TTBR0.
pub const ADDR_MASK: u64 = 0xfffffffff000;

pub const PAGE_SIZE: u64 = 0x1000;

/// Sizes that a level-2 and a level-1 block descriptor map.
pub const L2_BLOCK: u64 = 0x200000;

pub const L1_BLOCK: u64 = 0x40000000;

/// Index into the level whose entries each map `1 << shift` bytes.
pub open spec fn index_of(addr: u64, shift: u64) -> u64 {
    (addr >> shift) & 0x1ff
}

/// Address of the descriptor for `addr` in the table at `table`.
pub open spec fn slot(table: u64, addr: u64, shift: u64) -> int {
    (table & ADDR_MASK) + 8 * index_of(addr, shift)
}

/// The descriptor at `a` in the bytes `b` placed at `base`; 0 (invalid)
/// when it lies outside them.
pub open spec fn desc(base: int, b: Seq<u8>, a: int) -> u64 {
    if base <= a && a + 8 <= base + b.len() {
        le_at(b, a - base, 8) as u64
    } else {
        0
    }
}

/// A block descriptor opened to EL0.
pub open spec fn open_block(e: u64) -> u64 {
    e | AP_RW_EL1_RW_EL0 | AF
}

/// A page descriptor opened to EL0, executable there.
pub open spec fn open_page(e: u64) -> u64 {
    ((e & !AP_MASK) | AP_RW_EL1_RW_EL0) & !UXN | AF
}

/// What the walk does at `addr`: the descriptor it rewrites, if any, as
/// (descriptor address, new value), and how far it then advances.
pub open spec fn walk_step(base: int, b: Seq<u8>, l0: u64, addr: u64) -> (Option<(int, u64)>, u64) {
    let a0 = slot(l0, addr, 39);
    let e0 = desc(base, b, a0);
    if e0 & VALID == 0 {
        (None, PAGE_SIZE)
    } else {
        let a1 = slot(e0, addr, 30);
        let e1 = desc(base, b, a1);
        if e1 & VALID == 0 {
            (None, PAGE_SIZE)
        } else if e1 & TABLE == 0 {
            (Some((a1, open_block(e1))), L1_BLOCK)
        } else {
            let a2 = slot(e1, addr, 21);
            let e2 = desc(base, b, a2);
            if e2 & VALID == 0 {
                (None, PAGE_SIZE)
            } else if e2 & TABLE == 0 {
                (Some((a2, open_block(e2))), L2_BLOCK)
            } else {
                let a3 = slot(e2, addr, 12);
                let e3 = desc(base, b, a3);
                if e3 & VALID == 0 {
                    (None, PAGE_SIZE)
                } else {
                    (Some((a3, open_page(e3))), PAGE_SIZE)
                }
            }
        }
    }
}

/// The bytes `b` placed at `base` after the descriptor write `w`, if any.
pub open spec fn written_desc(base: int, b: Seq<u8>, w: Option<(int, u64)>) -> Seq<u8> {
    match w {
        Some((a, v)) => splice(b, a - base, le_bytes(v as nat, 8)),
        None => b,
    }
}

/// `addr` rounded down to a page.
pub open spec fn page_down(addr: int) -> int {
    addr - addr % PAGE_SIZE as int
}

/// Reads the descriptor at `a`, or 0 when it lies outside memory.
fn read_desc(mem: &UserMemory, a: u64) -> (r: u64)
    requires
        mem.wf(),
    ensures
        r == desc(mem.base as int, mem.bytes@, a as int),
{
    if mem.in_window(a, 8) {
        mem.read_u64(a)
    } else {
        0
    }
}

/// Address of the descriptor for `addr` in the table at `table`.
fn slot_addr(table: u64, addr: u64, shift: u64) -> (r: u64)
    requires
        shift < 64,
    ensures
        r == slot(table, addr, shift),
{
    let t = table & ADDR_MASK;
    let i = (addr >> shift) & 0x1ff;
    assert(t <= ADDR_MASK) by (bit_vector)
        requires
            t == table & 0xfffffffff000u64,
    ;
    assert(i <= 0x1ff) by (bit_vector)
        requires
            i == (addr >> shift) & 0x1ffu64,
    ;
    t + 8 * i
}

/// One step of the walk at `addr`, as `walk_step` states it.
fn step(mem: &UserMemory, l0: u64, addr: u64) -> (r: (Option<(u64, u64)>, u64))
    requires
        mem.wf(),
    ensures
        r.1 > 0,
        r.1 == walk_step(mem.base as int, mem.bytes@, l0, addr).1,
        match walk_step(mem.base as int, mem.bytes@, l0, addr).0 {
            Some((a, v)) => r.0 == Some((a as u64, v)) && mem.contains(a, 8),
            None => r.0.is_none(),
        },
{
    assert(0u64 & 1u64 == 0u64) by (bit_vector);
    let a0 = slot_addr(l0, addr, 39);
    let e0 = read_desc(mem, a0);
    if e0 & VALID == 0 {
        return (None, PAGE_SIZE);
    }
    let a1 = slot_addr(e0, addr, 30);
    let e1 = read_desc(mem, a1);
    if e1 & VALID == 0 {
        return (None, PAGE_SIZE);
    }
    if e1 & TABLE == 0 {
        return (Some((a1, e1 | AP_RW_EL1_RW_EL0 | AF)), L1_BLOCK);
    }
    let a2 = slot_addr(e1, addr, 21);
    let e2 = read_desc(mem, a2);
    if e2 & VALID == 0 {
        return (None, PAGE_SIZE);
    }
    if e2 & TABLE == 0 {
        return (Some((a2, e2 | AP_RW_EL1_RW_EL0 | AF)), L2_BLOCK);
    }
    let a3 = slot_addr(e2, addr, 12);
    let e3 = read_desc(mem, a3);
    if e3 & VALID == 0 {
        return (None, PAGE_SIZE);
    }
    (Some((a3, ((e3 & !AP_MASK) | AP_RW_EL1_RW_EL0) & !UXN | AF)), PAGE_SIZE)
}

/// Every step of the walk moves forward by at least a page.
pub proof fn lemma_step_advances(base: int, b: Seq<u8>, l0: u64, addr: u64)
    ensures
        walk_step(base, b, l0, addr).1 >= PAGE_SIZE,
{
}

/// The walk over the bytes `b` placed at `base`, from `addr` up to `end`:
/// the bytes afterwards and the addresses whose translations changed, in
/// order.
pub open spec fn walk(base: int, b: Seq<u8>, l0: u64, addr: int, end: int) -> (Seq<u8>, Seq<u64>)
    decreases end - addr,
{
    if addr >= end || addr < 0 || addr > u64::MAX {
        (b, Seq::empty())
    } else {
        let s = walk_step(base, b, l0, addr as u64);
        let b1 = written_desc(base, b, s.0);
        let here = if s.0.is_some() {
            seq![addr as u64]
        } else {
            Seq::empty()
        };
        if addr + s.1 >= end {
            (b1, here)
        } else {
            proof {
                lemma_step_advances(base, b, l0, addr as u64);
            }
            let rest = walk(base, b1, l0, addr + s.1, end);
            (rest.0, here + rest.1)
        }
    }
}

/// Grants EL0 read, write and execute access to `[start, start + len)`
/// through the tables that `ttbr0` points to: from the page holding `start`,
/// a valid level-1 or level-2 block gets the EL0 access bits and the access
/// flag and the walk moves past the block; a valid page loses its
/// execute-never bit as well; an address with no valid descriptor is passed
/// over. Returns the addresses whose TLB entries must be invalidated.
pub fn make_user_accessible(mem: &mut UserMemory, ttbr0: u64, start: u64, len: u64) -> (r: Vec<u64>)
    requires
        old(mem).wf(),
        start + len + PAGE_SIZE <= u64::MAX,
    ensures
        final(mem).wf(),
        final(mem).base == old(mem).base,
        final(mem).mapped@ == old(mem).mapped@,
        (final(mem).bytes@, r@) == walk(
            old(mem).base as int,
            old(mem).bytes@,
            ttbr0,
            page_down(start as int),
            page_down(start + len + PAGE_SIZE - 1),
        ),
{
    let mut addr: u64 = start - start % PAGE_SIZE;
    let stop: u64 = (start + len + PAGE_SIZE - 1) - (start + len + PAGE_SIZE - 1) % PAGE_SIZE;
    let ghost base = mem.base as int;
    let ghost whole = walk(base, mem.bytes@, ttbr0, addr as int, stop as int);
    let mut flushed: Vec<u64> = Vec::new();
    loop
        invariant
            mem.wf(),
            mem.base == base,
            mem.base == old(mem).base,
            mem.mapped@ == old(mem).mapped@,
            whole == walk(base, old(mem).bytes@, ttbr0, page_down(start as int), stop as int),
            stop == page_down(start + len + PAGE_SIZE - 1),
            whole.0 == walk(base, mem.bytes@, ttbr0, addr as int, stop as int).0,
            whole.1 == flushed@ + walk(base, mem.bytes@, ttbr0, addr as int, stop as int).1,
        decreases stop - addr,
    {
        if addr >= stop {
            assert(flushed@ + Seq::<u64>::empty() =~= flushed@);
            return flushed;
        }
        let (w, advance) = step(mem, ttbr0, addr);
        assert(advance > 0);
        if let Some((a, v)) = w {
            mem.write_u64(a, v);
            flushed.push(addr);
        }
        let ghost here = if w.is_some() {
            seq![addr]
        } else {
            Seq::<u64>::empty()
        };
        proof {
            if w.is_some() {
                assert(flushed@ =~= flushed@.drop_last() + here);
            } else {
                assert(flushed@ =~= flushed@ + here);
            }
        }
        if advance >= stop - addr {
            return flushed;
        }
        proof {
            let rest = walk(base, mem.bytes@, ttbr0, addr + advance, stop as int);
            if w.is_some() {
                assert(flushed@ + rest.1 =~= flushed@.drop_last() + (here + rest.1));
            } else {
                assert(flushed@ + rest.1 =~= flushed@ + (here + rest.1));
            }
        }
        addr = addr + advance;
    }
}

} // verus!
