//! A bounds-checked window of user memory, and the log of the mapping requests
//! made on it.
use vstd::prelude::*;
use crate::bytes::{le_at, le_bytes, read_u64, u64_to_le};

verus! {

/// `s` with the bytes of `src` written from index `d` on.
pub open spec fn splice(s: Seq<u8>, d: int, src: Seq<u8>) -> Seq<u8> {
    Seq::new(s.len(), |k: int| if d <= k < d + src.len() { src[k - d] } else { s[k] })
}

/// `n` zero bytes.
pub open spec fn zeros(n: nat) -> Seq<u8> {
    Seq::new(n, |k: int| 0u8)
}

/// The memory that user programs see, from address `base` on.
pub struct UserMemory {
    /// Address of the first byte.
    pub base: u64,
    /// The bytes, `bytes[k]` at address `base + k`.
    pub bytes: Vec<u8>,
    /// Every range `(address, length)` that was made user-accessible, in order.
    pub mapped: Vec<(u64, u64)>,
}

impl UserMemory {
    pub open spec fn wf(&self) -> bool {
        self.base + self.bytes@.len() <= u64::MAX
    }

    /// Address one past the last byte.
    pub open spec fn end(&self) -> int {
        self.base + self.bytes@.len()
    }

    /// Whether `[addr, addr + len)` lies inside the window.
    pub open spec fn contains(&self, addr: int, len: int) -> bool {
        self.base <= addr && 0 <= len && addr + len <= self.end()
    }

    /// The byte at address `addr`.
    pub open spec fn byte_at(&self, addr: int) -> u8 {
        self.bytes@[addr - self.base]
    }

    /// The little-endian `u64` at address `addr`.
    pub open spec fn u64_at(&self, addr: int) -> nat {
        le_at(self.bytes@, addr - self.base, 8)
    }

    /// A zero-filled window of `size` bytes at `base`.
    pub fn new(base: u64, size: usize) -> (r: UserMemory)
        requires
            base + size <= u64::MAX,
        ensures
            r.wf(),
            r.base == base,
            r.bytes@ == zeros(size as nat),
            r.mapped@.len() == 0,
    {
        let mut bytes: Vec<u8> = Vec::new();
        let mut i: usize = 0;
        while i < size
            invariant
                i <= size,
                bytes@ == zeros(i as nat),
            decreases size - i,
        {
            bytes.push(0u8);
            i = i + 1;
            assert(bytes@ =~= zeros(i as nat));
        }
        UserMemory { base, bytes, mapped: Vec::new() }
    }

    /// Whether `[addr, addr + len)` lies inside the window.
    pub fn in_window(&self, addr: u64, len: u64) -> (r: bool)
        requires
            self.wf(),
        ensures
            r == self.contains(addr as int, len as int),
    {
        let size = self.bytes.len() as u64;
        addr >= self.base && addr - self.base <= size && len <= size - (addr - self.base)
    }

    /// Marks `[addr, addr + len)` user-accessible. The window holds no page
    /// tables: the request is recorded, in order.
    pub fn make_user_accessible(&mut self, addr: u64, len: u64)
        ensures
            final(self).base == old(self).base,
            final(self).bytes@ == old(self).bytes@,
            final(self).mapped@ == old(self).mapped@.push((addr, len)),
    {
        self.mapped.push((addr, len));
    }

    /// Copies `src[from .. from + n]` to address `addr`.
    pub fn write_bytes(&mut self, addr: u64, src: &[u8], from: usize, n: usize)
        requires
            old(self).wf(),
            old(self).contains(addr as int, n as int),
            from + n <= src@.len(),
        ensures
            final(self).wf(),
            final(self).base == old(self).base,
            final(self).mapped@ == old(self).mapped@,
            final(self).bytes@ == splice(
                old(self).bytes@,
                addr - old(self).base,
                src@.subrange(from as int, from + n),
            ),
    {
        let size = self.bytes.len();
        let slen = src.len();
        let d = (addr - self.base) as usize;
        let mut i: usize = 0;
        while i < n
            invariant
                i <= n,
                slen == src@.len(),
                size == self.bytes@.len(),
                from + n <= src@.len(),
                d + n <= self.bytes@.len(),
                d == addr - self.base,
                self.base == old(self).base,
                self.mapped@ == old(self).mapped@,
                self.bytes@.len() == old(self).bytes@.len(),
                forall|k: int|
                    0 <= k < self.bytes@.len() ==> #[trigger] self.bytes@[k] == if d <= k < d + i {
                        src@[from + k - d]
                    } else {
                        old(self).bytes@[k]
                    },
            decreases n - i,
        {
            self.bytes.set(d + i, src[from + i]);
            i = i + 1;
        }
        assert(self.bytes@ =~= splice(
            old(self).bytes@,
            addr - old(self).base,
            src@.subrange(from as int, from + n),
        ));
    }

    /// Sets the `n` bytes from address `addr` on to zero.
    pub fn zero_fill(&mut self, addr: u64, n: u64)
        requires
            old(self).wf(),
            old(self).contains(addr as int, n as int),
        ensures
            final(self).wf(),
            final(self).base == old(self).base,
            final(self).mapped@ == old(self).mapped@,
            final(self).bytes@ == splice(old(self).bytes@, addr - old(self).base, zeros(n as nat)),
    {
        let size = self.bytes.len();
        let d = (addr - self.base) as usize;
        let n = n as usize;
        let mut i: usize = 0;
        while i < n
            invariant
                i <= n,
                size == self.bytes@.len(),
                d + n <= self.bytes@.len(),
                d == addr - self.base,
                self.base == old(self).base,
                self.mapped@ == old(self).mapped@,
                self.bytes@.len() == old(self).bytes@.len(),
                forall|k: int|
                    0 <= k < self.bytes@.len() ==> #[trigger] self.bytes@[k] == if d <= k < d + i {
                        0u8
                    } else {
                        old(self).bytes@[k]
                    },
            decreases n - i,
        {
            self.bytes.set(d + i, 0u8);
            i = i + 1;
        }
        assert(self.bytes@ =~= splice(old(self).bytes@, addr - old(self).base, zeros(n as nat)));
    }

    /// Writes `v` as 8 little-endian bytes at address `addr`.
    pub fn write_u64(&mut self, addr: u64, v: u64)
        requires
            old(self).wf(),
            old(self).contains(addr as int, 8),
        ensures
            final(self).wf(),
            final(self).base == old(self).base,
            final(self).mapped@ == old(self).mapped@,
            final(self).bytes@ == splice(old(self).bytes@, addr - old(self).base, le_bytes(v as nat, 8)),
    {
        let b = u64_to_le(v);
        self.write_bytes(addr, b.as_slice(), 0, 8);
        assert(b@.subrange(0, 8) =~= b@);
    }

    /// Reads the little-endian `u64` at address `addr`.
    pub fn read_u64(&self, addr: u64) -> (r: u64)
        requires
            self.wf(),
            self.contains(addr as int, 8),
        ensures
            r as nat == self.u64_at(addr as int),
    {
        let size = self.bytes.len();
        read_u64(self.bytes.as_slice(), (addr - self.base) as usize)
    }

    /// Reads the byte at address `addr`.
    pub fn read_byte(&self, addr: u64) -> (r: u8)
        requires
            self.wf(),
            self.contains(addr as int, 1),
        ensures
            r == self.byte_at(addr as int),
    {
        let size = self.bytes.len();
        self.bytes[(addr - self.base) as usize]
    }
}

} // verus!
