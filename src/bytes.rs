//! Little-endian integers over byte sequences.
use vstd::prelude::*;

verus! {

/// Whether two byte strings are equal.
pub fn streq(a: &[u8], b: &[u8]) -> (r: bool)
    ensures
        r == (a@ == b@),
{
    if a.len() != b.len() {
        return false;
    }
    let mut i: usize = 0;
    while i < a.len()
        invariant
            i <= a@.len(),
            a@.len() == b@.len(),
            forall|j: int| 0 <= j < i ==> a@[j] == b@[j],
        decreases a@.len() - i,
    {
        if a[i] != b[i] {
            return false;
        }
        i = i + 1;
    }
    assert(a@ =~= b@);
    true
}

/// `256^n`.
pub open spec fn pow256(n: nat) -> nat
    decreases n,
{
    if n == 0 {
        1
    } else {
        256 * pow256((n - 1) as nat)
    }
}

/// The unsigned little-endian value of the `n` bytes of `s` that start at `off`.
pub open spec fn le_at(s: Seq<u8>, off: int, n: nat) -> nat
    decreases n,
{
    if n == 0 {
        0
    } else {
        s[off] as nat + 256 * le_at(s, off + 1, (n - 1) as nat)
    }
}

/// Byte `k` (least significant first) of the little-endian encoding of `v`.
pub open spec fn le_byte(v: nat, k: nat) -> u8 {
    ((v / pow256(k)) % 256) as u8
}

/// The `n`-byte little-endian encoding of `v`.
pub open spec fn le_bytes(v: nat, n: nat) -> Seq<u8> {
    Seq::new(n, |k: int| le_byte(v, k as nat))
}

pub proof fn lemma_pow256_pos(n: nat)
    ensures
        pow256(n) > 0,
    decreases n,
{
    if n > 0 {
        lemma_pow256_pos((n - 1) as nat);
    }
}

pub proof fn lemma_pow256_small(n: nat)
    requires
        n <= 7,
    ensures
        pow256(n) <= 0x100000000000000,
{
    reveal_with_fuel(pow256, 8);
}

pub proof fn lemma_pow256_8()
    ensures
        pow256(8) == 0x10000000000000000,
{
    reveal_with_fuel(pow256, 9);
}

/// `le_at` reads only the bytes it spans.
pub proof fn lemma_le_at_frame(s1: Seq<u8>, s2: Seq<u8>, off: int, n: nat)
    requires
        forall|t: int| 0 <= t < n ==> #[trigger] s1[off + t] == s2[off + t],
    ensures
        le_at(s1, off, n) == le_at(s2, off, n),
    decreases n,
{
    if n > 0 {
        assert(s1[off + 0] == s2[off + 0]);
        assert forall|t: int| 0 <= t < n - 1 implies #[trigger] s1[(off + 1) + t] == s2[(off + 1) + t] by {
            assert(s1[off + (t + 1)] == s2[off + (t + 1)]);
        }
        lemma_le_at_frame(s1, s2, off + 1, (n - 1) as nat);
    }
}

/// Reading back the little-endian encoding of `v` gives `v` modulo `256^n`.
pub proof fn lemma_le_round_trip(s: Seq<u8>, off: int, v: nat, n: nat)
    requires
        forall|t: int| 0 <= t < n ==> #[trigger] s[off + t] == le_byte(v, t as nat),
    ensures
        le_at(s, off, n) == v % pow256(n),
    decreases n,
{
    if n == 0 {
        assert(pow256(0) == 1);
    } else {
        let w = v / 256;
        assert forall|t: int| 0 <= t < n - 1 implies #[trigger] s[(off + 1) + t] == le_byte(w, t as nat) by {
            assert(s[off + (t + 1)] == le_byte(v, (t + 1) as nat));
            lemma_pow256_pos(t as nat);
            vstd::arithmetic::div_mod::lemma_div_denominator(v as int, 256, pow256(t as nat) as int);
            assert(pow256((t + 1) as nat) == 256 * pow256(t as nat));
        }
        lemma_le_round_trip(s, off + 1, w, (n - 1) as nat);
        assert(s[off + 0] == le_byte(v, 0));
        assert(pow256(0) == 1);
        lemma_pow256_pos((n - 1) as nat);
        vstd::arithmetic::div_mod::lemma_mod_breakdown(v as int, 256, pow256((n - 1) as nat) as int);
    }
}

/// The 8-byte encoding of a `u64` reads back as itself.
pub proof fn lemma_le_u64_round_trip(s: Seq<u8>, off: int, v: u64)
    requires
        forall|t: int| 0 <= t < 8 ==> #[trigger] s[off + t] == le_byte(v as nat, t as nat),
    ensures
        le_at(s, off, 8) == v,
{
    lemma_le_round_trip(s, off, v as nat, 8);
    lemma_pow256_8();
}

/// Reads the unsigned little-endian integer of `n` bytes at `off`.
pub fn read_le(data: &[u8], off: usize, n: usize) -> (r: u64)
    requires
        n <= 8,
        off + n <= data@.len(),
    ensures
        r as nat == le_at(data@, off as int, n as nat),
        (r as nat) < pow256(n as nat),
{
    let len = data.len();
    let mut v: u64 = 0;
    let mut k: usize = n;
    while k > 0
        invariant
            len == data@.len(),
            n <= 8,
            off + n <= data@.len(),
            k <= n,
            v as nat == le_at(data@, off + k, (n - k) as nat),
            (v as nat) < pow256((n - k) as nat),
        decreases k,
    {
        k = k - 1;
        let b = data[off + k];
        proof {
            lemma_pow256_small((n - k - 1) as nat);
            assert(pow256((n - k) as nat) == 256 * pow256((n - k - 1) as nat));
            assert((v as nat) * 256 + 255 < 256 * pow256((n - k - 1) as nat) + 256) by (nonlinear_arith)
                requires
                    (v as nat) < pow256((n - k - 1) as nat),
            ;
        }
        v = (b as u64) + 256 * v;
        proof {
            assert(le_at(data@, off + k, (n - k) as nat) == data@[off + k] as nat + 256 * le_at(
                data@,
                off + k + 1,
                (n - k - 1) as nat,
            ));
        }
    }
    v
}

/// Reads a little-endian `u16` at `off`.
pub fn read_u16(data: &[u8], off: usize) -> (r: u16)
    requires
        off + 2 <= data@.len(),
    ensures
        r as nat == le_at(data@, off as int, 2),
{
    proof {
        reveal_with_fuel(pow256, 3);
    }
    read_le(data, off, 2) as u16
}

/// Reads a little-endian `u32` at `off`.
pub fn read_u32(data: &[u8], off: usize) -> (r: u32)
    requires
        off + 4 <= data@.len(),
    ensures
        r as nat == le_at(data@, off as int, 4),
{
    proof {
        reveal_with_fuel(pow256, 5);
    }
    read_le(data, off, 4) as u32
}

/// Reads a little-endian `u64` at `off`.
pub fn read_u64(data: &[u8], off: usize) -> (r: u64)
    requires
        off + 8 <= data@.len(),
    ensures
        r as nat == le_at(data@, off as int, 8),
{
    read_le(data, off, 8)
}

/// The little-endian bytes of `v`, least significant first.
pub fn u64_to_le(v: u64) -> (r: Vec<u8>)
    ensures
        r@ == le_bytes(v as nat, 8),
{
    let mut out: Vec<u8> = Vec::new();
    let mut x: u64 = v;
    let mut k: usize = 0;
    assert(pow256(0) == 1);
    while k < 8
        invariant
            k <= 8,
            out@.len() == k,
            x as nat == (v as nat) / pow256(k as nat),
            forall|j: int| 0 <= j < k ==> out@[j] == le_byte(v as nat, j as nat),
        decreases 8 - k,
    {
        proof {
            lemma_pow256_pos(k as nat);
            vstd::arithmetic::div_mod::lemma_div_denominator(v as int, pow256(k as nat) as int, 256);
            assert(pow256((k + 1) as nat) == pow256(k as nat) * 256);
        }
        out.push((x % 256) as u8);
        x = x / 256;
        k = k + 1;
    }
    assert(out@ =~= le_bytes(v as nat, 8));
    out
}

} // verus!
