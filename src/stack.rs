//! The initial user stack of a new program: argument and environment strings,
//! their pointer arrays, the auxiliary vector and `argc`.
use vstd::prelude::*;
use crate::bytes::{le_byte, le_bytes, lemma_le_at_frame, lemma_le_u64_round_trip};
use crate::memory::UserMemory;

verus! {

pub const AT_NULL: u64 = 0;

pub const AT_IGNORE: u64 = 1;

pub const AT_EXECFD: u64 = 2;

pub const AT_PHDR: u64 = 3;

pub const AT_PHENT: u64 = 4;

pub const AT_PHNUM: u64 = 5;

pub const AT_PAGESZ: u64 = 6;

pub const AT_BASE: u64 = 7;

pub const AT_FLAGS: u64 = 8;

pub const AT_ENTRY: u64 = 9;

pub const AT_NOTELF: u64 = 10;

pub const AT_UID: u64 = 11;

pub const AT_EUID: u64 = 12;

pub const AT_GID: u64 = 13;

pub const AT_EGID: u64 = 14;

pub const AT_RANDOM: u64 = 25;

/// One auxiliary-vector entry.
#[derive(Debug, Clone, Copy, PartialEq, Eq, Structural)]
pub struct AuxvEntry {
    pub key: u64,
    pub val: u64,
}

/// `x` rounded down to a multiple of 16.
pub open spec fn align16(x: int) -> int {
    x - x % 16
}

/// The strings that go on the stack: the arguments, then the environment.
pub open spec fn stack_strings(argv: Seq<Vec<u8>>, envp: Seq<Vec<u8>>) -> Seq<Seq<u8>> {
    argv.map_values(|v: Vec<u8>| v@) + envp.map_values(|v: Vec<u8>| v@)
}

/// Address of string `k`: the strings are pushed from the last to the first,
/// each with its NUL, and the address aligned down to 16 after each push.
pub open spec fn str_pos(top: int, l: Seq<Seq<u8>>, k: int) -> int
    decreases l.len() - k,
{
    if k < 0 || k >= l.len() {
        top
    } else {
        let above = if k + 1 >= l.len() {
            top
        } else {
            str_pos(top, l, k + 1)
        };
        align16(above - (l[k].len() + 1))
    }
}

/// The lowest address of the string area, aligned to 16.
pub open spec fn strings_floor(top: int, l: Seq<Seq<u8>>) -> int {
    if l.len() == 0 {
        align16(top)
    } else {
        str_pos(top, l, 0)
    }
}

/// The auxiliary vector as words: key, value, key, value, ...
pub open spec fn aux_words(a: Seq<AuxvEntry>) -> Seq<u64> {
    Seq::new(2 * a.len(), |w: int| if w % 2 == 0 { a[w / 2].key } else { a[w / 2].val })
}

/// The words from the returned stack pointer upwards: `argc`, the argument
/// pointers, NULL, the environment pointers, NULL, the auxiliary vector and
/// the `AT_NULL` pair.
pub open spec fn stack_words(top: int, argc: nat, l: Seq<Seq<u8>>, a: Seq<AuxvEntry>) -> Seq<u64> {
    let ptrs = Seq::new(l.len(), |k: int| str_pos(top, l, k) as u64);
    seq![argc as u64] + ptrs.subrange(0, argc as int) + seq![0u64] + ptrs.subrange(
        argc as int,
        l.len() as int,
    ) + seq![0u64] + aux_words(a) + seq![AT_NULL, 0u64]
}

/// Padding between the words and the strings that keeps the result aligned.
pub open spec fn stack_pad(nwords: nat) -> int {
    if nwords % 2 == 1 {
        8
    } else {
        0
    }
}

/// The returned stack pointer.
pub open spec fn stack_sp(top: int, argc: nat, l: Seq<Seq<u8>>, a: Seq<AuxvEntry>) -> int {
    let n = stack_words(top, argc, l, a).len();
    strings_floor(top, l) - stack_pad(n) - 8 * n
}

proof fn lemma_str_pos_order(top: int, l: Seq<Seq<u8>>, k: int, j: int)
    requires
        0 <= k <= j < l.len(),
    ensures
        str_pos(top, l, k) + l[k].len() + 1 <= (if k + 1 >= l.len() {
            top
        } else {
            str_pos(top, l, k + 1)
        }),
        str_pos(top, l, k) <= str_pos(top, l, j),
        str_pos(top, l, j) + l[j].len() + 1 <= top,
        str_pos(top, l, k) % 16 == 0,
    decreases l.len() - k,
{
    if k + 1 < l.len() {
        if k < j {
            lemma_str_pos_order(top, l, k + 1, j);
        } else {
            lemma_str_pos_order(top, l, k + 1, k + 1);
        }
    }
}

/// String `k` of the arguments followed by the environment.
fn string_at<'a>(argv: &'a Vec<Vec<u8>>, envp: &'a Vec<Vec<u8>>, k: usize) -> (r: &'a Vec<u8>)
    requires
        k < argv@.len() + envp@.len(),
    ensures
        r@ == stack_strings(argv@, envp@)[k as int],
{
    if k < argv.len() {
        &argv[k]
    } else {
        &envp[k - argv.len()]
    }
}

/// `x` rounded down to a multiple of 16.
fn align_down16(x: u64) -> (r: u64)
    ensures
        r == align16(x as int),
{
    x - x % 16
}

/// Lays out a new program's stack below `stack_top`, from high to low
/// addresses: the NUL-terminated environment and argument strings (from the
/// last to the first, each aligned to 16), padding, the `AT_NULL` pair, the
/// auxiliary vector, NULL, the environment pointers, NULL, the argument
/// pointers and `argc`. Returns the stack pointer, which is 16-byte aligned,
/// or `None`, writing nothing, when the layout does not fit in `mem`.
pub fn setup_user_stack(
    stack_top: u64,
    argv: &Vec<Vec<u8>>,
    envp: &Vec<Vec<u8>>,
    auxv: &Vec<AuxvEntry>,
    mem: &mut UserMemory,
) -> (r: Option<u64>)
    requires
        old(mem).wf(),
        argv@.len() + envp@.len() <= usize::MAX,
    ensures
        final(mem).wf(),
        final(mem).base == old(mem).base,
        final(mem).mapped@ == old(mem).mapped@,
        final(mem).bytes@.len() == old(mem).bytes@.len(),
        r.is_some() <==> (stack_top <= old(mem).end() && stack_sp(
            stack_top as int,
            argv@.len(),
            stack_strings(argv@, envp@),
            auxv@,
        ) >= old(mem).base),
        r is None ==> *final(mem) == *old(mem),
        r matches Some(sp) ==> {
            let top = stack_top as int;
            let l = stack_strings(argv@, envp@);
            let words = stack_words(top, argv@.len(), l, auxv@);
            &&& sp == stack_sp(top, argv@.len(), l, auxv@)
            &&& sp % 16 == 0
            &&& forall|w: int|
                0 <= w < words.len() ==> #[trigger] final(mem).u64_at(sp + 8 * w) == words[w]
            &&& forall|k: int, t: int|
                0 <= k < l.len() && 0 <= t < l[k].len() ==> #[trigger] final(mem).byte_at(
                    str_pos(top, l, k) + t,
                ) == l[k][t]
            &&& forall|k: int|
                0 <= k < l.len() ==> #[trigger] final(mem).byte_at(str_pos(top, l, k) + l[k].len())
                    == 0
            &&& forall|a: int|
                old(mem).contains(a, 1) && !(sp <= a < stack_top) ==> #[trigger] final(mem).byte_at(a)
                    == old(mem).byte_at(a)
        },
{
    let ghost top = stack_top as int;
    let ghost l = stack_strings(argv@, envp@);
    let ghost words = stack_words(top, argv@.len(), l, auxv@);
    let ghost m0 = *mem;
    let c = argv.len();
    let e = envp.len();
    let a = auxv.len();
    let mem_end: u64 = mem.base + mem.bytes.len() as u64;
    assert(l.len() == c + e);
    if stack_top > mem_end {
        return None;
    }
    if stack_top < mem.base {
        proof {
            if l.len() > 0 {
                lemma_str_pos_order(top, l, 0, 0);
            }
        }
        return None;
    }
    let n = c + e;
    // First pass: where each string goes.
    let mut ptrs: Vec<u64> = Vec::new();
    let mut i: usize = 0;
    while i < n
        invariant
            i <= n,
            ptrs@.len() == i,
        decreases n - i,
    {
        ptrs.push(0);
        i = i + 1;
    }
    let mut cur: u64 = stack_top;
    let mut k: usize = n;
    while k > 0
        invariant
            top == stack_top as int,
            l == stack_strings(argv@, envp@),
            words == stack_words(top, argv@.len(), l, auxv@),
            m0 == *old(mem),
            m0.wf(),
            n == c + e,
            n == l.len(),
            c == argv@.len(),
            e == envp@.len(),
            k <= n,
            ptrs@.len() == n,
            *mem == m0,
            cur >= mem.base,
            cur as int == (if k == n {
                top
            } else {
                str_pos(top, l, k as int)
            }),
            forall|j: int| k <= j < n ==> ptrs@[j] == str_pos(top, l, j),
        decreases k,
    {
        k = k - 1;
        let s = string_at(argv, envp, k);
        if (cur as u128) < (s.len() as u128) + 1 {
            proof {
                lemma_str_pos_order(top, l, 0, k as int);
            }
            return None;
        }
        let next = align_down16(cur - (s.len() as u64 + 1));
        if next < mem.base {
            proof {
                lemma_str_pos_order(top, l, 0, k as int);
            }
            return None;
        }
        cur = next;
        ptrs.set(k, cur);
    }
    let floor: u64 = if n == 0 {
        align_down16(stack_top)
    } else {
        cur
    };
    let nwords: u128 = n as u128 + 2 * (a as u128) + 5;
    let pad: u128 = if nwords % 2 == 1 {
        8
    } else {
        0
    };
    let below: u128 = pad + 8 * nwords;
    assert(words.len() == nwords);
    if (floor as u128) < (mem.base as u128) + below {
        return None;
    }
    let sp: u64 = (floor as u128 - below) as u64;
    assert(sp as int == stack_sp(top, c as nat, l, auxv@));
    proof {
        if n > 0 {
            lemma_str_pos_order(top, l, 0, 0);
        }
    }
    assert(sp % 16 == 0);
    assert(floor <= top);
    // Second pass: the strings, from the last to the first.
    let zero: Vec<u8> = vec![0u8];
    let mut k: usize = n;
    while k > 0
        invariant
            top == stack_top as int,
            l == stack_strings(argv@, envp@),
            words == stack_words(top, argv@.len(), l, auxv@),
            m0 == *old(mem),
            m0.wf(),
            n == c + e,
            n == l.len(),
            c == argv@.len(),
            e == envp@.len(),
            k <= n,
            ptrs@.len() == n,
            zero@ == seq![0u8],
            forall|j: int| 0 <= j < n ==> ptrs@[j] == str_pos(top, l, j),
            mem.wf(),
            mem.base == m0.base,
            mem.mapped@ == m0.mapped@,
            mem.bytes@.len() == m0.bytes@.len(),
            top <= mem.end(),
            sp >= mem.base,
            sp + 8 * words.len() <= floor,
            forall|x: int|
                0 <= x < m0.bytes@.len() && !(sp - m0.base <= x < top - m0.base) ==> #[trigger] mem.bytes@[x]
                    == m0.bytes@[x],
            floor <= top,
            n > 0 ==> floor == str_pos(top, l, 0),
            forall|j: int, t: int|
                k <= j < n && 0 <= t < l[j].len() ==> #[trigger] mem.byte_at(str_pos(top, l, j) + t)
                    == l[j][t],
            forall|j: int|
                k <= j < n ==> #[trigger] mem.byte_at(str_pos(top, l, j) + l[j].len()) == 0,
        decreases k,
    {
        k = k - 1;
        let s = string_at(argv, envp, k);
        let p = ptrs[k];
        proof {
            lemma_str_pos_order(top, l, 0, k as int);
            lemma_str_pos_order(top, l, k as int, k as int);
        }
        let ghost bm = *mem;
        mem.write_bytes(p, s.as_slice(), 0, s.len());
        mem.write_bytes(p + s.len() as u64, zero.as_slice(), 0, 1);
        proof {
            assert forall|j: int, t: int|
                k <= j < n && 0 <= t < l[j].len() implies #[trigger] mem.byte_at(
                str_pos(top, l, j) + t,
            ) == l[j][t] by {
                if j > k {
                    lemma_str_pos_order(top, l, k as int, j);
                    lemma_str_pos_order(top, l, k as int + 1, j);
                    assert(bm.byte_at(str_pos(top, l, j) + t) == l[j][t]);
                } else {
                    assert(s@.subrange(0, s@.len() as int)[t] == s@[t]);
                }
            }
            assert forall|j: int|
                k <= j < n implies #[trigger] mem.byte_at(str_pos(top, l, j) + l[j].len()) == 0 by {
                if j > k {
                    lemma_str_pos_order(top, l, k as int, j);
                    lemma_str_pos_order(top, l, k as int + 1, j);
                    assert(bm.byte_at(str_pos(top, l, j) + l[j].len()) == 0);
                }
            }
        }
    }
    // Third pass: the words, from the highest to the lowest.
    let mut wv: Vec<u64> = Vec::new();
    wv.push(c as u64);
    let mut i: usize = 0;
    while i < n
        invariant
            top == stack_top as int,
            l == stack_strings(argv@, envp@),
            words == stack_words(top, argv@.len(), l, auxv@),
            m0 == *old(mem),
            m0.wf(),
            n == c + e,
            i <= n,
            n == l.len(),
            c == argv@.len(),
            ptrs@.len() == n,
            forall|j: int| 0 <= j < n ==> ptrs@[j] == str_pos(top, l, j),
            wv@ == seq![c as u64] + (if i <= c {
                Seq::new(l.len(), |j: int| str_pos(top, l, j) as u64).subrange(0, i as int)
            } else {
                Seq::new(l.len(), |j: int| str_pos(top, l, j) as u64).subrange(0, c as int) + seq![
                    0u64,
                ] + Seq::new(l.len(), |j: int| str_pos(top, l, j) as u64).subrange(
                    c as int,
                    i as int,
                )
            }),
        decreases n - i,
    {
        if i == c {
            wv.push(0);
        }
        wv.push(ptrs[i]);
        i = i + 1;
        let ghost ps = Seq::new(l.len(), |j: int| str_pos(top, l, j) as u64);
        if i <= c {
            assert(ps.subrange(0, i as int) =~= ps.subrange(0, i - 1).push(ps[i - 1]));
        } else {
            assert(ps.subrange(c as int, i as int) =~= ps.subrange(c as int, i - 1).push(ps[i - 1]));
            assert(ps.subrange(c as int, c as int) =~= Seq::<u64>::empty());
        }
        assert(wv@ =~= seq![c as u64] + (if i <= c {
            ps.subrange(0, i as int)
        } else {
            ps.subrange(0, c as int) + seq![0u64] + ps.subrange(c as int, i as int)
        }));
    }
    if c == n {
        wv.push(0);
    }
    wv.push(0);
    let ghost prefix = wv@;
    let mut i: usize = 0;
    while i < a
        invariant
            top == stack_top as int,
            l == stack_strings(argv@, envp@),
            words == stack_words(top, argv@.len(), l, auxv@),
            m0 == *old(mem),
            m0.wf(),
            n == c + e,
            i <= a,
            a == auxv@.len(),
            wv@ == prefix + aux_words(auxv@).subrange(0, 2 * i),
        decreases a - i,
    {
        wv.push(auxv[i].key);
        wv.push(auxv[i].val);
        i = i + 1;
        assert(wv@ =~= prefix + aux_words(auxv@).subrange(0, 2 * i));
    }
    wv.push(AT_NULL);
    wv.push(0);
    proof {
        let ps = Seq::new(l.len(), |j: int| str_pos(top, l, j) as u64);
        assert(ps.subrange(c as int, n as int) =~= Seq::<u64>::empty() || c < n);
        assert(aux_words(auxv@).subrange(0, 2 * a) =~= aux_words(auxv@));
        assert(ps.subrange(0, n as int) =~= ps);
        assert(wv@ =~= words);
    }
    let nw = wv.len();
    let mut w: usize = nw;
    while w > 0
        invariant
            top == stack_top as int,
            l == stack_strings(argv@, envp@),
            words == stack_words(top, argv@.len(), l, auxv@),
            m0 == *old(mem),
            m0.wf(),
            n == c + e,
            w <= nw,
            nw == words.len(),
            wv@ == words,
            n == l.len(),
            mem.wf(),
            mem.base == m0.base,
            mem.mapped@ == m0.mapped@,
            mem.bytes@.len() == m0.bytes@.len(),
            top <= mem.end(),
            sp >= mem.base,
            sp + 8 * words.len() <= floor,
            forall|x: int|
                0 <= x < m0.bytes@.len() && !(sp - m0.base <= x < top - m0.base) ==> #[trigger] mem.bytes@[x]
                    == m0.bytes@[x],
            floor <= top,
            n > 0 ==> floor == str_pos(top, l, 0),
            forall|j: int, t: int|
                0 <= j < n && 0 <= t < l[j].len() ==> #[trigger] mem.byte_at(str_pos(top, l, j) + t)
                    == l[j][t],
            forall|j: int|
                0 <= j < n ==> #[trigger] mem.byte_at(str_pos(top, l, j) + l[j].len()) == 0,
            forall|v: int| w <= v < nw ==> #[trigger] mem.u64_at(sp + 8 * v) == words[v],
        decreases w,
    {
        w = w - 1;
        let addr: u64 = sp + 8 * (w as u64);
        let ghost before = *mem;
        mem.write_u64(addr, wv[w]);
        proof {
            let off = addr - mem.base;
            assert forall|t: int| 0 <= t < 8 implies #[trigger] mem.bytes@[off + t] == le_byte(
                wv@[w as int] as nat,
                t as nat,
            ) by {
                assert(le_bytes(wv@[w as int] as nat, 8)[t] == le_byte(wv@[w as int] as nat, t as nat));
            }
            lemma_le_u64_round_trip(mem.bytes@, off, wv@[w as int]);
            assert forall|v: int| w <= v < nw implies #[trigger] mem.u64_at(sp + 8 * v) == words[v] by {
                if v > w {
                    assert forall|t: int| 0 <= t < 8 implies #[trigger] mem.bytes@[(sp + 8 * v
                        - mem.base) + t] == before.bytes@[(sp + 8 * v - mem.base) + t] by {}
                    lemma_le_at_frame(mem.bytes@, before.bytes@, sp + 8 * v - mem.base, 8);
                    assert(before.u64_at(sp + 8 * v) == words[v]);
                }
            }
            assert forall|j: int, t: int|
                0 <= j < n && 0 <= t < l[j].len() implies #[trigger] mem.byte_at(
                str_pos(top, l, j) + t,
            ) == l[j][t] by {
                lemma_str_pos_order(top, l, 0, j);
                assert(before.byte_at(str_pos(top, l, j) + t) == l[j][t]);
            }
            assert forall|j: int|
                0 <= j < n implies #[trigger] mem.byte_at(str_pos(top, l, j) + l[j].len()) == 0 by {
                lemma_str_pos_order(top, l, 0, j);
                assert(before.byte_at(str_pos(top, l, j) + l[j].len()) == 0);
            }
        }
    }
    proof {
        assert forall|a: int|
            old(mem).contains(a, 1) && !(sp <= a < stack_top) implies #[trigger] mem.byte_at(a)
            == old(mem).byte_at(a) by {
            assert(mem.bytes@[a - mem.base] == m0.bytes@[a - m0.base]);
        }
    }
    Some(sp)
}

} // verus!
