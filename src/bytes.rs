use vstd::prelude::*;

verus! {

/// `256^n`.
pub open spec fn pow256(n: nat) -> nat
    decreases n,
{
    if n == 0 {
        1
    } else {
        256 * pow256((n - 1) as nat)
    }
}

/// The unsigned integer held by the `n` bytes at `p`, most significant byte first.
pub open spec fn be_uint(s: Seq<u8>, p: int, n: nat) -> nat
    decreases n,
{
    if n == 0 {
        0
    } else {
        be_uint(s, p, (n - 1) as nat) * 256 + s[p + n - 1] as nat
    }
}

/// The unsigned integer held by the `n` bytes at `p`, least significant byte first.
pub open spec fn le_uint(s: Seq<u8>, p: int, n: nat) -> nat
    decreases n,
{
    if n == 0 {
        0
    } else {
        le_uint(s, p + 1, (n - 1) as nat) * 256 + s[p] as nat
    }
}

/// The unsigned integer held by the `n` bytes at `p` in the given byte order.
pub open spec fn uint_at(s: Seq<u8>, p: int, n: nat, little: bool) -> nat {
    if little {
        le_uint(s, p, n)
    } else {
        be_uint(s, p, n)
    }
}

/// An `n`-byte unsigned integer read as two's complement.
pub open spec fn signed(u: nat, n: nat) -> int {
    if 2 * u >= pow256(n) {
        u - pow256(n)
    } else {
        u as int
    }
}

/// The big-endian 4-byte signed integer at `p`.
pub open spec fn i4_at(s: Seq<u8>, p: int) -> int {
    signed(be_uint(s, p, 4), 4)
}

/// The big-endian 8-byte signed integer at `p`.
pub open spec fn i8_at(s: Seq<u8>, p: int) -> int {
    signed(be_uint(s, p, 8), 8)
}

/// The `n` bytes of `x`, most significant first.
pub open spec fn be_bytes(x: nat, n: nat) -> Seq<u8>
    decreases n,
{
    if n == 0 {
        Seq::empty()
    } else {
        be_bytes(x / 256, (n - 1) as nat).push((x % 256) as u8)
    }
}

/// The `n` bytes of `x`, least significant first.
pub open spec fn le_bytes(x: nat, n: nat) -> Seq<u8>
    decreases n,
{
    if n == 0 {
        Seq::empty()
    } else {
        seq![(x % 256) as u8] + le_bytes(x / 256, (n - 1) as nat)
    }
}

/// The `n` bytes of `x` in the given byte order.
pub open spec fn uint_bytes(x: nat, n: nat, little: bool) -> Seq<u8> {
    if little {
        le_bytes(x, n)
    } else {
        be_bytes(x, n)
    }
}

pub proof fn lemma_pow256_values()
    ensures
        pow256(1) == 0x100,
        pow256(2) == 0x1_0000,
        pow256(4) == 0x1_0000_0000,
        pow256(8) == 0x1_0000_0000_0000_0000,
{
    reveal_with_fuel(pow256, 9);
}

pub proof fn lemma_be_uint_bound(s: Seq<u8>, p: int, n: nat)
    ensures
        be_uint(s, p, n) < pow256(n),
    decreases n,
{
    if n > 0 {
        let m = (n - 1) as nat;
        lemma_be_uint_bound(s, p, m);
        let a = be_uint(s, p, m);
        let b = s[p + n - 1] as nat;
        let q = pow256(m);
        assert(a * 256 + b < q * 256) by (nonlinear_arith)
            requires
                a < q,
                b < 256,
        ;
    }
}

pub proof fn lemma_le_uint_bound(s: Seq<u8>, p: int, n: nat)
    ensures
        le_uint(s, p, n) < pow256(n),
    decreases n,
{
    if n > 0 {
        let m = (n - 1) as nat;
        lemma_le_uint_bound(s, p + 1, m);
        let a = le_uint(s, p + 1, m);
        let b = s[p] as nat;
        let q = pow256(m);
        assert(a * 256 + b < q * 256) by (nonlinear_arith)
            requires
                a < q,
                b < 256,
        ;
    }
}

/// Only the `n` bytes at `p` matter to what is read there.
pub proof fn lemma_uint_local(s: Seq<u8>, t: Seq<u8>, p: int, q: int, n: nat, little: bool)
    requires
        0 <= p,
        p + n <= s.len(),
        0 <= q,
        q + n <= t.len(),
        s.subrange(p, p + n) == t.subrange(q, q + n),
    ensures
        uint_at(s, p, n, little) == uint_at(t, q, n, little),
    decreases n,
{
    if n > 0 {
        let m = (n - 1) as nat;
        if little {
            assert(s[p] == s.subrange(p, p + n)[0]);
            assert(t[q] == t.subrange(q, q + n)[0]);
            assert(s.subrange(p + 1, p + 1 + m) == s.subrange(p, p + n).subrange(1, n as int));
            assert(t.subrange(q + 1, q + 1 + m) == t.subrange(q, q + n).subrange(1, n as int));
            lemma_uint_local(s, t, p + 1, q + 1, m, little);
        } else {
            assert(s[p + n - 1] == s.subrange(p, p + n)[n - 1]);
            assert(t[q + n - 1] == t.subrange(q, q + n)[n - 1]);
            assert(s.subrange(p, p + m) == s.subrange(p, p + n).subrange(0, m as int));
            assert(t.subrange(q, q + m) == t.subrange(q, q + n).subrange(0, m as int));
            lemma_uint_local(s, t, p, q, m, little);
        }
    }
}

/// Reading back the bytes of `x` gives `x`.
pub proof fn lemma_uint_bytes_round_trip(x: nat, n: nat, little: bool)
    requires
        x < pow256(n),
    ensures
        uint_bytes(x, n, little).len() == n,
        uint_at(uint_bytes(x, n, little), 0, n, little) == x,
    decreases n,
{
    if n > 0 {
        let m = (n - 1) as nat;
        let q = pow256(m);
        assert(x / 256 < q) by (nonlinear_arith)
            requires
                x < 256 * q,
        ;
        lemma_uint_bytes_round_trip(x / 256, m, little);
        let b = uint_bytes(x, n, little);
        let r = uint_bytes(x / 256, m, little);
        if little {
            assert(b == seq![(x % 256) as u8] + r);
            assert(b.subrange(1, 1 + m as int) =~= r.subrange(0, m as int));
            lemma_uint_local(b, r, 1, 0, m, true);
        } else {
            assert(b == r.push((x % 256) as u8));
            assert(b.subrange(0, m as int) =~= r.subrange(0, m as int));
            lemma_uint_local(b, r, 0, 0, m, false);
        }
        assert(x == (x / 256) * 256 + x % 256) by (nonlinear_arith);
    }
}

/// Reads `n` bytes at `pos` as an unsigned integer in the given byte order.
pub fn read_uint(s: &[u8], pos: usize, n: usize, little: bool) -> (r: u64)
    requires
        n <= 8,
        pos + n <= s@.len(),
    ensures
        r == uint_at(s@, pos as int, n as nat, little),
{
    let len = s.len();
    let mut acc: u64 = 0;
    if little {
        let mut i: usize = n;
        while i > 0
            invariant
                n <= 8,
                pos + n <= s@.len(),
                len == s@.len(),
                i <= n,
                acc == le_uint(s@, pos + i, (n - i) as nat),
            decreases i,
        {
            proof {
                lemma_le_uint_bound(s@, pos + i, (n - i) as nat);
                lemma_pow256_values();
                lemma_pow256_mono((n - i) as nat, 7);
            }
            acc = acc * 256 + s[pos + i - 1] as u64;
            i = i - 1;
        }
    } else {
        let mut i: usize = 0;
        while i < n
            invariant
                n <= 8,
                pos + n <= s@.len(),
                len == s@.len(),
                i <= n,
                acc == be_uint(s@, pos as int, i as nat),
            decreases n - i,
        {
            proof {
                lemma_be_uint_bound(s@, pos as int, i as nat);
                lemma_pow256_values();
                lemma_pow256_mono(i as nat, 7);
            }
            acc = acc * 256 + s[pos + i] as u64;
            i = i + 1;
        }
    }
    acc
}

pub proof fn lemma_pow256_mono(a: nat, b: nat)
    requires
        a <= b,
    ensures
        pow256(a) <= pow256(b),
    decreases b - a,
{
    if a < b {
        lemma_pow256_mono(a, (b - 1) as nat);
    }
}

/// A 4-byte signed integer written by hand, most significant byte first, at
/// `p` is read back by `i4_at` as that integer, whatever else `s` holds.
pub proof fn lemma_header_field_round_trip(s: Seq<u8>, p: int, x: int)
    requires
        -0x8000_0000 <= x < 0x8000_0000,
        0 <= p,
        p + 4 <= s.len(),
        s.subrange(p, p + 4) == be_bytes(if x < 0 { (x + 0x1_0000_0000) as nat } else { x as nat }, 4),
    ensures
        i4_at(s, p) == x,
{
    lemma_pow256_values();
    let u: nat = if x < 0 { (x + 0x1_0000_0000) as nat } else { x as nat };
    lemma_uint_bytes_round_trip(u, 4, false);
    let b = be_bytes(u, 4);
    assert(b.subrange(0, 4) =~= b);
    lemma_uint_local(s, b, p, 0, 4, false);
}

} // verus!
