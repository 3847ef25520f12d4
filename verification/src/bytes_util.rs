use vstd::prelude::*;

verus! {

/// Little-endian value of a byte sequence: the first byte is least significant.
pub open spec fn le_val(s: Seq<u8>) -> nat
    decreases s.len(),
{
    if s.len() == 0 {
        0
    } else {
        s[0] as nat + 256 * le_val(s.subrange(1, s.len() as int))
    }
}

/// 256 to the n-th power: the number of byte sequences of length n.
pub open spec fn pow256(n: nat) -> nat
    decreases n,
{
    if n == 0 {
        1
    } else {
        256 * pow256((n - 1) as nat)
    }
}

/// A sequence of w bytes holds a value below pow256(w).
pub proof fn lemma_le_val_bound(s: Seq<u8>)
    ensures
        le_val(s) < pow256(s.len() as nat),
    decreases s.len(),
{
    if s.len() == 0 {
    } else {
        let rest = s.subrange(1, s.len() as int);
        lemma_le_val_bound(rest);
        assert(le_val(s) == s[0] as nat + 256 * le_val(rest));
        assert(256 * le_val(rest) <= 256 * (pow256(rest.len() as nat) - 1)) by (nonlinear_arith)
            requires
                le_val(rest) <= pow256(rest.len() as nat) - 1,
        ;
    }
}

/// The least-significant w bytes of n, least significant first.
pub open spec fn le_bytes(n: nat, w: nat) -> Seq<u8>
    decreases w,
{
    if w == 0 {
        Seq::empty()
    } else {
        seq![(n % 256) as u8] + le_bytes(n / 256, (w - 1) as nat)
    }
}

/// Exact byte-sequence equality of two vectors.
pub fn bytes_eq(a: &Vec<u8>, b: &Vec<u8>) -> (r: bool)
    ensures
        r == (a@ == b@),
{
    if a.len() != b.len() {
        return false;
    }
    let mut i: usize = 0;
    while i < a.len()
        invariant
            i <= a.len(),
            a@.len() == b@.len(),
            forall|j: int| 0 <= j < i ==> a@[j] == b@[j],
        decreases a.len() - i,
    {
        if a[i] != b[i] {
            return false;
        }
        i += 1;
    }
    proof {
        assert(a@ =~= b@);
    }
    true
}

/// A fresh copy of a byte vector.
pub fn dup_bytes(v: &Vec<u8>) -> (r: Vec<u8>)
    ensures
        r@ == v@,
{
    let mut out: Vec<u8> = Vec::new();
    let mut i: usize = 0;
    while i < v.len()
        invariant
            i <= v.len(),
            out@ == v@.subrange(0, i as int),
        decreases v.len() - i,
    {
        out.push(v[i]);
        proof {
            assert(out@ =~= v@.subrange(0, i + 1));
        }
        i += 1;
    }
    proof {
        assert(v@.subrange(0, v@.len() as int) =~= v@);
    }
    out
}

/// Little-endian decoding of v[from..to] into an integer; at most 16 bytes.
pub fn le_decode(v: &Vec<u8>, from: usize, to: usize) -> (r: u128)
    requires
        from <= to <= v@.len(),
        to - from <= 16,
    ensures
        r as nat == le_val(v@.subrange(from as int, to as int)),
{
    proof {
        reveal_with_fuel(pow256, 17);
        assert(pow256(16) == 0x100000000000000000000000000000000);
    }
    let mut acc: u128 = 0;
    let mut j: usize = to;
    while j > from
        invariant
            from <= j <= to <= v@.len(),
            to - from <= 16,
            acc as nat == le_val(v@.subrange(j as int, to as int)),
            pow256(16) == 0x100000000000000000000000000000000,
        decreases j,
    {
        j -= 1;
        let ghost s = v@.subrange(j as int, to as int);
        proof {
            assert(s.subrange(1, s.len() as int) =~= v@.subrange(j + 1, to as int));
            lemma_le_val_bound(v@.subrange(j + 1, to as int));
            assert(pow256((to - j - 1) as nat) <= pow256(15)) by {
                lemma_pow256_monotone((to - j - 1) as nat, 15);
            }
        }
        acc = (v[j] as u128) + 256 * acc;
    }
    proof {
        lemma_le_val_bound(v@.subrange(from as int, to as int));
    }
    acc
}

pub proof fn lemma_pow256_monotone(a: nat, b: nat)
    requires
        a <= b,
    ensures
        pow256(a) <= pow256(b),
    decreases b,
{
    if a < b && b > 0 {
        lemma_pow256_monotone(a, (b - 1) as nat);
        assert(pow256(b) == 256 * pow256((b - 1) as nat));
    }
}

/// Little-endian encoding of n in exactly w bytes; w at most 16.
pub fn le_encode(n: u128, w: usize) -> (r: Vec<u8>)
    requires
        w <= 16,
    ensures
        r@ == le_bytes(n as nat, w as nat),
        r@.len() == w,
{
    let mut out: Vec<u8> = Vec::new();
    let mut cur: u128 = n;
    let mut i: usize = 0;
    while i < w
        invariant
            i <= w,
            le_bytes(n as nat, w as nat) =~= out@ + le_bytes(cur as nat, (w - i) as nat),
            out@.len() == i,
        decreases w - i,
    {
        out.push((cur % 256) as u8);
        cur = cur / 256;
        i += 1;
    }
    proof {
        assert(le_bytes(n as nat, w as nat) =~= out@);
    }
    out
}

} // verus!
