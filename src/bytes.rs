//! Little-endian integers over byte sequences.
use vstd::arithmetic::div_mod::{
    lemma_div_multiples_vanish_fancy, lemma_mod_breakdown, lemma_mod_multiples_vanish, lemma_small_mod,
};
use vstd::prelude::*;

verus! {

/// `256` raised to the power `n`.
pub open spec fn pow256(n: nat) -> nat
    decreases n,
{
    if n == 0 {
        1
    } else {
        256 * pow256((n - 1) as nat)
    }
}

/// The unsigned integer whose little-endian bytes are `s`.
pub open spec fn le_value(s: Seq<u8>) -> nat
    decreases s.len(),
{
    if s.len() == 0 {
        0
    } else {
        s[0] as nat + 256 * le_value(s.drop_first())
    }
}

/// The `n` low-order little-endian bytes of `v`.
pub open spec fn le_bytes(v: nat, n: nat) -> Seq<u8>
    decreases n,
{
    if n == 0 {
        Seq::empty()
    } else {
        seq![(v % 256) as u8] + le_bytes(v / 256, (n - 1) as nat)
    }
}

pub proof fn lemma_pow256_pos(n: nat)
    ensures
        pow256(n) > 0,
    decreases n,
{
    if n > 0 {
        lemma_pow256_pos((n - 1) as nat);
    }
}

pub proof fn lemma_pow256_8()
    ensures
        pow256(8) == 0x1_0000_0000_0000_0000,
{
    reveal_with_fuel(pow256, 9);
}

pub proof fn lemma_le_bytes_len(v: nat, n: nat)
    ensures
        le_bytes(v, n).len() == n,
    decreases n,
{
    if n > 0 {
        lemma_le_bytes_len(v / 256, (n - 1) as nat);
    }
}

/// A little-endian value is below `256^len`.
pub proof fn lemma_le_value_bound(s: Seq<u8>)
    ensures
        le_value(s) < pow256(s.len()),
    decreases s.len(),
{
    if s.len() > 0 {
        lemma_le_value_bound(s.drop_first());
        let r = le_value(s.drop_first());
        let p = pow256((s.len() - 1) as nat);
        assert(r + 1 <= p);
        assert(256 * (r + 1) <= 256 * p) by (nonlinear_arith)
            requires
                r + 1 <= p,
        ;
    }
}

/// Reading back the `n` low-order bytes of `v` gives `v` modulo `256^n`.
pub proof fn lemma_le_value_of_bytes(v: nat, n: nat)
    ensures
        le_value(le_bytes(v, n)) == v % pow256(n),
    decreases n,
{
    if n == 0 {
        lemma_small_mod(0, 1);
        assert(v % 1 == 0) by (nonlinear_arith);
    } else {
        let b = le_bytes(v, n);
        lemma_le_bytes_len(v / 256, (n - 1) as nat);
        assert(b.drop_first() =~= le_bytes(v / 256, (n - 1) as nat));
        lemma_le_value_of_bytes(v / 256, (n - 1) as nat);
        lemma_pow256_pos((n - 1) as nat);
        lemma_mod_breakdown(v as int, 256, pow256((n - 1) as nat) as int);
        assert((v % 256) as u8 as nat == v % 256);
    }
}

/// Writing out a little-endian value over as many bytes as it was read from gives the bytes.
pub proof fn lemma_le_bytes_of_value(s: Seq<u8>)
    ensures
        le_bytes(le_value(s), s.len()) == s,
    decreases s.len(),
{
    if s.len() > 0 {
        let r = le_value(s.drop_first());
        let v = le_value(s);
        lemma_le_bytes_of_value(s.drop_first());
        lemma_div_multiples_vanish_fancy(r as int, s[0] as int, 256);
        lemma_mod_multiples_vanish(r as int, s[0] as int, 256);
        lemma_small_mod(s[0] as nat, 256);
        assert(v / 256 == r);
        assert(v % 256 == s[0]);
        assert(le_bytes(v, s.len()) =~= s);
    }
}

/// The value of `8` bytes read at `off`.
pub fn read_u64_le(s: &[u8], off: usize) -> (r: u64)
    requires
        off + 8 <= s@.len(),
    ensures
        r as nat == le_value(s@.subrange(off as int, off + 8)),
{
    let mut acc: u64 = 0;
    let n: usize = s.len();
    assert(off + 8 <= n);
    let mut j: usize = off + 8;
    proof {
        assert(s@.subrange(j as int, off + 8) =~= Seq::<u8>::empty());
    }
    while j > off
        invariant
            off <= j <= off + 8,
            off + 8 <= s@.len(),
            acc as nat == le_value(s@.subrange(j as int, off + 8)),
        decreases j,
    {
        let ghost tail = s@.subrange(j as int, off + 8);
        let ghost next = s@.subrange(j - 1, off + 8);
        proof {
            assert(next.drop_first() =~= tail);
            lemma_le_value_bound(tail);
            lemma_le_value_bound(next);
            assert(tail.len() <= 7);
            assert(pow256(tail.len()) <= pow256(7)) by {
                lemma_pow256_mono(tail.len(), 7);
            }
            reveal_with_fuel(pow256, 8);
        }
        acc = acc * 256 + s[j - 1] as u64;
        j = j - 1;
    }
    acc
}

pub proof fn lemma_pow256_mono(a: nat, b: nat)
    requires
        a <= b,
    ensures
        pow256(a) <= pow256(b),
    decreases b,
{
    if a < b {
        lemma_pow256_mono(a, (b - 1) as nat);
    }
}

/// Appends the `8` little-endian bytes of `v`.
pub fn push_u64_le(out: &mut Vec<u8>, v: u64)
    ensures
        final(out)@ == old(out)@ + le_bytes(v as nat, 8),
{
    let mut x: u64 = v;
    let mut i: usize = 0;
    let ghost start = out@;
    while i < 8
        invariant
            i <= 8,
            out@ + le_bytes(x as nat, (8 - i) as nat) == start + le_bytes(v as nat, 8),
        decreases 8 - i,
    {
        let ghost rest = le_bytes(x as nat, (8 - i) as nat);
        proof {
            assert(rest == seq![(x % 256) as u8] + le_bytes((x / 256) as nat, (8 - i - 1) as nat));
        }
        let ghost prev = out@;
        out.push((x % 256) as u8);
        proof {
            assert(out@ + le_bytes((x / 256) as nat, (8 - i - 1) as nat) =~= prev + rest);
        }
        x = x / 256;
        i = i + 1;
    }
    proof {
        assert(out@ + le_bytes(x as nat, 0) =~= out@);
    }
}

/// Eight little-endian bytes read back give the value that was written.
pub proof fn lemma_u64_round_trip(v: u64)
    ensures
        le_bytes(v as nat, 8).len() == 8,
        le_value(le_bytes(v as nat, 8)) == v,
{
    lemma_le_bytes_len(v as nat, 8);
    lemma_le_value_of_bytes(v as nat, 8);
    lemma_pow256_8();
    lemma_small_mod(v as nat, pow256(8));
}

} // verus!
