//! Conversion between a `u64` and its little-endian list of bits.
//!
//! Plaintexts are encrypted bit by bit, so a number travels as the list of its
//! bits, least significant first, and comes back as a number after decryption.
use vstd::arithmetic::div_mod::*;
use vstd::arithmetic::power2::*;
use vstd::bits::*;
use vstd::prelude::*;

verus! {

/// Bit `i` of the natural number `v`.
pub open spec fn bit_of(v: nat, i: nat) -> bool {
    (v / pow2(i)) % 2 == 1
}

/// The first `n` bits of `v`, least significant first.
pub open spec fn binary_of(v: nat, n: nat) -> Seq<bool> {
    Seq::new(n, |i: int| bit_of(v, i as nat))
}

/// The number whose little-endian bits are `s`.
pub open spec fn bits_value(s: Seq<bool>) -> nat
    decreases s.len(),
{
    if s.len() == 0 {
        0
    } else {
        bits_value(s.drop_last()) + if s.last() {
            pow2((s.len() - 1) as nat)
        } else {
            0
        }
    }
}

/// A list of `n` bits denotes a number below `2^n`.
pub proof fn lemma_bits_value_bound(s: Seq<bool>)
    ensures
        bits_value(s) < pow2(s.len()),
    decreases s.len(),
{
    if s.len() == 0 {
        lemma2_to64();
    } else {
        lemma_bits_value_bound(s.drop_last());
        lemma_pow2_unfold(s.len());
    }
}

/// The first `n` bits of `v` denote `v` modulo `2^n`.
proof fn lemma_value_of_prefix_bits(v: nat, n: nat)
    ensures
        bits_value(binary_of(v, n)) == v % pow2(n),
    decreases n,
{
    if n == 0 {
        lemma2_to64();
        assert(v % 1 == 0) by (nonlinear_arith);
    } else {
        let m = (n - 1) as nat;
        lemma_value_of_prefix_bits(v, m);
        assert(binary_of(v, n).drop_last() =~= binary_of(v, m));
        lemma_pow2_pos(m);
        lemma_pow2_unfold(n);
        lemma_mod_breakdown(v as int, pow2(m) as int, 2);
        assert(pow2(m) * 2 == pow2(n));
        lemma_mod_bound(v as int / pow2(m) as int, 2);
        if bit_of(v, m) {
            assert(v % pow2(n) == pow2(m) * 1 + v % pow2(m));
        } else {
            assert(v % pow2(n) == pow2(m) * 0 + v % pow2(m));
        }
    }
}

/// Turning the first `n` bits of a number below `2^n` back into a number gives
/// that number again.
pub proof fn lemma_bits_round_trip(v: nat, n: nat)
    requires
        v < pow2(n),
    ensures
        bits_value(binary_of(v, n)) == v,
{
    lemma_value_of_prefix_bits(v, n);
    lemma_small_mod(v, pow2(n));
}

/// Two lists of bits of one length that denote the same number are equal.
proof fn lemma_bits_value_injective(s: Seq<bool>, t: Seq<bool>)
    requires
        s.len() == t.len(),
        bits_value(s) == bits_value(t),
    ensures
        s == t,
    decreases s.len(),
{
    if s.len() > 0 {
        let m = (s.len() - 1) as nat;
        lemma_bits_value_bound(s.drop_last());
        lemma_bits_value_bound(t.drop_last());
        assert(s.last() == t.last());
        lemma_bits_value_injective(s.drop_last(), t.drop_last());
        assert(s =~= s.drop_last().push(s.last()));
        assert(t =~= t.drop_last().push(t.last()));
    } else {
        assert(s =~= t);
    }
}

/// Reading the bits of the number that a list of bits denotes gives back the list.
pub proof fn lemma_binary_of_bits_value(s: Seq<bool>)
    ensures
        binary_of(bits_value(s), s.len()) == s,
{
    lemma_bits_value_bound(s);
    lemma_bits_round_trip(bits_value(s), s.len());
    lemma_bits_value_injective(binary_of(bits_value(s), s.len()), s);
}

/// Splits `v` into its `N` lowest bits, least significant first.
///
/// `v` must fit in `N` bits, and `N` is at most 64.
pub fn u64_to_binary<const N: usize>(v: u64) -> (result: Vec<bool>)
    requires
        N <= 64,
        v < pow2(N as nat),
    ensures
        result@ == binary_of(v as nat, N as nat),
{
    let mut result: Vec<bool> = Vec::new();
    let mut i: usize = 0;
    while i < N
        invariant
            i <= N <= 64,
            result@ =~= binary_of(v as nat, i as nat),
        decreases N - i,
    {
        let shift: u64 = i as u64;
        let shifted: u64 = v >> shift;
        proof {
            lemma_u64_shr_is_div(v, shift);
        }
        let bit: bool = shifted & 1 == 1;
        assert(bit == (shifted % 2 == 1)) by (bit_vector)
            requires
                bit == (shifted & 1 == 1),
        ;
        result.push(bit);
        i = i + 1;
    }
    result
}

/// The number whose little-endian bits are `v`; `v` holds at most 64 bits.
pub fn binary_to_u64(v: Vec<bool>) -> (result: u64)
    requires
        v@.len() <= 64,
    ensures
        result == bits_value(v@),
{
    let mut acc: u64 = 0;
    let mut i: usize = 0;
    while i < v.len()
        invariant
            i <= v@.len() <= 64,
            acc == bits_value(v@.take(i as int)),
        decreases v@.len() - i,
    {
        proof {
            lemma_bits_value_bound(v@.take(i as int));
            lemma_u64_pow2_no_overflow(i as nat);
            lemma_u64_shl_is_mul(1, i as u64);
            assert(v@.take(i + 1).drop_last() =~= v@.take(i as int));
        }
        let shift: u64 = i as u64;
        let one_bit: u64 = if v[i] { 1 } else { 0 };
        let mask: u64 = one_bit << shift;
        assert(acc < (1u64 << shift) ==> acc | mask == acc + mask) by (bit_vector)
            requires
                shift < 64,
                mask == one_bit << shift,
                one_bit <= 1,
        ;
        assert(mask == if v@[i as int] { pow2(i as nat) } else { 0 }) by {
            if v@[i as int] {
                assert(mask == 1u64 << shift);
            } else {
                assert(0u64 << shift == 0) by (bit_vector);
            }
        }
        assert(v@.take(i + 1).last() == v@[i as int]);
        acc = acc | mask;
        i = i + 1;
    }
    assert(v@.take(v@.len() as int) =~= v@);
    acc
}

} // verus!
