use vstd::prelude::*;

verus! {

/// `n!` over the naturals, with `0! == 1`.
pub open spec fn factorial(n: nat) -> nat
    decreases n,
{
    if n == 0 {
        1
    } else {
        n * factorial((n - 1) as nat)
    }
}

/// What `factorial_iter` returns: `n!` for a positive `n`, and `0` for `0`.
pub open spec fn factorial_result(n: nat) -> nat {
    if n == 0 {
        0
    } else {
        factorial(n)
    }
}

proof fn lemma_factorial_positive(n: nat)
    ensures
        factorial(n) >= 1,
    decreases n,
{
    if n > 0 {
        lemma_factorial_positive((n - 1) as nat);
        assert(n * factorial((n - 1) as nat) >= 1) by (nonlinear_arith)
            requires
                n >= 1,
                factorial((n - 1) as nat) >= 1,
        ;
    }
}

proof fn lemma_factorial_monotonic(m: nat, n: nat)
    requires
        m <= n,
    ensures
        factorial(m) <= factorial(n),
    decreases n,
{
    if m < n {
        lemma_factorial_monotonic(m, (n - 1) as nat);
        lemma_factorial_positive((n - 1) as nat);
        assert(factorial((n - 1) as nat) <= n * factorial((n - 1) as nat)) by (nonlinear_arith)
            requires
                n >= 1,
        ;
    }
}

/// `20!`, the largest factorial that fits in a `u64`.
pub open spec fn factorial_20() -> nat {
    2432902008176640000
}

proof fn lemma_factorial_20()
    ensures
        factorial(20) == factorial_20(),
{
    reveal_with_fuel(factorial, 21);
}

/// Computes `n!` by iteration, multiplying `n` by `1, 2, ..., n - 1`.
/// By convention the result for `0` is `0`.
pub fn factorial_iter(n: u32) -> (r: u64)
    requires
        n <= 20,
    ensures
        r as nat == factorial_result(n as nat),
{
    if n == 0 {
        return 0;
    }
    let mut res: u64 = n as u64;
    let mut i: u64 = 1;
    assert(factorial(0) == 1);
    assert(((i - 1) as nat) == 0);
    // `res` holds `n * (i - 1)!`
    while i < n as u64
        invariant
            1 <= i <= n,
            n <= 20,
            res as nat == n * factorial((i - 1) as nat),
        decreases n - i,
    {
        proof {
            lemma_factorial_20();
            lemma_factorial_monotonic(i as nat, 19);
            assert(n * factorial(i as nat) <= 20 * factorial(19)) by (nonlinear_arith)
                requires
                    n <= 20,
                    factorial(i as nat) <= factorial(19),
            ;
            assert(factorial(20) == 20 * factorial(19));
            assert(factorial(i as nat) == i * factorial((i - 1) as nat));
            assert(res * i == n * factorial(i as nat)) by (nonlinear_arith)
                requires
                    res == n * factorial((i - 1) as nat),
                    factorial(i as nat) == i * factorial((i - 1) as nat),
            ;
        }
        res = res * i;
        i = i + 1;
    }
    proof {
        assert(factorial(n as nat) == n * factorial((n - 1) as nat));
    }
    res
}

/// Number of set bits among three.
pub open spec fn bits_set(b1: bool, b2: bool, b3: bool) -> nat {
    (if b1 { 1nat } else { 0nat }) + (if b2 { 1nat } else { 0nat }) + (if b3 { 1nat } else { 0nat })
}

/// Adds three one-bit values given as booleans, returning `(carry, sum)`:
/// the carry is set when at least two inputs are set, the sum when an odd
/// number are.
pub fn add_3_bits_bool(b1: bool, b2: bool, b3: bool) -> (r: (bool, bool))
    ensures
        r.0 == (bits_set(b1, b2, b3) >= 2),
        r.1 == (bits_set(b1, b2, b3) % 2 == 1),
{
    let total: u8 = b1 as u8 + b2 as u8 + b3 as u8;
    let carry: bool = total >= 2;
    let sum: bool = total % 2 == 1;
    (carry, sum)
}

/// Adds three one-bit values given as `u8`, returning `(carry, sum)`, each
/// `0` or `1`. The inputs must add up to at most `3`.
pub fn add_3_bits_u8(b1: u8, b2: u8, b3: u8) -> (r: (u8, u8))
    requires
        b1 + b2 + b3 <= 3,
    ensures
        r.0 == (if b1 + b2 + b3 >= 2 { 1u8 } else { 0u8 }),
        r.1 == (b1 + b2 + b3) % 2,
{
    let total: u8 = b1 + b2 + b3;
    let carry: u8 = if total >= 2 { 1 } else { 0 };
    let sum: u8 = total % 2;
    (carry, sum)
}

/// The results of the bitwise operators applied to one byte.
pub struct BitwiseTable {
    pub value: u8,
    pub not: u8,
    pub or: u8,
    pub and: u8,
    pub xor: u8,
    pub shl2: u8,
    pub shr3: u8,
}

/// Applies `!`, and `|`, `&`, `^` with `mask`, a left shift by two and a
/// right shift by three to `x`. Bits shifted out on the left are dropped.
pub fn bitwise_table(x: u8, mask: u8) -> (t: BitwiseTable)
    ensures
        t.value == x,
        t.not == !x,
        t.or == x | mask,
        t.and == x & mask,
        t.xor == x ^ mask,
        t.shl2 == ((x as nat * 4) % 256) as u8,
        t.shr3 == x / 8,
{
    let shl2: u8 = x << 2u32;
    let shr3: u8 = x >> 3u32;
    assert(shl2 == ((x as nat * 4) % 256) as u8) by (bit_vector)
        requires
            shl2 == x << 2u32,
    ;
    assert(shr3 == x / 8) by (bit_vector)
        requires
            shr3 == x >> 3u32,
    ;
    BitwiseTable { value: x, not: !x, or: x | mask, and: x & mask, xor: x ^ mask, shl2, shr3 }
}

} // verus!
