//! Power-of-two arithmetic: alignment and the ceiling of the binary logarithm.
use vstd::prelude::*;
use vstd::arithmetic::div_mod::{
    lemma_div_denominator, lemma_fundamental_div_mod, lemma_mod_bound, lemma_mod_decreases,
    lemma_mod_multiples_vanish, lemma_small_mod,
};
use vstd::arithmetic::power::{lemma_pow_positive, pow};
use vstd::arithmetic::power2::{
    is_pow2, is_pow2_equiv, lemma2_to64, lemma2_to64_rest, lemma_pow2_pos,
    lemma_pow2_strictly_increases, lemma_pow2_unfold, pow2,
};
use vstd::bits::{lemma_u64_shl_is_mul, lemma_u64_shr_is_div};

verus! {

/// `n` is `2^k` for some natural `k`.
pub open spec fn is_power_of_two_spec(n: nat) -> bool {
    exists|k: nat| pow2(k) == n
}

/// The largest multiple of `align` that is at most `addr`.
pub open spec fn align_down_spec(addr: nat, align: nat) -> nat
    recommends
        align > 0,
{
    (addr - addr % align) as nat
}

/// The smallest multiple of `align` that is at least `addr`.
pub open spec fn align_up_spec(addr: nat, align: nat) -> nat
    recommends
        align > 0,
{
    if addr % align == 0 {
        addr
    } else {
        (addr + align - addr % align) as nat
    }
}

/// The integer part of the binary logarithm of `n` (0 for `n <= 1`).
pub open spec fn log2_floor_spec(n: nat) -> nat
    decreases n,
{
    if n <= 1 {
        0
    } else {
        1 + log2_floor_spec(n / 2)
    }
}

/// The least `k` with `n <= 2^k`.
pub open spec fn log2_ceil_spec(n: nat) -> nat
    decreases n,
{
    if n <= 1 {
        0
    } else {
        1 + log2_ceil_spec((n + 1) / 2)
    }
}

/// `k` is the least exponent with `n <= 2^k`.
pub open spec fn is_log2_ceil(n: nat, k: nat) -> bool {
    &&& n <= pow2(k)
    &&& k > 0 ==> pow2((k - 1) as nat) < n
}

/// `align_down_spec` is a multiple of `align`, at most `addr`, and less than
/// `align` below it.
pub proof fn lemma_align_down(addr: nat, align: nat)
    requires
        align > 0,
    ensures
        align_down_spec(addr, align) % align == 0,
        align_down_spec(addr, align) <= addr < align_down_spec(addr, align) + align,
{
    let q = addr / align;
    lemma_fundamental_div_mod(addr as int, align as int);
    assert(align_down_spec(addr, align) == align * q);
    lemma_mod_multiples_vanish(q as int, 0, align as int);
    lemma_small_mod(0, align);
    assert(align * q == q * align) by (nonlinear_arith);
}

/// `align_up_spec` is a multiple of `align`, at least `addr`, and less than
/// `align` above it.
pub proof fn lemma_align_up(addr: nat, align: nat)
    requires
        align > 0,
    ensures
        align_up_spec(addr, align) % align == 0,
        addr <= align_up_spec(addr, align) < addr + align,
{
    if addr % align != 0 {
        let q = addr / align;
        lemma_fundamental_div_mod(addr as int, align as int);
        let r = addr % align;
        let up = align_up_spec(addr, align);
        lemma_mod_bound(addr as int, align as int);
        assert(up == align * (q + 1)) by (nonlinear_arith)
            requires
                addr == align * q + r,
                up == addr + align - r,
        ;
        lemma_mod_multiples_vanish(q as int + 1, 0, align as int);
        lemma_small_mod(0, align);
        assert(align * (q + 1) == (q + 1) * align) by (nonlinear_arith);
    }
}

/// `log2_ceil_spec(n)` is the least exponent whose power of two reaches `n`.
pub proof fn lemma_log2_ceil_is_least(n: nat)
    ensures
        is_log2_ceil(n, log2_ceil_spec(n)),
    decreases n,
{
    if n <= 1 {
        lemma_pow2_pos(0);
    } else {
        let h = (n + 1) / 2;
        let c = log2_ceil_spec(h);
        lemma_log2_ceil_is_least(h);
        lemma_pow2_unfold(c + 1);
        if c > 0 {
            lemma_pow2_unfold(c);
        } else {
            lemma2_to64();
        }
    }
}

/// Only one exponent is the least one.
pub proof fn lemma_log2_ceil_unique(n: nat, a: nat, b: nat)
    requires
        is_log2_ceil(n, a),
        is_log2_ceil(n, b),
    ensures
        a == b,
{
    if a < b {
        if a < b - 1 {
            lemma_pow2_strictly_increases(a, (b - 1) as nat);
        }
    } else if b < a {
        if b < a - 1 {
            lemma_pow2_strictly_increases(b, (a - 1) as nat);
        }
    }
}

/// For `n >= 1`: `2^floor <= n < 2^(floor + 1)`.
pub proof fn lemma_log2_floor_bounds(n: nat)
    requires
        n >= 1,
    ensures
        pow2(log2_floor_spec(n)) <= n < pow2(log2_floor_spec(n) + 1),
    decreases n,
{
    if n == 1 {
        lemma2_to64();
    } else {
        lemma_log2_floor_bounds(n / 2);
        let f = log2_floor_spec(n / 2);
        lemma_pow2_unfold(f + 1);
        lemma_pow2_unfold(f + 2);
    }
}

/// Dividing by `2^j` takes `j` off the integer logarithm.
proof fn lemma_log2_floor_shift(x: nat, j: nat)
    requires
        x >= pow2(j),
    ensures
        log2_floor_spec(x) == j + log2_floor_spec(x / pow2(j)),
    decreases j,
{
    if j == 0 {
        lemma2_to64();
        let one = pow2(0);
        assert(x / one == x) by (nonlinear_arith)
            requires
                one == 1,
        ;
    } else {
        lemma_pow2_unfold(j);
        lemma_pow2_pos((j - 1) as nat);
        let p = pow2((j - 1) as nat);
        let h: nat = x / 2;
        assert(x >= 2);
        assert(h >= p);
        lemma_log2_floor_shift(h, (j - 1) as nat);
        lemma_div_denominator(x as int, 2, p as int);
        assert(2 * p == pow2(j));
        assert(h / p == x / pow2(j));
        assert(log2_floor_spec(x) == 1 + log2_floor_spec(h));
    }
}

/// The ceiling is the integer part, plus one unless `n` is a power of two.
proof fn lemma_log2_ceil_from_floor(n: nat)
    requires
        n >= 1,
    ensures
        log2_ceil_spec(n) == log2_floor_spec(n) + if is_power_of_two_spec(n) { 0nat } else { 1nat },
{
    let f = log2_floor_spec(n);
    lemma_log2_floor_bounds(n);
    lemma_log2_ceil_is_least(n);
    if is_power_of_two_spec(n) {
        let k = choose|k: nat| pow2(k) == n;
        if k < f {
            lemma_pow2_strictly_increases(k, f);
        }
        if f + 1 <= k {
            if f + 1 < k {
                lemma_pow2_strictly_increases(f + 1, k);
            }
        }
        assert(k == f);
        if f > 0 {
            lemma_pow2_strictly_increases((f - 1) as nat, f);
        }
        lemma_log2_ceil_unique(n, log2_ceil_spec(n), f);
    } else {
        assert(pow2(f) != n);
        lemma_log2_ceil_unique(n, log2_ceil_spec(n), f + 1);
    }
}

/// The bit test `x & (x - 1) == 0` singles out the powers of two.
proof fn lemma_bit_test_is_pow2(x: usize)
    requires
        x >= 1,
    ensures
        (x & ((x - 1) as usize)) == 0 <==> is_power_of_two_spec(x as nat),
    decreases x,
{
    reveal(is_pow2);
    is_pow2_equiv(x as int);
    assert(is_pow2(x as int) <==> is_power_of_two_spec(x as nat)) by {
        if is_power_of_two_spec(x as nat) {
            let k = choose|k: nat| pow2(k) == x as nat;
            lemma_pow_positive(2, k);
            assert(pow(2, k) == x as int);
        }
        if is_pow2(x as int) {
            let i = choose|i: nat| pow(2, i) == x as int;
            assert(pow2(i) == x as nat);
        }
    }
    if x == 1 {
        assert((1usize & 0usize) == 0) by (bit_vector);
    } else {
        let h: usize = x / 2;
        assert(((x & ((x - 1) as usize)) == 0) <==> (x % 2 == 0 && ((h & ((h - 1) as usize)) == 0)))
            by (bit_vector)
            requires
                x >= 2,
                h == x / 2,
        ;
        lemma_bit_test_is_pow2(h);
        is_pow2_equiv(h as int);
        assert(is_pow2(h as int) <==> is_power_of_two_spec(h as nat)) by {
            if is_power_of_two_spec(h as nat) {
                let k = choose|k: nat| pow2(k) == h as nat;
                lemma_pow_positive(2, k);
                assert(pow(2, k) == h as int);
            }
            if is_pow2(h as int) {
                let i = choose|i: nat| pow(2, i) == h as int;
                assert(pow2(i) == h as nat);
            }
        }
    }
}

/// One halving step of the search for the highest set bit: `mask` selects
/// the upper half of the `2 * j` low bits that `x` may still occupy.
proof fn lemma_log2_step(x: u64, j: u64, mask: u64)
    by (bit_vector)
    requires
        (j == 32 && mask == 0xFFFF_FFFF_0000_0000u64) || (j == 16 && mask == 0xFFFF_0000u64 && x
            < 0x1_0000_0000u64) || (j == 8 && mask == 0xFF00u64 && x < 0x1_0000u64) || (j == 4
            && mask == 0xF0u64 && x < 0x100u64) || (j == 2 && mask == 0xCu64 && x < 0x10u64) || (j
            == 1 && mask == 0x2u64 && x < 0x4u64),
    ensures
        (x & mask) == 0 ==> x < (1u64 << j),
        (x & mask) != 0 ==> x >= (1u64 << j) && 1 <= (x >> j) < (1u64 << j),
{
}

/// The number of low bits that the value may still occupy after `i` steps.
spec fn log2_width(i: int) -> nat {
    if i <= 0 {
        64
    } else if i == 1 {
        32
    } else if i == 2 {
        16
    } else if i == 3 {
        8
    } else if i == 4 {
        4
    } else if i == 5 {
        2
    } else {
        1
    }
}

/// The ceiling of the binary logarithm of `num`: the least `r` with
/// `num <= 2^r`.
pub fn log2_ceil(num: usize) -> (r: usize)
    requires
        num >= 1,
    ensures
        r == log2_ceil_spec(num as nat),
        is_log2_ceil(num as nat, r as nat),
        r <= usize::BITS,
{
    let table: [u64; 6] = [
        0xFFFF_FFFF_0000_0000u64,
        0x0000_0000_FFFF_0000u64,
        0x0000_0000_0000_FF00u64,
        0x0000_0000_0000_00F0u64,
        0x0000_0000_0000_000Cu64,
        0x0000_0000_0000_0002u64,
    ];
    let mut x: u64 = num as u64;
    proof {
        lemma_bit_test_is_pow2(num);
        lemma_log2_ceil_from_floor(num as nat);
        lemma_log2_ceil_is_least(num as nat);
        lemma2_to64();
        lemma2_to64_rest();
    }
    let round_up: u64 = if num & (num - 1) == 0 {
        0
    } else {
        1
    };
    let mut y: u64 = 0;
    let mut j: u64 = 32;
    let mut i: usize = 0;
    while i < 6
        invariant
            i <= 6,
            x >= 1,
            y <= 64 - log2_width(i as int),
            log2_width(i as int) == 2 * j || (i == 6 && j == 0),
            x < pow2(log2_width(i as int)),
            log2_floor_spec(num as nat) == y + log2_floor_spec(x as nat),
            table[0] == 0xFFFF_FFFF_0000_0000u64,
            table[1] == 0xFFFF_0000u64,
            table[2] == 0xFF00u64,
            table[3] == 0xF0u64,
            table[4] == 0xCu64,
            table[5] == 0x2u64,
        decreases 6 - i,
    {
        proof {
            lemma2_to64();
            lemma2_to64_rest();
            lemma_log2_step(x, j, table[i as int]);
            lemma_u64_shl_is_mul(1, j);
            lemma_u64_shr_is_div(x, j);
        }
        let k: u64 = if (x & table[i]) == 0 {
            0
        } else {
            j
        };
        proof {
            if k != 0 {
                lemma_log2_floor_shift(x as nat, j as nat);
            } else {
                assert(x >> 0u64 == x) by (bit_vector);
            }
        }
        y += k;
        x = x >> k;
        j = j >> 1;
        i += 1;
        proof {
            assert(32u64 >> 1 == 16 && 16u64 >> 1 == 8 && 8u64 >> 1 == 4 && 4u64 >> 1 == 2 && 2u64
                >> 1 == 1 && 1u64 >> 1 == 0) by (bit_vector);
        }
    }
    proof {
        lemma2_to64();
        assert(x == 1);
        assert(log2_floor_spec(1) == 0);
        if usize::BITS == 32 {
            assert(num < pow2(32));
            lemma_log2_floor_bounds(num as nat);
            if y >= 32 {
                if y > 32 {
                    lemma_pow2_strictly_increases(32, y as nat);
                }
            }
        }
    }
    (y + round_up) as usize
}

/// Aligns `addr` downwards to the nearest multiple of `align`.
pub fn align_down(addr: usize, align: usize) -> (r: usize)
    requires
        is_power_of_two_spec(align as nat),
    ensures
        r == align_down_spec(addr as nat, align as nat),
        r % align == 0,
        r <= addr < r + align,
{
    proof {
        let k = choose|k: nat| pow2(k) == align as nat;
        lemma_pow2_pos(k);
        lemma_align_down(addr as nat, align as nat);
        lemma_mod_decreases(addr as nat, align as nat);
    }
    addr - (addr % align)
}

/// Aligns `addr` upwards to the nearest multiple of `align`.
pub fn align_up(addr: usize, align: usize) -> (r: usize)
    requires
        is_power_of_two_spec(align as nat),
        align_up_spec(addr as nat, align as nat) <= usize::MAX,
    ensures
        r == align_up_spec(addr as nat, align as nat),
        r % align == 0,
        addr <= r < addr + align,
{
    proof {
        let k = choose|k: nat| pow2(k) == align as nat;
        lemma_pow2_pos(k);
        lemma_align_up(addr as nat, align as nat);
    }
    let offset = addr % align;
    if offset != 0 {
        addr + (align - offset)
    } else {
        addr
    }
}

/// Whether `num` is a power of two.
pub fn is_power_of_two(num: usize) -> (r: bool)
    ensures
        r == is_power_of_two_spec(num as nat),
{
    if num == 0 {
        proof {
            if is_power_of_two_spec(0) {
                let k = choose|k: nat| pow2(k) == 0nat;
                lemma_pow2_pos(k);
            }
        }
        return false;
    }
    proof {
        lemma_bit_test_is_pow2(num);
    }
    num & (num - 1) == 0
}

} // verus!
