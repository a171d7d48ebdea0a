use vstd::arithmetic::div_mod::{
    lemma_add_mod_noop, lemma_fundamental_div_mod, lemma_mod_add_multiples_vanish,
    lemma_mod_division_less_than_divisor, lemma_mod_equivalence, lemma_mod_multiples_basic,
    lemma_mod_multiples_vanish, lemma_mod_sub_multiples_vanish, lemma_small_mod,
};
use vstd::arithmetic::mul::lemma_mul_is_commutative;
use vstd::arithmetic::power::{lemma_pow_positive, pow};
use vstd::arithmetic::power2::{
    is_pow2, is_pow2_equiv, lemma2_to64, lemma_pow2_adds, lemma_pow2_pos,
    lemma_pow2_strictly_increases, pow2,
};
use vstd::bits::lemma_usize_low_bits_mask_is_mod;
use vstd::layout::unsigned_int_max_values;
use vstd::prelude::*;

verus! {

/// The modulus of the cursors' wraparound arithmetic: one past `usize::MAX`.
pub open spec fn wrap_modulus() -> int {
    usize::MAX as int + 1
}

/// A power of two that fits in `usize` has an exponent below the word width.
pub proof fn lemma_pow2_exponent(c: usize) -> (e: nat)
    requires
        is_pow2(c as int),
    ensures
        e < usize::BITS,
        pow2(e) == c,
        c >= 1,
{
    is_pow2_equiv(c as int);
    let e = choose|i: nat| pow(2, i) == c as int;
    unsigned_int_max_values();
    if e >= usize::BITS {
        if e > usize::BITS {
            lemma_pow2_strictly_increases(usize::BITS as nat, e);
        }
        assert(false);
    }
    lemma_pow2_pos(e);
    e
}

/// One is a power of two.
pub proof fn lemma_one_is_pow2()
    ensures
        is_pow2(1int),
{
    reveal(vstd::arithmetic::power2::is_pow2);
}

/// Doubling a power of two gives the next power of two.
pub proof fn lemma_pow2_double(p: usize)
    requires
        is_pow2(p as int),
        2 * p <= usize::MAX,
    ensures
        is_pow2((2 * p) as int),
{
    let e = lemma_pow2_exponent(p);
    lemma_pow2_adds(e, 1);
    lemma2_to64();
    lemma_pow_positive(2, e + 1);
    assert(pow(2, e + 1) == 2 * p);
    is_pow2_equiv((2 * p) as int);
}

/// Distinct powers of two are at least a factor of two apart.
pub proof fn lemma_pow2_gap(p: usize, q: usize)
    requires
        is_pow2(p as int),
        is_pow2(q as int),
        p < q,
    ensures
        2 * p <= q,
{
    let a = lemma_pow2_exponent(p);
    let b = lemma_pow2_exponent(q);
    if b <= a {
        if b < a {
            lemma_pow2_strictly_increases(b, a);
        }
        assert(false);
    }
    lemma_pow2_adds(a, 1);
    lemma2_to64();
    if a + 1 < b {
        lemma_pow2_strictly_increases(a + 1, b);
    }
}

/// One quarter of the wraparound modulus is a power of two no larger than
/// what the doubled region can hold: the largest capacity a channel accepts.
pub proof fn lemma_quarter_modulus_pow2()
    ensures
        is_pow2((usize::MAX / 4 + 1) as int),
        usize::MAX / 4 + 1 <= usize::MAX / 2,
{
    unsigned_int_max_values();
    let bits = usize::BITS as nat;
    lemma_pow2_adds((bits - 2) as nat, 2);
    lemma2_to64();
    let k = pow2((bits - 2) as nat) as int;
    lemma_pow2_pos((bits - 2) as nat);
    assert((4 * k - 1) / 4 == k - 1) by (nonlinear_arith)
        requires
            k >= 1,
    ;
    assert((4 * k - 1) / 2 == 2 * k - 1) by (nonlinear_arith)
        requires
            k >= 1,
    ;
    lemma_pow_positive(2, (bits - 2) as nat);
    assert(pow(2, (bits - 2) as nat) == usize::MAX / 4 + 1);
    is_pow2_equiv((usize::MAX / 4 + 1) as int);
}

/// Every power of two that fits in `usize` divides the wraparound modulus.
/// This is why the capacity must be a power of two: offsets taken modulo the
/// capacity are then unchanged by cursor wraparound.
pub proof fn lemma_pow2_divides_modulus(c: usize)
    requires
        is_pow2(c as int),
    ensures
        c >= 1,
        wrap_modulus() % (c as int) == 0,
{
    let e = lemma_pow2_exponent(c);
    unsigned_int_max_values();
    let bits = usize::BITS as nat;
    lemma_pow2_adds(e, (bits - e) as nat);
    let k = pow2((bits - e) as nat) as int;
    lemma_mod_multiples_basic(k, c as int);
    lemma_mul_is_commutative(c as int, k);
}

/// Masking with `c - 1` is the remainder modulo `c` when `c` is a power of two.
pub proof fn lemma_mask_is_mod(x: usize, c: usize)
    requires
        is_pow2(c as int),
    ensures
        x & ((c - 1) as usize) == x % c,
        x % c < c,
{
    let e = lemma_pow2_exponent(c);
    lemma_usize_low_bits_mask_is_mod(x, e);
    lemma_mod_division_less_than_divisor(x as int, c as int);
}

/// Advancing the write cursor by `n` grows the wrapped distance by `n`,
/// as long as the distance stays within `usize`.
pub proof fn lemma_distance_after_produce(w: usize, r: usize, n: usize)
    requires
        w.wrapping_sub(r) + n <= usize::MAX,
    ensures
        w.wrapping_add(n).wrapping_sub(r) == w.wrapping_sub(r) + n,
{
}

/// Advancing the read cursor by `n` shrinks the wrapped distance by `n`,
/// as long as no more than the distance is consumed.
pub proof fn lemma_distance_after_consume(w: usize, r: usize, n: usize)
    requires
        n <= w.wrapping_sub(r),
    ensures
        w.wrapping_sub(r.wrapping_add(n)) == w.wrapping_sub(r) - n,
{
}

/// Taken modulo a power-of-two capacity, a wrapped cursor addition equals the
/// exact sum.
pub proof fn lemma_wrapping_add_mod(x: usize, n: usize, c: usize)
    requires
        is_pow2(c as int),
    ensures
        (x.wrapping_add(n) as int) % (c as int) == (x as int + n as int) % (c as int),
{
    let m = c as int;
    lemma_pow2_divides_modulus(c);
    let big = wrap_modulus();
    lemma_fundamental_div_mod(big, m);
    let q = big / m;
    if x + n > usize::MAX {
        assert(m * (-q) == -(m * q)) by (nonlinear_arith);
        lemma_mod_multiples_vanish(-q, x as int + n as int, m);
    }
}

/// The write cursor, modulo a power-of-two capacity, sits exactly the wrapped
/// distance past the read cursor.
pub proof fn lemma_cursor_congruence(w: usize, r: usize, c: usize)
    requires
        is_pow2(c as int),
    ensures
        (w as int) % (c as int) == (r as int + w.wrapping_sub(r) as int) % (c as int),
{
    let m = c as int;
    let d = w.wrapping_sub(r) as int;
    lemma_pow2_divides_modulus(c);
    let big = wrap_modulus();
    lemma_fundamental_div_mod(big, m);
    let q = big / m;
    if w < r {
        assert(m * (-q) == -(m * q)) by (nonlinear_arith);
        lemma_mod_multiples_vanish(-q, w as int + big, m);
    }
}

/// Adding a small increment to a remainder-reduced base keeps the remainder
/// of the exact sum.
pub proof fn lemma_offset_add_mod(x: usize, k: int, c: usize)
    requires
        c != 0,
        0 <= k < c,
    ensures
        ((x as int) % (c as int) + k) % (c as int) == (x as int + k) % (c as int),
{
    let m = c as int;
    lemma_small_mod(k as nat, c as nat);
    lemma_add_mod_noop(x as int, k, m);
}

/// Numbers whose exact difference lies strictly between multiples of `c`
/// leave distinct remainders modulo `c`.
pub proof fn lemma_separated_mod_ne(a: int, b: int, e: int, c: int)
    requires
        0 < c,
        0 < e < c,
        b == a + e,
    ensures
        a % c != b % c,
{
    lemma_mod_equivalence(b, a, c);
    lemma_small_mod(e as nat, c as nat);
}

/// The readable window and the writable window can never touch the same ring
/// cell: their physical offsets stay distinct modulo the capacity.
pub proof fn lemma_windows_disjoint(w: usize, r: usize, c: usize, j: int, k: int)
    requires
        is_pow2(c as int),
        w.wrapping_sub(r) <= c,
        0 <= j < w.wrapping_sub(r),
        0 <= k < c - w.wrapping_sub(r),
    ensures
        ((r as int % c as int) + j) % (c as int) != ((w as int % c as int) + k) % (c as int),
{
    let m = c as int;
    let d = w.wrapping_sub(r) as int;
    lemma_pow2_divides_modulus(c);
    lemma_offset_add_mod(r, j, c);
    lemma_offset_add_mod(w, k, c);
    lemma_cursor_congruence(w, r, c);
    lemma_small_mod(k as nat, c as nat);
    lemma_add_mod_noop(w as int, k, m);
    lemma_add_mod_noop(r as int + d, k, m);
    lemma_separated_mod_ne(r as int + j, r as int + d + k, d + k - j, m);
    lemma_offset_add_mod(r, d + k, c);
}

/// The cell `k` past the write offset is, modulo the capacity, the cell that
/// sits `readable + k` past the read offset: committed elements appear at the
/// end of the readable window.
pub proof fn lemma_write_cell_follows_readable(w: usize, r: usize, c: usize, k: int)
    requires
        is_pow2(c as int),
        w.wrapping_sub(r) <= c,
        0 <= k < c - w.wrapping_sub(r),
    ensures
        ((w as int % c as int) + k) % (c as int) == ((r as int % c as int) + (
        w.wrapping_sub(r) as int) + k) % (c as int),
{
    let m = c as int;
    let d = w.wrapping_sub(r) as int;
    lemma_pow2_divides_modulus(c);
    lemma_offset_add_mod(w, k, c);
    lemma_cursor_congruence(w, r, c);
    lemma_small_mod(k as nat, c as nat);
    lemma_add_mod_noop(w as int, k, m);
    lemma_add_mod_noop(r as int + d, k, m);
    lemma_offset_add_mod(r, d + k, c);
}

/// After the read cursor advances by `n`, the cell `j` past the new read
/// offset is, modulo the capacity, the cell `n + j` past the old read offset.
pub proof fn lemma_consumed_offset(r: usize, n: usize, c: usize, j: int)
    requires
        is_pow2(c as int),
        0 <= j,
        n + j < c,
    ensures
        ((r.wrapping_add(n) as int % c as int) + j) % (c as int) == ((r as int % c as int) + n + j)
            % (c as int),
{
    let m = c as int;
    lemma_pow2_divides_modulus(c);
    lemma_wrapping_add_mod(r, n, c);
    lemma_offset_add_mod(r.wrapping_add(n), j, c);
    lemma_small_mod(j as nat, c as nat);
    lemma_add_mod_noop(r.wrapping_add(n) as int, j, m);
    lemma_add_mod_noop(r as int + n as int, j, m);
    lemma_offset_add_mod(r, n as int + j, c);
}

/// A mirror cell `c` away leaves the remainder modulo `c` unchanged.
pub proof fn lemma_alias_same_mod(p: int, c: int)
    requires
        0 < c,
        0 <= p < 2 * c,
    ensures
        (if p < c {
            p + c
        } else {
            p - c
        }) % c == p % c,
{
    if p < c {
        lemma_mod_add_multiples_vanish(p, c);
    } else {
        lemma_mod_sub_multiples_vanish(p, c);
    }
}

/// In a doubled region of `2 * c` cells, two in-bounds positions with equal
/// remainders modulo `c` are either the same cell or mirror images `c` apart.
pub proof fn lemma_same_cell(p1: int, p2: int, c: int)
    requires
        0 < c,
        0 <= p1 < 2 * c,
        0 <= p2 < 2 * c,
        p1 % c == p2 % c,
    ensures
        p1 == p2 || p1 == p2 + c || p2 == p1 + c,
{
    lemma_fundamental_div_mod(p1, c);
    lemma_fundamental_div_mod(p2, c);
    lemma_mod_division_less_than_divisor(p1, c);
    lemma_mod_division_less_than_divisor(p2, c);
    assert(0 <= p1 / c < 2 && 0 <= p2 / c < 2) by (nonlinear_arith)
        requires
            0 < c,
            0 <= p1 < 2 * c,
            0 <= p2 < 2 * c,
    ;
    let q1 = p1 / c;
    let q2 = p2 / c;
    assert(c * 0 == 0 && c * 1 == c) by (nonlinear_arith);
}

} // verus!
