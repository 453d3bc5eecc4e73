use vstd::arithmetic::div_mod::{
    lemma_fundamental_div_mod, lemma_fundamental_div_mod_converse_mod,
    lemma_mod_add_multiples_vanish,
};
use vstd::prelude::*;

verus! {

/// True when exactly one bit of `a` is set.
pub open spec fn is_power_of_two(a: usize) -> bool {
    a != 0 && a & ((a - 1) as usize) == 0
}

/// The larger of two numbers.
pub open spec fn spec_max(a: int, b: int) -> int {
    if a >= b {
        a
    } else {
        b
    }
}

/// The smallest multiple of `a` that is not below `p`.
pub open spec fn spec_align(p: int, a: int) -> int
    recommends
        p >= 0,
        a > 0,
{
    p + (a - p % a) % a
}

/// The smallest position not below `p` from which `n` more bytes end on a multiple of
/// `max(n, a)`.
pub open spec fn spec_align_after(p: int, n: int, a: int) -> int
    recommends
        p >= 0,
        n >= 0,
        a > 0,
{
    let m = spec_max(n, a);
    p + (m - (p + n) % m) % m
}

/// `spec_align(p, a)` is a multiple of `a`, lies less than `a` above `p`, and no multiple of
/// `a` lies between the two.
pub proof fn lemma_align_is_least_multiple(p: int, a: int)
    requires
        p >= 0,
        a > 0,
    ensures
        spec_align(p, a) >= p,
        spec_align(p, a) - p < a,
        spec_align(p, a) % a == 0,
        forall|q: int| q >= p && #[trigger] (q % a) == 0 ==> q >= spec_align(p, a),
{
    let r = p % a;
    assert(0 <= r < a);
    if r == 0 {
        assert((a - r) % a == 0) by (nonlinear_arith)
            requires
                r == 0,
                a > 0,
        ;
    } else {
        assert((a - r) % a == a - r) by (nonlinear_arith)
            requires
                0 < r < a,
        ;
        assert((p + (a - r)) % a == 0) by (nonlinear_arith)
            requires
                r == p % a,
                0 < r < a,
                p >= 0,
        ;
    }
    assert forall|q: int| q >= p && #[trigger] (q % a) == 0 implies q >= spec_align(p, a) by {
        if q < spec_align(p, a) {
            assert(false) by (nonlinear_arith)
                requires
                    p <= q < p + (a - r),
                    0 < r < a,
                    r == p % a,
                    q % a == 0,
                    p >= 0,
            ;
        }
    }
}

/// `spec_align_after(p, n, a)` is the least position `q >= p` with `(q + n) % max(n, a) == 0`,
/// and it lies less than `max(n, a)` above `p`.
pub proof fn lemma_align_after_is_least(p: int, n: int, a: int)
    requires
        p >= 0,
        n >= 0,
        a > 0,
    ensures
        spec_align_after(p, n, a) >= p,
        spec_align_after(p, n, a) - p < spec_max(n, a),
        (spec_align_after(p, n, a) + n) % spec_max(n, a) == 0,
        forall|q: int|
            q >= p && #[trigger] ((q + n) % spec_max(n, a)) == 0 ==> q >= spec_align_after(
                p,
                n,
                a,
            ),
{
    let m = spec_max(n, a);
    lemma_align_is_least_multiple(p + n, m);
    assert(spec_align_after(p, n, a) + n == spec_align(p + n, m));
    assert forall|q: int| q >= p && #[trigger] ((q + n) % m) == 0 implies q >= spec_align_after(
        p,
        n,
        a,
    ) by {
        assert(q + n >= p + n);
    }
}

proof fn lemma_halve_bits(p: usize, a: usize)
    by (bit_vector)
    requires
        a != 0,
        a & ((a - 1) as usize) == 0,
        a != 1,
    ensures
        a == 2 * (a / 2),
        (a / 2) as usize != 0,
        ((a / 2) as usize) & ((((a / 2) as usize) - 1) as usize) == 0,
        p & ((a - 1) as usize) == 2 * (((p / 2) as usize) & ((((a / 2) as usize) - 1) as usize))
            + p % 2,
{
}

proof fn lemma_mod_halves(p: int, b: int)
    by (nonlinear_arith)
    requires
        p >= 0,
        b > 0,
    ensures
        p % (2 * b) == 2 * ((p / 2) % b) + p % 2,
{
}

/// Masking with a power of two less one keeps the remainder of the division by it.
pub proof fn lemma_mask_is_mod(p: usize, a: usize)
    requires
        is_power_of_two(a),
    ensures
        p & ((a - 1) as usize) == p % a,
    decreases a,
{
    if a == 1 {
        assert(p & 0 == 0) by (bit_vector);
    } else {
        lemma_halve_bits(p, a);
        lemma_mask_is_mod((p / 2) as usize, (a / 2) as usize);
        lemma_mod_halves(p as int, (a / 2) as int);
    }
}

proof fn lemma_all_ones_mask(m: usize, a: usize)
    by (bit_vector)
    requires
        m == 0xffff_ffff || m == 0xffff_ffff_ffff_ffff,
        a <= m,
        a != 0,
        a & ((a - 1) as usize) == 0,
    ensures
        m & ((a - 1) as usize) == a - 1,
{
}

proof fn lemma_negated_mod(p: int, a: int, m: int)
    requires
        0 < p <= m,
        a > 0,
        m % a == a - 1,
    ensures
        (m + 1 - p) % a == (a - p % a) % a,
{
    let r = p % a;
    let k = m / a + 1;
    lemma_fundamental_div_mod(m, a);
    lemma_fundamental_div_mod(p, a);
    assert(m + 1 == a * k) by (nonlinear_arith)
        requires
            m == a * (m / a) + (a - 1),
            k == m / a + 1,
    ;
    if r == 0 {
        assert(m + 1 - p == (k - p / a) * a + 0) by (nonlinear_arith)
            requires
                m + 1 == a * k,
                p == a * (p / a) + r,
                r == 0,
        ;
        lemma_fundamental_div_mod_converse_mod(m + 1 - p, a, k - p / a, 0);
        lemma_fundamental_div_mod_converse_mod(a - r, a, 1, 0);
    } else {
        assert(m + 1 - p == (k - p / a - 1) * a + (a - r)) by (nonlinear_arith)
            requires
                m + 1 == a * k,
                p == a * (p / a) + r,
        ;
        lemma_fundamental_div_mod_converse_mod(m + 1 - p, a, k - p / a - 1, a - r);
        lemma_fundamental_div_mod_converse_mod(a - r, a, 0, a - r);
    }
}

/// The low bits of the two's complement of `p` are the distance from `p` up to the next
/// multiple of the power of two `a`.
proof fn lemma_padding(p: usize, a: usize, negated: usize)
    requires
        is_power_of_two(a),
        negated == (if p == 0 {
            0
        } else {
            usize::MAX - p + 1
        }),
    ensures
        negated & ((a - 1) as usize) == (a - p % a) % (a as int),
{
    lemma_mask_is_mod(negated, a);
    if p == 0 {
        lemma_fundamental_div_mod_converse_mod(0, a as int, 0, 0);
        lemma_fundamental_div_mod_converse_mod(a as int, a as int, 1, 0);
    } else {
        lemma_all_ones_mask(usize::MAX, a);
        lemma_mask_is_mod(usize::MAX, a);
        lemma_negated_mod(p as int, a as int, usize::MAX as int);
    }
}

/// The powers of two that the format uses as alignments.
pub proof fn lemma_small_powers_of_two()
    ensures
        is_power_of_two(1),
        is_power_of_two(2),
        is_power_of_two(4),
        is_power_of_two(8),
        is_power_of_two(16),
{
    assert(1usize & ((1usize - 1) as usize) == 0) by (bit_vector);
    assert(2usize & ((2usize - 1) as usize) == 0) by (bit_vector);
    assert(4usize & ((4usize - 1) as usize) == 0) by (bit_vector);
    assert(8usize & ((8usize - 1) as usize) == 0) by (bit_vector);
    assert(16usize & ((16usize - 1) as usize) == 0) by (bit_vector);
}

/// Tells whether exactly one bit of `a` is set.
pub fn check_power_of_two(a: usize) -> (r: bool)
    ensures
        r == is_power_of_two(a),
{
    a != 0 && a & (a - 1) == 0
}

/// The number of bytes from `current_position` up to the next multiple of `alignment`.
pub fn padding(current_position: usize, alignment: usize) -> (result: usize)
    requires
        is_power_of_two(alignment),
    ensures
        result == spec_align(current_position as int, alignment as int) - current_position,
        result < alignment,
{
    let negated = 0usize.wrapping_sub(current_position);
    proof {
        lemma_padding(current_position, alignment, negated);
        lemma_align_is_least_multiple(current_position as int, alignment as int);
    }
    negated & alignment.wrapping_sub(1)
}

/// Finds the next position at or after `current_position` that is a multiple of `alignment`.
pub fn align(current_position: usize, alignment: usize) -> (result: usize)
    requires
        is_power_of_two(alignment),
        spec_align(current_position as int, alignment as int) <= usize::MAX,
    ensures
        result == spec_align(current_position as int, alignment as int),
{
    current_position + padding(current_position, alignment)
}

/// A position within `max(n, a)` above `p` from which `n` more bytes end on a multiple of
/// `max(n, a)` is the one that `spec_align_after` names.
proof fn lemma_align_after_unique(p: int, n: int, a: int, c: int)
    requires
        p >= 0,
        n >= 0,
        a > 0,
        c >= p,
        c - p < spec_max(n, a),
        (c + n) % spec_max(n, a) == 0,
    ensures
        c == spec_align_after(p, n, a),
{
    let m = spec_max(n, a);
    let s = spec_align_after(p, n, a);
    lemma_align_after_is_least(p, n, a);
    assert(s <= c);
    lemma_fundamental_div_mod(c + n, m);
    lemma_fundamental_div_mod(s + n, m);
    assert(c == s) by (nonlinear_arith)
        requires
            0 <= c - s < m,
            c + n == m * ((c + n) / m),
            s + n == m * ((s + n) / m),
    ;
}

/// The number of bytes from `current_position` up to the next position from which `len`
/// more bytes end on a multiple of the larger of `len` and `alignment`.
pub fn padding_after(current_position: usize, len: usize, alignment: usize) -> (result: usize)
    requires
        is_power_of_two(alignment),
        len <= alignment || is_power_of_two(len),
    ensures
        result == spec_align_after(current_position as int, len as int, alignment as int)
            - current_position,
        result < spec_max(len as int, alignment as int),
{
    let real_alignment = if alignment >= len {
        alignment
    } else {
        len
    };
    let room = padding(current_position, real_alignment);
    proof {
        let p = current_position as int;
        let m = real_alignment as int;
        lemma_align_is_least_multiple(p, m);
        if room >= len {
            lemma_align_after_unique(p, len as int, alignment as int, p + room - len);
        } else {
            lemma_mod_add_multiples_vanish(p + room, m);
            lemma_align_after_unique(p, len as int, alignment as int, p + room + m - len);
        }
    }
    if room >= len {
        room - len
    } else {
        room + (real_alignment - len)
    }
}

/// Finds the next position at or after `current_position` such that, once `len` bytes have
/// been appended there, the position that follows is a multiple of the larger of `len` and
/// `alignment`.
pub fn align_after(current_position: usize, len: usize, alignment: usize) -> (result: usize)
    requires
        is_power_of_two(alignment),
        len <= alignment || is_power_of_two(len),
        spec_align_after(current_position as int, len as int, alignment as int) <= usize::MAX,
    ensures
        result == spec_align_after(current_position as int, len as int, alignment as int),
{
    current_position + padding_after(current_position, len, alignment)
}

} // verus!
