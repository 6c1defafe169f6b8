//! The order of JSON numbers as doubles, in integers.
//!
//! A double is handled by its bits, and its value is counted in the smallest
//! unit that a double can hold, so that every value is an integer.

use vstd::prelude::*;
use vstd::arithmetic::power2::{
    lemma2_to64, lemma2_to64_rest, lemma_pow2_adds, lemma_pow2_pos, lemma_pow2_strictly_increases,
    lemma_pow2_subtracts, lemma_pow2_unfold, pow2,
};
use crate::json::{Json, JsonView, Number};

verus! {

/// What the exponent and fraction bits of a double count, in units of the
/// smallest positive double.
pub open spec fn magnitude(bits: int) -> int {
    let exponent = bits / 0x10_0000_0000_0000;
    let fraction = bits % 0x10_0000_0000_0000;
    if exponent == 0 {
        fraction
    } else {
        (0x10_0000_0000_0000 + fraction) * pow2((exponent - 1) as nat)
    }
}

/// The value of a double, from its bits, in units of the smallest positive
/// double.
pub open spec fn double_value(bits: u64) -> int {
    if bits < 0x8000_0000_0000_0000 {
        magnitude(bits as int)
    } else {
        -magnitude(bits - 0x8000_0000_0000_0000)
    }
}

/// The distance between the integers that doubles hold around `n`: one where
/// `n` has at most 53 binary digits, and twice as much for each digit more.
pub open spec fn spacing(n: nat) -> nat
    decreases n,
{
    if n < 0x20_0000_0000_0000 {
        1
    } else {
        2 * spacing(n / 2)
    }
}

/// The integer that the double nearest to `n` holds; of two that are equally
/// near, the one with the even significand.
pub open spec fn nearest(n: nat) -> nat {
    let gap = spacing(n);
    let over = n % gap;
    let down = (n - over) as nat;
    if 2 * over < gap || (2 * over == gap && (n / gap) % 2 == 0) {
        down
    } else {
        down + gap
    }
}

/// The value of a JSON number as a double, in units of the smallest positive
/// double.
pub open spec fn number_value(n: Number) -> int {
    match n {
        Number::PosInt(u) => (nearest(u as nat) * pow2(1074)) as int,
        Number::NegInt(i) => if i < 0 {
            -(nearest((-i) as nat) * pow2(1074))
        } else {
            (nearest(i as nat) * pow2(1074)) as int
        },
        Number::Float(bits) => double_value(bits),
    }
}

/// The value of a JSON value as a double; zero for what is no number.
pub open spec fn value_as_double(v: JsonView) -> int {
    match v {
        JsonView::Number(n) => number_value(n),
        _ => 0,
    }
}

/// The value that an order key stands for.
pub open spec fn key_value(key: int) -> int {
    if key >= 0 {
        magnitude(key)
    } else {
        -magnitude(-key)
    }
}

proof fn magnitude_grows(m: int)
    requires
        0 <= m,
    ensures
        0 <= magnitude(m) < magnitude(m + 1),
{
    let b = 0x10_0000_0000_0000int;
    let e = m / b;
    let f = m % b;
    assert(m == e * b + f);
    if f + 1 < b {
        assert((m + 1) / b == e && (m + 1) % b == f + 1) by (nonlinear_arith)
            requires
                m == e * b + f,
                0 <= f,
                f + 1 < b,
        ;
        if e > 0 {
            let p = pow2((e - 1) as nat) as int;
            lemma_pow2_pos((e - 1) as nat);
            assert((b + f + 1) * p == (b + f) * p + p) by (nonlinear_arith);
            assert((b + f) * p >= 0) by (nonlinear_arith)
                requires
                    b + f >= 0,
                    p >= 0,
            ;
        }
    } else {
        assert((m + 1) / b == e + 1 && (m + 1) % b == 0) by (nonlinear_arith)
            requires
                m == e * b + f,
                f + 1 == b,
                b > 0,
        ;
        if e == 0 {
            lemma2_to64();
        } else {
            let p = pow2((e - 1) as nat) as int;
            lemma_pow2_pos((e - 1) as nat);
            lemma_pow2_unfold(e as nat);
            assert(b * (2 * p) == (b + f) * p + p) by (nonlinear_arith)
                requires
                    f + 1 == b,
            ;
            assert((b + f) * p >= 0) by (nonlinear_arith)
                requires
                    b + f >= 0,
                    p >= 0,
            ;
        }
    }
}

proof fn magnitude_is_monotone(m: int, n: int)
    requires
        0 <= m < n,
    ensures
        0 <= magnitude(m) < magnitude(n),
    decreases n - m,
{
    magnitude_grows(m);
    if m + 1 < n {
        magnitude_is_monotone(m + 1, n);
    }
}

/// Order keys stand in the order of the values that they stand for.
pub proof fn keys_order_values(a: int, b: int)
    ensures
        a < b <==> key_value(a) < key_value(b),
        a == b <==> key_value(a) == key_value(b),
{
    assert(magnitude(0) == 0);
    if a < 0 {
        magnitude_is_monotone(0, -a);
    } else if a > 0 {
        magnitude_is_monotone(0, a);
    }
    if b < 0 {
        magnitude_is_monotone(0, -b);
    } else if b > 0 {
        magnitude_is_monotone(0, b);
    }
    if 0 <= a && 0 <= b {
        if a < b {
            magnitude_is_monotone(a, b);
        } else if b < a {
            magnitude_is_monotone(b, a);
        }
    }
    if a < 0 && b < 0 {
        if a < b {
            magnitude_is_monotone(-b, -a);
        } else if b < a {
            magnitude_is_monotone(-a, -b);
        }
    }
}

proof fn spacing_of(n: nat, e: nat)
    requires
        52 <= e,
        pow2(e) <= n < pow2(e + 1),
    ensures
        spacing(n) == pow2((e - 52) as nat),
    decreases e,
{
    lemma2_to64_rest();
    lemma2_to64();
    if e > 52 {
        lemma_pow2_unfold(e);
        lemma_pow2_unfold(e + 1);
        lemma_pow2_unfold((e - 52) as nat);
        if e > 53 {
            lemma_pow2_strictly_increases(53, e);
        }
        spacing_of(n / 2, (e - 1) as nat);
    }
}

proof fn magnitude_of_parts(e: nat, m: int)
    requires
        0x10_0000_0000_0000 <= m <= 0x20_0000_0000_0000,
    ensures
        magnitude((e + 1022) * 0x10_0000_0000_0000 + m) == m * pow2(e + 1022),
{
    let b = 0x10_0000_0000_0000int;
    let x = (e + 1022) * b + m;
    if m < 2 * b {
        assert(x / b == e + 1023 && x % b == m - b) by (nonlinear_arith)
            requires
                x == (e + 1022) * b + m,
                b <= m < 2 * b,
                b > 0,
        ;
    } else {
        assert(x / b == e + 1024 && x % b == 0) by (nonlinear_arith)
            requires
                x == (e + 1022) * b + m,
                m == 2 * b,
                b > 0,
        ;
        lemma_pow2_unfold(e + 1023);
        let p = pow2(e + 1022) as int;
        assert(b * (2 * p) == (2 * b) * p) by (nonlinear_arith);
    }
}

/// The bits of the double nearest to an integer.
fn double_bits(n: u64) -> (r: u64)
    ensures
        r < 0x8000_0000_0000_0000,
        magnitude(r as int) == nearest(n as nat) * pow2(1074),
{
    if n == 0 {
        assert(spacing(0) == 1);
        assert(0nat % 1nat == 0 && 0nat / 1nat == 0);
        assert(0 * pow2(1074) == 0);
        assert(magnitude(0) == 0);
        return 0;
    }
    let mut p: u64 = 1;
    let mut e: u64 = 0;
    proof {
        lemma2_to64();
        lemma2_to64_rest();
    }
    while n / 2 >= p
        invariant
            p == pow2(e as nat),
            1 <= p <= n,
            e <= 63,
        decreases n - p,
    {
        proof {
            lemma_pow2_unfold((e + 1) as nat);
            lemma2_to64_rest();
            if e >= 63 {
                assert(pow2(63) == 0x8000_0000_0000_0000);
            }
        }
        p = p * 2;
        e = e + 1;
    }
    proof {
        lemma_pow2_unfold((e + 1) as nat);
    }
    if e <= 52 {
        let scale: u64 = 0x10_0000_0000_0000 / p;
        proof {
            lemma_pow2_subtracts(e as nat, 52);
            lemma_pow2_adds(e as nat, (52 - e) as nat);
            if e < 52 {
                lemma_pow2_strictly_increases((e + 1) as nat, 53);
            }
            let (np, sp) = (n as int, scale as int);
            assert(p * sp <= np * sp < (2 * p) * sp) by (nonlinear_arith)
                requires
                    p <= np < 2 * p,
                    sp > 0,
            ;
            assert((2 * p) * sp == 2 * (p * sp)) by (nonlinear_arith);
        }
        let m: u64 = n * scale;
        proof {
            magnitude_of_parts(e as nat, m as int);
            lemma_pow2_adds((52 - e) as nat, (e + 1022) as nat);
            assert(spacing(n as nat) == 1);
            assert(n % 1 == 0);
            let (x, y, z) = (n as int, pow2((52 - e) as nat) as int, pow2((e + 1022) as nat) as int);
            assert((x * y) * z == x * (y * z)) by (nonlinear_arith);
        }
        (e + 1022) * 0x10_0000_0000_0000 + m
    } else {
        let gap: u64 = p / 0x10_0000_0000_0000;
        proof {
            lemma_pow2_subtracts(52, e as nat);
            lemma_pow2_adds(52, (e - 52) as nat);
            spacing_of(n as nat, e as nat);
        }
        let down: u64 = n / gap;
        let over: u64 = n % gap;
        proof {
            let (x, g, d, o) = (n as int, gap as int, down as int, over as int);
            let b = 0x10_0000_0000_0000int;
            assert(p == b * g);
            assert(x == d * g + o && 0 <= o < g) by (nonlinear_arith)
                requires
                    d == x / g,
                    o == x % g,
                    g > 0,
            ;
            assert(b <= d < 2 * b) by (nonlinear_arith)
                requires
                    x == d * g + o,
                    0 <= o < g,
                    b * g <= x < 2 * (b * g),
            ;
        }
        let up: bool = over > gap - over || (over == gap - over && down % 2 == 1);
        let m: u64 = if up {
            down + 1
        } else {
            down
        };
        proof {
            magnitude_of_parts(e as nat, m as int);
            lemma_pow2_adds((e - 52) as nat, 1074);
            let (x, g, d, o) = (n as int, gap as int, down as int, over as int);
            assert(nearest(n as nat) == m * g) by (nonlinear_arith)
                requires
                    x == d * g + o,
                    nearest(n as nat) == if m == d {
                        x - o
                    } else {
                        x - o + g
                    },
                    m == d || m == d + 1,
            ;
            let (y, z) = (m as int, pow2(1074) as int);
            assert((y * g) * z == y * (g * z)) by (nonlinear_arith);
        }
        (e + 1022) * 0x10_0000_0000_0000 + m
    }
}

/// An integer by which values are ordered as doubles are.
pub fn order_key(v: &Json) -> (r: i64)
    ensures
        key_value(r as int) == value_as_double(v@),
        r > i64::MIN,
{
    match v {
        Json::Number(Number::PosInt(u)) => double_bits(*u) as i64,
        Json::Number(Number::NegInt(i)) => {
            if *i >= 0 {
                double_bits(*i as u64) as i64
            } else {
                let size: u64 = (-(*i as i128)) as u64;
                let bits: u64 = double_bits(size);
                proof {
                    if bits == 0 {
                        assert(magnitude(0) == 0);
                    }
                }
                -(bits as i64)
            }
        },
        Json::Number(Number::Float(bits)) => {
            if *bits < 0x8000_0000_0000_0000 {
                *bits as i64
            } else {
                let size: u64 = *bits - 0x8000_0000_0000_0000;
                assert(magnitude(0) == 0);
                -(size as i64)
            }
        },
        _ => {
            assert(magnitude(0) == 0);
            0
        },
    }
}

/// A double counts its fraction in steps that double with each exponent, from
/// one for the smallest; the sign bit turns its value round.
pub proof fn doubles_are_evenly_spaced(exponent: u64, fraction: u64)
    requires
        exponent < 2048,
        fraction < 0x10_0000_0000_0000,
    ensures
        double_value(fraction) == fraction,
        1 <= exponent < 2048 ==> double_value(
            (exponent * 0x10_0000_0000_0000 + fraction) as u64,
        ) == (0x10_0000_0000_0000 + fraction) * pow2((exponent - 1) as nat),
        double_value(
            (0x8000_0000_0000_0000 + exponent * 0x10_0000_0000_0000 + fraction) as u64,
        ) == -double_value((exponent * 0x10_0000_0000_0000 + fraction) as u64),
{
    let b = 0x10_0000_0000_0000int;
    let bits = exponent * b + fraction;
    assert(bits / b == exponent && bits % b == fraction) by (nonlinear_arith)
        requires
            bits == exponent * b + fraction,
            0 <= fraction < b,
            b > 0,
    ;
    assert(fraction as int / b == 0 && fraction as int % b == fraction);
    assert(bits < 0x8000_0000_0000_0000) by (nonlinear_arith)
        requires
            bits == exponent * b + fraction,
            fraction < b,
            exponent < 2048,
            b == 0x10_0000_0000_0000,
    ;
}

/// Every integer of at most 53 binary digits is its own double, and a negative
/// number is the negative of the positive one. What is no number counts as
/// zero.
pub proof fn integers_keep_their_value(n: u64, v: JsonView)
    ensures
        n < 0x20_0000_0000_0000 ==> number_value(Number::PosInt(n)) == n * pow2(1074),
        n <= i64::MAX ==> number_value(Number::NegInt((-n) as i64)) == -number_value(
            Number::PosInt(n),
        ),
        n <= i64::MAX ==> number_value(Number::NegInt(n as i64)) == number_value(
            Number::PosInt(n),
        ),
        v matches JsonView::Number(number) ==> value_as_double(v) == number_value(number),
        v !is Number ==> value_as_double(v) == 0,
{
    if n < 0x20_0000_0000_0000 {
        assert(spacing(n as nat) == 1);
        assert(n as nat % 1 == 0);
    }
    if n == 0 {
        assert(nearest(0) == 0);
        assert(0 * pow2(1074) == 0);
    }
}

/// An integer that is no double becomes one of its two neighbours among those
/// that are, the nearer of them or of two equally near the even one: no multiple of the distance between
/// doubles stands between the integer and what it becomes.
pub proof fn integers_become_the_nearest_double(n: nat, k: nat)
    ensures
        ({
            let gap = spacing(n);
            &&& gap > 0
            &&& nearest(n) % gap == 0
            &&& 2 * (nearest(n) - n) <= gap
            &&& 2 * (n - nearest(n)) <= gap
            &&& 2 * (nearest(n) - n) == gap || 2 * (n - nearest(n)) == gap ==> (nearest(n) / gap) % 2
                == 0
            &&& k * gap >= n ==> nearest(n) <= k * gap
            &&& k * gap <= n ==> nearest(n) >= k * gap
        }),
        n >= 0x10_0000_0000_0000 ==> spacing(2 * n) == 2 * spacing(n),
        n < 0x20_0000_0000_0000 ==> spacing(n) == 1,
{
    spacing_is_positive(n);
    let gap = spacing(n) as int;
    let down = n as int / gap;
    let over = n as int % gap;
    assert(n == down * gap + over && 0 <= over < gap) by (nonlinear_arith)
        requires
            down == n as int / gap,
            over == n as int % gap,
            gap > 0,
    ;
    assert((down * gap) % gap == 0 && ((down + 1) * gap) % gap == 0) by (nonlinear_arith)
        requires
            gap > 0,
    ;
    assert((down + 1) * gap == down * gap + gap) by (nonlinear_arith);
    assert((down * gap) / gap == down && ((down + 1) * gap) / gap == down + 1) by (nonlinear_arith)
        requires
            gap > 0,
    ;
    let m = k as int;
    assert(m * gap >= n ==> (over == 0 && m * gap >= down * gap) || m * gap >= down * gap + gap)
        by (nonlinear_arith)
        requires
            n == down * gap + over,
            0 <= over < gap,
    ;
    assert(m * gap <= n ==> m * gap <= down * gap) by (nonlinear_arith)
        requires
            n == down * gap + over,
            0 <= over < gap,
    ;
}

proof fn spacing_is_positive(n: nat)
    ensures
        spacing(n) > 0,
    decreases n,
{
    if n >= 0x20_0000_0000_0000 {
        spacing_is_positive(n / 2);
    }
}

} // verus!
