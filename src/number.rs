use vstd::prelude::*;

verus! {

/// 2 to the power `k`.
pub open spec fn two_to(k: nat) -> nat
    decreases k,
{
    if k == 0 {
        1
    } else {
        2 * two_to((k - 1) as nat)
    }
}

/// The position of the highest set bit of `m`, for `m >= 1`.
pub open spec fn top_bit(m: nat) -> nat
    decreases m,
{
    if m < 2 {
        0
    } else {
        1 + top_bit(m / 2)
    }
}

/// The 53-bit significand of `m >= 1`, its implicit leading bit included:
/// `m` shifted so that its top bit lands on bit 52, rounded to nearest with
/// ties to even where bits fall off. Rounding may carry into bit 53.
pub open spec fn significand(m: nat) -> nat {
    let p = top_bit(m);
    if p <= 52 {
        m * two_to((52 - p) as nat)
    } else {
        let d = two_to((p - 52) as nat);
        let q = m / d;
        let r = m % d;
        if r * 2 > d || (r * 2 == d && q % 2 == 1) {
            q + 1
        } else {
            q
        }
    }
}

/// The binary64 bit pattern of the positive integer `m`: the biased exponent
/// above bit 52, the significand without its leading bit below it. A carry out
/// of the significand moves into the exponent.
pub open spec fn magnitude_bits(m: nat) -> nat {
    ((top_bit(m) + 1023) * 4503599627370496 + significand(m) - 4503599627370496) as nat
}

/// The IEEE-754 binary64 bit pattern of the integer `v`, rounded to nearest
/// with ties to even.
pub open spec fn double_bits_of_int(v: int) -> u64 {
    if v == 0 {
        0
    } else if v > 0 {
        magnitude_bits(v as nat) as u64
    } else {
        (9223372036854775808 + magnitude_bits((-v) as nat)) as u64
    }
}

proof fn lemma_two_to_values()
    ensures
        two_to(52) == 4503599627370496,
        two_to(62) == 4611686018427387904,
        two_to(53) == 9007199254740992,
        two_to(64) == 18446744073709551616,
{
    reveal_with_fuel(two_to, 65);
}

proof fn lemma_two_to_pos(k: nat)
    ensures
        two_to(k) >= 1,
    decreases k,
{
    if k > 0 {
        lemma_two_to_pos((k - 1) as nat);
    }
}

proof fn lemma_two_to_adds(a: nat, b: nat)
    ensures
        two_to(a + b) == two_to(a) * two_to(b),
    decreases b,
{
    if b > 0 {
        let b1 = (b - 1) as nat;
        lemma_two_to_adds(a, b1);
        let x = two_to(a);
        let y = two_to(b1);
        assert(two_to(a + b) == 2 * two_to(a + b1));
        assert(two_to(b) == 2 * y);
        assert(x * (2 * y) == 2 * (x * y)) by (nonlinear_arith);
        assert(two_to(a + b) == x * two_to(b));
    } else {
        assert(two_to(b) == 1);
        assert(two_to(a) * 1 == two_to(a));
    }
}

proof fn lemma_two_to_mono(a: nat, b: nat)
    requires
        a <= b,
    ensures
        two_to(a) <= two_to(b),
    decreases b,
{
    if a < b {
        lemma_two_to_mono(a, (b - 1) as nat);
    }
}

proof fn lemma_top_bit_bounds(m: nat)
    requires
        m >= 1,
    ensures
        two_to(top_bit(m)) <= m < two_to(top_bit(m) + 1),
    decreases m,
{
    if m >= 2 {
        lemma_top_bit_bounds(m / 2);
        let t = top_bit(m / 2);
        assert(top_bit(m) == t + 1);
        assert(two_to(t + 1) == 2 * two_to(t));
        assert(two_to(t + 2) == 2 * two_to(t + 1));
    }
}

fn two_to_exec(k: u64) -> (r: u64)
    requires
        k <= 63,
    ensures
        r == two_to(k as nat),
{
    proof {
        lemma_two_to_values();
    }
    let mut r: u64 = 1;
    let mut i: u64 = 0;
    while i < k
        invariant
            i <= k <= 63,
            r == two_to(i as nat),
        decreases k - i,
    {
        proof {
            lemma_two_to_values();
            lemma_two_to_mono(i as nat, 62);
        }
        r = r * 2;
        i = i + 1;
    }
    r
}

fn magnitude_bits_exec(m: u64) -> (r: u64)
    requires
        1 <= m <= 9223372036854775808,
    ensures
        r == magnitude_bits(m as nat),
        r < 9223372036854775808,
{
    let mut t: u64 = m;
    let mut p: u64 = 0;
    proof {
        lemma_top_bit_bounds(m as nat);
        lemma_two_to_values();
        if top_bit(m as nat) > 63 {
            lemma_two_to_mono(64, top_bit(m as nat));
        }
    }
    while t >= 2
        invariant
            1 <= t <= m,
            top_bit(m as nat) == p + top_bit(t as nat),
            p + top_bit(t as nat) <= 63,
        decreases t,
    {
        t = t / 2;
        p = p + 1;
    }
    let q: u64;
    if p <= 52 {
        let f = two_to_exec(52 - p);
        proof {
            lemma_two_to_adds((p + 1) as nat, (52 - p) as nat);
            lemma_two_to_pos((52 - p) as nat);
            let big = two_to((p + 1) as nat);
            assert(m * f < big * f) by (nonlinear_arith)
                requires
                    m < big,
                    f >= 1,
            ;
        }
        q = m * f;
    } else {
        let d = two_to_exec(p - 52);
        proof {
            lemma_two_to_adds(53, (p - 52) as nat);
            lemma_two_to_pos((p - 52) as nat);
            lemma_two_to_mono((p - 52) as nat, 11);
            reveal_with_fuel(two_to, 12);
            let bound = two_to(53);
            assert(m / d < bound) by (nonlinear_arith)
                requires
                    m < bound * d,
                    d >= 1,
            ;
        }
        let q0 = m / d;
        let r0 = m % d;
        if r0 * 2 > d || (r0 * 2 == d && q0 % 2 == 1) {
            q = q0 + 1;
        } else {
            q = q0;
        }
    }
    (p + 1023) * 4503599627370496 + q - 4503599627370496
}

/// The binary64 bit pattern of `v`: what converting it to a 64-bit float gives.
pub fn double_bits_of_i64(v: i64) -> (r: u64)
    ensures
        r == double_bits_of_int(v as int),
{
    if v == 0 {
        return 0;
    }
    let m: u64 = if v < 0 {
        ((-(v + 1)) as u64) + 1
    } else {
        v as u64
    };
    let b = magnitude_bits_exec(m);
    if v < 0 {
        9223372036854775808u64 + b
    } else {
        b
    }
}

} // verus!
