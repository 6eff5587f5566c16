use vstd::prelude::*;

verus! {

/// One whole token in base units: the unit of voting-asset weights.
pub const ONE: u128 = 1_000_000_000_000_000_000;

/// `r` is the integer square root of `x`.
pub open spec fn is_isqrt(x: int, r: int) -> bool {
    0 <= r && r * r <= x && x < (r + 1) * (r + 1)
}

/// The integer square root of `x`, defined by counting up.
pub open spec fn sqrt_floor(x: nat) -> nat
    decreases x,
{
    if x == 0 {
        0
    } else {
        let r = sqrt_floor((x - 1) as nat);
        if (r + 1) * (r + 1) <= x {
            r + 1
        } else {
            r
        }
    }
}

/// `sqrt_floor` is the integer square root, and the only one.
pub proof fn lemma_sqrt_floor(x: nat, r: int)
    ensures
        is_isqrt(x as int, sqrt_floor(x) as int),
        is_isqrt(x as int, r) ==> r == sqrt_floor(x),
    decreases x,
{
    if x > 0 {
        lemma_sqrt_floor((x - 1) as nat, 0);
        let p = sqrt_floor((x - 1) as nat) as int;
        assert(x <= (p + 1) * (p + 1));
        if (p + 1) * (p + 1) <= x {
            assert(x < (p + 2) * (p + 2)) by (nonlinear_arith)
                requires
                    x == (p + 1) * (p + 1),
                    p >= 0,
            ;
        }
    }
    let s = sqrt_floor(x) as int;
    if is_isqrt(x as int, r) && r != s {
        if r < s {
            assert((r + 1) * (r + 1) <= s * s) by (nonlinear_arith)
                requires
                    0 <= r < s,
            ;
        } else {
            assert((s + 1) * (s + 1) <= r * r) by (nonlinear_arith)
                requires
                    0 <= s < r,
            ;
        }
    }
}

/// The weight of a deposit: `floor(amount * weight / ONE)`.
pub open spec fn weighted(amount: int, weight: int) -> int {
    (amount * weight) / (ONE as int)
}

/// Integer square root: the largest `r` with `r * r <= x`.
pub fn isqrt(x: u128) -> (r: u128)
    ensures
        r == sqrt_floor(x as nat),
{
    let mut lo: u128 = 0;
    let mut hi: u128 = 0x1_0000_0000_0000_0000;
    assert(hi * hi > u128::MAX) by (nonlinear_arith)
        requires
            hi == 0x1_0000_0000_0000_0000u128,
    ;
    while hi - lo > 1
        invariant
            lo < hi <= 0x1_0000_0000_0000_0000u128,
            lo * lo <= x,
            x < hi * hi,
        decreases hi - lo,
    {
        let mid: u128 = lo + (hi - lo) / 2;
        assert(mid * mid < 0x1_0000_0000_0000_0000_0000_0000_0000_0000) by (nonlinear_arith)
            requires
                mid < 0x1_0000_0000_0000_0000u128,
        ;
        if mid * mid <= x {
            lo = mid;
        } else {
            hi = mid;
        }
    }
    proof {
        lemma_sqrt_floor(x as nat, lo as int);
    }
    lo
}

proof fn lemma_weighted_split(qa: int, ra: int, qw: int, rw: int)
    requires
        0 <= qa,
        0 <= ra < ONE as int,
        0 <= qw,
        0 <= rw < ONE as int,
    ensures
        weighted(qa * ONE as int + ra, qw * ONE as int + rw) == qa * qw * ONE as int + qa * rw
            + ra * qw + (ra * rw) / (ONE as int),
        qa * qw <= qa * qw * ONE as int,
        0 <= ra * rw < ONE as int * ONE as int,
        0 <= qa * rw,
        0 <= ra * qw,
{
    let k = ONE as int;
    let x = qa * qw * k + qa * rw + ra * qw;
    assert((qa * k + ra) * (qw * k + rw) == x * k + ra * rw) by (nonlinear_arith)
        requires
            x == qa * qw * k + qa * rw + ra * qw,
    ;
    vstd::arithmetic::div_mod::lemma_hoist_over_denominator(ra * rw, x, k as nat);
    assert(qa * qw <= qa * qw * k) by (nonlinear_arith)
        requires
            qa >= 0,
            qw >= 0,
            k >= 1,
    ;
    assert(0 <= ra * rw < k * k) by (nonlinear_arith)
        requires
            0 <= ra < k,
            0 <= rw < k,
    ;
    assert(0 <= qa * rw) by (nonlinear_arith)
        requires
            qa >= 0,
            rw >= 0,
    ;
    assert(0 <= ra * qw) by (nonlinear_arith)
        requires
            ra >= 0,
            qw >= 0,
    ;
}

/// The weight of a deposit of `amount` base units of an asset whose weight is
/// `weight`: `Some(floor(amount * weight / ONE))` when that fits in 128 bits,
/// `None` otherwise. The product itself may exceed 128 bits.
pub fn weighted_amount(amount: u128, weight: u128) -> (r: Option<u128>)
    ensures
        r matches Some(v) ==> v as int == weighted(amount as int, weight as int),
        r is None <==> weighted(amount as int, weight as int) > u128::MAX,
{
    let qa = amount / ONE;
    let ra = amount % ONE;
    let qw = weight / ONE;
    let rw = weight % ONE;
    proof {
        lemma_weighted_split(qa as int, ra as int, qw as int, rw as int);
    }
    let qq = match qa.checked_mul(qw) {
        Some(v) => v,
        None => return None,
    };
    let big = match qq.checked_mul(ONE) {
        Some(v) => v,
        None => return None,
    };
    let cross_a = match qa.checked_mul(rw) {
        Some(v) => v,
        None => return None,
    };
    let cross_b = match ra.checked_mul(qw) {
        Some(v) => v,
        None => return None,
    };
    let low = ra * rw / ONE;
    let s1 = match big.checked_add(cross_a) {
        Some(v) => v,
        None => return None,
    };
    let s2 = match s1.checked_add(cross_b) {
        Some(v) => v,
        None => return None,
    };
    s2.checked_add(low)
}

} // verus!
