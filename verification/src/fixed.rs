use vstd::prelude::*;
use vstd::arithmetic::div_mod::{
    lemma_fundamental_div_mod, lemma_fundamental_div_mod_converse, lemma_mod_bound,
};
use crate::error::ClassifierError;

verus! {

/// Raw units per 1.0: every coordinate, feature and weight is a signed
/// 32-bit count of millionths.
pub const SCALE: i32 = 1_000_000;

/// The tolerance handed to the least-squares solver, in raw units: singular
/// values no larger than one millionth count as zero.
pub const EPSILON: i32 = 1;

/// The class of a point: on which side of a boundary it lies.
#[derive(Clone, Copy, Debug, PartialEq, Eq, Structural)]
pub enum Label {
    Negative,
    Positive,
}

/// The label that a dot product decides: positive from zero upwards.
pub open spec fn label_of(d: int) -> Label {
    if d >= 0 {
        Label::Positive
    } else {
        Label::Negative
    }
}

impl Label {
    /// The number a label stands for: plus or minus one.
    pub open spec fn sign(self) -> int {
        match self {
            Label::Positive => 1,
            Label::Negative => -1,
        }
    }

    /// The label as a number, `1` or `-1`.
    pub fn value(self) -> (v: i32)
        ensures
            v == self.sign(),
            v == 1 || v == -1,
    {
        match self {
            Label::Positive => 1,
            Label::Negative => -1,
        }
    }

    /// The label of a point whose dot product with the weights is `d`.
    pub fn of(d: i128) -> (l: Label)
        ensures
            l == label_of(d as int),
    {
        if d >= 0 {
            Label::Positive
        } else {
            Label::Negative
        }
    }
}

/// Every label stands for plus or minus one, never for zero: plus one
/// exactly where the dot product is zero or more.
pub proof fn lemma_label_sign(d: int)
    ensures
        label_of(d).sign() == 1 || label_of(d).sign() == -1,
        label_of(d).sign() == 1 <==> d >= 0,
{
}

/// Sum of the first `k` products `a[i] * b[i]`.
pub open spec fn dot_prefix(a: Seq<i32>, b: Seq<i32>, k: nat) -> int
    decreases k,
{
    if k == 0 {
        0
    } else {
        dot_prefix(a, b, (k - 1) as nat) + a[k - 1] * b[k - 1]
    }
}

/// Dot product of two vectors of equal length, in units of `SCALE * SCALE`.
pub open spec fn dot(a: Seq<i32>, b: Seq<i32>) -> int {
    dot_prefix(a, b, a.len())
}

/// Every one of the first `k` entries of `s` lies within `-m ..= m`.
pub open spec fn within(s: Seq<i32>, k: nat, m: int) -> bool {
    forall|i: int| 0 <= i < k ==> -m <= #[trigger] s[i] <= m
}

/// A product is at most the product of the bounds on its factors.
pub proof fn lemma_product_bound(x: int, y: int, ma: int, mb: int)
    by (nonlinear_arith)
    requires
        -ma <= x <= ma,
        -mb <= y <= mb,
    ensures
        -(ma * mb) <= x * y <= ma * mb,
{
}

proof fn lemma_scale_step(k: int, m: int)
    by (nonlinear_arith)
    ensures
        (k + 1) * m == k * m + m,
{
}

/// A dot product of `k` terms is at most `k` times the product of the
/// bounds on the entries.
pub proof fn lemma_dot_bound(a: Seq<i32>, b: Seq<i32>, k: nat, ma: int, mb: int)
    requires
        k <= a.len(),
        k <= b.len(),
        within(a, k, ma),
        within(b, k, mb),
    ensures
        -(k * (ma * mb)) <= dot_prefix(a, b, k) <= k * (ma * mb),
    decreases k,
{
    if k > 0 {
        lemma_dot_bound(a, b, (k - 1) as nat, ma, mb);
        lemma_product_bound(a[k - 1] as int, b[k - 1] as int, ma, mb);
        lemma_scale_step(k - 1, ma * mb);
    }
}

/// The dot product of two vectors, exact, in units of `SCALE * SCALE`.
/// Vectors of different lengths have none.
pub fn dot_product(a: &Vec<i32>, b: &Vec<i32>) -> (r: Result<i128, ClassifierError>)
    ensures
        a@.len() != b@.len() ==> r == Err::<i128, ClassifierError>(
            ClassifierError::DimensionMismatch,
        ),
        a@.len() == b@.len() ==> r == Ok::<i128, ClassifierError>(dot(a@, b@) as i128),
        a@.len() == b@.len() ==> i128::MIN <= dot(a@, b@) <= i128::MAX,
{
    if a.len() != b.len() {
        return Err(ClassifierError::DimensionMismatch);
    }
    let n: usize = a.len();
    let mut acc: i128 = 0;
    let mut i: usize = 0;
    while i < n
        invariant
            i <= n,
            n == a@.len(),
            n == b@.len(),
            acc == dot_prefix(a@, b@, i as nat),
            -(i * 0x4000_0000_0000_0000) <= acc <= i * 0x4000_0000_0000_0000,
        decreases n - i,
    {
        proof {
            lemma_product_bound(a@[i as int] as int, b@[i as int] as int, 0x8000_0000, 0x8000_0000);
        }
        let p: i64 = (a[i] as i64) * (b[i] as i64);
        acc = acc + (p as i128);
        i = i + 1;
    }
    Ok(acc)
}

/// The quotient of `a` by `b`, rounded towards negative infinity.
pub open spec fn floor_div(a: int, b: int) -> int
    recommends
        b != 0,
{
    if b > 0 {
        a / b
    } else {
        (-a) / (-b)
    }
}

/// The quotient of `n` by a positive `d`, rounded towards negative
/// infinity.
pub(crate) fn floor_divide_by_positive(n: i128, d: i128) -> (q: i128)
    requires
        0 < d <= 0x4000_0000_0000_0000_0000_0000_0000_0000,
        -0x4000_0000_0000_0000_0000_0000_0000_0000 <= n,
        n <= 0x4000_0000_0000_0000_0000_0000_0000_0000,
    ensures
        q == n as int / d as int,
{
    if n >= 0 {
        n / d
    } else {
        let up: i128 = (-n + (d - 1)) / d;
        proof {
            // -n + d - 1 == d * up + rest with 0 <= rest < d, so
            // n == (-up) * d + (d - 1 - rest)
            let rest: int = (-n + (d - 1)) as int % d as int;
            lemma_fundamental_div_mod((-n + (d - 1)) as int, d as int);
            lemma_mod_bound((-n + (d - 1)) as int, d as int);
            assert(d * up == up * d) by (nonlinear_arith);
            assert((-up) * d == -(up * d)) by (nonlinear_arith);
            lemma_fundamental_div_mod_converse(n as int, d as int, -up as int, d - 1 - rest);
        }
        -up
    }
}

/// `floor_div` on machine integers, for a quotient that fits.
pub fn floor_divide(a: i64, b: i64) -> (q: Option<i64>)
    ensures
        q is Some <==> b != 0 && i64::MIN <= floor_div(a as int, b as int) <= i64::MAX,
        q matches Some(v) ==> v == floor_div(a as int, b as int),
{
    if b == 0 {
        return None;
    }
    let (n, d): (i128, i128) = if b > 0 {
        (a as i128, b as i128)
    } else {
        (-(a as i128), -(b as i128))
    };
    let v: i128 = floor_divide_by_positive(n, d);
    if v < i64::MIN as i128 || v > i64::MAX as i128 {
        None
    } else {
        Some(v as i64)
    }
}

/// A quotient rounded towards negative infinity is no larger in magnitude
/// than what was divided.
pub proof fn lemma_floor_div_magnitude(a: int, b: int, m: int)
    requires
        b != 0,
        -m <= a <= m,
    ensures
        -m <= floor_div(a, b) <= m,
{
    let (n, d) = if b > 0 {
        (a, b)
    } else {
        (-a, -b)
    };
    let q = n / d;
    lemma_fundamental_div_mod(n, d);
    lemma_mod_bound(n, d);
    assert(-m <= q <= m) by (nonlinear_arith)
        requires
            n == d * q + n % d,
            0 <= n % d < d,
            d >= 1,
            -m <= n <= m,
    ;
}

/// The product of two fixed-point numbers, in raw units, rounded towards
/// negative infinity.
pub open spec fn fixed_mul(x: int, y: int) -> int {
    (x * y) / (SCALE as int)
}

/// `fixed_mul` on machine integers, where the product is representable.
pub fn multiply(x: i32, y: i32) -> (p: Option<i32>)
    ensures
        p is Some <==> i32::MIN <= fixed_mul(x as int, y as int) <= i32::MAX,
        p matches Some(v) ==> v == fixed_mul(x as int, y as int),
{
    proof {
        lemma_product_bound(x as int, y as int, 0x8000_0000, 0x8000_0000);
    }
    let raw: i64 = (x as i64) * (y as i64);
    let q: i64 = if raw >= 0 {
        raw / 1_000_000
    } else {
        -((-raw + 999_999) / 1_000_000)
    };
    if q < i32::MIN as i64 || q > i32::MAX as i64 {
        None
    } else {
        Some(q as i32)
    }
}

/// `r` is the square root of `v`, rounded down.
pub open spec fn is_floor_sqrt(v: int, r: int) -> bool {
    0 <= r && r * r <= v < (r + 1) * (r + 1)
}

/// The square root of `v`, rounded down.
pub open spec fn floor_sqrt(v: int) -> int {
    choose|r: int| is_floor_sqrt(v, r)
}

/// Only one number is the rounded-down square root of `v`.
pub proof fn lemma_floor_sqrt_unique(v: int, r: int, s: int)
    by (nonlinear_arith)
    requires
        is_floor_sqrt(v, r),
        is_floor_sqrt(v, s),
    ensures
        r == s,
{
    if r < s {
        assert((r + 1) * (r + 1) <= s * s);
    } else if s < r {
        assert((s + 1) * (s + 1) <= r * r);
    }
}

proof fn lemma_square_monotonic(x: int, y: int)
    by (nonlinear_arith)
    requires
        0 <= x <= y,
    ensures
        x * x <= y * y,
{
}

/// The square root of `v`, rounded down.
pub fn isqrt(v: u64) -> (r: u64)
    ensures
        is_floor_sqrt(v as int, r as int),
        r == floor_sqrt(v as int),
        r <= u32::MAX,
{
    let mut lo: u64 = 0;
    let mut hi: u64 = 0x1_0000_0000;
    while hi - lo > 1
        invariant
            lo < hi <= 0x1_0000_0000,
            lo * lo <= v < hi * hi,
        decreases hi - lo,
    {
        let mid: u64 = lo + (hi - lo) / 2;
        proof {
            lemma_square_monotonic(mid as int, 0x1_0000_0000);
            assert(0x1_0000_0000int * 0x1_0000_0000int == 0x1_0000_0000_0000_0000int)
                by (nonlinear_arith);
        }
        let sq: u128 = (mid as u128) * (mid as u128);
        if sq <= v as u128 {
            lo = mid;
        } else {
            hi = mid;
        }
    }
    proof {
        lemma_floor_sqrt_unique(v as int, lo as int, floor_sqrt(v as int));
    }
    lo
}

} // verus!
