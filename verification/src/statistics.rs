use vstd::prelude::*;
use vstd::arithmetic::div_mod::{lemma_div_is_ordered, lemma_div_multiples_vanish};
use crate::fixed::{floor_divide_by_positive, floor_sqrt, isqrt};

verus! {

/// Sum of the first `k` values.
pub open spec fn sum_prefix(s: Seq<i32>, k: nat) -> int
    decreases k,
{
    if k == 0 {
        0
    } else {
        sum_prefix(s, (k - 1) as nat) + s[k - 1]
    }
}

/// Sum of the squared distances of the first `k` values from `m`.
pub open spec fn squares_prefix(s: Seq<i32>, m: int, k: nat) -> int
    decreases k,
{
    if k == 0 {
        0
    } else {
        squares_prefix(s, m, (k - 1) as nat) + (s[k - 1] - m) * (s[k - 1] - m)
    }
}

/// The mean of the values, rounded towards negative infinity.
pub open spec fn mean_of(s: Seq<i32>) -> int
    recommends
        s.len() > 0,
{
    sum_prefix(s, s.len()) / (s.len() as int)
}

/// The population variance of the values about their rounded mean, rounded
/// down, in squared units.
pub open spec fn variance_of(s: Seq<i32>) -> int
    recommends
        s.len() > 0,
{
    squares_prefix(s, mean_of(s), s.len()) / (s.len() as int)
}

/// The population standard deviation of the values: the square root of
/// their variance, rounded down.
pub open spec fn std_dev_of(s: Seq<i32>) -> int
    recommends
        s.len() > 0,
{
    floor_sqrt(variance_of(s))
}

/// Every value of `s` is `c`.
pub open spec fn constant(s: Seq<i32>, c: i32) -> bool {
    forall|i: int| 0 <= i < s.len() ==> #[trigger] s[i] == c
}

proof fn lemma_sum_bounds(s: Seq<i32>, k: nat)
    requires
        k <= s.len(),
    ensures
        k * (i32::MIN as int) <= sum_prefix(s, k) <= k * (i32::MAX as int),
    decreases k,
{
    if k > 0 {
        lemma_sum_bounds(s, (k - 1) as nat);
    }
}

proof fn lemma_square_small(d: int)
    by (nonlinear_arith)
    requires
        -0xffff_ffff <= d <= 0xffff_ffff,
    ensures
        0 <= d * d <= 0xffff_fffe_0000_0001,
{
}

proof fn lemma_squares_bounds(s: Seq<i32>, m: int, k: nat)
    requires
        k <= s.len(),
        i32::MIN <= m <= i32::MAX,
    ensures
        0 <= squares_prefix(s, m, k) <= k * 0xffff_fffe_0000_0001,
    decreases k,
{
    if k > 0 {
        lemma_squares_bounds(s, m, (k - 1) as nat);
        lemma_square_small(s[k - 1] - m);
    }
}

/// The rounded mean of machine integers is one.
pub proof fn lemma_mean_fits(s: Seq<i32>)
    requires
        s.len() > 0,
    ensures
        i32::MIN <= mean_of(s) <= i32::MAX,
{
    let n = s.len() as int;
    lemma_sum_bounds(s, s.len());
    lemma_div_is_ordered(n * (i32::MIN as int), sum_prefix(s, s.len()), n);
    lemma_div_is_ordered(sum_prefix(s, s.len()), n * (i32::MAX as int), n);
    lemma_div_multiples_vanish(i32::MIN as int, n);
    lemma_div_multiples_vanish(i32::MAX as int, n);
}

/// The rounded variance of machine integers lies below the square of
/// their widest distance.
pub proof fn lemma_variance_fits(s: Seq<i32>)
    requires
        s.len() > 0,
    ensures
        0 <= variance_of(s) <= 0xffff_fffe_0000_0001,
{
    let n = s.len() as int;
    lemma_mean_fits(s);
    lemma_squares_bounds(s, mean_of(s), s.len());
    lemma_div_is_ordered(0, squares_prefix(s, mean_of(s), s.len()), n);
    lemma_div_is_ordered(squares_prefix(s, mean_of(s), s.len()), n * 0xffff_fffe_0000_0001, n);
    lemma_div_multiples_vanish(0xffff_fffe_0000_0001, n);
}

/// The mean of `values`, rounded towards negative infinity; none of no
/// values.
pub fn mean(values: &Vec<i32>) -> (m: Option<i32>)
    ensures
        m is Some <==> values@.len() > 0,
        m matches Some(v) ==> v == mean_of(values@),
{
    let n: usize = values.len();
    if n == 0 {
        return None;
    }
    let mut sum: i128 = 0;
    let mut i: usize = 0;
    while i < n
        invariant
            i <= n,
            n == values@.len(),
            sum == sum_prefix(values@, i as nat),
        decreases n - i,
    {
        proof {
            lemma_sum_bounds(values@, i as nat);
        }
        sum = sum + (values[i] as i128);
        i = i + 1;
    }
    proof {
        lemma_sum_bounds(values@, n as nat);
        lemma_mean_fits(values@);
    }
    let m: i128 = floor_divide_by_positive(sum, n as i128);
    Some(m as i32)
}

/// The population standard deviation of `values` about their rounded mean,
/// rounded down; none of no values.
pub fn std_dev(values: &Vec<i32>) -> (d: Option<i64>)
    ensures
        d is Some <==> values@.len() > 0,
        d matches Some(v) ==> v == std_dev_of(values@) && 0 <= v <= u32::MAX,
{
    let n: usize = values.len();
    let m: i64 = match mean(values) {
        Some(m) => m as i64,
        None => {
            return None;
        },
    };
    let mut squares: u128 = 0;
    let mut i: usize = 0;
    while i < n
        invariant
            i <= n,
            n == values@.len(),
            i32::MIN <= m <= i32::MAX,
            squares == squares_prefix(values@, m as int, i as nat),
        decreases n - i,
    {
        proof {
            lemma_squares_bounds(values@, m as int, i as nat);
            lemma_square_small(values@[i as int] - m);
        }
        let d: i64 = (values[i] as i64) - m;
        let sq: i64 = if d >= 0 {
            d
        } else {
            -d
        };
        assert((sq as int) * (sq as int) == (d as int) * (d as int)) by (nonlinear_arith)
            requires
                sq == d || sq == -d,
        ;
        squares = squares + (sq as u128) * (sq as u128);
        i = i + 1;
    }
    proof {
        lemma_squares_bounds(values@, m as int, n as nat);
        lemma_variance_fits(values@);
    }
    let variance: u128 = squares / (n as u128);
    let root: u64 = isqrt(variance as u64);
    Some(root as i64)
}

/// Of values that all equal `c`, the mean is `c` and the standard
/// deviation is zero.
pub proof fn lemma_constant_values(s: Seq<i32>, c: i32)
    requires
        s.len() > 0,
        constant(s, c),
    ensures
        mean_of(s) == c,
        variance_of(s) == 0,
        std_dev_of(s) == 0,
{
    let n = s.len() as int;
    lemma_constant_sum(s, c, s.len());
    lemma_div_multiples_vanish(c as int, n);
    lemma_constant_squares(s, c, s.len());
    assert(crate::fixed::is_floor_sqrt(0, 0));
    crate::fixed::lemma_floor_sqrt_unique(0, 0, floor_sqrt(0));
}

proof fn lemma_constant_sum(s: Seq<i32>, c: i32, k: nat)
    requires
        k <= s.len(),
        constant(s, c),
    ensures
        sum_prefix(s, k) == k * c,
    decreases k,
{
    if k > 0 {
        lemma_constant_sum(s, c, (k - 1) as nat);
        assert(k * c == (k - 1) * c + c) by (nonlinear_arith);
    } else {
        assert(0 * c == 0) by (nonlinear_arith);
    }
}

proof fn lemma_constant_squares(s: Seq<i32>, c: i32, k: nat)
    requires
        k <= s.len(),
        constant(s, c),
    ensures
        squares_prefix(s, c as int, k) == 0,
    decreases k,
{
    if k > 0 {
        lemma_constant_squares(s, c, (k - 1) as nat);
        assert((s[k - 1] - c) * (s[k - 1] - c) == 0) by (nonlinear_arith)
            requires
                s[k - 1] - c == 0,
        ;
    }
}

} // verus!
