//! The mean of the raw samples taken to zero a load cell.
use vstd::prelude::*;

use crate::sample::{HX711_MAXIMUM, HX711_MINIMUM};

verus! {

/// The sum of a sequence of samples.
pub open spec fn sum_of(s: Seq<i32>) -> int
    decreases s.len(),
{
    if s.len() == 0 {
        0
    } else {
        sum_of(s.drop_last()) + s.last()
    }
}

/// `a / n` rounded toward zero.
pub open spec fn truncated_div(a: int, n: int) -> int {
    if a >= 0 {
        a / n
    } else {
        -((-a) / n)
    }
}

/// The mean of the samples rounded toward zero; 0 when there are none.
pub open spec fn truncated_mean(s: Seq<i32>) -> int {
    if s.len() == 0 {
        0
    } else {
        truncated_div(sum_of(s), s.len() as int)
    }
}

/// Every sample lies in the range the chip can report.
pub open spec fn samples_in_range(s: Seq<i32>) -> bool {
    forall|i: int| 0 <= i < s.len() ==> HX711_MINIMUM <= #[trigger] s[i] <= HX711_MAXIMUM
}

/// The samples of a tare taken so far, towards a set number of them.
pub struct TareAverage {
    sum: i128,
    count: usize,
    wanted: usize,
    samples: Ghost<Seq<i32>>,
}

impl TareAverage {
    /// The samples taken so far, oldest first.
    pub closed spec fn samples(&self) -> Seq<i32> {
        self.samples@
    }

    /// The number of samples the tare is to average.
    pub closed spec fn wanted(&self) -> nat {
        self.wanted as nat
    }

    /// The running sum and count agree with the samples taken.
    pub closed spec fn wf(&self) -> bool {
        &&& self.count == self.samples@.len()
        &&& self.count <= self.wanted
        &&& self.sum == sum_of(self.samples@)
        &&& samples_in_range(self.samples@)
        &&& -0x80_0000 * self.count <= self.sum <= 0x7F_FFFF * self.count
    }

    /// A tare of `wanted` samples, none taken yet.
    pub fn new(wanted: usize) -> (r: Self)
        ensures
            r.wf(),
            r.samples() == Seq::<i32>::empty(),
            r.wanted() == wanted,
    {
        TareAverage { sum: 0, count: 0, wanted, samples: Ghost(Seq::empty()) }
    }

    /// True once all the wanted samples have been taken.
    pub fn is_complete(&self) -> (b: bool)
        requires
            self.wf(),
        ensures
            b == (self.samples().len() == self.wanted()),
    {
        self.count == self.wanted
    }

    /// Takes one more sample.
    pub fn add(&mut self, sample: i32)
        requires
            old(self).wf(),
            old(self).samples().len() < old(self).wanted(),
            HX711_MINIMUM <= sample <= HX711_MAXIMUM,
        ensures
            final(self).wf(),
            final(self).samples() == old(self).samples().push(sample),
            final(self).wanted() == old(self).wanted(),
    {
        let ghost s = self.samples@.push(sample);
        proof {
            assert(s.drop_last() =~= self.samples@);
        }
        self.sum = self.sum + sample as i128;
        self.count = self.count + 1;
        self.samples = Ghost(s);
    }

    /// The mean of the samples taken, rounded toward zero; 0 when none was
    /// taken.
    pub fn offset(&self) -> (r: i32)
        requires
            self.wf(),
        ensures
            r == truncated_mean(self.samples()),
    {
        if self.count == 0 {
            return 0;
        }
        let n = self.count as i128;
        proof {
            lemma_truncated_div_bounds(self.sum as int, n as int);
        }
        if self.sum >= 0 {
            (self.sum / n) as i32
        } else {
            let q = (-self.sum) / n;
            -(q as i32)
        }
    }
}

/// A sum of `n` samples of the chip's range, divided by `n` and rounded
/// toward zero, is again in the chip's range.
proof fn lemma_truncated_div_bounds(sum: int, n: int)
    requires
        n > 0,
        -0x80_0000 * n <= sum <= 0x7F_FFFF * n,
    ensures
        HX711_MINIMUM <= truncated_div(sum, n) <= HX711_MAXIMUM,
{
    if sum >= 0 {
        assert(sum / n <= 0x7F_FFFF) by (nonlinear_arith)
            requires
                n > 0,
                0 <= sum <= 0x7F_FFFF * n,
        ;
        assert(sum / n >= 0) by (nonlinear_arith)
            requires
                n > 0,
                0 <= sum,
        ;
    } else {
        assert((-sum) / n <= 0x80_0000) by (nonlinear_arith)
            requires
                n > 0,
                0 <= -sum <= 0x80_0000 * n,
        ;
        assert((-sum) / n >= 0) by (nonlinear_arith)
            requires
                n > 0,
                0 <= -sum,
        ;
    }
}

/// The sum of `n` copies of `v` is `n * v`.
proof fn lemma_sum_of_constant(s: Seq<i32>, v: i32)
    requires
        forall|i: int| 0 <= i < s.len() ==> s[i] == v,
    ensures
        sum_of(s) == s.len() * v,
    decreases s.len(),
{
    if s.len() > 0 {
        lemma_sum_of_constant(s.drop_last(), v);
        assert(sum_of(s) == (s.len() - 1) * v + v);
        assert((s.len() - 1) * v + v == s.len() * v) by (nonlinear_arith);
    }
}

/// A tare over samples that all equal `v` yields exactly `v`.
pub proof fn lemma_tare_of_constant_samples(s: Seq<i32>, v: i32)
    requires
        s.len() > 0,
        forall|i: int| 0 <= i < s.len() ==> s[i] == v,
    ensures
        truncated_mean(s) == v,
{
    lemma_sum_of_constant(s, v);
    let n = s.len() as int;
    if v >= 0 {
        assert((n * v) / n == v) by (nonlinear_arith)
            requires
                n > 0,
        ;
    } else {
        assert(-(n * v) == n * (-v)) by (nonlinear_arith);
        assert((n * (-v)) / n == -v) by (nonlinear_arith)
            requires
                n > 0,
        ;
        assert(n * v < 0) by (nonlinear_arith)
            requires
                n > 0,
                v < 0,
        ;
    }
}

/// A tare lies within one unit of the exact mean of its samples:
/// `offset - 1 < sum / n < offset + 1`, the gap being the part of the mean
/// that rounding toward zero drops.
pub proof fn lemma_tare_within_one_of_mean(s: Seq<i32>)
    requires
        s.len() > 0,
    ensures
        (truncated_mean(s) - 1) * s.len() < sum_of(s) < (truncated_mean(s) + 1) * s.len(),
{
    let n = s.len() as int;
    let a = sum_of(s);
    if a >= 0 {
        let q = a / n;
        assert(q * n <= a < (q + 1) * n) by (nonlinear_arith)
            requires
                n > 0,
                a >= 0,
                q == a / n,
        ;
        assert((q - 1) * n < q * n) by (nonlinear_arith)
            requires
                n > 0,
        ;
    } else {
        let q = (-a) / n;
        assert(q * n <= -a < (q + 1) * n) by (nonlinear_arith)
            requires
                n > 0,
                -a >= 0,
                q == (-a) / n,
        ;
        assert((-q) * n == -(q * n)) by (nonlinear_arith);
        assert((-q - 1) * n == -((q + 1) * n)) by (nonlinear_arith);
        assert((-q + 1) * n == -((q - 1) * n)) by (nonlinear_arith);
        assert((q - 1) * n < q * n) by (nonlinear_arith)
            requires
                n > 0,
        ;
    }
}

} // verus!
