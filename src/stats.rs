use vstd::prelude::*;

verus! {

/// The sum of the samples.
pub open spec fn sum_of(s: Seq<u64>) -> int
    decreases s.len(),
{
    if s.len() == 0 {
        0
    } else {
        sum_of(s.drop_last()) + s.last()
    }
}

/// The smallest sample (`s` non-empty).
pub open spec fn min_of(s: Seq<u64>) -> int
    decreases s.len(),
{
    if s.len() <= 1 {
        s[0] as int
    } else {
        let m = min_of(s.drop_last());
        if s.last() < m { s.last() as int } else { m }
    }
}

/// The largest sample (`s` non-empty).
pub open spec fn max_of(s: Seq<u64>) -> int
    decreases s.len(),
{
    if s.len() <= 1 {
        s[0] as int
    } else {
        let m = max_of(s.drop_last());
        if s.last() > m { s.last() as int } else { m }
    }
}

/// Timing statistics of a set of samples, in nanoseconds.
#[derive(Clone, Copy, PartialEq, Eq, Structural)]
pub struct Aggregate {
    pub fastest: u64,
    pub slowest: u64,
    pub mean: u64,
    pub total: u128,
    pub count: usize,
}

impl Aggregate {
    /// Whether these are the statistics of the sample sequence `s`.
    pub open spec fn describes(self, s: Seq<u64>) -> bool {
        &&& s.len() >= 1
        &&& self.count == s.len()
        &&& self.total == sum_of(s)
        &&& self.fastest == min_of(s)
        &&& self.slowest == max_of(s)
        &&& self.mean == sum_of(s) / (s.len() as int)
    }

    /// The statistics of a non-empty sample sequence.
    pub fn from_samples(samples: &Vec<u64>) -> (r: Aggregate)
        requires
            samples@.len() >= 1,
        ensures
            r.describes(samples@),
    {
        let n = samples.len();
        let mut total: u128 = samples[0] as u128;
        let mut fastest: u64 = samples[0];
        let mut slowest: u64 = samples[0];
        let mut i: usize = 1;
        proof {
            assert(samples@.take(1).drop_last() =~= Seq::<u64>::empty());
            assert(sum_of(Seq::<u64>::empty()) == 0);
            assert(sum_of(samples@.take(1)) == samples@[0]);
        }
        while i < n
            invariant
                n == samples@.len(),
                1 <= i <= n,
                total == sum_of(samples@.take(i as int)),
                fastest == min_of(samples@.take(i as int)),
                slowest == max_of(samples@.take(i as int)),
                total <= i * slowest,
            decreases n - i,
        {
            let x = samples[i];
            proof {
                assert(samples@.take(i + 1).drop_last() =~= samples@.take(i as int));
                assert(total + x <= (i + 1) * (if x > slowest { x } else { slowest })) by (nonlinear_arith)
                    requires
                        total <= i * slowest,
                ;
                assert(i * slowest <= (i as int) * 0xffff_ffff_ffff_ffffint) by (nonlinear_arith)
                    requires
                        slowest <= 0xffff_ffff_ffff_ffffint,
                        i >= 0,
                ;
            }
            total = total + x as u128;
            if x < fastest {
                fastest = x;
            }
            if x > slowest {
                slowest = x;
            }
            i = i + 1;
        }
        proof {
            assert(samples@.take(n as int) =~= samples@);
            assert((total as int) / (n as int) <= slowest) by (nonlinear_arith)
                requires
                    total <= n * slowest,
                    n >= 1,
            ;
        }
        let mean = (total / n as u128) as u64;
        Aggregate { fastest, slowest, mean, total, count: n }
    }
}

} // verus!
