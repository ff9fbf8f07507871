//! Head/tail budget allocation ratio.
use vstd::prelude::*;

verus! {

/// Ratio of available content budget assigned to the head portion.
#[derive(Debug, Clone, Copy, PartialEq, Eq, Structural)]
pub struct HeadRatio {
    numerator: u32,
    denominator: u32,
}

impl HeadRatio {
    /// The numerator of the ratio.
    pub closed spec fn num(self) -> nat {
        self.numerator as nat
    }

    /// The denominator of the ratio.
    pub closed spec fn den(self) -> nat {
        self.denominator as nat
    }

    /// 50/50 balance between head and tail.
    pub fn balanced() -> (r: Self)
        ensures
            r.num() == 1 && r.den() == 2,
    {
        HeadRatio { numerator: 1, denominator: 2 }
    }

    /// All content budget allocated to the head.
    pub fn head_only() -> (r: Self)
        ensures
            r.num() == 1 && r.den() == 1,
    {
        HeadRatio { numerator: 1, denominator: 1 }
    }

    /// All content budget allocated to the tail.
    pub fn tail_only() -> (r: Self)
        ensures
            r.num() == 0 && r.den() == 1,
    {
        HeadRatio { numerator: 0, denominator: 1 }
    }

    /// Construct a ratio from a numerator and denominator: a zero denominator
    /// yields the balanced ratio, and the numerator is clamped to the denominator.
    pub fn new(numerator: u32, denominator: u32) -> (r: Self)
        ensures
            denominator == 0 ==> r.num() == 1 && r.den() == 2,
            denominator != 0 ==> r.den() == denominator && r.num() == if numerator > denominator {
                denominator
            } else {
                numerator
            },
    {
        if denominator == 0 {
            Self::balanced()
        } else {
            HeadRatio {
                numerator: if numerator > denominator {
                    denominator
                } else {
                    numerator
                },
                denominator,
            }
        }
    }

    /// Construct a ratio from a percentage (0..=100).
    pub fn from_percent(percent: u32) -> (r: Self)
        ensures
            r.den() == 100,
            r.num() == if percent > 100 { 100 } else { percent },
    {
        Self::new(percent, 100)
    }

    /// Construct a ratio from parts per thousand (0..=1000).
    pub fn from_permille(permille: u32) -> (r: Self)
        ensures
            r.den() == 1000,
            r.num() == if permille > 1000 { 1000 } else { permille },
    {
        Self::new(permille, 1000)
    }

    /// The numerator and denominator, in that order.
    pub fn parts(&self) -> (r: (u32, u32))
        ensures
            r.0 == self.num() && r.1 == self.den(),
    {
        (self.numerator, self.denominator)
    }

    /// Compute the portion of `total_budget` assigned to the head.
    pub fn compute_head_budget(&self, total_budget: usize) -> (r: usize)
        ensures
            r == head_budget(*self, total_budget as nat),
            r <= total_budget,
    {
        if self.denominator == 0 {
            return total_budget / 2;
        }
        let total = total_budget as u128;
        let num = self.numerator as u128;
        let den = self.denominator as u128;
        proof {
            assert(total * num <= 0xffff_ffff_ffff_ffff * 0xffff_ffff) by (nonlinear_arith)
                requires
                    total <= 0xffff_ffff_ffff_ffff,
                    num <= 0xffff_ffff,
            ;
        }
        let head = (total * num) / den;
        if head >= total {
            total_budget
        } else {
            head as usize
        }
    }
}

/// The head share of `total`: `total * num / den`, capped at `total`
/// (half of `total` for a zero denominator).
pub open spec fn head_budget(r: HeadRatio, total: nat) -> nat {
    if r.den() == 0 {
        total / 2
    } else {
        let h = (total * r.num()) / r.den();
        if h >= total {
            total
        } else {
            h
        }
    }
}

impl Default for HeadRatio {
    fn default() -> (r: Self)
        ensures
            r.num() == 1 && r.den() == 2,
    {
        Self::balanced()
    }
}

/// The head share of a budget is the ratio of it, rounded down: with
/// `num / den` at most one, `share * den <= total * num < (share + 1) * den`.
pub proof fn law_head_share(r: HeadRatio, total: nat)
    requires
        r.den() > 0,
        r.num() <= r.den(),
    ensures
        head_budget(r, total) * r.den() <= total * r.num(),
        total * r.num() < (head_budget(r, total) + 1) * r.den(),
        head_budget(r, total) <= total,
{
    let n = r.num();
    let d = r.den();
    let q = (total * n) / d;
    assert(q * d <= total * n && total * n < (q + 1) * d) by (nonlinear_arith)
        requires
            d > 0,
            q == (total * n) / d,
    ;
    assert(q <= total) by (nonlinear_arith)
        requires
            d > 0,
            n <= d,
            q * d <= total * n,
    ;
}

} // verus!
