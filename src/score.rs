use vstd::prelude::*;

verus! {

/// The largest denominator a finite score may carry.
pub const MAX_DEN: u128 = 0x400_0000_0000_0000_0000_0000;

/// The weight of a suggestion: a rational number, or one of the two sentinels that
/// lose to (`Lowest`) or beat (`Highest`) every finite score.
#[derive(Clone, Copy, Debug, PartialEq, Eq, Structural)]
pub enum Score {
    Lowest,
    Ratio { num: i32, den: u128 },
    Highest,
}

impl Score {
    /// A finite score has a positive, bounded denominator.
    pub open spec fn wf(self) -> bool {
        match self {
            Score::Ratio { num, den } => 0 < den <= MAX_DEN,
            _ => true,
        }
    }

    /// `self` is strictly lower than `other`.
    pub open spec fn below(self, other: Score) -> bool {
        match (self, other) {
            (Score::Lowest, Score::Lowest) => false,
            (Score::Lowest, _) => true,
            (_, Score::Lowest) => false,
            (Score::Highest, _) => false,
            (_, Score::Highest) => true,
            (Score::Ratio { num: n1, den: d1 }, Score::Ratio { num: n2, den: d2 }) => n1 * d2 < n2
                * d1,
        }
    }

    /// The whole number `n` as a score.
    pub fn whole(n: i32) -> (r: Score)
        ensures
            r == (Score::Ratio { num: n, den: 1 }),
            r.wf(),
    {
        Score::Ratio { num: n, den: 1 }
    }

    /// Whether `self` is strictly lower than `other`.
    pub fn is_below(&self, other: &Score) -> (r: bool)
        requires
            self.wf(),
            other.wf(),
        ensures
            r == self.below(*other),
    {
        match (self, other) {
            (Score::Lowest, Score::Lowest) => false,
            (Score::Lowest, _) => true,
            (_, Score::Lowest) => false,
            (Score::Highest, _) => false,
            (_, Score::Highest) => true,
            (Score::Ratio { num: n1, den: d1 }, Score::Ratio { num: n2, den: d2 }) => {
                proof {
                    lemma_cross_fits(*n1 as int, *d2 as int);
                    lemma_cross_fits(*n2 as int, *d1 as int);
                }
                (*n1 as i128) * (*d2 as i128) < (*n2 as i128) * (*d1 as i128)
            },
        }
    }
}

proof fn lemma_cross_fits(n: int, d: int)
    requires
        i32::MIN <= n <= i32::MAX,
        0 < d <= MAX_DEN,
    ensures
        -0x2000_0000_0000_0000_0000_0000_0000_0000 <= n * d <= 0x2000_0000_0000_0000_0000_0000_0000_0000,
{
    assert(-0x2000_0000_0000_0000_0000_0000_0000_0000 <= n * d
        <= 0x2000_0000_0000_0000_0000_0000_0000_0000) by (nonlinear_arith)
        requires
            -0x8000_0000 <= n <= 0x8000_0000,
            0 < d <= 0x400_0000_0000_0000_0000_0000,
    ;
}

/// Strict order on scores is transitive through a non-strict step.
pub proof fn lemma_below_after_not_above(a: Score, b: Score, c: Score)
    requires
        a.wf(),
        b.wf(),
        c.wf(),
        !b.below(a),
        b.below(c),
    ensures
        a.below(c),
{
    match (a, b, c) {
        (
            Score::Ratio { num: n1, den: d1 },
            Score::Ratio { num: n2, den: d2 },
            Score::Ratio { num: n3, den: d3 },
        ) => {
            let (x1, y1, x2, y2, x3, y3) = (n1 as int, d1 as int, n2 as int, d2 as int, n3 as int, d3 as int);
            assert(x1 * y3 < x3 * y1) by (nonlinear_arith)
                requires
                    y1 > 0,
                    y2 > 0,
                    y3 > 0,
                    x1 * y2 <= x2 * y1,
                    x2 * y3 < x3 * y2,
            ;
        },
        _ => {},
    }
}

} // verus!
