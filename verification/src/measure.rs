use vstd::prelude::*;
use vstd::arithmetic::div_mod::lemma_remainder_lower;
use crate::error::ExpandError;
use crate::outcome::{
    chain, chain_from, cross, cross_from, distance, outcome, progression, reach,
    stride, Outcome,
};
use crate::tree::{lemma_view_alternation, lemma_view_sequence, trees, Node, Range};

verus! {

/// The bound of every count: positions are `u64`, so a count of `2^64`
/// stands for that many items or more.
pub const LIMIT: u128 = 0x1_0000_0000_0000_0000;

/// `n`, or the limit where `n` reaches it.
pub open spec fn capped(n: nat) -> nat {
    if n < LIMIT {
        n
    } else {
        LIMIT as nat
    }
}

/// How many items an expansion yields, up to the limit, and the failure
/// that ends it.
#[derive(Clone, Copy, Debug, PartialEq, Eq)]
pub struct Measure {
    pub count: u128,
    pub failure: Option<ExpandError>,
}

impl Measure {
    /// Whether this is the measure of `all`.
    pub open spec fn of(self, all: Outcome) -> bool {
        self.count == capped(all.items.len()) && self.failure == all.failure
    }
}

/// The measure of one outcome followed by another.
fn chain_measures(a: Measure, b: Measure, Ghost(x): Ghost<Outcome>, Ghost(y): Ghost<Outcome>) -> (m:
    Measure)
    requires
        a.of(x),
        b.of(y),
    ensures
        m.of(chain(x, y)),
{
    if a.failure.is_some() {
        a
    } else {
        let sum: u128 = a.count + b.count;
        Measure {
            count: if sum < LIMIT {
                sum
            } else {
                LIMIT
            },
            failure: b.failure,
        }
    }
}

/// Where one factor reaches the limit and the other is not zero, the product reaches it.
pub proof fn lemma_product_reaches_limit(x: nat, y: nat)
    requires
        x >= LIMIT,
        y >= 1,
    ensures
        x * y >= LIMIT,
        y * x >= LIMIT,
{
    assert(x * y >= x) by (nonlinear_arith)
        requires
            y >= 1,
            x >= 0,
    ;
    assert(y * x == x * y) by (nonlinear_arith);
}

/// The measure of one outcome crossed with another.
pub(crate) fn cross_measures(a: Measure, b: Measure, Ghost(x): Ghost<Outcome>, Ghost(y): Ghost<Outcome>) -> (m:
    Measure)
    requires
        a.of(x),
        b.of(y),
    ensures
        m.of(cross(x, y)),
{
    if a.count == 0 {
        a
    } else if b.failure.is_some() {
        proof {
            assert(x.items.take(1).len() * y.items.len() == y.items.len()) by (nonlinear_arith)
                requires
                    x.items.take(1).len() == 1,
            ;
        }
        Measure { count: b.count, failure: b.failure }
    } else if b.count == 0 {
        proof {
            assert(x.items.len() * y.items.len() == 0) by (nonlinear_arith)
                requires
                    y.items.len() == 0,
            ;
        }
        Measure { count: 0, failure: a.failure }
    } else if a.count >= LIMIT || b.count >= LIMIT {
        proof {
            if a.count >= LIMIT {
                lemma_product_reaches_limit(x.items.len(), y.items.len());
            } else {
                lemma_product_reaches_limit(y.items.len(), x.items.len());
            }
        }
        Measure { count: LIMIT, failure: a.failure }
    } else {
        assert(a.count * b.count < 0x1_0000_0000_0000_0000_0000_0000_0000_0000) by (nonlinear_arith)
            requires
                a.count < 0x1_0000_0000_0000_0000,
                b.count < 0x1_0000_0000_0000_0000,
        ;
        let all: u128 = a.count * b.count;
        Measure {
            count: if all < LIMIT {
                all
            } else {
                LIMIT
            },
            failure: a.failure,
        }
    }
}

/// The measure of a range.
pub(crate) fn measure_range(range: &Range) -> (m: Measure)
    ensures
        m.of(progression(*range)),
{
    match range {
        Range::Alphabetic { start, end } => {
            let gap: u8 = if *start <= *end {
                *end - *start
            } else {
                *start - *end
            };
            Measure { count: gap as u128 + 1, failure: None }
        },
        Range::Numeric { start, end, step, width } => {
            let by: i64 = match step {
                Some(b) => *b,
                None => if *start <= *end {
                    1
                } else {
                    -1
                },
            };
            assert(by == stride(*start as int, *end as int, *step));
            if !((*start <= *end && by >= 1) || (*start > *end && by <= -1)) {
                return Measure { count: 0, failure: Some(ExpandError::StepDirectionMismatch) };
            }
            let gap: u128 = if *start <= *end {
                (*end as i128 - *start as i128) as u128
            } else {
                (*start as i128 - *end as i128) as u128
            };
            let pace: u128 = if by >= 0 {
                by as u128
            } else {
                (-(by as i128)) as u128
            };
            assert(gap == distance(*start as int, *end as int));
            assert(pace == distance(0, by as int));
            let steps: u128 = gap / pace;
            proof {
                lemma_remainder_lower(gap as int, pace as int);
                assert(steps * pace <= gap);
                assert(steps <= gap) by (nonlinear_arith)
                    requires
                        steps * pace <= gap,
                        pace >= 1,
                        steps >= 0,
                ;
                assert(steps * by == if by >= 0 {
                    steps * pace
                } else {
                    -(steps * pace)
                }) by (nonlinear_arith)
                    requires
                        pace == if by >= 0 {
                            by as int
                        } else {
                            -(by as int)
                        },
                ;
            }
            let last: i128 = *start as i128 + (steps as i128) * (by as i128);
            let next: i128 = last + by as i128;
            let fails = last != *end as i128 && (next < i64::MIN as i128 || next > i64::MAX as i128);
            assert(reach(*start as int, *end as int, by as int) == steps + 1);
            Measure {
                count: steps + 1,
                failure: if fails {
                    Some(ExpandError::NumericOverflow)
                } else {
                    None
                },
            }
        },
    }
}

/// The measure of the expansion of `node`.
pub fn measure(node: &Node) -> (m: Measure)
    ensures
        m.of(outcome(node@)),
    decreases node,
{
    match node {
        Node::Literal(_) => Measure { count: 1, failure: None },
        Node::Range(range) => measure_range(range),
        Node::Alternation(branches) => {
            proof {
                lemma_view_alternation(*branches);
            }
            let mut m = Measure { count: 0, failure: None };
            let mut i: usize = branches.len();
            while i > 0
                invariant
                    i <= branches.len(),
                    node == Node::Alternation(*branches),
                    m.of(chain_from(trees(branches@), i as int)),
                decreases i,
            {
                i = i - 1;
                proof {
                    assert(decreases_to!(*node => node->Alternation_0));
                }
                let a = measure(&branches[i]);
                m =
                chain_measures(
                    a,
                    m,
                    Ghost(outcome(branches@[i as int]@)),
                    Ghost(chain_from(trees(branches@), i + 1)),
                );
            }
            m
        },
        Node::Sequence(parts) => {
            proof {
                lemma_view_sequence(*parts);
            }
            let mut m = Measure { count: 1, failure: None };
            let mut i: usize = parts.len();
            while i > 0
                invariant
                    i <= parts.len(),
                    node == Node::Sequence(*parts),
                    m.of(cross_from(trees(parts@), i as int)),
                decreases i,
            {
                i = i - 1;
                proof {
                    assert(decreases_to!(*node => node->Sequence_0));
                }
                let a = measure(&parts[i]);
                m =
                cross_measures(
                    a,
                    m,
                    Ghost(outcome(parts@[i as int]@)),
                    Ghost(cross_from(trees(parts@), i + 1)),
                );
            }
            m
        },
    }
}

} // verus!
