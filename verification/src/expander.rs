use vstd::prelude::*;
use vstd::arithmetic::div_mod::{
    lemma_basic_div, lemma_mod_division_less_than_divisor, lemma_multiply_divide_lt,
    lemma_remainder_lower, lemma_small_mod,
};
use vstd::string::StringExecFns;
use crate::measure::{cross_measures, measure, Measure, LIMIT};
use crate::outcome::{
    chain_from, cross, cross_from, distance, leads_to_end, outcome, progression, stride,
    Outcome,
};
use crate::render::push_number;
use crate::tree::{lemma_view_alternation, lemma_view_sequence, trees, Node, Range};

verus! {

/// Which item of `a` stands at position `k` of `a` crossed with `b`.
pub open spec fn outer_index(b: Outcome, k: nat) -> nat {
    if b.failure is Some {
        0
    } else {
        k / b.items.len()
    }
}

/// Which item of `b` stands at position `k` of `a` crossed with `b`.
pub open spec fn inner_index(b: Outcome, k: nat) -> nat {
    if b.failure is Some {
        k
    } else {
        k % b.items.len()
    }
}

/// The item at position `k` of a cross is one item of each side, joined.
pub proof fn lemma_cross_item(a: Outcome, b: Outcome, k: nat)
    requires
        k < cross(a, b).items.len(),
    ensures
        outer_index(b, k) < a.items.len(),
        inner_index(b, k) < b.items.len(),
        cross(a, b).items[k as int] == a.items[outer_index(b, k) as int] + b.items[inner_index(
            b,
            k,
        ) as int],
{
    let m = a.items.len();
    let n = b.items.len();
    assert(m > 0);
    if b.failure is Some {
        assert(a.items.take(1).len() == 1);
        assert(1 * n == n) by (nonlinear_arith);
        lemma_basic_div(k as int, n as int);
        lemma_small_mod(k, n);
    } else {
        assert(n > 0) by (nonlinear_arith)
            requires
                k < m * n,
                k >= 0,
                m >= 0,
                n >= 0,
        ;
        assert(n * m == m * n) by (nonlinear_arith);
        lemma_multiply_divide_lt(k as int, n as int, m as int);
        lemma_mod_division_less_than_divisor(k as int, n as int);
    }
}

/// The measures of the tails of `parts`: the entry at `j` is the measure
/// of what the last `j` parts yield together.
pub(crate) fn tail_measures(parts: &Vec<Node>) -> (tails: Vec<Measure>)
    ensures
        tails.len() == parts.len() + 1,
        forall|j: int|
            0 <= j <= parts.len() ==> (#[trigger] tails[j]).of(
                cross_from(trees(parts@), parts.len() - j),
            ),
{
    let mut tails: Vec<Measure> = Vec::new();
    let mut m = Measure { count: 1, failure: None };
    tails.push(m);
    let mut i: usize = parts.len();
    while i > 0
        invariant
            i <= parts.len(),
            tails.len() == parts.len() - i + 1,
            m.of(cross_from(trees(parts@), i as int)),
            forall|j: int|
                0 <= j <= parts.len() - i ==> (#[trigger] tails[j]).of(
                    cross_from(trees(parts@), parts.len() - j),
                ),
        decreases i,
    {
        i = i - 1;
        let a = measure(&parts[i]);
        m =
        cross_measures(
            a,
            m,
            Ghost(outcome(parts@[i as int]@)),
            Ghost(cross_from(trees(parts@), i + 1)),
        );
        tails.push(m);
    }
    tails
}

/// Appends the item at position `index` of a range.
pub(crate) fn write_range_item(range: &Range, index: u64, out: &mut String)
    requires
        index < progression(*range).items.len(),
    ensures
        final(out)@ == old(out)@ + progression(*range).items[index as int],
{
    match range {
        Range::Alphabetic { start, end } => {
            let code: u8 = if *start <= *end {
                (*start as u64 + index) as u8
            } else {
                (*start as u64 - index) as u8
            };
            out.push(code as char);
            assert(out@ =~= old(out)@ + seq![code as char]);
        },
        Range::Numeric { start, end, step, width } => {
            let by: i64 = match step {
                Some(b) => *b,
                None => if *start <= *end {
                    1
                } else {
                    -1
                },
            };
            assert(by == stride(*start as int, *end as int, *step));
            assert(leads_to_end(*start as int, *end as int, by as int));
            proof {
                let gap = distance(*start as int, *end as int) as int;
                let pace = distance(0, by as int) as int;
                let steps = gap / pace;
                lemma_remainder_lower(gap, pace);
                assert(index <= steps);
                assert(index * pace <= gap) by (nonlinear_arith)
                    requires
                        steps * pace <= gap,
                        0 <= index <= steps,
                        pace >= 1,
                ;
                assert(index * by == if by >= 0 {
                    index * pace
                } else {
                    -(index * pace)
                }) by (nonlinear_arith)
                    requires
                        pace == if by >= 0 {
                            by as int
                        } else {
                            -(by as int)
                        },
                ;
            }
            let value: i128 = *start as i128 + (index as i128) * (by as i128);
            push_number(value as i64, *width, out);
        },
    }
}

/// Appends the item at position `index` of the expansion of `node`.
pub(crate) fn write_item(node: &Node, index: u64, out: &mut String)
    requires
        index < outcome(node@).items.len(),
    ensures
        final(out)@ == old(out)@ + outcome(node@).items[index as int],
    decreases node,
{
    match node {
        Node::Literal(text) => {
            out.append(text.as_str());
        },
        Node::Range(range) => {
            write_range_item(range, index, out);
        },
        Node::Alternation(branches) => {
            proof {
                lemma_view_alternation(*branches);
            }
            let ghost all = trees(branches@);
            let mut i: usize = 0;
            let mut rest: u64 = index;
            loop
                invariant
                    i <= branches.len(),
                    node == Node::Alternation(*branches),
                    all == trees(branches@),
                    outcome(node@) == chain_from(all, 0),
                    out@ == old(out)@,
                    rest < chain_from(all, i as int).items.len(),
                    chain_from(all, i as int).items[rest as int] == chain_from(all, 0).items[index as int],
                decreases branches.len() - i,
            {
                proof {
                    assert(decreases_to!(*node => node->Alternation_0));
                }
                let a = measure(&branches[i]);
                if (rest as u128) < a.count {
                    write_item(&branches[i], rest, out);
                    return ;
                }
                rest = rest - (a.count as u64);
                i = i + 1;
            }
        },
        Node::Sequence(parts) => {
            proof {
                lemma_view_sequence(*parts);
            }
            let ghost all = trees(parts@);
            let tails = tail_measures(parts);
            let n: usize = parts.len();
            let mut i: usize = 0;
            let mut rest: u64 = index;
            assert(out@ + cross_from(all, 0).items[index as int] =~= old(out)@ + cross_from(
                all,
                0,
            ).items[index as int]);
            while i < n
                invariant
                    i <= n == parts.len(),
                    node == Node::Sequence(*parts),
                    all == trees(parts@),
                    tails.len() == n + 1,
                    forall|j: int|
                        0 <= j <= n ==> (#[trigger] tails[j]).of(cross_from(all, n - j)),
                    rest < cross_from(all, i as int).items.len(),
                    out@ + cross_from(all, i as int).items[rest as int] == old(out)@ + cross_from(
                        all,
                        0,
                    ).items[index as int],
                decreases n - i,
            {
                let ghost a = outcome(all[i as int]);
                let ghost b = cross_from(all, i + 1);
                let ghost before = out@;
                let tail = tails[n - i - 1];
                assert(tail.of(b));
                proof {
                    lemma_cross_item(a, b, rest as nat);
                    if b.failure is None && tail.count >= LIMIT {
                        lemma_basic_div(rest as int, b.items.len() as int);
                        lemma_small_mod(rest as nat, b.items.len());
                    }
                    assert(decreases_to!(*node => node->Sequence_0));
                }
                let whole = tail.failure.is_some() || tail.count >= LIMIT;
                let outer: u64 = if whole {
                    0
                } else {
                    rest / (tail.count as u64)
                };
                let inner: u64 = if whole {
                    rest
                } else {
                    rest % (tail.count as u64)
                };
                write_item(&parts[i], outer, out);
                assert(out@ + b.items[inner as int] =~= before + (a.items[outer as int]
                    + b.items[inner as int]));
                rest = inner;
                i = i + 1;
            }
            assert(out@ + cross_from(all, n as int).items[rest as int] =~= out@);
        },
    }
}

} // verus!
