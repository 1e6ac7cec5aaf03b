use vstd::prelude::*;
use crate::error::ExpandError;
use crate::tree::{Range, Tree};

verus! {

/// What the expansion of an expression yields: first `items`, in this
/// order, and then `failure`, if there is one. Nothing follows a failure.
pub struct Outcome {
    pub items: Seq<Seq<char>>,
    pub failure: Option<ExpandError>,
}

/// One item and no failure.
pub open spec fn single(text: Seq<char>) -> Outcome {
    Outcome { items: seq![text], failure: None }
}

/// No item and no failure.
pub open spec fn nothing() -> Outcome {
    Outcome { items: Seq::empty(), failure: None }
}

/// No item before the failure.
pub open spec fn failed(error: ExpandError) -> Outcome {
    Outcome { items: Seq::empty(), failure: Some(error) }
}

/// First all of `a`, then all of `b`; a failure of `a` ends it.
pub open spec fn chain(a: Outcome, b: Outcome) -> Outcome {
    if a.failure is Some {
        a
    } else {
        Outcome { items: a.items + b.items, failure: b.failure }
    }
}

/// Every item of `a` followed by every item of `b`: for each item of `a`
/// in turn, all items of `b` in their order.
pub open spec fn product(a: Seq<Seq<char>>, b: Seq<Seq<char>>) -> Seq<Seq<char>> {
    Seq::new(a.len() * b.len(), |k: int| a[k / b.len() as int] + b[k % b.len() as int])
}

/// The items of `a`, each followed by each item of `b`, as they come when
/// `b` is gone through anew for every item of `a`.
///
/// Without a first item of `a`, `b` is never started. A failure of `b` is
/// met at the end of the first pass through `b` and ends it all. A failure
/// of `a` is met when all its items have been used.
pub open spec fn cross(a: Outcome, b: Outcome) -> Outcome {
    if a.items.len() == 0 {
        a
    } else if b.failure is Some {
        Outcome { items: product(a.items.take(1), b.items), failure: b.failure }
    } else {
        Outcome { items: product(a.items, b.items), failure: a.failure }
    }
}

/// The character of the decimal digit `d`.
pub open spec fn digit(d: nat) -> char {
    (d + 48) as char
}

/// The digits of `n` in base ten, with no leading zero.
pub open spec fn decimal(n: nat) -> Seq<char>
    decreases n,
{
    if n < 10 {
        seq![digit(n)]
    } else {
        decimal(n / 10).push(digit(n % 10))
    }
}

/// `n` zeros.
pub open spec fn zeros(n: nat) -> Seq<char> {
    Seq::new(n, |i: int| '0')
}

/// How far `a` and `b` are apart.
pub open spec fn distance(a: int, b: int) -> nat {
    if a <= b {
        (b - a) as nat
    } else {
        (a - b) as nat
    }
}

/// The text of `value` in a numeric range of the given width: a minus
/// sign if it is negative, then its digits, with as many zeros before
/// them as it takes to fill the width, in which the sign counts.
pub open spec fn rendered(value: int, width: nat) -> Seq<char> {
    let digits = decimal(distance(0, value));
    let sign = if value < 0 {
        seq!['-']
    } else {
        Seq::empty()
    };
    let padding = if sign.len() + digits.len() < width {
        zeros((width - sign.len() - digits.len()) as nat)
    } else {
        Seq::empty()
    };
    sign + padding + digits
}

/// The step that a numeric range goes by: the one written, or else one
/// towards the end.
pub open spec fn stride(start: int, end: int, step: Option<i64>) -> int {
    match step {
        Some(by) => by as int,
        None => if start <= end {
            1
        } else {
            -1
        },
    }
}

/// Whether a step of `by` leads from `start` towards `end`: upwards where
/// the end is not below the start, downwards where it is.
pub open spec fn leads_to_end(start: int, end: int, by: int) -> bool {
    (start <= end && by >= 1) || (start > end && by <= -1)
}

/// The number of values from `start` on, `by` apart, that do not pass `end`.
pub open spec fn reach(start: int, end: int, by: int) -> nat {
    distance(start, end) / distance(0, by) + 1
}

/// What a numeric range yields.
///
/// A step that does not lead towards the end fails at once. Otherwise the
/// values from `start` on that do not pass `end` are yielded. Where the
/// last of them is not `end` and the value after it is none that an `i64`
/// holds, the range then fails.
pub open spec fn numbers(start: int, end: int, step: Option<i64>, width: nat) -> Outcome {
    let by = stride(start, end, step);
    let count = reach(start, end, by);
    let last = start + (count - 1) * by;
    if !leads_to_end(start, end, by) {
        failed(ExpandError::StepDirectionMismatch)
    } else {
        Outcome {
            items: Seq::new(count, |k: int| rendered(start + k * by, width)),
            failure: if last != end && !(i64::MIN <= last + by <= i64::MAX) {
                Some(ExpandError::NumericOverflow)
            } else {
                None
            },
        }
    }
}

/// What a letter range yields: the characters from `start` to `end`, one each.
pub open spec fn letters(start: u8, end: u8) -> Outcome {
    Outcome {
        items: Seq::new(
            distance(start as int, end as int) + 1,
            |k: int|
                seq![
                    if start <= end {
                        (start + k) as u8 as char
                    } else {
                        (start - k) as u8 as char
                    },
                ],
        ),
        failure: None,
    }
}

/// What a range yields.
pub open spec fn progression(range: Range) -> Outcome {
    match range {
        Range::Numeric { start, end, step, width } => numbers(
            start as int,
            end as int,
            step,
            width as nat,
        ),
        Range::Alphabetic { start, end } => letters(start, end),
    }
}

/// What the expansion of `tree` yields.
///
/// A literal yields its text. An alternation yields what its branches
/// yield, one branch after the other. A sequence yields every choice of
/// one item from each part, joined, with the last part changing fastest.
pub open spec fn outcome(tree: Tree) -> Outcome
    decreases tree, 0int,
{
    match tree {
        Tree::Literal(text) => single(text),
        Tree::Range(range) => progression(range),
        Tree::Alternation(branches) => chain_from(branches, 0),
        Tree::Sequence(parts) => cross_from(parts, 0),
    }
}

/// What the branches from index `i` on yield, one after the other.
pub open spec fn chain_from(branches: Seq<Tree>, i: int) -> Outcome
    decreases branches, branches.len() - i,
{
    if 0 <= i < branches.len() {
        chain(outcome(branches[i]), chain_from(branches, i + 1))
    } else {
        nothing()
    }
}

/// What the parts from index `i` on yield together.
pub open spec fn cross_from(parts: Seq<Tree>, i: int) -> Outcome
    decreases parts, parts.len() - i,
{
    if 0 <= i < parts.len() {
        cross(outcome(parts[i]), cross_from(parts, i + 1))
    } else {
        single(Seq::empty())
    }
}

/// What an expansion yields at position `k`: an item, the failure that
/// ends it, or nothing, behind its end.
pub open spec fn yielded(tree: Tree, k: nat) -> Option<Result<Seq<char>, ExpandError>> {
    let all = outcome(tree);
    if k < all.items.len() {
        Some(Ok(all.items[k as int]))
    } else if k == all.items.len() && all.failure is Some {
        Some(Err(all.failure->0))
    } else {
        None
    }
}

} // verus!
