use vstd::prelude::*;
use crate::error::{ExpandError, ParseFault};
use crate::expansion::{collected, entry_view, texts};
use crate::grammar::{escape_at, flush, parsed, pieces};
use crate::outcome::{
    chain, chain_from, cross, cross_from, nothing, outcome, product, single, yielded, Outcome,
};
use crate::tree::Tree;

verus! {

/// Whether `s` holds no brace.
pub open spec fn brace_free(s: Seq<char>) -> bool {
    forall|k: int| 0 <= k < s.len() ==> s[k] != '{' && s[k] != '}'
}

/// Whether no backslash in `s` stands before a character that it quotes.
pub open spec fn escape_free(s: Seq<char>) -> bool {
    forall|k: int| 0 <= k < s.len() ==> !escape_at(s, k, s.len() as int)
}

/// Text without braces and escapes is read as text, character by character.
proof fn lemma_pieces_of_text(s: Seq<char>, i: int, text: Seq<char>, done: Seq<Tree>)
    requires
        0 <= i <= s.len(),
        brace_free(s),
        escape_free(s),
    ensures
        pieces(s, i, s.len() as int, text, done) == Ok::<Seq<Tree>, ParseFault>(
            flush(done, text + s.subrange(i, s.len() as int)),
        ),
    decreases s.len() - i,
{
    let hi = s.len() as int;
    if i < hi {
        lemma_pieces_of_text(s, i + 1, text.push(s[i]), done);
        assert(text.push(s[i]) + s.subrange(i + 1, hi) =~= text + s.subrange(i, hi));
    } else {
        assert(text + s.subrange(i, hi) =~= text);
    }
}

/// A text with no brace and no escape in it is an expression, and its
/// expansion yields the text itself, once, and nothing else.
pub proof fn lemma_text_expands_to_itself(s: Seq<char>)
    requires
        brace_free(s),
        escape_free(s),
    ensures
        parsed(s) == Ok::<Tree, ParseFault>(
            if s.len() == 0 {
                Tree::Sequence(Seq::empty())
            } else {
                Tree::Literal(s)
            },
        ),
        outcome(parsed(s)->Ok_0) == single(s),
{
    reveal(parsed);
    lemma_pieces_of_text(s, 0, Seq::empty(), Seq::empty());
    assert(Seq::<char>::empty() + s.subrange(0, s.len() as int) =~= s);
    if s.len() == 0 {
        assert(s =~= Seq::<char>::empty());
        assert(flush(Seq::<Tree>::empty(), s) =~= Seq::<Tree>::empty());
        assert(cross_from(Seq::<Tree>::empty(), 0) == single(Seq::<char>::empty()));
    } else {
        assert(flush(Seq::<Tree>::empty(), s) =~= seq![Tree::Literal(s)]);
    }
}

/// Asked twice for the entry at one position of one expression, the
/// expansion gives the same both times.
pub proof fn lemma_entry_repeats(
    expression: Tree,
    position: nat,
    first: Option<Result<String, ExpandError>>,
    second: Option<Result<String, ExpandError>>,
)
    requires
        entry_view(first) == yielded(expression, position),
        entry_view(second) == yielded(expression, position),
    ensures
        entry_view(first) == entry_view(second),
{
}

/// Collected twice, one expression gives the same both times: the same
/// items in the same order, or the same failure.
pub proof fn lemma_collect_repeats(
    expression: Tree,
    first: Result<Vec<String>, ExpandError>,
    second: Result<Vec<String>, ExpandError>,
)
    requires
        match first {
            Ok(items) => collected(expression) == Ok::<Seq<Seq<char>>, ExpandError>(
                texts(items@),
            ),
            Err(error) => collected(expression) == Err::<Seq<Seq<char>>, ExpandError>(error),
        },
        match second {
            Ok(items) => collected(expression) == Ok::<Seq<Seq<char>>, ExpandError>(
                texts(items@),
            ),
            Err(error) => collected(expression) == Err::<Seq<Seq<char>>, ExpandError>(error),
        },
    ensures
        match (first, second) {
            (Ok(a), Ok(b)) => texts(a@) == texts(b@),
            (Err(a), Err(b)) => a == b,
            _ => false,
        },
{
}

/// Crossed with the one empty text, an outcome stays what it is.
pub proof fn lemma_cross_with_unit(a: Outcome)
    ensures
        cross(a, single(Seq::empty())) == a,
{
    let unit = single(Seq::empty());
    if a.items.len() > 0 {
        assert(a.items.len() * 1 == a.items.len()) by (nonlinear_arith);
        assert forall|k: int| 0 <= k < a.items.len() implies #[trigger] product(
            a.items,
            unit.items,
        )[k] == a.items[k] by {
            assert(a.items[k / 1] + unit.items[k % 1] =~= a.items[k]);
        }
        assert(product(a.items, unit.items) =~= a.items);
    }
}

/// An alternation of two branches yields what the first yields and then
/// what the second yields; it does not mix them.
pub proof fn lemma_alternation_of_two(a: Tree, b: Tree)
    ensures
        outcome(Tree::Alternation(seq![a, b])) == chain(outcome(a), outcome(b)),
{
    let both = seq![a, b];
    assert(chain_from(both, 2) == nothing());
    assert(chain(outcome(b), nothing()).items =~= outcome(b).items);
    assert(chain_from(both, 1) == outcome(b));
    assert(chain_from(both, 0) == chain(outcome(both[0]), chain_from(both, 1)));
}

/// A sequence of two parts yields each item of the first with each item
/// of the second behind it, the second changing fastest.
pub proof fn lemma_sequence_of_two(a: Tree, b: Tree)
    ensures
        outcome(Tree::Sequence(seq![a, b])) == cross(outcome(a), outcome(b)),
{
    let both = seq![a, b];
    assert(cross_from(both, 2) == single(Seq::empty()));
    lemma_cross_with_unit(outcome(b));
    assert(cross_from(both, 1) == cross(outcome(both[1]), cross_from(both, 2)));
    assert(cross_from(both, 0) == cross(outcome(both[0]), cross_from(both, 1)));
}

/// Where an expression can be collected, its entries one by one are the
/// collected items in their order, and nothing comes behind them.
pub proof fn lemma_entries_are_the_collected_items(expression: Tree, position: nat)
    requires
        collected(expression) is Ok,
    ensures
        yielded(expression, position) == if position < collected(expression)->Ok_0.len() {
            Some(Ok::<Seq<char>, ExpandError>(collected(expression)->Ok_0[position as int]))
        } else {
            None
        },
{
    reveal(collected);
}

} // verus!
