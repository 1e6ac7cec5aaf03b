use vstd::prelude::*;
use crate::grammar::{
    branches, closing, escape_at, extent, flush, group, next_comma, parsed, pieces, range_of,
    range_shaped, span, unquoted,
};
use crate::tree::{Range, Tree};

verus! {

/// Whether `code` is the code of an ASCII letter.
pub open spec fn is_letter_code(code: u8) -> bool {
    (65 <= code <= 90) || (97 <= code <= 122)
}

/// Whether a range is one that the parser makes: the bounds of a letter
/// range are letters of one case.
pub open spec fn proper_range(range: Range) -> bool {
    match range {
        Range::Numeric { .. } => true,
        Range::Alphabetic { start, end } => is_letter_code(start) && is_letter_code(end) && (start
            <= 90 <==> end <= 90),
    }
}

/// Whether `parts` can be the parts of one span: each is proper and none
/// is a sequence itself, and no literal follows another.
pub open spec fn proper_parts(parts: Seq<Tree>) -> bool
    decreases parts, 0int,
{
    &&& forall|i: int| 0 <= i < parts.len() ==> proper(#[trigger] parts[i])
    &&& forall|i: int| 0 <= i < parts.len() ==> !(#[trigger] parts[i] is Sequence)
    &&& forall|i: int|
        0 < i < parts.len() ==> !(parts[i - 1] is Literal && #[trigger] parts[i] is Literal)
}

/// Whether a tree has the shape that the parser gives every tree.
///
/// A literal is not empty. An alternation has two branches or more. A
/// sequence has no single part, no sequence among its parts, and no two
/// literals in a row.
pub open spec fn proper(tree: Tree) -> bool
    decreases tree, 1int,
{
    match tree {
        Tree::Literal(text) => text.len() > 0,
        Tree::Range(range) => proper_range(range),
        Tree::Alternation(options) => options.len() >= 2 && forall|i: int|
            0 <= i < options.len() ==> proper(#[trigger] options[i]),
        Tree::Sequence(parts) => parts.len() != 1 && proper_parts(parts),
    }
}

/// Parts read so far: proper parts, the last of which is no literal.
pub open spec fn open_parts(done: Seq<Tree>) -> bool {
    proper_parts(done) && (done.len() > 0 ==> !(done.last() is Literal))
}

proof fn lemma_flush_proper(done: Seq<Tree>, text: Seq<char>)
    requires
        open_parts(done),
    ensures
        proper_parts(flush(done, text)),
{
    let all = flush(done, text);
    if text.len() > 0 {
        assert forall|i: int| 0 <= i < all.len() implies proper(#[trigger] all[i]) by {
            if i < done.len() {
                assert(all[i] == done[i]);
            }
        }
        assert forall|i: int| 0 <= i < all.len() implies !(#[trigger] all[i] is Sequence) by {
            if i < done.len() {
                assert(all[i] == done[i]);
            }
        }
        assert forall|i: int| 0 < i < all.len() implies !(all[i - 1] is Literal
            && #[trigger] all[i] is Literal) by {
            if i < done.len() {
                assert(all[i] == done[i]);
                assert(all[i - 1] == done[i - 1]);
            } else {
                assert(all[i - 1] == done.last());
            }
        }
    }
}

proof fn lemma_push_node(done: Seq<Tree>, node: Tree)
    requires
        proper_parts(done),
        proper(node),
        node is Alternation || node is Range,
    ensures
        open_parts(done.push(node)),
{
    let all = done.push(node);
    assert forall|i: int| 0 <= i < all.len() implies proper(#[trigger] all[i]) by {
        if i < done.len() {
            assert(all[i] == done[i]);
        }
    }
    assert forall|i: int| 0 <= i < all.len() implies !(#[trigger] all[i] is Sequence) by {
        if i < done.len() {
            assert(all[i] == done[i]);
        }
    }
    assert forall|i: int| 0 < i < all.len() implies !(all[i - 1] is Literal
        && #[trigger] all[i] is Literal) by {
        if i < done.len() {
            assert(all[i] == done[i]);
            assert(all[i - 1] == done[i - 1]);
        }
    }
}

proof fn lemma_range_proper(s: Seq<char>, open: int, close: int)
    requires
        range_of(s, open, close) is Ok,
    ensures
        proper_range(range_of(s, open, close)->Ok_0),
{
}

proof fn lemma_pieces_proper(s: Seq<char>, i: int, hi: int, text: Seq<char>, done: Seq<Tree>)
    requires
        open_parts(done),
        pieces(s, i, hi, text, done) is Ok,
    ensures
        proper_parts(pieces(s, i, hi, text, done)->Ok_0),
    decreases extent(i, hi), 0int,
{
    if i >= hi {
        lemma_flush_proper(done, text);
    } else if escape_at(s, i, hi) {
        lemma_pieces_proper(s, i + 2, hi, text.push(s[i + 1]), done);
    } else if s[i] == '{' {
        let close = closing(s, i + 1, hi, 0);
        if i < close < hi {
            lemma_group_proper(s, i, close);
            match group(s, i, close) {
                Err(fault) => {},
                Ok(None) => {
                    lemma_pieces_proper(
                        s,
                        close + 1,
                        hi,
                        text + unquoted(s, i, close + 1),
                        done,
                    );
                },
                Ok(Some(node)) => {
                    lemma_flush_proper(done, text);
                    lemma_push_node(flush(done, text), node);
                    lemma_pieces_proper(
                        s,
                        close + 1,
                        hi,
                        Seq::empty(),
                        flush(done, text).push(node),
                    );
                },
            }
        }
    } else if s[i] == '}' {
    } else {
        lemma_pieces_proper(s, i + 1, hi, text.push(s[i]), done);
    }
}

proof fn lemma_span_proper(s: Seq<char>, lo: int, hi: int)
    requires
        span(s, lo, hi) is Ok,
    ensures
        proper(span(s, lo, hi)->Ok_0),
    decreases extent(lo, hi), 1int,
{
    assert(open_parts(Seq::<Tree>::empty()));
    lemma_pieces_proper(s, lo, hi, Seq::empty(), Seq::empty());
}

proof fn lemma_group_proper(s: Seq<char>, open: int, close: int)
    requires
        group(s, open, close) is Ok,
    ensures
        group(s, open, close)->Ok_0 matches Some(node) ==> proper(node) && (node is Alternation
            || node is Range),
    decreases extent(open + 1, close), 3int,
{
    if range_shaped(s, open + 1, close) {
        lemma_range_proper(s, open, close);
    } else {
        lemma_branches_proper(s, open + 1, close, Seq::empty());
    }
}

proof fn lemma_branches_proper(s: Seq<char>, start: int, hi: int, done: Seq<Tree>)
    requires
        forall|i: int| 0 <= i < done.len() ==> proper(#[trigger] done[i]),
        branches(s, start, hi, done) is Ok,
    ensures
        branches(s, start, hi, done)->Ok_0 matches Some(node) ==> proper(node)
            && node is Alternation,
    decreases extent(start, hi), 2int,
{
    let cut = next_comma(s, start, hi, 0);
    if start <= cut < hi {
        lemma_span_proper(s, start, cut);
        let branch = span(s, start, cut)->Ok_0;
        let more = done.push(branch);
        assert forall|i: int| 0 <= i < more.len() implies proper(#[trigger] more[i]) by {
            if i < done.len() {
                assert(more[i] == done[i]);
            }
        }
        lemma_branches_proper(s, cut + 1, hi, more);
    } else if done.len() == 0 {
    } else {
        lemma_span_proper(s, start, hi);
        let branch = span(s, start, hi)->Ok_0;
        let more = done.push(branch);
        assert forall|i: int| 0 <= i < more.len() implies proper(#[trigger] more[i]) by {
            if i < done.len() {
                assert(more[i] == done[i]);
            }
        }
    }
}

/// Every tree that the grammar gives a text has the proper shape: each
/// alternation in it has at least two branches, no sequence in it has a
/// single part, and its letter ranges stay within one case.
pub proof fn lemma_parsed_is_proper(s: Seq<char>)
    requires
        parsed(s) is Ok,
    ensures
        proper(parsed(s)->Ok_0),
{
    reveal(parsed);
    lemma_span_proper(s, 0, s.len() as int);
}

} // verus!
