use vstd::prelude::*;
use vstd::utf8::encode_utf8;
use crate::error::{ParseError, ParseFault};
use crate::grammar::{
    branches, dots_at, extent, flush, group, invalid_token, parsed, pieces, range_of,
    range_shaped, span, };
use crate::scan::{
    append_unquoted, escape_here, find_close, find_comma, find_token_end, is_plain,
    is_upper_case, read_integer, read_letter,
};
use crate::shape::{lemma_parsed_is_proper, proper};
use crate::text::{chars_of, offset_of, slice_of};
use crate::tree::{lemma_view_alternation, lemma_view_sequence, trees, Expression, Node, Range, Tree};

verus! {

/// Whether two dots stand at `i`, before `hi`.
fn dots_here(chars: &Vec<char>, i: usize, hi: usize) -> (r: bool)
    requires
        i <= hi <= chars.len(),
    ensures
        r == dots_at(chars@, i as int, hi as int),
{
    hi - i >= 2 && chars[i] == '.' && chars[i + 1] == '.'
}

/// The error for the range token from `lo` up to `hi`.
fn invalid(chars: &Vec<char>, lo: usize, hi: usize) -> (error: ParseError)
    requires
        lo <= hi <= chars.len(),
        encode_utf8(chars@).len() <= usize::MAX,
    ensures
        error@ == invalid_token(chars@, lo as int, hi as int),
{
    ParseError::InvalidRangeToken { offset: offset_of(chars, lo), text: slice_of(chars, lo, hi) }
}

/// Reads the group between the braces at `open` and `close` as a range.
///
/// `Ok(None)` says that the interior has not the outline of a range. With
/// the outline, the result is the range or the fault of its first token
/// that does not fit.
pub(crate) fn read_range(chars: &Vec<char>, open: usize, close: usize) -> (r: Result<
    Option<Range>,
    ParseError,
>)
    requires
        open < close <= chars.len(),
        encode_utf8(chars@).len() <= usize::MAX,
    ensures
        match r {
            Ok(None) => !range_shaped(chars@, open + 1, close as int),
            Ok(Some(range)) => range_shaped(chars@, open + 1, close as int) && range_of(
                chars@,
                open as int,
                close as int,
            ) == Ok::<Range, ParseFault>(range),
            Err(error) => range_shaped(chars@, open + 1, close as int) && range_of(
                chars@,
                open as int,
                close as int,
            ) == Err::<Range, ParseFault>(error@),
        },
{
    let a1: usize = open + 1;
    if !is_plain(chars, a1, close) {
        return Ok(None);
    }
    let e1: usize = find_token_end(chars, a1, close);
    if !(a1 < e1 && dots_here(chars, e1, close)) {
        return Ok(None);
    }
    let a2: usize = e1 + 2;
    let e2: usize = find_token_end(chars, a2, close);
    if !(a2 < e2) {
        return Ok(None);
    }
    let mut a3: usize = close;
    if e2 < close {
        if !dots_here(chars, e2, close) {
            return Ok(None);
        }
        a3 = e2 + 2;
        let e3: usize = find_token_end(chars, a3, close);
        if !(a3 < e3 && e3 == close) {
            return Ok(None);
        }
    }
    match read_integer(chars, a1, e1) {
        Some(start) => {
            match read_integer(chars, a2, e2) {
                None => Err(invalid(chars, a2, e2)),
                Some(end) => {
                    let mut step: Option<i64> = None;
                    if e2 < close {
                        match read_integer(chars, a3, close) {
                            None => {
                                return Err(invalid(chars, a3, close));
                            },
                            Some(by) => {
                                step = Some(by);
                            },
                        }
                    }
                    let w1: usize = e1 - a1;
                    let w2: usize = e2 - a2;
                    let width: usize = if w1 >= w2 {
                        w1
                    } else {
                        w2
                    };
                    Ok(Some(Range::Numeric { start, end, step, width }))
                },
            }
        },
        None => {
            match read_letter(chars, a1, e1) {
                None => Err(invalid(chars, a1, e1)),
                Some(start) => {
                    match read_letter(chars, a2, e2) {
                        None => Err(invalid(chars, a2, e2)),
                        Some(end) => {
                            if is_upper_case(chars[a1]) != is_upper_case(chars[a2]) {
                                Err(
                                    ParseError::MixedCaseAlphabeticRange {
                                        offset: offset_of(chars, open),
                                    },
                                )
                            } else if e2 < close {
                                Err(invalid(chars, a3, close))
                            } else {
                                Ok(Some(Range::Alphabetic { start, end }))
                            }
                        },
                    }
                },
            }
        },
    }
}

/// Parses the span from `lo` up to `hi` into one node.
pub(crate) fn parse_span(chars: &Vec<char>, lo: usize, hi: usize) -> (r: Result<Node, ParseError>)
    requires
        lo <= hi <= chars.len(),
        encode_utf8(chars@).len() <= usize::MAX,
    ensures
        match r {
            Ok(node) => span(chars@, lo as int, hi as int) == Ok::<Tree, ParseFault>(node@),
            Err(error) => span(chars@, lo as int, hi as int) == Err::<Tree, ParseFault>(error@),
        },
    decreases extent(lo as int, hi as int), 1int,
{
    let mut done: Vec<Node> = Vec::new();
    let mut text = String::new();
    let mut i: usize = lo;
    assert(trees(done@) =~= Seq::<Tree>::empty());
    while i < hi
        invariant
            lo <= i <= hi <= chars.len(),
            encode_utf8(chars@).len() <= usize::MAX,
            pieces(chars@, lo as int, hi as int, Seq::empty(), Seq::empty()) == pieces(
                chars@,
                i as int,
                hi as int,
                text@,
                trees(done@),
            ),
        decreases hi - i,
    {
        if escape_here(chars, i, hi) {
            text.push(chars[i + 1]);
            i = i + 2;
        } else if chars[i] == '{' {
            let close: usize = find_close(chars, i + 1, hi);
            if close >= hi {
                return Err(ParseError::UnbalancedBrace { offset: offset_of(chars, i) });
            }
            match parse_group(chars, i, close) {
                Err(error) => {
                    return Err(error);
                },
                Ok(None) => {
                    append_unquoted(chars, i, close + 1, &mut text);
                },
                Ok(Some(node)) => {
                    let ghost before = trees(done@);
                    let ghost pending = text@;
                    if !text.as_str().is_empty() {
                        done.push(Node::Literal(text));
                        text = String::new();
                    }
                    assert(trees(done@) =~= flush(before, pending));
                    assert(text@ =~= Seq::<char>::empty());
                    let ghost flushed = trees(done@);
                    done.push(node);
                    assert(trees(done@) =~= flushed.push(node@));
                },
            }
            i = close + 1;
        } else if chars[i] == '}' {
            return Err(ParseError::UnbalancedBrace { offset: offset_of(chars, i) });
        } else {
            text.push(chars[i]);
            i = i + 1;
        }
    }
    let ghost before = trees(done@);
    let ghost pending = text@;
    if !text.as_str().is_empty() {
        done.push(Node::Literal(text));
    }
    assert(trees(done@) =~= flush(before, pending));
    if done.len() == 1 {
        let node = done.pop().unwrap();
        Ok(node)
    } else {
        proof {
            lemma_view_sequence(done);
        }
        Ok(Node::Sequence(done))
    }
}

/// Parses the group between the braces at `open` and `close`; `Ok(None)`
/// says that the braces hold no group and are text.
pub(crate) fn parse_group(chars: &Vec<char>, open: usize, close: usize) -> (r: Result<
    Option<Node>,
    ParseError,
>)
    requires
        open < close <= chars.len(),
        encode_utf8(chars@).len() <= usize::MAX,
    ensures
        match r {
            Ok(None) => group(chars@, open as int, close as int) == Ok::<Option<Tree>, ParseFault>(
                None,
            ),
            Ok(Some(node)) => group(chars@, open as int, close as int) == Ok::<
                Option<Tree>,
                ParseFault,
            >(Some(node@)),
            Err(error) => group(chars@, open as int, close as int) == Err::<
                Option<Tree>,
                ParseFault,
            >(error@),
        },
    decreases extent(open + 1, close as int), 3int,
{
    match read_range(chars, open, close) {
        Err(error) => Err(error),
        Ok(Some(range)) => Ok(Some(Node::Range(range))),
        Ok(None) => parse_branches(chars, open + 1, close),
    }
}

/// Parses the interior from `start` up to `hi` as the branches of an
/// alternation; `Ok(None)` says that no comma splits it.
pub(crate) fn parse_branches(chars: &Vec<char>, start: usize, hi: usize) -> (r: Result<
    Option<Node>,
    ParseError,
>)
    requires
        start <= hi <= chars.len(),
        encode_utf8(chars@).len() <= usize::MAX,
    ensures
        match r {
            Ok(None) => branches(chars@, start as int, hi as int, Seq::empty()) == Ok::<
                Option<Tree>,
                ParseFault,
            >(None),
            Ok(Some(node)) => branches(chars@, start as int, hi as int, Seq::empty()) == Ok::<
                Option<Tree>,
                ParseFault,
            >(Some(node@)),
            Err(error) => branches(chars@, start as int, hi as int, Seq::empty()) == Err::<
                Option<Tree>,
                ParseFault,
            >(error@),
        },
    decreases extent(start as int, hi as int), 2int,
{
    let mut done: Vec<Node> = Vec::new();
    let mut from: usize = start;
    assert(trees(done@) =~= Seq::<Tree>::empty());
    loop
        invariant
            start <= from <= hi <= chars.len(),
            encode_utf8(chars@).len() <= usize::MAX,
            branches(chars@, start as int, hi as int, Seq::empty()) == branches(
                chars@,
                from as int,
                hi as int,
                trees(done@),
            ),
        decreases hi - from,
    {
        let cut: usize = find_comma(chars, from, hi);
        if cut < hi {
            match parse_span(chars, from, cut) {
                Err(error) => {
                    return Err(error);
                },
                Ok(branch) => {
                    let ghost before = trees(done@);
                    done.push(branch);
                    assert(trees(done@) =~= before.push(branch@));
                    from = cut + 1;
                },
            }
        } else if done.len() == 0 {
            return Ok(None);
        } else {
            match parse_span(chars, from, hi) {
                Err(error) => {
                    return Err(error);
                },
                Ok(branch) => {
                    let ghost before = trees(done@);
                    done.push(branch);
                    assert(trees(done@) =~= before.push(branch@));
                    proof {
                        lemma_view_alternation(done);
                    }
                    return Ok(Some(Node::Alternation(done)));
                },
            }
        }
    }
}

/// Parses a brace expression.
///
/// The result is the tree that the grammar gives the text, or the first
/// fault that the grammar finds in it. A tree that comes out has the
/// proper shape.
pub fn parse(input: &str) -> (r: Result<Expression, ParseError>)
    ensures
        match r {
            Ok(expression) => parsed(input@) == Ok::<Tree, ParseFault>(expression@) && proper(
                expression@,
            ),
            Err(error) => parsed(input@) == Err::<Tree, ParseFault>(error@),
        },
{
    reveal(parsed);
    proof {
        if parsed(input@) is Ok {
            lemma_parsed_is_proper(input@);
        }
    }
    let chars = chars_of(input);
    let size: usize = input.as_bytes().len();
    match parse_span(&chars, 0, chars.len()) {
        Ok(root) => Ok(Expression { root }),
        Err(error) => Err(error),
    }
}

} // verus!
