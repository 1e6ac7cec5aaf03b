use nu_plugin_bexpand::error::ParseError;
use nu_plugin_bexpand::parser::parse;
use nu_plugin_bexpand::tree::{Node, Range};

fn literal(text: &str) -> Node {
    Node::Literal(text.to_string())
}

fn root(input: &str) -> Node {
    parse(input).expect("the text parses").root
}

#[test]
fn plain_text_is_one_literal() {
    assert_eq!(root("plain text"), literal("plain text"));
    assert_eq!(root("a.b..c"), literal("a.b..c"));
}

#[test]
fn empty_text_is_an_empty_sequence() {
    assert_eq!(root(""), Node::Sequence(vec![]));
}

#[test]
fn alternation_between_text() {
    assert_eq!(
        root("a{b,c}d"),
        Node::Sequence(vec![
            literal("a"),
            Node::Alternation(vec![literal("b"), literal("c")]),
            literal("d"),
        ])
    );
}

#[test]
fn a_lone_group_is_not_wrapped() {
    assert_eq!(root("{b,c}"), Node::Alternation(vec![literal("b"), literal("c")]));
}

#[test]
fn nested_branches_are_sequences() {
    assert_eq!(
        root("{a,b{1,2}}"),
        Node::Alternation(vec![
            literal("a"),
            Node::Sequence(vec![
                literal("b"),
                Node::Alternation(vec![literal("1"), literal("2")]),
            ]),
        ])
    );
}

#[test]
fn empty_branches_are_empty_sequences() {
    assert_eq!(root("{a,}"), Node::Alternation(vec![literal("a"), Node::Sequence(vec![])]));
    assert_eq!(
        root("{,}"),
        Node::Alternation(vec![Node::Sequence(vec![]), Node::Sequence(vec![])])
    );
}

#[test]
fn a_group_without_comma_is_text() {
    assert_eq!(root("{x}"), literal("{x}"));
    assert_eq!(root("{}"), literal("{}"));
    assert_eq!(root("a{x}b"), literal("a{x}b"));
    assert_eq!(root("{{a,b}}"), literal("{{a,b}}"));
    assert_eq!(root("{x\\,y}"), literal("{x,y}"));
    assert_eq!(root("{1...5}"), literal("{1...5}"));
    assert_eq!(root("{1..}"), literal("{1..}"));
    assert_eq!(root("{..5}"), literal("{..5}"));
    assert_eq!(root("{1..2..3..4}"), literal("{1..2..3..4}"));
}

#[test]
fn text_around_a_text_group_is_merged_between_groups() {
    assert_eq!(
        root("a{x}b{1,2}c"),
        Node::Sequence(vec![
            literal("a{x}b"),
            Node::Alternation(vec![literal("1"), literal("2")]),
            literal("c"),
        ])
    );
}

#[test]
fn escapes_quote_structure() {
    assert_eq!(root("\\{a,b\\}"), literal("{a,b}"));
    assert_eq!(root("a\\,b"), literal("a,b"));
    assert_eq!(root("a\\\\b"), literal("a\\b"));
    assert_eq!(root("{a\\,b,c}"), Node::Alternation(vec![literal("a,b"), literal("c")]));
    assert_eq!(root("{a\\}b,c}"), Node::Alternation(vec![literal("a}b"), literal("c")]));
}

#[test]
fn other_backslashes_stay() {
    assert_eq!(root("a\\b"), literal("a\\b"));
    assert_eq!(root("a\\"), literal("a\\"));
    assert_eq!(root("\\.x"), literal("\\.x"));
}

#[test]
fn numeric_range() {
    assert_eq!(
        root("{1..10}"),
        Node::Range(Range::Numeric { start: 1, end: 10, step: None, width: 2 })
    );
    assert_eq!(
        root("{5..1}"),
        Node::Range(Range::Numeric { start: 5, end: 1, step: None, width: 1 })
    );
    assert_eq!(
        root("{-5..5..2}"),
        Node::Range(Range::Numeric { start: -5, end: 5, step: Some(2), width: 2 })
    );
    assert_eq!(
        root("{10..1..-3}"),
        Node::Range(Range::Numeric { start: 10, end: 1, step: Some(-3), width: 2 })
    );
}

#[test]
fn width_is_that_of_the_widest_bound() {
    assert_eq!(
        root("{01..03}"),
        Node::Range(Range::Numeric { start: 1, end: 3, step: None, width: 2 })
    );
    assert_eq!(
        root("{1..03}"),
        Node::Range(Range::Numeric { start: 1, end: 3, step: None, width: 2 })
    );
    assert_eq!(
        root("{-007..1}"),
        Node::Range(Range::Numeric { start: -7, end: 1, step: None, width: 4 })
    );
    assert_eq!(
        root("{1..2..0005}"),
        Node::Range(Range::Numeric { start: 1, end: 2, step: Some(5), width: 1 })
    );
}

#[test]
fn the_bounds_of_i64_are_integers() {
    assert_eq!(
        root("{-9223372036854775808..9223372036854775807}"),
        Node::Range(Range::Numeric {
            start: i64::MIN,
            end: i64::MAX,
            step: None,
            width: 20,
        })
    );
}

#[test]
fn letter_range() {
    assert_eq!(root("{a..e}"), Node::Range(Range::Alphabetic { start: b'a', end: b'e' }));
    assert_eq!(root("{Z..A}"), Node::Range(Range::Alphabetic { start: b'Z', end: b'A' }));
}

#[test]
fn a_comma_makes_an_alternation_of_a_range() {
    assert_eq!(root("{1..5,7}"), Node::Alternation(vec![literal("1..5"), literal("7")]));
}

#[test]
fn range_inside_a_branch() {
    assert_eq!(
        root("{x,{1..3}}"),
        Node::Alternation(vec![
            literal("x"),
            Node::Range(Range::Numeric { start: 1, end: 3, step: None, width: 1 }),
        ])
    );
}

#[test]
fn unbalanced_open_brace() {
    assert_eq!(parse("{a,b"), Err(ParseError::UnbalancedBrace { offset: 0 }));
    assert_eq!(parse("ab{c"), Err(ParseError::UnbalancedBrace { offset: 2 }));
    assert_eq!(parse("{a{b}"), Err(ParseError::UnbalancedBrace { offset: 0 }));
    assert_eq!(parse("{a,b\\}"), Err(ParseError::UnbalancedBrace { offset: 0 }));
}

#[test]
fn unbalanced_close_brace() {
    assert_eq!(parse("}"), Err(ParseError::UnbalancedBrace { offset: 0 }));
    assert_eq!(parse("a}"), Err(ParseError::UnbalancedBrace { offset: 1 }));
    assert_eq!(parse("{a,b}}"), Err(ParseError::UnbalancedBrace { offset: 5 }));
}

#[test]
fn offsets_count_bytes() {
    assert_eq!(parse("\u{e9}{a,b"), Err(ParseError::UnbalancedBrace { offset: 2 }));
    assert_eq!(parse("\u{20ac}\u{1f600}}"), Err(ParseError::UnbalancedBrace { offset: 7 }));
    assert_eq!(
        parse("\u{e9}{\u{e9}..b}"),
        Err(ParseError::InvalidRangeToken { offset: 3, text: "\u{e9}".to_string() })
    );
}

#[test]
fn invalid_range_tokens() {
    assert_eq!(
        parse("{foo..bar}"),
        Err(ParseError::InvalidRangeToken { offset: 1, text: "foo".to_string() })
    );
    assert_eq!(
        parse("{1..x}"),
        Err(ParseError::InvalidRangeToken { offset: 4, text: "x".to_string() })
    );
    assert_eq!(
        parse("{a..5}"),
        Err(ParseError::InvalidRangeToken { offset: 4, text: "5".to_string() })
    );
    assert_eq!(
        parse("{1..5..x}"),
        Err(ParseError::InvalidRangeToken { offset: 7, text: "x".to_string() })
    );
    assert_eq!(
        parse("{a..e..2}"),
        Err(ParseError::InvalidRangeToken { offset: 7, text: "2".to_string() })
    );
    assert_eq!(
        parse("{-..5}"),
        Err(ParseError::InvalidRangeToken { offset: 1, text: "-".to_string() })
    );
    assert_eq!(
        parse("{+1..5}"),
        Err(ParseError::InvalidRangeToken { offset: 1, text: "+1".to_string() })
    );
}

#[test]
fn integers_beyond_i64_are_invalid_tokens() {
    assert_eq!(
        parse("{1..9223372036854775808}"),
        Err(ParseError::InvalidRangeToken {
            offset: 4,
            text: "9223372036854775808".to_string(),
        })
    );
    assert_eq!(
        parse("{-9223372036854775809..1}"),
        Err(ParseError::InvalidRangeToken {
            offset: 1,
            text: "-9223372036854775809".to_string(),
        })
    );
    assert_eq!(
        parse("{1..99999999999999999999999999999999999999999999}"),
        Err(ParseError::InvalidRangeToken {
            offset: 4,
            text: "99999999999999999999999999999999999999999999".to_string(),
        })
    );
}

#[test]
fn leading_zeros_do_not_overflow() {
    assert_eq!(
        root("{0000000000000000000000001..2}"),
        Node::Range(Range::Numeric { start: 1, end: 2, step: None, width: 25 })
    );
}

#[test]
fn mixed_case_letter_range() {
    assert_eq!(parse("{A..e}"), Err(ParseError::MixedCaseAlphabeticRange { offset: 0 }));
    assert_eq!(parse("xy{a..E}"), Err(ParseError::MixedCaseAlphabeticRange { offset: 2 }));
}

#[test]
fn the_first_fault_is_reported() {
    assert_eq!(parse("{A..e}}"), Err(ParseError::MixedCaseAlphabeticRange { offset: 0 }));
    assert_eq!(parse("}{A..e}"), Err(ParseError::UnbalancedBrace { offset: 0 }));
    assert_eq!(parse("{a,{A..e}"), Err(ParseError::UnbalancedBrace { offset: 0 }));
    assert_eq!(
        parse("{a,{A..e},{1..x}}"),
        Err(ParseError::MixedCaseAlphabeticRange { offset: 3 })
    );
}

#[test]
fn a_text_group_hides_what_is_inside() {
    assert_eq!(root("{x{A..e}}"), literal("{x{A..e}}"));
}

#[test]
fn messages_of_parse_errors() {
    assert_eq!(
        ParseError::UnbalancedBrace { offset: 12 }.message(),
        "unbalanced brace at byte 12"
    );
    assert_eq!(
        ParseError::InvalidRangeToken { offset: 0, text: "foo".to_string() }.message(),
        "invalid range token `foo` at byte 0"
    );
    assert_eq!(
        ParseError::MixedCaseAlphabeticRange { offset: 305 }.message(),
        "letter range from one case to the other at byte 305"
    );
}
