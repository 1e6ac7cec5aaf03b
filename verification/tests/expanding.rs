use nu_plugin_bexpand::error::{ExpandError, ParseError};
use nu_plugin_bexpand::expansion::expand;
use nu_plugin_bexpand::parser::parse;
use nu_plugin_bexpand::tree::{Expression, Node, Range};

fn all(input: &str) -> Vec<String> {
    parse(input).expect("the text parses").collect().expect("the expansion has no failure")
}

fn entries(expression: &Expression) -> Vec<Result<String, ExpandError>> {
    let mut expansion = expand(expression);
    let mut seen = Vec::new();
    while let Some(entry) = expansion.next() {
        seen.push(entry);
    }
    seen
}

#[test]
fn text_without_braces_expands_to_itself() {
    assert_eq!(all("plain text"), vec!["plain text"]);
    assert_eq!(all(""), vec![""]);
    assert_eq!(all("a.b..c, d"), vec!["a.b..c, d"]);
}

#[test]
fn product_with_the_last_group_fastest() {
    assert_eq!(all("{a,b}{1,2}"), vec!["a1", "a2", "b1", "b2"]);
}

#[test]
fn single_branch_is_literal() {
    assert_eq!(all("{x}"), vec!["{x}"]);
}

#[test]
fn numeric_padding() {
    assert_eq!(all("{01..03}"), vec!["01", "02", "03"]);
    assert_eq!(all("{1..03}"), vec!["01", "02", "03"]);
}

#[test]
fn descending_numeric_range() {
    assert_eq!(all("{5..1}"), vec!["5", "4", "3", "2", "1"]);
}

#[test]
fn alphabetic_range() {
    assert_eq!(all("{a..e}"), vec!["a", "b", "c", "d", "e"]);
    assert_eq!(parse("{A..e}"), Err(ParseError::MixedCaseAlphabeticRange { offset: 0 }));
}

#[test]
fn descending_alphabetic_range() {
    assert_eq!(all("{D..A}"), vec!["D", "C", "B", "A"]);
    assert_eq!(all("{q..q}"), vec!["q"]);
}

#[test]
fn nesting() {
    assert_eq!(all("{a,b{1,2}}"), vec!["a", "b1", "b2"]);
}

#[test]
fn escaping() {
    assert_eq!(all("\\{a,b\\}"), vec!["{a,b}"]);
}

#[test]
fn expanding_twice_gives_the_same() {
    let expression = parse("x{a,b{1..3}}{01..10..4}y").unwrap();
    let first = expression.collect();
    let second = expression.collect();
    assert_eq!(first, second);
    assert_eq!(entries(&expression), entries(&expression));
    assert_eq!(
        first.unwrap(),
        vec![
            "xa01y", "xa05y", "xa09y", "xb101y", "xb105y", "xb109y", "xb201y", "xb205y",
            "xb209y", "xb301y", "xb305y", "xb309y",
        ]
    );
}

#[test]
fn the_documented_example() {
    assert_eq!(
        all("~/.config/nushell/{env,config,plugin}.nu"),
        vec![
            "~/.config/nushell/env.nu",
            "~/.config/nushell/config.nu",
            "~/.config/nushell/plugin.nu",
        ]
    );
}

#[test]
fn explicit_steps() {
    assert_eq!(all("{1..10..3}"), vec!["01", "04", "07", "10"]);
    assert_eq!(all("{10..1..-3}"), vec!["10", "07", "04", "01"]);
    assert_eq!(all("{1..9..3}"), vec!["1", "4", "7"]);
    assert_eq!(all("{0..9..100}"), vec!["0"]);
    assert_eq!(all("{3..3..7}"), vec!["3"]);
}

#[test]
fn a_step_away_from_the_end_fails() {
    for input in ["{1..5..-1}", "{5..1..2}", "{1..5..0}", "{5..1..0}", "{3..3..-1}", "{3..3..0}"] {
        let expression = parse(input).unwrap();
        assert_eq!(expression.collect(), Err(ExpandError::StepDirectionMismatch), "{}", input);
        assert_eq!(expression.entry(0), Some(Err(ExpandError::StepDirectionMismatch)));
        assert_eq!(expression.entry(1), None);
    }
}

#[test]
fn negative_numbers_and_padding() {
    assert_eq!(all("{-1..1}"), vec!["-1", "00", "01"]);
    assert_eq!(all("{-05..-03}"), vec!["-05", "-04", "-03"]);
    assert_eq!(all("{-2..002}"), vec!["-02", "-01", "000", "001", "002"]);
    assert_eq!(all("{8..11}"), vec!["08", "09", "10", "11"]);
    assert_eq!(all("{-10..-8}"), vec!["-10", "-09", "-08"]);
}

#[test]
fn width_three_renders_minus_five_with_one_zero() {
    let expression =
        Expression { root: Node::Range(Range::Numeric { start: -5, end: -5, step: None, width: 3 }) };
    assert_eq!(expression.collect(), Ok(vec!["-05".to_string()]));
    let narrow =
        Expression { root: Node::Range(Range::Numeric { start: -5, end: -5, step: None, width: 2 }) };
    assert_eq!(narrow.collect(), Ok(vec!["-5".to_string()]));
    let wide =
        Expression { root: Node::Range(Range::Numeric { start: 5, end: 5, step: None, width: 3 }) };
    assert_eq!(wide.collect(), Ok(vec!["005".to_string()]));
    let none =
        Expression { root: Node::Range(Range::Numeric { start: 1234, end: 1234, step: None, width: 2 }) };
    assert_eq!(none.collect(), Ok(vec!["1234".to_string()]));
}

#[test]
fn the_ends_of_i64() {
    assert_eq!(
        all("{-9223372036854775808..-9223372036854775807}"),
        vec!["-9223372036854775808", "-9223372036854775807"]
    );
    assert_eq!(
        all("{9223372036854775806..9223372036854775807}"),
        vec!["9223372036854775806", "9223372036854775807"]
    );
    assert_eq!(all("{9223372036854775807..9223372036854775807}"), vec!["9223372036854775807"]);
    assert_eq!(
        all("{-9223372036854775808..9223372036854775806..9223372036854775807}"),
        vec!["-9223372036854775808", "-0000000000000000001", "09223372036854775806"]
    );
    let beyond = parse("{-9223372036854775808..9223372036854775807..9223372036854775807}").unwrap();
    assert_eq!(
        entries(&beyond),
        vec![
            Ok("-9223372036854775808".to_string()),
            Ok("-0000000000000000001".to_string()),
            Ok("09223372036854775806".to_string()),
            Err(ExpandError::NumericOverflow),
        ]
    );
}

#[test]
fn overflow_comes_behind_the_items_before_it() {
    let expression = parse("{9223372036854775800..9223372036854775807..5}").unwrap();
    assert_eq!(expression.entry(0), Some(Ok("9223372036854775800".to_string())));
    assert_eq!(expression.entry(1), Some(Ok("9223372036854775805".to_string())));
    assert_eq!(expression.entry(2), Some(Err(ExpandError::NumericOverflow)));
    assert_eq!(expression.entry(3), None);
    assert_eq!(expression.collect(), Err(ExpandError::NumericOverflow));
    assert_eq!(
        entries(&expression),
        vec![
            Ok("9223372036854775800".to_string()),
            Ok("9223372036854775805".to_string()),
            Err(ExpandError::NumericOverflow),
        ]
    );
    let down = parse("{-9223372036854775800..-9223372036854775808..-5}").unwrap();
    assert_eq!(
        entries(&down),
        vec![
            Ok("-9223372036854775800".to_string()),
            Ok("-9223372036854775805".to_string()),
            Err(ExpandError::NumericOverflow),
        ]
    );
}

#[test]
fn no_overflow_where_the_end_is_met_or_passed_in_range() {
    assert_eq!(
        all("{9223372036854775805..9223372036854775807..2}"),
        vec!["9223372036854775805", "9223372036854775807"]
    );
    assert_eq!(all("{1..4..2}"), vec!["1", "3"]);
}

#[test]
fn entries_one_by_one() {
    let expression = parse("{a,b}{1,2}").unwrap();
    let mut expansion = expand(&expression);
    assert_eq!(expansion.position, 0);
    assert_eq!(expansion.next(), Some(Ok("a1".to_string())));
    assert_eq!(expansion.next(), Some(Ok("a2".to_string())));
    assert_eq!(expansion.position, 2);
    assert_eq!(expansion.next(), Some(Ok("b1".to_string())));
    assert_eq!(expansion.next(), Some(Ok("b2".to_string())));
    assert_eq!(expansion.next(), None);
    assert_eq!(expansion.next(), None);
    assert_eq!(expansion.position, 4);
    let mut again = expand(&expression);
    assert_eq!(again.next(), Some(Ok("a1".to_string())));
}

#[test]
fn an_expansion_ends_at_the_limit() {
    let expression = parse("{a,b}").unwrap();
    let mut expansion = expand(&expression);
    expansion.position = 1u128 << 64;
    assert_eq!(expansion.next(), None);
    assert_eq!(expansion.position, 1u128 << 64);
}

#[test]
fn entries_by_position() {
    let expression = parse("{a,b{1,2}}").unwrap();
    assert_eq!(expression.entry(0), Some(Ok("a".to_string())));
    assert_eq!(expression.entry(1), Some(Ok("b1".to_string())));
    assert_eq!(expression.entry(2), Some(Ok("b2".to_string())));
    assert_eq!(expression.entry(3), None);
    assert_eq!(expression.entry(u64::MAX), None);
}

#[test]
fn enormous_ranges_cost_nothing_until_asked() {
    let expression = parse("{1..9223372036854775807}").unwrap();
    assert_eq!(expression.entry(5), Some(Ok("0000000000000000006".to_string())));
    assert_eq!(
        expression.entry(9223372036854775806),
        Some(Ok("9223372036854775807".to_string()))
    );
    assert_eq!(expression.entry(9223372036854775807), None);
    let full = parse("{-9223372036854775808..9223372036854775807}").unwrap();
    assert_eq!(full.entry(u64::MAX), Some(Ok("09223372036854775807".to_string())));
    assert_eq!(full.collect(), Err(ExpandError::NumericOverflow));
}

#[test]
fn enormous_products_by_position() {
    let expression =
        parse("{1..9223372036854775807}-{a..z}-{1..9223372036854775807}-{x,y}").unwrap();
    assert_eq!(
        expression.entry(0),
        Some(Ok("0000000000000000001-a-0000000000000000001-x".to_string()))
    );
    assert_eq!(
        expression.entry(3),
        Some(Ok("0000000000000000001-a-0000000000000000002-y".to_string()))
    );
    assert_eq!(
        expression.entry(u64::MAX),
        Some(Ok("0000000000000000001-b-0000000000000000001-y".to_string()))
    );
    assert_eq!(expression.collect(), Err(ExpandError::NumericOverflow));
}

#[test]
fn empty_branches() {
    assert_eq!(all("{a,}"), vec!["a", ""]);
    assert_eq!(all("x{,y}{,z}"), vec!["x", "xz", "xy", "xyz"]);
}

#[test]
fn product_of_alternation_and_range() {
    assert_eq!(all("{a,b}{1..3}"), vec!["a1", "a2", "a3", "b1", "b2", "b3"]);
    assert_eq!(all("{1..2}{a..b}{x,y}"), vec![
        "1ax", "1ay", "1bx", "1by", "2ax", "2ay", "2bx", "2by",
    ]);
}

#[test]
fn a_failing_part_fails_the_sequence_at_once() {
    let expression = parse("{a,b}{1..5..-1}").unwrap();
    assert_eq!(entries(&expression), vec![Err(ExpandError::StepDirectionMismatch)]);
    let first = parse("{1..5..-1}{a,b}").unwrap();
    assert_eq!(entries(&first), vec![Err(ExpandError::StepDirectionMismatch)]);
}

#[test]
fn an_inner_failure_ends_the_first_pass() {
    let expression = parse("{a,b}{9223372036854775800..9223372036854775807..5}").unwrap();
    assert_eq!(
        entries(&expression),
        vec![
            Ok("a9223372036854775800".to_string()),
            Ok("a9223372036854775805".to_string()),
            Err(ExpandError::NumericOverflow),
        ]
    );
}

#[test]
fn an_outer_failure_comes_when_its_items_are_used() {
    let expression = parse("{9223372036854775800..9223372036854775807..5}{a,b}").unwrap();
    assert_eq!(
        entries(&expression),
        vec![
            Ok("9223372036854775800a".to_string()),
            Ok("9223372036854775800b".to_string()),
            Ok("9223372036854775805a".to_string()),
            Ok("9223372036854775805b".to_string()),
            Err(ExpandError::NumericOverflow),
        ]
    );
}

#[test]
fn a_failing_branch_ends_the_alternation() {
    let expression = parse("{x,{1..5..-1},y}").unwrap();
    assert_eq!(
        entries(&expression),
        vec![Ok("x".to_string()), Err(ExpandError::StepDirectionMismatch)]
    );
    assert_eq!(expression.collect(), Err(ExpandError::StepDirectionMismatch));
}

#[test]
fn trees_made_by_hand() {
    let none = Expression { root: Node::Alternation(vec![]) };
    assert_eq!(none.collect(), Ok(vec![]));
    assert_eq!(none.entry(0), None);
    let unit = Expression { root: Node::Sequence(vec![]) };
    assert_eq!(unit.collect(), Ok(vec!["".to_string()]));
    let empty_product = Expression {
        root: Node::Sequence(vec![
            Node::Literal("a".to_string()),
            Node::Alternation(vec![]),
            Node::Literal("b".to_string()),
        ]),
    };
    assert_eq!(empty_product.collect(), Ok(vec![]));
    let bytes = Expression { root: Node::Range(Range::Alphabetic { start: b'0', end: b'3' }) };
    assert_eq!(bytes.collect().unwrap(), vec!["0", "1", "2", "3"]);
}

#[test]
fn an_outer_failure_with_nothing_inside() {
    let expression = Expression {
        root: Node::Sequence(vec![
            Node::Range(Range::Numeric {
                start: i64::MAX - 1,
                end: i64::MAX,
                step: Some(2),
                width: 0,
            }),
            Node::Alternation(vec![]),
        ]),
    };
    assert_eq!(entries(&expression), vec![Err(ExpandError::NumericOverflow)]);
}

#[test]
fn messages_of_expand_errors() {
    assert_eq!(
        ExpandError::StepDirectionMismatch.message(),
        "range step does not lead from start towards end"
    );
    assert_eq!(ExpandError::NumericOverflow.message(), "numeric overflow in expansion");
}
