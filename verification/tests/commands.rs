use nu_plugin_bexpand::command::{
    Bexpand, BexpandPlugin, Category, Failure, Input, Item, Label, Place, Shape,
};
use nu_plugin_bexpand::parser::parse;

fn text(s: &str) -> Item {
    Item::Text(s.to_string())
}

#[test]
fn the_plugin_has_one_command() {
    assert_eq!(BexpandPlugin.commands(), vec![Bexpand]);
}

#[test]
fn name_and_description() {
    assert_eq!(Bexpand.name(), "str bexpand");
    assert_eq!(Bexpand.description(), "Does bash-style brace expansion");
}

#[test]
fn signature_of_the_command() {
    let signature = Bexpand.signature();
    assert_eq!(signature.name, "str bexpand");
    assert_eq!(signature.description, "Bash-style brace expansion");
    assert_eq!(
        signature.input_output,
        vec![(Shape::Text, Shape::TextList), (Shape::TextList, Shape::TextList)]
    );
    assert_eq!(signature.category, Category::Strings);
}

#[test]
fn the_example_gives_what_it_says() {
    let examples = Bexpand.examples();
    assert_eq!(examples.len(), 1);
    let example = &examples[0];
    assert_eq!(example.description, "Get a list of standard nushell config items");
    assert_eq!(example.example, "'~/.config/nushell/{env,config,plugin}.nu' | str bexpand");
    let quoted = example.example.split('\'').nth(1).unwrap();
    let items = parse(quoted).unwrap().collect().unwrap();
    assert_eq!(items, example.result);
}

#[test]
fn labels_have_their_words() {
    assert_eq!(Label::ParseFailed.text(), "Brace expression failed to parse");
    assert_eq!(Label::NotString.text(), "Input must be string");
    assert_eq!(Label::GenerateFailed.text(), "Expression failed to generate");
}

#[test]
fn run_on_a_string() {
    let input = Input::Text("{a,b}{1,2}".to_string());
    assert_eq!(
        Bexpand.run(&input, "string"),
        Ok(vec!["a1".to_string(), "a2".to_string(), "b1".to_string(), "b2".to_string()])
    );
}

#[test]
fn run_on_a_list_keeps_the_order() {
    let input = Input::List(vec![text("{b,a}"), text("x"), text("{2..1}"), text("")]);
    assert_eq!(
        Bexpand.run(&input, "list<string>"),
        Ok(vec![
            "b".to_string(),
            "a".to_string(),
            "x".to_string(),
            "2".to_string(),
            "1".to_string(),
            "".to_string(),
        ])
    );
    assert_eq!(Bexpand.run(&Input::List(vec![]), "list<any>"), Ok(vec![]));
}

#[test]
fn run_on_something_else() {
    assert_eq!(
        Bexpand.run(&Input::Other, "int"),
        Err(Failure {
            label: Label::NotString,
            place: Place::Input,
            message: "Input type was int".to_string(),
        })
    );
}

#[test]
fn run_on_a_list_with_something_else() {
    let input = Input::List(vec![text("a"), Item::Other, text("{")]);
    assert_eq!(
        Bexpand.run(&input, "list<any>"),
        Err(Failure {
            label: Label::NotString,
            place: Place::Element(1),
            message: "Input type was list<any>".to_string(),
        })
    );
}

#[test]
fn run_on_a_string_that_does_not_parse() {
    assert_eq!(
        Bexpand.run(&Input::Text("ab{c".to_string()), "string"),
        Err(Failure {
            label: Label::ParseFailed,
            place: Place::Input,
            message: "unbalanced brace at byte 2".to_string(),
        })
    );
}

#[test]
fn a_parse_failure_comes_before_any_expansion_failure() {
    let input = Input::List(vec![text("{1..2..-1}"), text("{A..b}"), Item::Other]);
    assert_eq!(
        Bexpand.run(&input, "list<any>"),
        Err(Failure {
            label: Label::ParseFailed,
            place: Place::Input,
            message: "letter range from one case to the other at byte 0".to_string(),
        })
    );
}

#[test]
fn run_on_an_expansion_that_fails() {
    assert_eq!(
        Bexpand.run(&Input::Text("{1..2..-1}".to_string()), "string"),
        Err(Failure {
            label: Label::GenerateFailed,
            place: Place::Input,
            message: "range step does not lead from start towards end".to_string(),
        })
    );
    let input = Input::List(vec![text("a"), text("{9223372036854775806..9223372036854775807..3}")]);
    assert_eq!(
        Bexpand.run(&input, "list<string>"),
        Err(Failure {
            label: Label::GenerateFailed,
            place: Place::Input,
            message: "numeric overflow in expansion".to_string(),
        })
    );
}
