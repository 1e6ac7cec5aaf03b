use vstd::prelude::*;
use vstd::string::StringExecFns;
use crate::error::ExpandError;
use crate::expansion::{collected, texts};
use crate::grammar::parsed;
use crate::message::{expand_message, parse_message};
use crate::parser::parse;

verus! {

/// An element of a list that the command is given: a string, or anything else.
#[derive(Debug, PartialEq, Eq)]
pub enum Item {
    Text(String),
    Other,
}

/// What the command is given: a string, a list, or anything else.
#[derive(Debug, PartialEq, Eq)]
pub enum Input {
    Text(String),
    List(Vec<Item>),
    Other,
}

/// What a failure of the command is about.
#[derive(Clone, Copy, Debug, PartialEq, Eq)]
pub enum Label {
    ParseFailed,
    NotString,
    GenerateFailed,
}

/// The part of the input that a failure points at.
#[derive(Clone, Copy, Debug, PartialEq, Eq)]
pub enum Place {
    /// The input as a whole.
    Input,
    /// The element of the input list at this index.
    Element(usize),
}

/// A failure of the command, for the host to show.
#[derive(Debug, PartialEq, Eq)]
pub struct Failure {
    pub label: Label,
    pub place: Place,
    pub message: String,
}

/// The mathematical content of a [`Failure`].
pub struct FailureModel {
    pub label: Label,
    pub place: Place,
    pub message: Seq<char>,
}

impl View for Failure {
    type V = FailureModel;

    open spec fn view(&self) -> FailureModel {
        FailureModel { label: self.label, place: self.place, message: self.message@ }
    }
}

/// The words that go with a label.
pub open spec fn label_text(label: Label) -> Seq<char> {
    match label {
        Label::ParseFailed => "Brace expression failed to parse"@,
        Label::NotString => "Input must be string"@,
        Label::GenerateFailed => "Expression failed to generate"@,
    }
}

impl Label {
    /// The words that go with the label.
    pub fn text(&self) -> (words: &'static str)
        ensures
            words@ == label_text(*self),
    {
        match self {
            Label::ParseFailed => "Brace expression failed to parse",
            Label::NotString => "Input must be string",
            Label::GenerateFailed => "Expression failed to generate",
        }
    }
}

/// The failure for something that is no string, at `place`, where the
/// host calls the type of the whole input `kind`.
pub open spec fn not_string(place: Place, kind: Seq<char>) -> FailureModel {
    FailureModel { label: Label::NotString, place, message: "Input type was "@ + kind }
}

/// The failure for a text that does not parse.
pub open spec fn parse_failed(text: Seq<char>) -> FailureModel {
    FailureModel {
        label: Label::ParseFailed,
        place: Place::Input,
        message: parse_message(parsed(text)->Err_0),
    }
}

/// The failure for an expansion that fails.
pub open spec fn generate_failed(error: ExpandError) -> FailureModel {
    FailureModel {
        label: Label::GenerateFailed,
        place: Place::Input,
        message: expand_message(error),
    }
}

/// The failure of the first element from index `i` on that is no string
/// or does not parse, if there is one.
pub open spec fn first_unfit(items: Seq<Item>, i: int, kind: Seq<char>) -> Option<
    FailureModel,
>
    decreases items.len() - i,
{
    if i < 0 || i >= items.len() {
        None
    } else {
        match items[i] {
            Item::Other => Some(not_string(Place::Element(i as usize), kind)),
            Item::Text(text) => if parsed(text@) is Err {
                Some(parse_failed(text@))
            } else {
                first_unfit(items, i + 1, kind)
            },
        }
    }
}

/// What the command makes of a text that parses: all items of its
/// expansion, or the failure that the expansion runs into.
pub open spec fn expanded(text: Seq<char>) -> Result<Seq<Seq<char>>, FailureModel> {
    match collected(parsed(text)->Ok_0) {
        Err(error) => Err(generate_failed(error)),
        Ok(items) => Ok(items),
    }
}

/// The expansions of the elements from index `i` on, one after the
/// other, behind `done`; or the failure of the first of them that fails.
/// Every element is a string that parses.
pub open spec fn expanded_from(items: Seq<Item>, i: int, done: Seq<Seq<char>>) -> Result<
    Seq<Seq<char>>,
    FailureModel,
>
    decreases items.len() - i,
{
    if i < 0 || i >= items.len() {
        Ok(done)
    } else {
        match expanded(items[i]->Text_0@) {
            Err(failure) => Err(failure),
            Ok(more) => expanded_from(items, i + 1, done + more),
        }
    }
}

/// What the command makes of `input`, whose type the host calls `kind`.
///
/// A string is parsed and expanded. Of a list every element has to be a
/// string that parses, and the first that is not tells the failure; then
/// the expansions follow one another in the order of the elements.
/// Anything else is no input for the command.
pub open spec fn ran(input: Input, kind: Seq<char>) -> Result<Seq<Seq<char>>, FailureModel> {
    match input {
        Input::Other => Err(not_string(Place::Input, kind)),
        Input::Text(text) => if parsed(text@) is Err {
            Err(parse_failed(text@))
        } else {
            expanded(text@)
        },
        Input::List(items) => match first_unfit(items@, 0, kind) {
            Some(failure) => Err(failure),
            None => expanded_from(items@, 0, Seq::empty()),
        },
    }
}

/// What the command tells the host about its input and output.
#[derive(Clone, Copy, Debug, PartialEq, Eq)]
pub enum Shape {
    Text,
    TextList,
}

/// The group of commands that the host lists a command under.
#[derive(Clone, Copy, Debug, PartialEq, Eq)]
pub enum Category {
    Strings,
}

/// How the command presents itself to the host.
#[derive(Debug, PartialEq, Eq)]
pub struct Signature {
    pub name: &'static str,
    pub description: &'static str,
    pub input_output: Vec<(Shape, Shape)>,
    pub category: Category,
}

/// A use of the command, with what it gives.
#[derive(Debug, PartialEq, Eq)]
pub struct Example {
    pub example: &'static str,
    pub description: &'static str,
    pub result: Vec<&'static str>,
}

/// The plugin: it offers one command.
#[derive(Clone, Copy, Debug, PartialEq, Eq)]
pub struct BexpandPlugin;

impl BexpandPlugin {
    /// The commands of the plugin.
    pub fn commands(&self) -> (commands: Vec<Bexpand>)
        ensures
            commands@.len() == 1,
    {
        let mut commands: Vec<Bexpand> = Vec::new();
        commands.push(Bexpand);
        commands
    }
}

/// The command `str bexpand`.
#[derive(Clone, Copy, Debug, PartialEq, Eq)]
pub struct Bexpand;

impl Bexpand {
    /// The name that the command is called by.
    pub fn name(&self) -> (name: &'static str)
        ensures
            name@ == "str bexpand"@,
    {
        "str bexpand"
    }

    /// What the command does, in a few words.
    pub fn description(&self) -> (description: &'static str)
        ensures
            description@ == "Does bash-style brace expansion"@,
    {
        "Does bash-style brace expansion"
    }

    /// The signature: a string or a list of strings goes in, a list of strings comes out.
    pub fn signature(&self) -> (signature: Signature)
        ensures
            signature.name@ == "str bexpand"@,
            signature.description@ == "Bash-style brace expansion"@,
            signature.input_output@ == seq![
                (Shape::Text, Shape::TextList),
                (Shape::TextList, Shape::TextList),
            ],
            signature.category == Category::Strings,
    {
        let mut input_output: Vec<(Shape, Shape)> = Vec::new();
        input_output.push((Shape::Text, Shape::TextList));
        input_output.push((Shape::TextList, Shape::TextList));
        assert(input_output@ =~= seq![
            (Shape::Text, Shape::TextList),
            (Shape::TextList, Shape::TextList),
        ]);
        Signature {
            name: "str bexpand",
            description: "Bash-style brace expansion",
            input_output,
            category: Category::Strings,
        }
    }

    /// Runs the command on `input`, whose type the host calls `kind`.
    pub fn run(&self, input: &Input, kind: &str) -> (r: Result<Vec<String>, Failure>)
        ensures
            match r {
                Ok(items) => ran(*input, kind@) == Ok::<Seq<Seq<char>>, FailureModel>(
                    texts(items@),
                ),
                Err(failure) => ran(*input, kind@) == Err::<Seq<Seq<char>>, FailureModel>(
                    failure@,
                ),
            },
    {
        match input {
            Input::Other => Err(unfit(Place::Input, kind)),
            Input::Text(text) => {
                let mut out: Vec<String> = Vec::new();
                assert(texts(out@) =~= Seq::<Seq<char>>::empty());
                match expand_into(text.as_str(), &mut out) {
                    Err(failure) => Err(failure),
                    Ok(()) => {
                        assert(texts(out@) =~= expanded(text@)->Ok_0);
                        Ok(out)
                    },
                }
            },
            Input::List(items) => {
                match check_items(items, kind) {
                    Err(failure) => Err(failure),
                    Ok(()) => {
                        proof {
                            lemma_none_unfit(items@, 0, kind@);
                        }
                        expand_items(items)
                    },
                }
            },
        }
    }

    /// The examples that the host shows for the command.
    pub fn examples(&self) -> (examples: Vec<Example>)
        ensures
            examples@.len() == 1,
            examples@[0].example@ == "'~/.config/nushell/{env,config,plugin}.nu' | str bexpand"@,
            examples@[0].description@ == "Get a list of standard nushell config items"@,
            examples@[0].result@.len() == 3,
            examples@[0].result@[0]@ == "~/.config/nushell/env.nu"@,
            examples@[0].result@[1]@ == "~/.config/nushell/config.nu"@,
            examples@[0].result@[2]@ == "~/.config/nushell/plugin.nu"@,
    {
        let mut result: Vec<&'static str> = Vec::new();
        result.push("~/.config/nushell/env.nu");
        result.push("~/.config/nushell/config.nu");
        result.push("~/.config/nushell/plugin.nu");
        let mut examples: Vec<Example> = Vec::new();
        examples.push(
            Example {
                example: "'~/.config/nushell/{env,config,plugin}.nu' | str bexpand",
                description: "Get a list of standard nushell config items",
                result,
            },
        );
        examples
    }
}

/// The failure for something that is no string.
fn unfit(place: Place, kind: &str) -> (failure: Failure)
    ensures
        failure@ == not_string(place, kind@),
{
    let mut message = String::from_str("Input type was ");
    message.append(kind);
    Failure { label: Label::NotString, place, message }
}

/// Looks for the first element that is no string or does not parse.
fn check_items(items: &Vec<Item>, kind: &str) -> (r: Result<(), Failure>)
    ensures
        match r {
            Ok(()) => first_unfit(items@, 0, kind@) is None,
            Err(failure) => first_unfit(items@, 0, kind@) == Some(failure@),
        },
{
    let mut i: usize = 0;
    while i < items.len()
        invariant
            i <= items.len(),
            first_unfit(items@, 0, kind@) == first_unfit(items@, i as int, kind@),
        decreases items.len() - i,
    {
        match &items[i] {
            Item::Other => {
                return Err(unfit(Place::Element(i), kind));
            },
            Item::Text(text) => {
                match parse(text.as_str()) {
                    Err(error) => {
                        return Err(
                            Failure {
                                label: Label::ParseFailed,
                                place: Place::Input,
                                message: error.message(),
                            },
                        );
                    },
                    Ok(_) => {},
                }
            },
        }
        i = i + 1;
    }
    Ok(())
}

/// Every element is a string that parses.
pub open spec fn all_fit(items: Seq<Item>) -> bool {
    forall|j: int|
        0 <= j < items.len() ==> (#[trigger] items[j]) is Text && parsed(items[j]->Text_0@) is Ok
}

/// Where no element is unfit, every element is a string that parses.
proof fn lemma_none_unfit(items: Seq<Item>, i: int, kind: Seq<char>)
    requires
        0 <= i <= items.len(),
        first_unfit(items, i, kind) is None,
    ensures
        forall|j: int|
            i <= j < items.len() ==> (#[trigger] items[j]) is Text && parsed(
                items[j]->Text_0@,
            ) is Ok,
    decreases items.len() - i,
{
    if i < items.len() {
        lemma_none_unfit(items, i + 1, kind);
    }
}

/// Expands the elements one after the other.
fn expand_items(items: &Vec<Item>) -> (r: Result<Vec<String>, Failure>)
    requires
        all_fit(items@),
    ensures
        match r {
            Ok(out) => expanded_from(items@, 0, Seq::empty()) == Ok::<Seq<Seq<char>>, FailureModel>(
                texts(out@),
            ),
            Err(failure) => expanded_from(items@, 0, Seq::empty()) == Err::<
                Seq<Seq<char>>,
                FailureModel,
            >(failure@),
        },
{
    let mut out: Vec<String> = Vec::new();
    assert(texts(out@) =~= Seq::<Seq<char>>::empty());
    let mut k: usize = 0;
    while k < items.len()
        invariant
            k <= items.len(),
            all_fit(items@),
            expanded_from(items@, 0, Seq::empty()) == expanded_from(items@, k as int, texts(out@)),
        decreases items.len() - k,
    {
        match &items[k] {
            Item::Other => {},
            Item::Text(text) => {
                match expand_into(text.as_str(), &mut out) {
                    Err(failure) => {
                        return Err(failure);
                    },
                    Ok(()) => {},
                }
            },
        }
        k = k + 1;
    }
    Ok(out)
}

/// Parses `text` and appends all items of its expansion to `out`, which
/// is left as it was where that fails.
fn expand_into(text: &str, out: &mut Vec<String>) -> (r: Result<(), Failure>)
    ensures
        match r {
            Ok(()) => parsed(text@) is Ok && expanded(text@) is Ok && texts(final(out)@) == texts(
                old(out)@,
            ) + expanded(text@)->Ok_0,
            Err(failure) => final(out)@ == old(out)@ && if parsed(text@) is Err {
                failure@ == parse_failed(text@)
            } else {
                expanded(text@) == Err::<Seq<Seq<char>>, FailureModel>(failure@)
            },
        },
{
    match parse(text) {
        Err(error) => Err(
            Failure { label: Label::ParseFailed, place: Place::Input, message: error.message() },
        ),
        Ok(expression) => {
            match expression.collect() {
                Err(error) => Err(
                    Failure {
                        label: Label::GenerateFailed,
                        place: Place::Input,
                        message: error.message(),
                    },
                ),
                Ok(mut items) => {
                    let ghost before = out@;
                    let ghost more = items@;
                    out.append(&mut items);
                    assert(texts(out@) =~= texts(before) + texts(more));
                    Ok(())
                },
            }
        },
    }
}

} // verus!
