use vstd::prelude::*;

verus! {

/// A brace group that stands for a progression.
#[derive(Clone, Copy, Debug, PartialEq, Eq)]
#[allow(inconsistent_fields)]
pub enum Range {
    /// Integers from `start` towards `end`. `step` is the signed step as
    /// written, if one was written; `width` is the number of characters
    /// that every item is brought to with zeros, its sign counted.
    Numeric { start: i64, end: i64, step: Option<i64>, width: usize },
    /// The characters with the codes from `start` to `end`, both included.
    Alphabetic { start: u8, end: u8 },
}

/// The mathematical content of a [`Node`]: the same tree over sequences.
pub enum Tree {
    Literal(Seq<char>),
    Sequence(Seq<Tree>),
    Alternation(Seq<Tree>),
    Range(Range),
}

/// One unit of a brace expression.
#[derive(Debug, PartialEq, Eq)]
pub enum Node {
    /// Text that stands for itself, with every quoting backslash removed.
    Literal(String),
    /// Parts that follow one another.
    Sequence(Vec<Node>),
    /// The branches of a group `{a,b,..}`.
    Alternation(Vec<Node>),
    /// A group `{x..y}` or `{x..y..step}`.
    Range(Range),
}

/// The tree that a node stands for.
pub open spec fn tree_of(node: Node) -> Tree
    decreases node,
{
    match node {
        Node::Literal(text) => Tree::Literal(text@),
        Node::Sequence(items) => Tree::Sequence(
            Seq::new(
                items@.len(),
                |i: int|
                    if 0 <= i < items@.len() {
                        tree_of(items@[i])
                    } else {
                        Tree::Sequence(Seq::empty())
                    },
            ),
        ),
        Node::Alternation(branches) => Tree::Alternation(
            Seq::new(
                branches@.len(),
                |i: int|
                    if 0 <= i < branches@.len() {
                        tree_of(branches@[i])
                    } else {
                        Tree::Sequence(Seq::empty())
                    },
            ),
        ),
        Node::Range(range) => Tree::Range(range),
    }
}

impl View for Node {
    type V = Tree;

    open spec fn view(&self) -> Tree {
        tree_of(*self)
    }
}

/// The views of a list of nodes, one by one.
pub open spec fn trees(nodes: Seq<Node>) -> Seq<Tree> {
    Seq::new(nodes.len(), |i: int| nodes[i]@)
}

/// The view of a sequence node is the sequence of its children's views.
pub proof fn lemma_view_sequence(items: Vec<Node>)
    ensures
        Node::Sequence(items)@ == Tree::Sequence(trees(items@)),
{
    let whole = Node::Sequence(items);
    assert(whole@ matches Tree::Sequence(parts) && parts =~= trees(items@));
}

/// The view of an alternation node is the sequence of its branches' views.
pub proof fn lemma_view_alternation(branches: Vec<Node>)
    ensures
        Node::Alternation(branches)@ == Tree::Alternation(trees(branches@)),
{
    let whole = Node::Alternation(branches);
    assert(whole@ matches Tree::Alternation(parts) && parts =~= trees(branches@));
}

/// A parsed brace expression: the root of its tree.
#[derive(Debug, PartialEq, Eq)]
pub struct Expression {
    pub root: Node,
}

impl View for Expression {
    type V = Tree;

    open spec fn view(&self) -> Tree {
        self.root@
    }
}

} // verus!
