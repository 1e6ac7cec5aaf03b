use vstd::prelude::*;
use crate::error::ExpandError;
use crate::expander::write_item;
use crate::measure::{measure, LIMIT};
use crate::outcome::{outcome, yielded};
use crate::tree::{Expression, Tree};

verus! {

/// The mathematical content of what an expansion yields at one position.
pub open spec fn entry_view(entry: Option<Result<String, ExpandError>>) -> Option<
    Result<Seq<char>, ExpandError>,
> {
    match entry {
        None => None,
        Some(Ok(text)) => Some(Ok(text@)),
        Some(Err(error)) => Some(Err(error)),
    }
}

/// The texts of a list of strings, one by one.
pub open spec fn texts(strings: Seq<String>) -> Seq<Seq<char>> {
    Seq::new(strings.len(), |i: int| strings[i]@)
}

/// What collecting an expansion gives: the failure, if it has one; else
/// all its items, unless they are too many to count.
#[verifier::opaque]
pub open spec fn collected(tree: Tree) -> Result<Seq<Seq<char>>, ExpandError> {
    let all = outcome(tree);
    if all.failure is Some {
        Err(all.failure->0)
    } else if all.items.len() >= LIMIT {
        Err(ExpandError::NumericOverflow)
    } else {
        Ok(all.items)
    }
}

impl Expression {
    /// What the expansion yields at position `index`, counted from zero:
    /// an item, the failure behind the last item, or `None` behind the end.
    /// Only this one entry is computed.
    pub fn entry(&self, index: u64) -> (r: Option<Result<String, ExpandError>>)
        ensures
            entry_view(r) == yielded(self@, index as nat),
    {
        let m = measure(&self.root);
        if (index as u128) < m.count {
            let mut text = String::new();
            write_item(&self.root, index, &mut text);
            assert(text@ =~= outcome(self@).items[index as int]);
            Some(Ok(text))
        } else if index as u128 == m.count {
            match m.failure {
                Some(error) => Some(Err(error)),
                None => None,
            }
        } else {
            None
        }
    }

    /// All items of the expansion, or the failure that it runs into.
    pub fn collect(&self) -> (r: Result<Vec<String>, ExpandError>)
        ensures
            match r {
                Ok(items) => collected(self@) == Ok::<Seq<Seq<char>>, ExpandError>(texts(items@)),
                Err(error) => collected(self@) == Err::<Seq<Seq<char>>, ExpandError>(error),
            },
    {
        reveal(collected);
        let m = measure(&self.root);
        match m.failure {
            Some(error) => {
                return Err(error);
            },
            None => {},
        }
        if m.count >= LIMIT {
            return Err(ExpandError::NumericOverflow);
        }
        let count: u64 = m.count as u64;
        let mut items: Vec<String> = Vec::new();
        let mut index: u64 = 0;
        while index < count
            invariant
                index <= count == outcome(self@).items.len(),
                items@.len() == index,
                forall|i: int| 0 <= i < index ==> (#[trigger] items@[i])@ == outcome(self@).items[i],
            decreases count - index,
        {
            let mut text = String::new();
            write_item(&self.root, index, &mut text);
            assert(text@ =~= outcome(self@).items[index as int]);
            items.push(text);
            index = index + 1;
        }
        assert(texts(items@) =~= outcome(self@).items);
        Ok(items)
    }
}

/// An expansion under way: the expression and the position of the entry
/// that comes next. It holds nothing else, so that an expansion costs no
/// more memory than its expression, however many items it has.
pub struct Expansion<'a> {
    pub expression: &'a Expression,
    pub position: u128,
}

/// Starts the expansion of `expression` at its first item.
pub fn expand<'a>(expression: &'a Expression) -> (expansion: Expansion<'a>)
    ensures
        expansion.expression == expression,
        expansion.position == 0,
{
    Expansion { expression, position: 0 }
}

impl<'a> Expansion<'a> {
    /// Yields the entry at the position and moves on by one; yields `None`
    /// behind the end, and then stays where it is. Positions from `2^64`
    /// on are behind the end of every expansion.
    pub fn next(&mut self) -> (r: Option<Result<String, ExpandError>>)
        ensures
            final(self).expression == old(self).expression,
            entry_view(r) == if old(self).position < LIMIT {
                yielded(old(self).expression@, old(self).position as nat)
            } else {
                None
            },
            final(self).position == old(self).position + if r is Some {
                1int
            } else {
                0int
            },
    {
        if self.position >= LIMIT {
            return None;
        }
        let entry = self.expression.entry(self.position as u64);
        if entry.is_some() {
            self.position = self.position + 1;
        }
        entry
    }
}

} // verus!
