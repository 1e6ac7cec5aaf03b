//! Brace expansion: `{a,b}{1..3}` and the like, parsed into a tree and
//! expanded item by item, with the command that offers it to a shell.
//!
//! [`parser::parse`] turns a text into an [`tree::Expression`], as
//! [`grammar::parsed`] says. [`expansion::expand`] starts its expansion,
//! which yields what [`outcome::outcome`] says, one entry at a time.
//! [`command::Bexpand`] is the command around the two.

pub mod command;
pub mod error;
pub mod expander;
pub mod expansion;
pub mod grammar;
pub mod laws;
pub mod measure;
pub mod message;
pub mod outcome;
pub mod parser;
pub mod render;
pub mod scan;
pub mod shape;
pub mod text;
pub mod tree;

pub use command::{Bexpand, BexpandPlugin};
pub use error::{ExpandError, ParseError};
pub use expansion::{expand, Expansion};
pub use parser::parse;
pub use tree::{Expression, Node, Range};
