//! Parser, canonical renderer, traversal engine and ordering for a
//! parenthesized logic-programming dialect used to describe game rules.
//!
//! [`parse`] turns source text into an abstract syntax tree
//! ([`Description`]), or reports a [`ParseError`] at the offending
//! position — exactly when the text is outside the grammar, never a
//! partial tree.  Every node kind renders back to canonical text through
//! its `render` method, carries a verified structural comparison
//! (`compare`), and can be walked in strict post-order through a
//! caller-supplied [`visitor::Visitor`].
//!
//! The mathematical model of every node kind lives in [`model`]; the
//! grammar's definition over the token stream is in [`parser`]; the laws
//! tying parsing and rendering together — parsing its own rendering
//! reproduces any parsed tree — are proved in [`roundtrip`], and the
//! totality of the structural order in [`order`].

pub mod ast;
pub mod model;
pub mod token;
pub mod views;
pub mod parser;
pub mod render;
pub mod roundtrip;
pub mod visitor;
pub mod order;

pub use ast::{
    Clause, Constant, Description, Distinct, Function, Literal, Not, Or, Proposition, Relation,
    Rule, Sentence, Term, Variable,
};
pub use parser::{parse, ParseError};
