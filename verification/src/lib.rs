//! The front end of a small compiler for an expression-oriented language
//! with booleans, integers and functions.
//!
//! A module is read by [`grammar`] into the syntax tree of [`ast`], checked
//! by [`typechecker`], and emitted as a script by [`compiler`].
//!
//! The type checker infers types by biunification: every expression
//! produces a *value* node, every context imposes a *use* node, and the
//! single primitive `flow(value, use)` asserts that the value must be
//! acceptable wherever the use is required. Type variables record what flows
//! into them and what they flow into, and a conflict is reported where a
//! concrete value meets a concrete use that it does not fit. A flow that
//! meets a conflict records nothing.
//!
//! Every function of the crate is verified against a contract. What the
//! engine, the typing rules, the grammar and the code generator do is
//! defined on mathematical models ([`typechecker::graph`],
//! [`typechecker::typing`], [`grammar::rules`], [`compiler::text`]), and the
//! executable code is proved to compute exactly that.

pub mod ast;
pub mod compiler;
pub mod decimal;
pub mod error;
pub mod grammar;
pub mod tree;
pub mod typechecker;
