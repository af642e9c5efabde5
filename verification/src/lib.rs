//! An authorization-policy engine for rules in the `oslo.policy` language.
//!
//! Rule text is parsed into an [`Expression`], stored in a [`RuleSet`] under a
//! name, and evaluated against a [`Request`] to an allow/deny decision.
//!
//! The grammar and the evaluation are stated as functions on sequences of
//! characters and on models of the data, and the code is proved to compute
//! them. The modules `laws` and `spellings` prove what follows from those
//! statements for every input.

pub mod ast;
pub mod checkers;
pub mod laws;
pub mod parser;
pub mod request;
pub mod ruleset;
pub mod spellings;

pub use ast::{ExprModel, Expression, LeftHandSide, LhsModel};
pub use checkers::{Checker, RoleChecker, RuleChecker, Ruling, Verdict};
pub use parser::{parse_expression, Expected, GrammarError};
pub use request::{
    resolve_target_attr_refs, AttributeMap, Request, RequestModel, SimpleToken, Target, Token,
};
pub use ruleset::{ParseError, RuleSet, DEFAULT_DEPTH_LIMIT};
