//! Checkers: the named building blocks that decide the checks of a rule.

use vstd::prelude::*;
use crate::request::{Request, RequestModel, Target, Token};

verus! {

/// Model of a [`Verdict`].
pub enum Ruling {
    Decided(bool),
    Defer(Seq<char>),
}

/// What a checker answers to a check.
#[derive(PartialEq, Eq, Debug)]
pub enum Verdict {
    /// The check holds, or does not.
    Decided(bool),
    /// The check holds exactly if the named rule of the rule set does.
    Defer(String),
}

impl View for Verdict {
    type V = Ruling;

    open spec fn view(&self) -> Ruling {
        match self {
            Verdict::Decided(b) => Ruling::Decided(*b),
            Verdict::Defer(name) => Ruling::Defer(name@),
        }
    }
}

/// Generic interface for policy building blocks.
///
/// In a policy expression, each sequence of characters without whitespace
/// that has a colon in it is a check. For example, `rule:compute:get_all` is a
/// check with the left-hand side `rule` and the right-hand side
/// `compute:get_all`. A checker that is registered with a rule set under a
/// name answers the checks that have this name on their left-hand side.
///
/// A checker sees the request and the right-hand side. It reaches the rule
/// set that owns it by deferring to one of its rules: the evaluator then
/// evaluates that rule, which keeps every recursion between rules under the
/// evaluator's depth limit.
pub trait Checker: Send + Sync + 'static {
    /// What the checker answers, as a function of the request and the
    /// right-hand side alone.
    spec fn decides(&self, req: RequestModel, rhs: Seq<char>) -> Ruling;

    /// Executes a check whose right-hand side, after interpolation, is `rhs`.
    fn check<T: Token, G: Target>(&self, req: &Request<T, G>, rhs: &str) -> (verdict: Verdict)
        ensures
            verdict@ == self.decides(req@, rhs@),
    ;
}

/// A [`Checker`] that matches if the user has a certain role.
///
/// For example, the check `role:foo` holds if the token of the request covers
/// the role named `foo`. A rule set registers it under the name `role`.
pub struct RoleChecker;

impl Checker for RoleChecker {
    open spec fn decides(&self, req: RequestModel, rhs: Seq<char>) -> Ruling {
        Ruling::Decided(req.roles.contains(rhs))
    }

    fn check<T: Token, G: Target>(&self, req: &Request<T, G>, rhs: &str) -> (verdict: Verdict) {
        Verdict::Decided(req.token.has_role(rhs))
    }
}

/// A [`Checker`] that recurses into a different rule.
///
/// For example, the check `rule:foo` holds if the rule `foo` does, and does
/// not hold if the rule set has no rule of that name. A rule set registers it
/// under the name `rule`.
pub struct RuleChecker;

impl Checker for RuleChecker {
    open spec fn decides(&self, req: RequestModel, rhs: Seq<char>) -> Ruling {
        Ruling::Defer(rhs)
    }

    fn check<T: Token, G: Target>(&self, req: &Request<T, G>, rhs: &str) -> (verdict: Verdict) {
        Verdict::Defer(rhs.to_owned())
    }
}

} // verus!
