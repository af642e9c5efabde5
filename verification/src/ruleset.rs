//! The rule set: named rules, named checkers, and the evaluator.

use vstd::prelude::*;
use vstd::hash_map::StringHashMap;
use crate::ast::{ExprModel, Expression, LeftHandSide, LhsModel};
use crate::checkers::{Checker, RoleChecker, RuleChecker, Ruling, Verdict};
use crate::parser::{parse_expression, parsed, GrammarError};
use crate::request::{resolve_target_attr_refs, resolved, same_text, Request, RequestModel, Target, Token};

verus! {

/// How many references from rule to rule an evaluation follows, one inside
/// the other, unless the rule set is told otherwise.
pub const DEFAULT_DEPTH_LIMIT: usize = 128;

/// The decision function of a checker.
pub open spec fn decision_of<C: Checker>(checker: C) -> spec_fn(RequestModel, Seq<char>) -> Ruling {
    |req: RequestModel, rhs: Seq<char>| checker.decides(req, rhs)
}

/// Whether the check `lhs:rhs` holds for the request, with `depth` references
/// from rule to rule still allowed.
///
/// The right-hand side is resolved first; where it refers to a target
/// attribute that is missing, the check does not hold. A literal on the left
/// is compared with the resolved text. An identifier names a checker, whose
/// ruling decides, or else an API attribute of the token, whose value is
/// compared with the resolved text; where neither exists the check does not
/// hold. A ruling that defers to a rule holds if that rule does with one
/// reference less allowed, and does not hold where none is allowed any more.
pub open spec fn check_holds(
    rules: Map<Seq<char>, ExprModel>,
    checkers: Map<Seq<char>, spec_fn(RequestModel, Seq<char>) -> Ruling>,
    req: RequestModel,
    lhs: LhsModel,
    rhs: Seq<char>,
    depth: nat,
) -> bool
    decreases depth, 0int,
{
    match resolved(rhs, req.target_attributes) {
        None => false,
        Some(value) => match lhs {
            LhsModel::Literal(s) => s == value,
            LhsModel::Identifier(name) => if checkers.contains_key(name) {
                match checkers[name](req, value) {
                    Ruling::Decided(b) => b,
                    Ruling::Defer(rule) => if depth > 0 {
                        rule_holds(rules, checkers, req, rule, (depth - 1) as nat)
                    } else {
                        false
                    },
                }
            } else {
                req.api_attributes.contains_key(name) && req.api_attributes[name] == value
            },
        },
    }
}

/// Whether an expression holds for the request.
pub open spec fn expr_holds(
    rules: Map<Seq<char>, ExprModel>,
    checkers: Map<Seq<char>, spec_fn(RequestModel, Seq<char>) -> Ruling>,
    req: RequestModel,
    e: ExprModel,
    depth: nat,
) -> bool
    decreases depth, 1int, e,
{
    match e {
        ExprModel::Const(b) => b,
        ExprModel::Check(lhs, rhs) => check_holds(rules, checkers, req, lhs, rhs, depth),
        ExprModel::And(l, r) => expr_holds(rules, checkers, req, *l, depth) && expr_holds(rules, checkers, req, *r, depth),
        ExprModel::Or(l, r) => expr_holds(rules, checkers, req, *l, depth) || expr_holds(rules, checkers, req, *r, depth),
        ExprModel::Not(x) => !expr_holds(rules, checkers, req, *x, depth),
    }
}

/// Whether the named rule holds for the request. A rule that is not defined
/// does not hold.
pub open spec fn rule_holds(
    rules: Map<Seq<char>, ExprModel>,
    checkers: Map<Seq<char>, spec_fn(RequestModel, Seq<char>) -> Ruling>,
    req: RequestModel,
    name: Seq<char>,
    depth: nat,
) -> bool
    decreases depth, 2int,
{
    rules.contains_key(name) && expr_holds(rules, checkers, req, rules[name], depth)
}

/// The rules after the first `n` of `entries` were added, each under its name,
/// a later one in place of an earlier one of the same name.
pub open spec fn with_rules(rules: Map<Seq<char>, ExprModel>, entries: Seq<(String, String)>, n: int) -> Map<Seq<char>, ExprModel>
    decreases n,
{
    if n <= 0 || n > entries.len() {
        rules
    } else {
        match parsed(entries[n - 1].1@) {
            Ok(e) => with_rules(rules, entries, n - 1).insert(entries[n - 1].0@, e),
            Err(_) => with_rules(rules, entries, n - 1),
        }
    }
}

/// The index of the first of `entries`, from `from` on, whose text is no
/// rule; their number where there is none.
pub open spec fn first_malformed(entries: Seq<(String, String)>, from: int) -> int
    decreases entries.len() - from,
{
    if 0 <= from < entries.len() && parsed(entries[from].1@) is Ok {
        first_malformed(entries, from + 1)
    } else {
        from
    }
}

/// The error of a rule that could not be added: the name it was to have, and
/// where its text stopped being a rule.
#[derive(Debug)]
pub struct ParseError {
    pub rule_name: String,
    pub error: GrammarError,
}

impl<C: Checker> Default for RuleSet<C> {
    /// The rule set that [`RuleSet::new`] returns.
    fn default() -> (rs: Self)
        ensures
            rs.rules() == Map::<Seq<char>, ExprModel>::empty(),
            rs.checkers() == Map::<Seq<char>, spec_fn(RequestModel, Seq<char>) -> Ruling>::empty().insert(
                "rule"@,
                decision_of(RuleChecker),
            ).insert("role"@, decision_of(RoleChecker)),
            rs.depth_limit() == DEFAULT_DEPTH_LIMIT,
    {
        RuleSet::new()
    }
}

/// A checker as the registry holds it.
enum Registered<C> {
    Role(RoleChecker),
    Rule(RuleChecker),
    Custom(C),
}

impl<C: Checker> Registered<C> {
    spec fn decision(self) -> spec_fn(RequestModel, Seq<char>) -> Ruling {
        match self {
            Registered::Role(c) => decision_of(c),
            Registered::Rule(c) => decision_of(c),
            Registered::Custom(c) => decision_of(c),
        }
    }

    fn check<T: Token, G: Target>(&self, req: &Request<T, G>, rhs: &str) -> (verdict: Verdict)
        ensures
            verdict@ == self.decision()(req@, rhs@),
    {
        match self {
            Registered::Role(c) => c.check(req, rhs),
            Registered::Rule(c) => c.check(req, rhs),
            Registered::Custom(c) => c.check(req, rhs),
        }
    }
}

/// A container and evaluation engine for policy rules.
///
/// `C` is the type of the checkers that the caller registers beside the two
/// built-in ones; a rule set that gets no other checker can name
/// [`RoleChecker`] there.
///
/// Rules refer to one another through the `rule` checker, and nothing keeps
/// them from referring to themselves. An evaluation therefore follows such
/// references only to a limit, [`DEFAULT_DEPTH_LIMIT`] unless it is set
/// otherwise, and denies the check that would go beyond it.
#[verifier::reject_recursive_types(C)]
pub struct RuleSet<C: Checker> {
    rules: StringHashMap<Expression>,
    checkers: StringHashMap<Registered<C>>,
    depth_limit: usize,
}

impl<C: Checker> RuleSet<C> {
    /// The rules, by name.
    pub closed spec fn rules(&self) -> Map<Seq<char>, ExprModel> {
        self.rules@.map_values(|e: Expression| e@)
    }

    /// The decision functions of the registered checkers, by name.
    pub closed spec fn checkers(&self) -> Map<Seq<char>, spec_fn(RequestModel, Seq<char>) -> Ruling> {
        self.checkers@.map_values(|c: Registered<C>| c.decision())
    }

    /// How many references from rule to rule an evaluation follows, one
    /// inside the other.
    pub closed spec fn depth_limit(&self) -> nat {
        self.depth_limit as nat
    }

    /// Whether the rule set allows the request under the named rule.
    pub open spec fn allows(&self, rule_name: Seq<char>, req: RequestModel) -> bool {
        rule_holds(self.rules(), self.checkers(), req, rule_name, self.depth_limit())
    }

    /// Returns a rule set without rules, in which [`RuleChecker`] is
    /// registered under the name `rule` and [`RoleChecker`] under `role`.
    pub fn new() -> (rs: Self)
        ensures
            rs.rules() == Map::<Seq<char>, ExprModel>::empty(),
            rs.checkers() == Map::<Seq<char>, spec_fn(RequestModel, Seq<char>) -> Ruling>::empty().insert(
                "rule"@,
                decision_of(RuleChecker),
            ).insert("role"@, decision_of(RoleChecker)),
            rs.depth_limit() == DEFAULT_DEPTH_LIMIT,
    {
        let mut checkers: StringHashMap<Registered<C>> = StringHashMap::new();
        checkers.insert("rule".to_owned(), Registered::Rule(RuleChecker));
        checkers.insert("role".to_owned(), Registered::Role(RoleChecker));
        let rs = RuleSet { rules: StringHashMap::new(), checkers, depth_limit: DEFAULT_DEPTH_LIMIT };
        assert(rs.rules() =~= Map::<Seq<char>, ExprModel>::empty());
        assert(rs.checkers() =~= Map::<Seq<char>, spec_fn(RequestModel, Seq<char>) -> Ruling>::empty().insert(
            "rule"@,
            decision_of(RuleChecker),
        ).insert("role"@, decision_of(RoleChecker)));
        rs
    }

    /// Sets how many references from rule to rule an evaluation follows, one
    /// inside the other, before it denies.
    pub fn set_depth_limit(&mut self, limit: usize)
        ensures
            final(self).depth_limit() == limit,
            final(self).rules() == old(self).rules(),
            final(self).checkers() == old(self).checkers(),
    {
        self.depth_limit = limit;
    }

    /// Registers a checker under a name, in place of an earlier one of that name.
    pub fn add_checker(&mut self, name: &str, check: C)
        ensures
            final(self).checkers() == old(self).checkers().insert(name@, decision_of(check)),
            final(self).rules() == old(self).rules(),
            final(self).depth_limit() == old(self).depth_limit(),
    {
        self.checkers.insert(name.to_owned(), Registered::Custom(check));
        assert(self.checkers() =~= old(self).checkers().insert(name@, decision_of(check)));
    }

    /// Parses a single rule and adds it under a name, in place of an earlier
    /// rule of that name. Where the text is no rule, the rule set stays as it
    /// is and the error says where the text fails.
    pub fn add_rule(&mut self, name: &str, expr: &str) -> (r: Result<(), ParseError>)
        ensures
            final(self).checkers() == old(self).checkers(),
            final(self).depth_limit() == old(self).depth_limit(),
            match parsed(expr@) {
                Ok(e) => r is Ok && final(self).rules() == old(self).rules().insert(name@, e),
                Err((p, expected)) => {
                    &&& r matches Err(err)
                    &&& err.rule_name@ == name@
                    &&& err.error.locates(expr@, p, expected)
                    &&& final(self).rules() == old(self).rules()
                },
            },
    {
        match parse_expression(expr) {
            Ok(e) => {
                self.rules.insert(name.to_owned(), e);
                assert(self.rules() =~= old(self).rules().insert(name@, e@));
                Ok(())
            },
            Err(error) => Err(ParseError { rule_name: name.to_owned(), error }),
        }
    }

    /// Parses rules and adds them one after the other, each as [`Self::add_rule`]
    /// does, up to the first whose text is no rule: those before it stay
    /// added, and its error is returned.
    pub fn add_rules(&mut self, rules: Vec<(String, String)>) -> (r: Result<(), ParseError>)
        ensures
            final(self).checkers() == old(self).checkers(),
            final(self).depth_limit() == old(self).depth_limit(),
            final(self).rules() == with_rules(old(self).rules(), rules@, first_malformed(rules@, 0)),
            r is Ok <==> first_malformed(rules@, 0) == rules@.len(),
            r matches Err(err) ==> {
                let k = first_malformed(rules@, 0);
                &&& err.rule_name@ == rules@[k].0@
                &&& parsed(rules@[k].1@) matches Err((p, expected))
                &&& err.error.locates(rules@[k].1@, p, expected)
            },
    {
        let mut i: usize = 0;
        while i < rules.len()
            invariant
                i <= rules@.len(),
                first_malformed(rules@, 0) == first_malformed(rules@, i as int),
                self.rules() == with_rules(old(self).rules(), rules@, i as int),
                self.checkers() == old(self).checkers(),
                self.depth_limit() == old(self).depth_limit(),
            decreases rules@.len() - i,
        {
            let entry = &rules[i];
            match self.add_rule(entry.0.as_str(), entry.1.as_str()) {
                Ok(()) => {},
                Err(err) => {
                    return Err(err);
                },
            }
            i += 1;
        }
        Ok(())
    }

    /// Evaluates the named rule for the given request. If no rule with the
    /// given name exists, the request is denied. References from rule to rule
    /// are followed up to the depth limit of the rule set.
    pub fn evaluate<T: Token, G: Target>(&self, rule_name: &str, req: &Request<T, G>) -> (allowed: bool)
        ensures
            allowed == self.allows(rule_name@, req@),
            !self.rules().contains_key(rule_name@) ==> !allowed,
    {
        self.evaluate_within(rule_name, req, self.depth_limit)
    }

    /// Evaluates the named rule with `depth` references from rule to rule
    /// allowed, one inside the other.
    pub fn evaluate_within<T: Token, G: Target>(&self, rule_name: &str, req: &Request<T, G>, depth: usize) -> (allowed: bool)
        ensures
            allowed == rule_holds(self.rules(), self.checkers(), req@, rule_name@, depth as nat),
        decreases depth, 2int,
    {
        match self.rules.get(rule_name) {
            Some(expr) => self.evaluate_expr(req, expr, depth),
            None => false,
        }
    }

    /// Evaluates an expression for the given request.
    pub fn evaluate_expr<T: Token, G: Target>(&self, req: &Request<T, G>, expr: &Expression, depth: usize) -> (holds: bool)
        ensures
            holds == expr_holds(self.rules(), self.checkers(), req@, expr@, depth as nat),
        decreases depth, 1int, expr,
    {
        match expr {
            Expression::Const(val) => *val,
            Expression::Check(lhs, rhs) => self.evaluate_check(req, lhs, rhs.as_str(), depth),
            Expression::And(x, y) => self.evaluate_expr(req, x, depth) && self.evaluate_expr(req, y, depth),
            Expression::Or(x, y) => self.evaluate_expr(req, x, depth) || self.evaluate_expr(req, y, depth),
            Expression::Not(x) => !self.evaluate_expr(req, x, depth),
        }
    }

    /// Evaluates a single check for the given request.
    pub fn evaluate_check<T: Token, G: Target>(&self, req: &Request<T, G>, lhs: &LeftHandSide, rhs: &str, depth: usize) -> (holds: bool)
        ensures
            holds == check_holds(self.rules(), self.checkers(), req@, lhs@, rhs@, depth as nat),
        decreases depth, 0int,
    {
        match resolve_target_attr_refs(rhs, req.target) {
            None => false,
            Some(value) => match lhs {
                LeftHandSide::Literal(s) => same_text(s.as_str(), value),
                LeftHandSide::Identifier(name) => match self.checkers.get(name.as_str()) {
                    Some(checker) => match checker.check(req, value) {
                        Verdict::Decided(b) => b,
                        Verdict::Defer(rule) => if depth > 0 {
                            self.evaluate_within(rule.as_str(), req, depth - 1)
                        } else {
                            false
                        },
                    },
                    None => match req.token.get_api_attribute(name.as_str()) {
                        Some(v) => same_text(v, value),
                        None => false,
                    },
                },
            },
        }
    }
}

} // verus!
