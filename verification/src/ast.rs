//! The abstract syntax tree of a policy rule, its mathematical model, and its
//! rendering in the policy language.

use vstd::prelude::*;

verus! {

/// Model of a [`LeftHandSide`]: the same shape over sequences of characters.
pub enum LhsModel {
    Literal(Seq<char>),
    Identifier(Seq<char>),
}

/// Model of an [`Expression`]: the same tree over sequences of characters.
pub enum ExprModel {
    Const(bool),
    Check(LhsModel, Seq<char>),
    And(Box<ExprModel>, Box<ExprModel>),
    Or(Box<ExprModel>, Box<ExprModel>),
    Not(Box<ExprModel>),
}

/// The left-hand side of a check.
#[derive(PartialEq, Eq, Clone, Debug)]
pub enum LeftHandSide {
    /// A quoted constant, compared verbatim.
    Literal(String),
    /// An unquoted name: a checker or an API attribute of the token.
    Identifier(String),
}

/// A policy rule expression.
#[derive(PartialEq, Eq, Debug)]
pub enum Expression {
    Const(bool),
    Check(LeftHandSide, String),
    And(Box<Expression>, Box<Expression>),
    Or(Box<Expression>, Box<Expression>),
    Not(Box<Expression>),
}

impl View for LeftHandSide {
    type V = LhsModel;

    open spec fn view(&self) -> LhsModel {
        match self {
            LeftHandSide::Literal(s) => LhsModel::Literal(s@),
            LeftHandSide::Identifier(s) => LhsModel::Identifier(s@),
        }
    }
}

impl View for Expression {
    type V = ExprModel;

    open spec fn view(&self) -> ExprModel
        decreases self,
    {
        match self {
            Expression::Const(b) => ExprModel::Const(*b),
            Expression::Check(lhs, rhs) => ExprModel::Check(lhs@, rhs@),
            Expression::And(l, r) => ExprModel::And(Box::new((**l).view()), Box::new((**r).view())),
            Expression::Or(l, r) => ExprModel::Or(Box::new((**l).view()), Box::new((**r).view())),
            Expression::Not(e) => ExprModel::Not(Box::new((**e).view())),
        }
    }
}

/// The text of a left-hand side: a literal in single quotes, an identifier bare.
pub open spec fn lhs_text(lhs: LhsModel) -> Seq<char> {
    match lhs {
        LhsModel::Literal(s) => seq!['\''] + s + seq!['\''],
        LhsModel::Identifier(s) => s,
    }
}

/// The text of an operand of `and`: an `or` goes in parentheses, since `and`
/// binds more strongly.
pub open spec fn operand_text(e: ExprModel) -> Seq<char>
    decreases e, 1int,
{
    match e {
        ExprModel::Or(_, _) => seq!['('] + text(e) + seq![')'],
        _ => text(e),
    }
}

/// The simplest representation of an expression in the policy language.
pub open spec fn text(e: ExprModel) -> Seq<char>
    decreases e, 0int,
{
    match e {
        ExprModel::Const(true) => seq!['@'],
        ExprModel::Const(false) => seq!['!'],
        ExprModel::Check(lhs, rhs) => lhs_text(lhs) + seq![':'] + rhs,
        ExprModel::Not(x) => seq!['n', 'o', 't', ' '] + text(*x),
        ExprModel::Or(l, r) => text(*l) + seq![' ', 'o', 'r', ' '] + text(*r),
        ExprModel::And(l, r) => operand_text(*l) + seq![' ', 'a', 'n', 'd', ' '] + operand_text(*r),
    }
}

impl LeftHandSide {
    /// Renders the left-hand side as it is written in a rule.
    pub fn to_string(&self) -> (out: String)
        ensures
            out@ == lhs_text(self@),
    {
        match self {
            LeftHandSide::Literal(s) => {
                proof {
                    reveal_strlit("'");
                }
                let mut out = String::from_str("'");
                out.append(s.as_str());
                out.append("'");
                assert(out@ =~= seq!['\''] + s@ + seq!['\'']);
                out
            },
            LeftHandSide::Identifier(s) => s.clone(),
        }
    }
}

impl Expression {
    /// Renders an operand of `and`, in parentheses where it is an `or`.
    fn operand_to_string(&self) -> (out: String)
        ensures
            out@ == operand_text(self@),
        decreases self, 1int,
    {
        match self {
            Expression::Or(_, _) => {
                proof {
                    reveal_strlit("(");
                    reveal_strlit(")");
                }
                let mut out = String::from_str("(");
                let inner = self.to_string();
                out.append(inner.as_str());
                out.append(")");
                assert(out@ =~= seq!['('] + text(self@) + seq![')']);
                out
            },
            _ => self.to_string(),
        }
    }

    /// Renders the expression in the policy language, with no more parentheses
    /// than the precedence of `and` over `or` asks for.
    pub fn to_string(&self) -> (out: String)
        ensures
            out@ == text(self@),
        decreases self, 0int,
    {
        match self {
            Expression::Const(true) => {
                proof {
                    reveal_strlit("@");
                }
                let out = String::from_str("@");
                assert(out@ =~= seq!['@']);
                out
            },
            Expression::Const(false) => {
                proof {
                    reveal_strlit("!");
                }
                let out = String::from_str("!");
                assert(out@ =~= seq!['!']);
                out
            },
            Expression::Check(lhs, rhs) => {
                proof {
                    reveal_strlit(":");
                }
                let mut out = lhs.to_string();
                out.append(":");
                out.append(rhs.as_str());
                assert(out@ =~= lhs_text(lhs@) + seq![':'] + rhs@);
                out
            },
            Expression::Not(x) => {
                proof {
                    reveal_strlit("not ");
                }
                let mut out = String::from_str("not ");
                let inner = x.to_string();
                out.append(inner.as_str());
                assert(out@ =~= seq!['n', 'o', 't', ' '] + text(x@));
                out
            },
            Expression::Or(l, r) => {
                proof {
                    reveal_strlit(" or ");
                }
                let mut out = l.to_string();
                out.append(" or ");
                let right = r.to_string();
                out.append(right.as_str());
                assert(out@ =~= text(l@) + seq![' ', 'o', 'r', ' '] + text(r@));
                out
            },
            Expression::And(l, r) => {
                proof {
                    reveal_strlit(" and ");
                }
                let mut out = l.operand_to_string();
                out.append(" and ");
                let right = r.operand_to_string();
                out.append(right.as_str());
                assert(out@ =~= operand_text(l@) + seq![' ', 'a', 'n', 'd', ' '] + operand_text(r@));
                out
            },
        }
    }
}

} // verus!
