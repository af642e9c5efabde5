//! The grammar of the policy language, as functions on sequences of
//! characters, and a recursive-descent parser proved to compute them.
//!
//! ```text
//! expr   := and ( "or" and )*
//! and    := unary ( "and" unary )*
//! unary  := "not" unary | atom
//! atom   := "@" | "!" | "(" expr ")" | check
//! check  := lhs ":" rhs
//! ```
//!
//! Whitespace may stand between tokens and nowhere inside a check. Every
//! function of the grammar takes a position and tells how many characters it
//! consumes from there, leading whitespace included.
//!
//! The functions from `group_at` to `expr_at` call one another, so they are
//! opaque: a proof unfolds one of them at one position with the lemma that
//! states its definition.

use vstd::prelude::*;
use crate::ast::{ExprModel, Expression, LeftHandSide, LhsModel};

verus! {

/// The classes of characters that the grammar scans runs of.
#[derive(Clone, Copy, PartialEq, Eq, Debug)]
pub enum CharClass {
    /// Blank, tab and newline.
    Space,
    /// What may stand in a left-hand side: no whitespace, colon, quote or backslash.
    Lhs,
    /// What may stand in a right-hand side: anything but whitespace.
    Rhs,
}

/// Whether a character is whitespace: a blank, a tab or a newline.
pub open spec fn is_space(c: char) -> bool {
    c == ' ' || c == '\t' || c == '\n'
}

/// Whether a character may stand in a left-hand side.
pub open spec fn is_lhs_char(c: char) -> bool {
    !is_space(c) && c != ':' && c != '\'' && c != '"' && c != '\\'
}

/// Whether a character is of a class.
pub open spec fn in_class(c: char, class: CharClass) -> bool {
    match class {
        CharClass::Space => is_space(c),
        CharClass::Lhs => is_lhs_char(c),
        CharClass::Rhs => !is_space(c),
    }
}

/// Whether every character of a text is of a class; those of the empty text are.
pub open spec fn all_of(x: Seq<char>, class: CharClass) -> bool {
    forall|k: int| 0 <= k < x.len() ==> in_class(#[trigger] x[k], class)
}

/// The length of the longest run of characters of `class` that starts at `i`.
pub open spec fn run(s: Seq<char>, i: int, class: CharClass) -> nat
    decreases s.len() - i,
{
    if 0 <= i < s.len() && in_class(s[i], class) {
        1 + run(s, i + 1, class)
    } else {
        0
    }
}

/// How many characters stand at and after `i`.
pub open spec fn left(s: Seq<char>, i: int) -> nat {
    if i <= s.len() {
        (s.len() - i) as nat
    } else {
        0
    }
}

/// Whether the word `not` stands at `i`.
pub open spec fn has_not(s: Seq<char>, i: int) -> bool {
    0 <= i && i + 3 <= s.len() && s[i] == 'n' && s[i + 1] == 'o' && s[i + 2] == 't'
}

/// Whether the word `and` stands at `i`.
pub open spec fn has_and(s: Seq<char>, i: int) -> bool {
    0 <= i && i + 3 <= s.len() && s[i] == 'a' && s[i + 1] == 'n' && s[i + 2] == 'd'
}

/// Whether the word `or` stands at `i`.
pub open spec fn has_or(s: Seq<char>, i: int) -> bool {
    0 <= i && i + 2 <= s.len() && s[i] == 'o' && s[i + 1] == 'r'
}

/// The rest of a check whose left-hand side ends just before `c`: a colon at
/// `c`, then a right-hand side of at least one character. The count runs from
/// `start`, where the check began.
pub open spec fn rhs_after(s: Seq<char>, lhs: LhsModel, start: int, c: int) -> Option<(ExprModel, nat)> {
    let n = run(s, c + 1, CharClass::Rhs);
    if start <= c < s.len() && s[c] == ':' && n > 0 {
        Some((ExprModel::Check(lhs, s.subrange(c + 1, c + 1 + n)), (c + 1 + n - start) as nat))
    } else {
        None
    }
}

/// A check that starts exactly at `i`.
pub open spec fn check_at(s: Seq<char>, i: int) -> Option<(ExprModel, nat)> {
    if 0 <= i < s.len() && (s[i] == '\'' || s[i] == '"') {
        let n = run(s, i + 1, CharClass::Lhs);
        let q = i + 1 + n;
        if n > 0 && q < s.len() && s[q] == s[i] {
            rhs_after(s, LhsModel::Literal(s.subrange(i + 1, q)), i, q + 1)
        } else {
            None
        }
    } else {
        let n = run(s, i, CharClass::Lhs);
        if n > 0 {
            rhs_after(s, LhsModel::Identifier(s.subrange(i, i + n)), i, i + n)
        } else {
            None
        }
    }
}

/// A parenthesized expression whose opening parenthesis stands exactly at `i`.
#[verifier::opaque]
pub open spec fn group_at(s: Seq<char>, i: int) -> Option<(ExprModel, nat)>
    decreases left(s, i), 0int,
{
    if 0 <= i < s.len() && s[i] == '(' {
        match expr_at(s, i + 1) {
            Some((e, n)) => {
                let k = i + 1 + n + run(s, i + 1 + n, CharClass::Space);
                if k < s.len() && s[k] == ')' {
                    Some((e, (k + 1 - i) as nat))
                } else {
                    None
                }
            },
            None => None,
        }
    } else {
        None
    }
}

/// An atom at or after `i`: a constant, a parenthesized expression, or a check.
#[verifier::opaque]
pub open spec fn atom_at(s: Seq<char>, i: int) -> Option<(ExprModel, nat)>
    decreases left(s, i), 1int,
{
    let w = run(s, i, CharClass::Space);
    let j = i + w;
    if !(0 <= j < s.len()) {
        None
    } else if s[j] == '@' {
        Some((ExprModel::Const(true), w + 1))
    } else if s[j] == '!' {
        Some((ExprModel::Const(false), w + 1))
    } else {
        match group_at(s, j) {
            Some((e, n)) => Some((e, w + n)),
            None => match check_at(s, j) {
                Some((e, n)) => Some((e, w + n)),
                None => None,
            },
        }
    }
}

/// A negation or an atom at or after `i`.
#[verifier::opaque]
pub open spec fn unary_at(s: Seq<char>, i: int) -> Option<(ExprModel, nat)>
    decreases left(s, i), 2int,
{
    let w = run(s, i, CharClass::Space);
    if has_not(s, i + w) {
        match unary_at(s, i + w + 3) {
            Some((e, n)) => Some((ExprModel::Not(Box::new(e)), w + 3 + n)),
            None => atom_at(s, i),
        }
    } else {
        atom_at(s, i)
    }
}

/// The operands that follow `acc` in a chain of `and`, from `i` on.
#[verifier::opaque]
pub open spec fn and_tail(s: Seq<char>, acc: ExprModel, i: int) -> (ExprModel, nat)
    decreases left(s, i), 3int,
{
    let w = run(s, i, CharClass::Space);
    if has_and(s, i + w) {
        match unary_at(s, i + w + 3) {
            Some((e, n)) => {
                let (r, m) = and_tail(s, ExprModel::And(Box::new(acc), Box::new(e)), i + w + 3 + n);
                (r, w + 3 + n + m)
            },
            None => (acc, 0),
        }
    } else {
        (acc, 0)
    }
}

/// A chain of `and`, left-associative.
#[verifier::opaque]
pub open spec fn and_at(s: Seq<char>, i: int) -> Option<(ExprModel, nat)>
    decreases left(s, i), 4int,
{
    match unary_at(s, i) {
        Some((e, n)) => {
            let (r, m) = and_tail(s, e, i + n);
            Some((r, n + m))
        },
        None => None,
    }
}

/// The operands that follow `acc` in a chain of `or`, from `i` on.
#[verifier::opaque]
pub open spec fn or_tail(s: Seq<char>, acc: ExprModel, i: int) -> (ExprModel, nat)
    decreases left(s, i), 5int,
{
    let w = run(s, i, CharClass::Space);
    if has_or(s, i + w) {
        match and_at(s, i + w + 2) {
            Some((e, n)) => {
                let (r, m) = or_tail(s, ExprModel::Or(Box::new(acc), Box::new(e)), i + w + 2 + n);
                (r, w + 2 + n + m)
            },
            None => (acc, 0),
        }
    } else {
        (acc, 0)
    }
}

/// An expression at or after `i`: a chain of `or`, left-associative.
#[verifier::opaque]
pub open spec fn expr_at(s: Seq<char>, i: int) -> Option<(ExprModel, nat)>
    decreases left(s, i), 6int,
{
    match and_at(s, i) {
        Some((e, n)) => {
            let (r, m) = or_tail(s, e, i + n);
            Some((r, n + m))
        },
        None => None,
    }
}

/// The definition of [`group_at`], for proofs that unfold it by hand.
pub proof fn lemma_group_at(s: Seq<char>, i: int)
    ensures
        group_at(s, i) == ({
            if 0 <= i < s.len() && s[i] == '(' {
                match expr_at(s, i + 1) {
                    Some((e, n)) => {
                        let k = i + 1 + n + run(s, i + 1 + n, CharClass::Space);
                        if k < s.len() && s[k] == ')' {
                            Some((e, (k + 1 - i) as nat))
                        } else {
                            None
                        }
                    },
                    None => None,
                }
            } else {
                None
            }
        }),
{
    reveal(group_at);
    reveal(atom_at);
    reveal(unary_at);
    reveal(and_tail);
    reveal(and_at);
    reveal(or_tail);
    reveal(expr_at);
}

/// The definition of [`atom_at`], for proofs that unfold it by hand.
pub proof fn lemma_atom_at(s: Seq<char>, i: int)
    ensures
        atom_at(s, i) == ({
            let w = run(s, i, CharClass::Space);
            let j = i + w;
            if !(0 <= j < s.len()) {
                None
            } else if s[j] == '@' {
                Some((ExprModel::Const(true), w + 1))
            } else if s[j] == '!' {
                Some((ExprModel::Const(false), w + 1))
            } else {
                match group_at(s, j) {
                    Some((e, n)) => Some((e, w + n)),
                    None => match check_at(s, j) {
                        Some((e, n)) => Some((e, w + n)),
                        None => None,
                    },
                }
            }
        }),
{
    reveal(group_at);
    reveal(atom_at);
    reveal(unary_at);
    reveal(and_tail);
    reveal(and_at);
    reveal(or_tail);
    reveal(expr_at);
}

/// The definition of [`unary_at`], for proofs that unfold it by hand.
pub proof fn lemma_unary_at(s: Seq<char>, i: int)
    ensures
        unary_at(s, i) == ({
            let w = run(s, i, CharClass::Space);
            if has_not(s, i + w) {
                match unary_at(s, i + w + 3) {
                    Some((e, n)) => Some((ExprModel::Not(Box::new(e)), w + 3 + n)),
                    None => atom_at(s, i),
                }
            } else {
                atom_at(s, i)
            }
        }),
{
    reveal(group_at);
    reveal(atom_at);
    reveal(unary_at);
    reveal(and_tail);
    reveal(and_at);
    reveal(or_tail);
    reveal(expr_at);
}

/// The definition of [`and_tail`], for proofs that unfold it by hand.
pub proof fn lemma_and_tail(s: Seq<char>, acc: ExprModel, i: int)
    ensures
        and_tail(s, acc, i) == ({
            let w = run(s, i, CharClass::Space);
            if has_and(s, i + w) {
                match unary_at(s, i + w + 3) {
                    Some((e, n)) => {
                        let (r, m) = and_tail(s, ExprModel::And(Box::new(acc), Box::new(e)), i + w + 3 + n);
                        (r, w + 3 + n + m)
                    },
                    None => (acc, 0),
                }
            } else {
                (acc, 0)
            }
        }),
{
    reveal(group_at);
    reveal(atom_at);
    reveal(unary_at);
    reveal(and_tail);
    reveal(and_at);
    reveal(or_tail);
    reveal(expr_at);
}

/// The definition of [`and_at`], for proofs that unfold it by hand.
pub proof fn lemma_and_at(s: Seq<char>, i: int)
    ensures
        and_at(s, i) == ({
            match unary_at(s, i) {
                Some((e, n)) => {
                    let (r, m) = and_tail(s, e, i + n);
                    Some((r, n + m))
                },
                None => None,
            }
        }),
{
    reveal(group_at);
    reveal(atom_at);
    reveal(unary_at);
    reveal(and_tail);
    reveal(and_at);
    reveal(or_tail);
    reveal(expr_at);
}

/// The definition of [`or_tail`], for proofs that unfold it by hand.
pub proof fn lemma_or_tail(s: Seq<char>, acc: ExprModel, i: int)
    ensures
        or_tail(s, acc, i) == ({
            let w = run(s, i, CharClass::Space);
            if has_or(s, i + w) {
                match and_at(s, i + w + 2) {
                    Some((e, n)) => {
                        let (r, m) = or_tail(s, ExprModel::Or(Box::new(acc), Box::new(e)), i + w + 2 + n);
                        (r, w + 2 + n + m)
                    },
                    None => (acc, 0),
                }
            } else {
                (acc, 0)
            }
        }),
{
    reveal(group_at);
    reveal(atom_at);
    reveal(unary_at);
    reveal(and_tail);
    reveal(and_at);
    reveal(or_tail);
    reveal(expr_at);
}

/// The definition of [`expr_at`], for proofs that unfold it by hand.
pub proof fn lemma_expr_at(s: Seq<char>, i: int)
    ensures
        expr_at(s, i) == ({
            match and_at(s, i) {
                Some((e, n)) => {
                    let (r, m) = or_tail(s, e, i + n);
                    Some((r, n + m))
                },
                None => None,
            }
        }),
{
    reveal(group_at);
    reveal(atom_at);
    reveal(unary_at);
    reveal(and_tail);
    reveal(and_at);
    reveal(or_tail);
    reveal(expr_at);
}

/// What stands where an input stopped being a rule.
#[derive(Clone, Copy, PartialEq, Eq, Debug)]
pub enum Expected {
    /// No expression starts the input.
    Expression,
    /// An expression was read, and something other than whitespace follows it.
    EndOfInput,
}

/// Where an input stopped being a rule, and what was expected there.
#[derive(Clone, Copy, PartialEq, Eq, Debug)]
pub struct GrammarError {
    /// The line of the position, counted from one.
    pub line: usize,
    /// The column of the position in its line, counted from one, in characters.
    pub column: usize,
    /// The position, counted from zero, in characters.
    pub offset: usize,
    pub expected: Expected,
}

/// The line of position `p`: one more than the newlines before it.
pub open spec fn line_of(s: Seq<char>, p: int) -> nat
    decreases p,
{
    if p <= 0 || p > s.len() {
        1
    } else if s[p - 1] == '\n' {
        line_of(s, p - 1) + 1
    } else {
        line_of(s, p - 1)
    }
}

/// The column of position `p`: one more than the characters between the last
/// newline before it and itself.
pub open spec fn column_of(s: Seq<char>, p: int) -> nat
    decreases p,
{
    if p <= 0 || p > s.len() || s[p - 1] == '\n' {
        1
    } else {
        column_of(s, p - 1) + 1
    }
}

/// What a whole input is: the expression that it spells, with nothing but
/// whitespace after it, or the position where it fails and what was expected
/// there.
pub open spec fn parsed(s: Seq<char>) -> Result<ExprModel, (nat, Expected)> {
    match expr_at(s, 0) {
        None => Err((0, Expected::Expression)),
        Some((e, n)) => {
            let p = n + run(s, n as int, CharClass::Space);
            if p >= s.len() {
                Ok(e)
            } else {
                Err((p, Expected::EndOfInput))
            }
        },
    }
}

impl GrammarError {
    /// Whether this error reports position `p` of `s`, with `expected` there.
    pub open spec fn locates(&self, s: Seq<char>, p: nat, expected: Expected) -> bool {
        &&& self.offset == p
        &&& self.line == line_of(s, p as int)
        &&& self.column == column_of(s, p as int)
        &&& self.expected == expected
    }
}

/// Whether a parser's result from position `i` is what the grammar says.
pub open spec fn agrees(r: Option<(Expression, usize)>, m: Option<(ExprModel, nat)>, i: int, len: int) -> bool {
    match m {
        None => r is None,
        Some((e, n)) => r matches Some((x, k)) && x@ == e && k == i + n && k <= len,
    }
}

/// Whether a tail parser's result from position `i` is what the grammar says.
pub open spec fn tail_agrees(r: (Expression, usize), m: (ExprModel, nat), i: int, len: int) -> bool {
    r.0@ == m.0 && r.1 == i + m.1 && r.1 <= len
}

fn member(c: char, class: CharClass) -> (b: bool)
    ensures
        b == in_class(c, class),
{
    let space = c == ' ' || c == '\t' || c == '\n';
    match class {
        CharClass::Space => space,
        CharClass::Lhs => !space && c != ':' && c != '\'' && c != '"' && c != '\\',
        CharClass::Rhs => !space,
    }
}

fn scan(s: &str, len: usize, i: usize, class: CharClass) -> (k: usize)
    requires
        len == s@.len(),
        i <= len,
    ensures
        k == i + run(s@, i as int, class),
        k <= len,
{
    let mut k: usize = i;
    while k < len && member(s.get_char(k), class)
        invariant
            len == s@.len(),
            i <= k <= len,
            run(s@, i as int, class) == (k - i) + run(s@, k as int, class),
        decreases len - k,
    {
        k += 1;
    }
    k
}

fn word_not(s: &str, len: usize, i: usize) -> (b: bool)
    requires
        len == s@.len(),
        i <= len,
    ensures
        b == has_not(s@, i as int),
{
    len - i >= 3 && s.get_char(i) == 'n' && s.get_char(i + 1) == 'o' && s.get_char(i + 2) == 't'
}

fn word_and(s: &str, len: usize, i: usize) -> (b: bool)
    requires
        len == s@.len(),
        i <= len,
    ensures
        b == has_and(s@, i as int),
{
    len - i >= 3 && s.get_char(i) == 'a' && s.get_char(i + 1) == 'n' && s.get_char(i + 2) == 'd'
}

fn word_or(s: &str, len: usize, i: usize) -> (b: bool)
    requires
        len == s@.len(),
        i <= len,
    ensures
        b == has_or(s@, i as int),
{
    len - i >= 2 && s.get_char(i) == 'o' && s.get_char(i + 1) == 'r'
}

fn parse_rhs_after(s: &str, len: usize, lhs: LeftHandSide, start: usize, c: usize) -> (r: Option<(Expression, usize)>)
    requires
        len == s@.len(),
        start <= c <= len,
    ensures
        agrees(r, rhs_after(s@, lhs@, start as int, c as int), start as int, len as int),
{
    if c < len && s.get_char(c) == ':' {
        let k: usize = scan(s, len, c + 1, CharClass::Rhs);
        if k > c + 1 {
            let rhs = s.substring_char(c + 1, k).to_owned();
            Some((Expression::Check(lhs, rhs), k))
        } else {
            None
        }
    } else {
        None
    }
}

fn parse_check(s: &str, len: usize, i: usize) -> (r: Option<(Expression, usize)>)
    requires
        len == s@.len(),
        i <= len,
    ensures
        agrees(r, check_at(s@, i as int), i as int, len as int),
{
    if i < len && (s.get_char(i) == '\'' || s.get_char(i) == '"') {
        let q: usize = scan(s, len, i + 1, CharClass::Lhs);
        if q > i + 1 && q < len && s.get_char(q) == s.get_char(i) {
            let literal = s.substring_char(i + 1, q).to_owned();
            parse_rhs_after(s, len, LeftHandSide::Literal(literal), i, q + 1)
        } else {
            None
        }
    } else {
        let e: usize = scan(s, len, i, CharClass::Lhs);
        if e > i {
            let identifier = s.substring_char(i, e).to_owned();
            parse_rhs_after(s, len, LeftHandSide::Identifier(identifier), i, e)
        } else {
            None
        }
    }
}

fn parse_group(s: &str, len: usize, i: usize) -> (r: Option<(Expression, usize)>)
    requires
        len == s@.len(),
        i <= len,
    ensures
        agrees(r, group_at(s@, i as int), i as int, len as int),
    decreases left(s@, i as int), 0int,
{
    proof {
        lemma_group_at(s@, i as int);
    }
    if i < len && s.get_char(i) == '(' {
        match parse_expr(s, len, i + 1) {
            Some((e, end)) => {
                let k: usize = scan(s, len, end, CharClass::Space);
                if k < len && s.get_char(k) == ')' {
                    Some((e, k + 1))
                } else {
                    None
                }
            },
            None => None,
        }
    } else {
        None
    }
}

fn parse_atom(s: &str, len: usize, i: usize) -> (r: Option<(Expression, usize)>)
    requires
        len == s@.len(),
        i <= len,
    ensures
        agrees(r, atom_at(s@, i as int), i as int, len as int),
    decreases left(s@, i as int), 1int,
{
    proof {
        lemma_atom_at(s@, i as int);
    }
    let j: usize = scan(s, len, i, CharClass::Space);
    if j >= len {
        None
    } else if s.get_char(j) == '@' {
        Some((Expression::Const(true), j + 1))
    } else if s.get_char(j) == '!' {
        Some((Expression::Const(false), j + 1))
    } else {
        match parse_group(s, len, j) {
            Some(r) => Some(r),
            None => parse_check(s, len, j),
        }
    }
}

fn parse_unary(s: &str, len: usize, i: usize) -> (r: Option<(Expression, usize)>)
    requires
        len == s@.len(),
        i <= len,
    ensures
        agrees(r, unary_at(s@, i as int), i as int, len as int),
    decreases left(s@, i as int), 2int,
{
    proof {
        lemma_unary_at(s@, i as int);
    }
    let j: usize = scan(s, len, i, CharClass::Space);
    if word_not(s, len, j) {
        match parse_unary(s, len, j + 3) {
            Some((e, end)) => Some((Expression::Not(Box::new(e)), end)),
            None => parse_atom(s, len, i),
        }
    } else {
        parse_atom(s, len, i)
    }
}

fn parse_and_tail(s: &str, len: usize, acc: Expression, i: usize) -> (r: (Expression, usize))
    requires
        len == s@.len(),
        i <= len,
    ensures
        tail_agrees(r, and_tail(s@, acc@, i as int), i as int, len as int),
    decreases left(s@, i as int), 3int,
{
    proof {
        lemma_and_tail(s@, acc@, i as int);
    }
    let j: usize = scan(s, len, i, CharClass::Space);
    if word_and(s, len, j) {
        match parse_unary(s, len, j + 3) {
            Some((e, end)) => parse_and_tail(s, len, Expression::And(Box::new(acc), Box::new(e)), end),
            None => (acc, i),
        }
    } else {
        (acc, i)
    }
}

fn parse_and(s: &str, len: usize, i: usize) -> (r: Option<(Expression, usize)>)
    requires
        len == s@.len(),
        i <= len,
    ensures
        agrees(r, and_at(s@, i as int), i as int, len as int),
    decreases left(s@, i as int), 4int,
{
    proof {
        lemma_and_at(s@, i as int);
    }
    match parse_unary(s, len, i) {
        Some((e, end)) => Some(parse_and_tail(s, len, e, end)),
        None => None,
    }
}

fn parse_or_tail(s: &str, len: usize, acc: Expression, i: usize) -> (r: (Expression, usize))
    requires
        len == s@.len(),
        i <= len,
    ensures
        tail_agrees(r, or_tail(s@, acc@, i as int), i as int, len as int),
    decreases left(s@, i as int), 5int,
{
    proof {
        lemma_or_tail(s@, acc@, i as int);
    }
    let j: usize = scan(s, len, i, CharClass::Space);
    if word_or(s, len, j) {
        match parse_and(s, len, j + 2) {
            Some((e, end)) => parse_or_tail(s, len, Expression::Or(Box::new(acc), Box::new(e)), end),
            None => (acc, i),
        }
    } else {
        (acc, i)
    }
}

fn parse_expr(s: &str, len: usize, i: usize) -> (r: Option<(Expression, usize)>)
    requires
        len == s@.len(),
        i <= len,
    ensures
        agrees(r, expr_at(s@, i as int), i as int, len as int),
    decreases left(s@, i as int), 6int,
{
    proof {
        lemma_expr_at(s@, i as int);
    }
    match parse_and(s, len, i) {
        Some((e, end)) => Some(parse_or_tail(s, len, e, end)),
        None => None,
    }
}

fn locate(s: &str, len: usize, p: usize, expected: Expected) -> (err: GrammarError)
    requires
        len == s@.len(),
        p < len || p == 0,
    ensures
        err.locates(s@, p as nat, expected),
{
    let mut line: usize = 1;
    let mut column: usize = 1;
    let mut k: usize = 0;
    while k < p
        invariant
            len == s@.len(),
            p < len || p == 0,
            k <= p,
            line == line_of(s@, k as int),
            column == column_of(s@, k as int),
            line <= k + 1,
            column <= k + 1,
        decreases p - k,
    {
        if s.get_char(k) == '\n' {
            line += 1;
            column = 1;
        } else {
            column += 1;
        }
        k += 1;
    }
    GrammarError { line, column, offset: p, expected }
}

/// Parses a whole rule.
///
/// Returns the expression that the input spells, or the position where it
/// stops being a rule: the start, where no expression begins the input (the
/// empty input is such a one), or the first character after a complete
/// expression that is neither whitespace nor the end.
pub fn parse_expression(input: &str) -> (r: Result<Expression, GrammarError>)
    ensures
        match parsed(input@) {
            Ok(e) => r matches Ok(x) && x@ == e,
            Err((p, expected)) => r matches Err(err) && err.locates(input@, p, expected),
        },
{
    let len: usize = input.unicode_len();
    match parse_expr(input, len, 0) {
        None => Err(locate(input, len, 0, Expected::Expression)),
        Some((e, end)) => {
            let p: usize = scan(input, len, end, CharClass::Space);
            if p >= len {
                Ok(e)
            } else {
                Err(locate(input, len, p, Expected::EndOfInput))
            }
        },
    }
}

} // verus!
