//! Laws of the grammar and of the evaluator: what is no rule, what an
//! evaluation denies, when the depth limit does not matter, and that
//! parentheses around a rule without checks change nothing, for any input.

use vstd::prelude::*;
use crate::ast::{ExprModel, LhsModel};
use crate::checkers::Ruling;
use crate::parser::{
    all_of, and_at, and_tail, atom_at, check_at, expr_at, group_at, has_and, has_not, has_or, in_class,
    is_lhs_char, left, lemma_and_at, lemma_and_tail, lemma_atom_at, lemma_expr_at, lemma_group_at,
    lemma_or_tail, lemma_unary_at, or_tail, parsed, run, unary_at, CharClass, Expected,
};
use crate::request::{attribute_reference, resolved, RequestModel};
use crate::ruleset::{check_holds, expr_holds, rule_holds};

verus! {

/// A run ends before the first character that is not of its class.
pub proof fn lemma_run_stops(s: Seq<char>, i: int, class: CharClass, b: int)
    requires
        0 <= i <= b < s.len(),
        !in_class(s[b], class),
    ensures
        i + run(s, i, class) <= b,
        !in_class(s[i + run(s, i, class)], class),
    decreases b - i,
{
    if in_class(s[i], class) {
        lemma_run_stops(s, i + 1, class, b);
    }
}

/// A quoted literal holds no whitespace, colon, backslash or other quote:
/// where one of them stands after an opening quote, before that quote comes
/// again, no check starts at the opening quote.
pub proof fn lemma_quoted_literal_is_no_check(s: Seq<char>, i: int, b: int)
    requires
        0 <= i < b < s.len(),
        s[i] == '\'' || s[i] == '"',
        !is_lhs_char(s[b]),
        forall|k: int| i < k <= b ==> #[trigger] s[k] != s[i],
    ensures
        check_at(s, i) is None,
{
    lemma_run_stops(s, i + 1, CharClass::Lhs, b);
}

/// Nothing of the grammar starts at such a quote: no atom, no negation, no
/// chain of `and` or `or`. So the literal is not read in another way either.
pub proof fn lemma_quoted_literal_is_no_operand(s: Seq<char>, i: int, b: int)
    requires
        0 <= i < b < s.len(),
        s[i] == '\'' || s[i] == '"',
        !is_lhs_char(s[b]),
        forall|k: int| i < k <= b ==> #[trigger] s[k] != s[i],
    ensures
        atom_at(s, i) is None,
        unary_at(s, i) is None,
        and_at(s, i) is None,
        expr_at(s, i) is None,
{
    lemma_quoted_literal_is_no_check(s, i, b);
    lemma_group_at(s, i);
    lemma_atom_at(s, i);
    lemma_unary_at(s, i);
    lemma_and_at(s, i);
    lemma_expr_at(s, i);
    assert(run(s, i, CharClass::Space) == 0);
}

/// An input that starts with such a quoted literal is no rule. A backslash
/// is one of the characters that a literal cannot hold, so no literal with
/// an escape sequence is accepted; whitespace is another.
pub proof fn lemma_quoted_literal_rejects(s: Seq<char>, b: int)
    requires
        0 < b < s.len(),
        s[0] == '\'' || s[0] == '"',
        !is_lhs_char(s[b]),
        forall|k: int| 0 < k <= b ==> #[trigger] s[k] != s[0],
    ensures
        parsed(s) == Err::<ExprModel, (nat, Expected)>((0, Expected::Expression)),
{
    lemma_quoted_literal_is_no_operand(s, 0, b);
}

/// The empty input is no rule.
pub proof fn lemma_empty_input_is_no_rule()
    ensures
        parsed(Seq::<char>::empty()) == Err::<ExprModel, (nat, Expected)>((0, Expected::Expression)),
{
    lemma_atom_at(Seq::<char>::empty(), 0);
    lemma_unary_at(Seq::<char>::empty(), 0);
    lemma_and_at(Seq::<char>::empty(), 0);
    lemma_expr_at(Seq::<char>::empty(), 0);
    let s = Seq::<char>::empty();
    assert(run(s, 0, CharClass::Space) == 0);
    assert(atom_at(s, 0) is None);
    assert(unary_at(s, 0) is None);
    assert(and_at(s, 0) is None);
    assert(expr_at(s, 0) is None);
}

/// A check whose right-hand side refers to a target attribute that the
/// request does not have does not hold, whatever stands on its left.
pub proof fn lemma_missing_target_attribute_denies(
    rules: Map<Seq<char>, ExprModel>,
    checkers: Map<Seq<char>, spec_fn(RequestModel, Seq<char>) -> Ruling>,
    req: RequestModel,
    lhs: LhsModel,
    name: Seq<char>,
    depth: nat,
)
    requires
        !req.target_attributes.contains_key(name),
    ensures
        !check_holds(rules, checkers, req, lhs, seq!['%', '('] + name + seq![')', 's'], depth),
{
    let rhs = seq!['%', '('] + name + seq![')', 's'];
    assert(rhs.subrange(2, rhs.len() - 2) =~= name);
    assert(attribute_reference(rhs) == Some(name));
    assert(resolved(rhs, req.target_attributes) is None);
}

/// A rule that is not defined does not hold, for any request.
pub proof fn lemma_undefined_rule_denies(
    rules: Map<Seq<char>, ExprModel>,
    checkers: Map<Seq<char>, spec_fn(RequestModel, Seq<char>) -> Ruling>,
    req: RequestModel,
    name: Seq<char>,
    depth: nat,
)
    requires
        !rules.contains_key(name),
    ensures
        !rule_holds(rules, checkers, req, name, depth),
{
}

/// Whether a left-hand side is one that the grammar can read: at least one
/// character, none of them whitespace, a colon, a quote or a backslash.
pub open spec fn plain_lhs(lhs: LhsModel) -> bool {
    match lhs {
        LhsModel::Literal(s) => s.len() > 0 && all_of(s, CharClass::Lhs),
        LhsModel::Identifier(s) => s.len() > 0 && all_of(s, CharClass::Lhs),
    }
}

/// Whether every check of an expression is one that the grammar can read: a
/// plain left-hand side, and a right-hand side of at least one character
/// without whitespace.
pub open spec fn plain(e: ExprModel) -> bool
    decreases e,
{
    match e {
        ExprModel::Const(_) => true,
        ExprModel::Check(lhs, rhs) => plain_lhs(lhs) && rhs.len() > 0 && all_of(rhs, CharClass::Rhs),
        ExprModel::And(l, r) => plain(*l) && plain(*r),
        ExprModel::Or(l, r) => plain(*l) && plain(*r),
        ExprModel::Not(x) => plain(*x),
    }
}

/// The characters of a run are of its class.
pub proof fn lemma_run_is_of_class(s: Seq<char>, i: int, class: CharClass)
    requires
        0 <= i,
    ensures
        i + run(s, i, class) <= s.len() || run(s, i, class) == 0,
        all_of(s.subrange(i, i + run(s, i, class)), class) || run(s, i, class) == 0,
    decreases s.len() - i,
{
    if i < s.len() && in_class(s[i], class) {
        lemma_run_is_of_class(s, i + 1, class);
        let n = run(s, i, class);
        let x = s.subrange(i, i + n);
        assert forall|k: int| 0 <= k < x.len() implies in_class(#[trigger] x[k], class) by {
            if k > 0 {
                let rest = s.subrange(i + 1, i + 1 + run(s, i + 1, class));
                assert(x[k] == rest[k - 1]);
            }
        }
    }
}

proof fn lemma_check_is_plain(s: Seq<char>, i: int)
    requires
        check_at(s, i) is Some,
    ensures
        plain((check_at(s, i)->0).0),
{
    if 0 <= i < s.len() && (s[i] == '\'' || s[i] == '"') {
        let n = run(s, i + 1, CharClass::Lhs);
        lemma_run_is_of_class(s, i + 1, CharClass::Lhs);
        lemma_run_is_of_class(s, i + 1 + n + 2, CharClass::Rhs);
    } else {
        let n = run(s, i, CharClass::Lhs);
        lemma_run_is_of_class(s, i, CharClass::Lhs);
        lemma_run_is_of_class(s, i + n + 1, CharClass::Rhs);
    }
}

proof fn lemma_group_is_plain(s: Seq<char>, i: int)
    requires
        group_at(s, i) is Some,
    ensures
        plain((group_at(s, i)->0).0),
    decreases left(s, i), 0int,
{
    lemma_group_at(s, i);
    lemma_expr_is_plain(s, i + 1);
}

proof fn lemma_atom_is_plain(s: Seq<char>, i: int)
    requires
        atom_at(s, i) is Some,
    ensures
        plain((atom_at(s, i)->0).0),
    decreases left(s, i), 1int,
{
    lemma_atom_at(s, i);
    let j = i + run(s, i, CharClass::Space);
    if s[j] != '@' && s[j] != '!' {
        if group_at(s, j) is Some {
            lemma_group_is_plain(s, j);
        } else {
            lemma_check_is_plain(s, j);
        }
    }
}

proof fn lemma_unary_is_plain(s: Seq<char>, i: int)
    requires
        unary_at(s, i) is Some,
    ensures
        plain((unary_at(s, i)->0).0),
    decreases left(s, i), 2int,
{
    lemma_unary_at(s, i);
    let j = i + run(s, i, CharClass::Space);
    if has_not(s, j) && unary_at(s, j + 3) is Some {
        lemma_unary_is_plain(s, j + 3);
    } else {
        lemma_atom_is_plain(s, i);
    }
}

proof fn lemma_and_tail_is_plain(s: Seq<char>, acc: ExprModel, i: int)
    requires
        plain(acc),
    ensures
        plain(and_tail(s, acc, i).0),
    decreases left(s, i), 3int,
{
    lemma_and_tail(s, acc, i);
    let j = i + run(s, i, CharClass::Space);
    if has_and(s, j) {
        match unary_at(s, j + 3) {
            Some((e, n)) => {
                lemma_unary_is_plain(s, j + 3);
                lemma_and_tail_is_plain(s, ExprModel::And(Box::new(acc), Box::new(e)), j + 3 + n);
            },
            None => {},
        }
    }
}

proof fn lemma_and_is_plain(s: Seq<char>, i: int)
    requires
        and_at(s, i) is Some,
    ensures
        plain((and_at(s, i)->0).0),
    decreases left(s, i), 4int,
{
    lemma_and_at(s, i);
    let (e, n) = unary_at(s, i)->0;
    lemma_unary_is_plain(s, i);
    lemma_and_tail_is_plain(s, e, i + n);
}

proof fn lemma_or_tail_is_plain(s: Seq<char>, acc: ExprModel, i: int)
    requires
        plain(acc),
    ensures
        plain(or_tail(s, acc, i).0),
    decreases left(s, i), 5int,
{
    lemma_or_tail(s, acc, i);
    let j = i + run(s, i, CharClass::Space);
    if has_or(s, j) {
        match and_at(s, j + 2) {
            Some((e, n)) => {
                lemma_and_is_plain(s, j + 2);
                lemma_or_tail_is_plain(s, ExprModel::Or(Box::new(acc), Box::new(e)), j + 2 + n);
            },
            None => {},
        }
    }
}

proof fn lemma_expr_is_plain(s: Seq<char>, i: int)
    requires
        expr_at(s, i) is Some,
    ensures
        plain((expr_at(s, i)->0).0),
    decreases left(s, i), 6int,
{
    lemma_expr_at(s, i);
    let (e, n) = and_at(s, i)->0;
    lemma_and_is_plain(s, i);
    lemma_or_tail_is_plain(s, e, i + n);
}

/// No token holds whitespace, and no left-hand side a colon, a quote or a
/// backslash: whatever the input, every check of the expression that it
/// parses to is plain. So no rule gives a literal with an escape sequence or
/// a check with whitespace inside.
pub proof fn lemma_parsed_is_plain(s: Seq<char>)
    requires
        parsed(s) is Ok,
    ensures
        plain(parsed(s)->Ok_0),
{
    lemma_expr_is_plain(s, 0);
}

/// Whether the evaluation of a check stays within the depth: it never
/// comes to a reference to a rule with no reference allowed any more.
pub open spec fn check_settles(
    rules: Map<Seq<char>, ExprModel>,
    checkers: Map<Seq<char>, spec_fn(RequestModel, Seq<char>) -> Ruling>,
    req: RequestModel,
    lhs: LhsModel,
    rhs: Seq<char>,
    depth: nat,
) -> bool
    decreases depth, 0int,
{
    match (resolved(rhs, req.target_attributes), lhs) {
        (Some(value), LhsModel::Identifier(name)) => if checkers.contains_key(name) {
            match checkers[name](req, value) {
                Ruling::Decided(_) => true,
                Ruling::Defer(rule) => if depth > 0 {
                    rule_settles(rules, checkers, req, rule, (depth - 1) as nat)
                } else {
                    false
                },
            }
        } else {
            true
        },
        _ => true,
    }
}

/// Whether the evaluation of an expression stays within the depth.
pub open spec fn expr_settles(
    rules: Map<Seq<char>, ExprModel>,
    checkers: Map<Seq<char>, spec_fn(RequestModel, Seq<char>) -> Ruling>,
    req: RequestModel,
    e: ExprModel,
    depth: nat,
) -> bool
    decreases depth, 1int, e,
{
    match e {
        ExprModel::Const(_) => true,
        ExprModel::Check(lhs, rhs) => check_settles(rules, checkers, req, lhs, rhs, depth),
        ExprModel::And(l, r) => expr_settles(rules, checkers, req, *l, depth) && expr_settles(
            rules,
            checkers,
            req,
            *r,
            depth,
        ),
        ExprModel::Or(l, r) => expr_settles(rules, checkers, req, *l, depth) && expr_settles(
            rules,
            checkers,
            req,
            *r,
            depth,
        ),
        ExprModel::Not(x) => expr_settles(rules, checkers, req, *x, depth),
    }
}

/// Whether the evaluation of a rule stays within the depth.
pub open spec fn rule_settles(
    rules: Map<Seq<char>, ExprModel>,
    checkers: Map<Seq<char>, spec_fn(RequestModel, Seq<char>) -> Ruling>,
    req: RequestModel,
    name: Seq<char>,
    depth: nat,
) -> bool
    decreases depth, 2int,
{
    rules.contains_key(name) ==> expr_settles(rules, checkers, req, rules[name], depth)
}

proof fn lemma_check_settled(
    rules: Map<Seq<char>, ExprModel>,
    checkers: Map<Seq<char>, spec_fn(RequestModel, Seq<char>) -> Ruling>,
    req: RequestModel,
    lhs: LhsModel,
    rhs: Seq<char>,
    depth: nat,
    more: nat,
)
    requires
        check_settles(rules, checkers, req, lhs, rhs, depth),
        depth <= more,
    ensures
        check_settles(rules, checkers, req, lhs, rhs, more),
        check_holds(rules, checkers, req, lhs, rhs, more) == check_holds(rules, checkers, req, lhs, rhs, depth),
    decreases depth, 0int,
{
    match (resolved(rhs, req.target_attributes), lhs) {
        (Some(value), LhsModel::Identifier(name)) => {
            if checkers.contains_key(name) {
                match checkers[name](req, value) {
                    Ruling::Decided(_) => {},
                    Ruling::Defer(rule) => {
                        lemma_depth_is_enough(rules, checkers, req, rule, (depth - 1) as nat, (more - 1) as nat);
                    },
                }
            }
        },
        _ => {},
    }
}

proof fn lemma_expr_settled(
    rules: Map<Seq<char>, ExprModel>,
    checkers: Map<Seq<char>, spec_fn(RequestModel, Seq<char>) -> Ruling>,
    req: RequestModel,
    e: ExprModel,
    depth: nat,
    more: nat,
)
    requires
        expr_settles(rules, checkers, req, e, depth),
        depth <= more,
    ensures
        expr_settles(rules, checkers, req, e, more),
        expr_holds(rules, checkers, req, e, more) == expr_holds(rules, checkers, req, e, depth),
    decreases depth, 1int, e,
{
    match e {
        ExprModel::Const(_) => {},
        ExprModel::Check(lhs, rhs) => {
            lemma_check_settled(rules, checkers, req, lhs, rhs, depth, more);
        },
        ExprModel::And(l, r) => {
            lemma_expr_settled(rules, checkers, req, *l, depth, more);
            lemma_expr_settled(rules, checkers, req, *r, depth, more);
        },
        ExprModel::Or(l, r) => {
            lemma_expr_settled(rules, checkers, req, *l, depth, more);
            lemma_expr_settled(rules, checkers, req, *r, depth, more);
        },
        ExprModel::Not(x) => {
            lemma_expr_settled(rules, checkers, req, *x, depth, more);
        },
    }
}

/// Where the evaluation of a rule stays within a depth, the depth does not
/// matter: with any larger one the rule holds or not as it did. So the limit
/// changes the outcome only of evaluations that run into it.
pub proof fn lemma_depth_is_enough(
    rules: Map<Seq<char>, ExprModel>,
    checkers: Map<Seq<char>, spec_fn(RequestModel, Seq<char>) -> Ruling>,
    req: RequestModel,
    name: Seq<char>,
    depth: nat,
    more: nat,
)
    requires
        rule_settles(rules, checkers, req, name, depth),
        depth <= more,
    ensures
        rule_settles(rules, checkers, req, name, more),
        rule_holds(rules, checkers, req, name, more) == rule_holds(rules, checkers, req, name, depth),
    decreases depth, 2int,
{
    if rules.contains_key(name) {
        lemma_expr_settled(rules, checkers, req, rules[name], depth, more);
    }
}

/// An input in one more pair of parentheses.
pub open spec fn wrapped(s: Seq<char>) -> Seq<char> {
    seq!['('] + s + seq![')']
}

/// Whether an input holds no colon, and so no check.
pub open spec fn colon_free(s: Seq<char>) -> bool {
    forall|k: int| 0 <= k < s.len() ==> #[trigger] s[k] != ':'
}

/// Where the next token starts at or after `i`.
pub open spec fn token_start(s: Seq<char>, i: int) -> int {
    i + run(s, i, CharClass::Space)
}

/// Whether `t` holds `s` in parentheses, the first character of `s` standing
/// at `o`: an opening parenthesis just before it and a closing one just
/// after it, whatever else stands around them.
pub open spec fn holds_group(t: Seq<char>, o: int, s: Seq<char>) -> bool {
    &&& 1 <= o
    &&& o + s.len() < t.len()
    &&& t[o - 1] == '('
    &&& t[o + s.len()] == ')'
    &&& forall|k: int| o <= k < o + s.len() ==> #[trigger] t[k] == s[k - o]
}

proof fn lemma_run_within(s: Seq<char>, i: int, class: CharClass)
    requires
        0 <= i <= s.len(),
    ensures
        i + run(s, i, class) <= s.len(),
    decreases s.len() - i,
{
    if i < s.len() && in_class(s[i], class) {
        lemma_run_within(s, i + 1, class);
    }
}

proof fn lemma_group_spaces(t: Seq<char>, o: int, s: Seq<char>, i: int)
    requires
        holds_group(t, o, s),
        0 <= i <= s.len(),
    ensures
        run(t, o + i, CharClass::Space) == run(s, i, CharClass::Space),
        token_start(s, i) <= s.len(),
    decreases s.len() - i,
{
    lemma_run_within(s, i, CharClass::Space);
    if i < s.len() {
        assert(t[o + i] == s[i]);
        if in_class(s[i], CharClass::Space) {
            lemma_group_spaces(t, o, s, i + 1);
        }
    }
}

proof fn lemma_group_words(t: Seq<char>, o: int, s: Seq<char>, i: int)
    requires
        holds_group(t, o, s),
        0 <= i <= s.len(),
    ensures
        has_not(t, o + i) == has_not(s, i),
        has_and(t, o + i) == has_and(s, i),
        has_or(t, o + i) == has_or(s, i),
{
    if i < s.len() {
        assert(t[o + i] == s[i]);
    }
    if i + 1 < s.len() {
        assert(t[o + i + 1] == s[i + 1]);
    }
    if i + 2 < s.len() {
        assert(t[o + i + 2] == s[i + 2]);
    }
}

proof fn lemma_no_colon_no_check(s: Seq<char>, i: int)
    requires
        colon_free(s),
    ensures
        check_at(s, i) is None,
{
}

proof fn lemma_group_inside(t: Seq<char>, o: int, s: Seq<char>, i: int)
    requires
        holds_group(t, o, s),
        colon_free(s),
        0 <= i <= s.len(),
        group_at(s, i) is Some,
    ensures
        group_at(t, o + i) == group_at(s, i),
        i + (group_at(s, i)->0).1 <= s.len(),
    decreases left(s, i), 0int,
{
    lemma_group_at(s, i);
    lemma_group_at(t, o + i);
    let (e, n) = expr_at(s, i + 1)->0;
    let k = token_start(s, i + 1 + n);
    assert(k < s.len() && s[k] == ')');
    assert(t[o + i] == s[i]);
    lemma_expr_inside(t, o, s, i + 1);
    lemma_group_spaces(t, o, s, i + 1 + n);
    assert(t[o + k] == s[k]);
    assert(expr_at(t, o + i + 1) == Some((e, n)));
}

proof fn lemma_atom_inside(t: Seq<char>, o: int, s: Seq<char>, i: int)
    requires
        holds_group(t, o, s),
        colon_free(s),
        0 <= i <= s.len(),
        atom_at(s, i) is Some,
    ensures
        atom_at(t, o + i) == atom_at(s, i),
        i + (atom_at(s, i)->0).1 <= s.len(),
    decreases left(s, i), 1int,
{
    lemma_atom_at(s, i);
    lemma_atom_at(t, o + i);
    lemma_group_spaces(t, o, s, i);
    let j = token_start(s, i);
    assert(t[o + j] == s[j]);
    if s[j] != '@' && s[j] != '!' {
        lemma_no_colon_no_check(s, j);
        lemma_group_inside(t, o, s, j);
    }
}

proof fn lemma_unary_inside(t: Seq<char>, o: int, s: Seq<char>, i: int)
    requires
        holds_group(t, o, s),
        colon_free(s),
        0 <= i <= s.len(),
        unary_at(s, i) is Some,
    ensures
        unary_at(t, o + i) == unary_at(s, i),
        i + (unary_at(s, i)->0).1 <= s.len(),
    decreases left(s, i), 2int,
{
    lemma_unary_at(s, i);
    lemma_unary_at(t, o + i);
    lemma_group_spaces(t, o, s, i);
    let j = token_start(s, i);
    lemma_group_words(t, o, s, j);
    if has_not(s, j) {
        if unary_at(s, j + 3) is Some {
            lemma_unary_inside(t, o, s, j + 3);
            assert(unary_at(t, o + j + 3) == unary_at(s, j + 3));
        } else {
            lemma_no_colon_no_check(s, j);
            lemma_group_at(s, j);
            lemma_atom_at(s, i);
            assert(atom_at(s, i) is None);
        }
    } else {
        lemma_atom_inside(t, o, s, i);
    }
}

proof fn lemma_and_tail_inside(t: Seq<char>, o: int, s: Seq<char>, acc: ExprModel, i: int)
    requires
        holds_group(t, o, s),
        colon_free(s),
        0 <= i <= s.len(),
        !has_and(s, token_start(s, i + and_tail(s, acc, i).1)),
    ensures
        and_tail(t, acc, o + i) == and_tail(s, acc, i),
        i + and_tail(s, acc, i).1 <= s.len(),
    decreases left(s, i), 3int,
{
    lemma_and_tail(s, acc, i);
    lemma_and_tail(t, acc, o + i);
    lemma_group_spaces(t, o, s, i);
    let j = token_start(s, i);
    lemma_group_words(t, o, s, j);
    if has_and(s, j) {
        match unary_at(s, j + 3) {
            Some((e, n)) => {
                lemma_unary_inside(t, o, s, j + 3);
                assert(unary_at(t, o + j + 3) == unary_at(s, j + 3));
                let next = ExprModel::And(Box::new(acc), Box::new(e));
                lemma_and_tail_inside(t, o, s, next, j + 3 + n);
                assert(and_tail(t, next, o + j + 3 + n) == and_tail(s, next, j + 3 + n));
            },
            None => {},
        }
    }
}

proof fn lemma_and_inside(t: Seq<char>, o: int, s: Seq<char>, i: int)
    requires
        holds_group(t, o, s),
        colon_free(s),
        0 <= i <= s.len(),
        and_at(s, i) is Some,
        !has_and(s, token_start(s, i + (and_at(s, i)->0).1)),
    ensures
        and_at(t, o + i) == and_at(s, i),
        i + (and_at(s, i)->0).1 <= s.len(),
    decreases left(s, i), 4int,
{
    lemma_and_at(s, i);
    lemma_and_at(t, o + i);
    let (e, n) = unary_at(s, i)->0;
    lemma_unary_inside(t, o, s, i);
    lemma_and_tail_inside(t, o, s, e, i + n);
    assert(and_tail(t, e, o + i + n) == and_tail(s, e, i + n));
}

proof fn lemma_or_tail_inside(t: Seq<char>, o: int, s: Seq<char>, acc: ExprModel, i: int)
    requires
        holds_group(t, o, s),
        colon_free(s),
        0 <= i <= s.len(),
        !has_and(s, token_start(s, i + or_tail(s, acc, i).1)),
        !has_or(s, token_start(s, i + or_tail(s, acc, i).1)),
    ensures
        or_tail(t, acc, o + i) == or_tail(s, acc, i),
        i + or_tail(s, acc, i).1 <= s.len(),
    decreases left(s, i), 5int,
{
    lemma_or_tail(s, acc, i);
    lemma_or_tail(t, acc, o + i);
    lemma_group_spaces(t, o, s, i);
    let j = token_start(s, i);
    lemma_group_words(t, o, s, j);
    if has_or(s, j) {
        match and_at(s, j + 2) {
            Some((e, n)) => {
                let next = ExprModel::Or(Box::new(acc), Box::new(e));
                if has_and(s, token_start(s, j + 2 + n)) {
                    lemma_or_tail(s, next, j + 2 + n);
                    assert(or_tail(s, next, j + 2 + n).1 == 0);
                }
                lemma_and_inside(t, o, s, j + 2);
                assert(and_at(t, o + j + 2) == and_at(s, j + 2));
                lemma_or_tail_inside(t, o, s, next, j + 2 + n);
                assert(or_tail(t, next, o + j + 2 + n) == or_tail(s, next, j + 2 + n));
            },
            None => {},
        }
    }
}

proof fn lemma_expr_inside(t: Seq<char>, o: int, s: Seq<char>, i: int)
    requires
        holds_group(t, o, s),
        colon_free(s),
        0 <= i <= s.len(),
        expr_at(s, i) is Some,
        !has_and(s, token_start(s, i + (expr_at(s, i)->0).1)),
        !has_or(s, token_start(s, i + (expr_at(s, i)->0).1)),
    ensures
        expr_at(t, o + i) == expr_at(s, i),
        i + (expr_at(s, i)->0).1 <= s.len(),
    decreases left(s, i), 6int,
{
    lemma_expr_at(s, i);
    lemma_expr_at(t, o + i);
    let (e, n) = and_at(s, i)->0;
    if has_and(s, token_start(s, i + n)) {
        lemma_or_tail(s, e, i + n);
        assert(or_tail(s, e, i + n).1 == 0);
    }
    lemma_and_inside(t, o, s, i);
    lemma_or_tail_inside(t, o, s, e, i + n);
    assert(or_tail(t, e, o + i + n) == or_tail(s, e, i + n));
}

/// A rule in parentheses is an atom that denotes the rule's own expression,
/// wherever it stands: parentheses add nothing to the tree. The rule is one
/// without checks.
///
/// A rule that ends in a check is left out, because a right-hand side takes
/// every character up to the next whitespace, a closing parenthesis too.
pub proof fn lemma_group_denotes_rule(t: Seq<char>, o: int, s: Seq<char>)
    requires
        holds_group(t, o, s),
        colon_free(s),
        parsed(s) is Ok,
    ensures
        group_at(t, o - 1) == Some((parsed(s)->Ok_0, (s.len() + 2) as nat)),
        atom_at(t, o - 1) == Some((parsed(s)->Ok_0, (s.len() + 2) as nat)),
{
    lemma_group_at(t, o - 1);
    lemma_atom_at(t, o - 1);
    let (e, n) = expr_at(s, 0)->0;
    lemma_expr_inside(t, o, s, 0);
    lemma_group_spaces(t, o, s, n as int);
    assert(token_start(s, n as int) == s.len());
    assert(expr_at(t, o - 1 + 1) == Some((e, n)));
    assert(group_at(t, o - 1) == Some((e, (s.len() + 2) as nat)));
    assert(run(t, o - 1, CharClass::Space) == 0);
}

/// Parentheses around a whole rule are redundant: a rule without checks, put
/// in one more pair of parentheses, is the same expression.
pub proof fn lemma_parentheses_are_redundant(s: Seq<char>)
    requires
        colon_free(s),
        parsed(s) is Ok,
    ensures
        parsed(wrapped(s)) == parsed(s),
{
    let t = wrapped(s);
    let e = parsed(s)->Ok_0;
    assert(holds_group(t, 1, s));
    lemma_group_denotes_rule(t, 1, s);
    lemma_unary_at(t, 0);
    lemma_and_tail(t, e, t.len() as int);
    lemma_and_at(t, 0);
    lemma_or_tail(t, e, t.len() as int);
    lemma_expr_at(t, 0);
    assert(!has_not(t, 0));
    assert(unary_at(t, 0) == Some((e, t.len())));
    assert(run(t, t.len() as int, CharClass::Space) == 0);
    assert(and_tail(t, e, t.len() as int) == (e, 0nat));
    assert(and_at(t, 0) == Some((e, t.len())));
    assert(or_tail(t, e, t.len() as int) == (e, 0nat));
    assert(expr_at(t, 0) == Some((e, t.len())));
}

} // verus!
