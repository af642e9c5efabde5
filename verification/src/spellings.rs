//! The ways of writing an expression: its own shape, with parentheses
//! wherever one likes, any whitespace between the tokens and either kind of
//! quotes around a literal, and the law that each of them parses to it.

use vstd::prelude::*;
use crate::ast::{ExprModel, LhsModel};
use crate::parser::{
    all_of, and_at, and_tail, check_at, expr_at, has_and, has_not, in_class, is_space, lemma_and_at,
    lemma_and_tail, lemma_atom_at, lemma_expr_at, lemma_group_at, lemma_or_tail, lemma_unary_at,
    or_tail, parsed, run, unary_at, CharClass, Expected,
};

verus! {

/// A way of writing the left-hand side of a check.
pub enum LhsSpelling {
    /// A bare name.
    Identifier(Seq<char>),
    /// A literal in single quotes.
    Single(Seq<char>),
    /// A literal in double quotes.
    Double(Seq<char>),
}

/// A way of writing an expression: the tree of the expression, with a group
/// wherever parentheses stand, and with the whitespace that stands between
/// the tokens.
pub enum Spelling {
    /// `@` or `!`.
    Const(bool),
    /// A left-hand side, a colon and a right-hand side.
    Check(LhsSpelling, Seq<char>),
    /// `not`, whitespace, and what is negated.
    Not(Seq<char>, Box<Spelling>),
    /// The left side, whitespace, `and`, whitespace, and the right side.
    And(Box<Spelling>, Seq<char>, Seq<char>, Box<Spelling>),
    /// The left side, whitespace, `or`, whitespace, and the right side.
    Or(Box<Spelling>, Seq<char>, Seq<char>, Box<Spelling>),
    /// `(`, whitespace, what is grouped, whitespace, and `)`.
    Group(Seq<char>, Box<Spelling>, Seq<char>),
}

/// The left-hand side that a spelling is a way of writing: a literal is the
/// same in either kind of quotes.
pub open spec fn spelled_lhs(lhs: LhsSpelling) -> LhsModel {
    match lhs {
        LhsSpelling::Identifier(name) => LhsModel::Identifier(name),
        LhsSpelling::Single(body) => LhsModel::Literal(body),
        LhsSpelling::Double(body) => LhsModel::Literal(body),
    }
}

/// The text of a left-hand side.
pub open spec fn lhs_spelling_text(lhs: LhsSpelling) -> Seq<char> {
    match lhs {
        LhsSpelling::Identifier(name) => name,
        LhsSpelling::Single(body) => seq!['\''] + body + seq!['\''],
        LhsSpelling::Double(body) => seq!['"'] + body + seq!['"'],
    }
}

/// The expression that a spelling is a way of writing: a group is what
/// stands inside it, and whitespace is nothing.
pub open spec fn spelled(f: Spelling) -> ExprModel
    decreases f,
{
    match f {
        Spelling::Const(b) => ExprModel::Const(b),
        Spelling::Check(lhs, rhs) => ExprModel::Check(spelled_lhs(lhs), rhs),
        Spelling::Not(_, x) => ExprModel::Not(Box::new(spelled(*x))),
        Spelling::And(l, _, _, r) => ExprModel::And(Box::new(spelled(*l)), Box::new(spelled(*r))),
        Spelling::Or(l, _, _, r) => ExprModel::Or(Box::new(spelled(*l)), Box::new(spelled(*r))),
        Spelling::Group(_, x, _) => spelled(*x),
    }
}

/// The text of a spelling.
pub open spec fn spelling_text(f: Spelling) -> Seq<char>
    decreases f,
{
    match f {
        Spelling::Const(true) => seq!['@'],
        Spelling::Const(false) => seq!['!'],
        Spelling::Check(lhs, rhs) => lhs_spelling_text(lhs) + seq![':'] + rhs,
        Spelling::Not(gap, x) => seq!['n', 'o', 't'] + gap + spelling_text(*x),
        Spelling::And(l, before, after, r) => spelling_text(*l) + before + seq!['a', 'n', 'd'] + after
            + spelling_text(*r),
        Spelling::Or(l, before, after, r) => spelling_text(*l) + before + seq!['o', 'r'] + after
            + spelling_text(*r),
        Spelling::Group(before, x, after) => seq!['('] + before + spelling_text(*x) + after + seq![')'],
    }
}

/// Whether a text is whitespace throughout; the empty text is.
pub open spec fn blank(gap: Seq<char>) -> bool {
    all_of(gap, CharClass::Space)
}

/// Whether a left-hand side is written as the grammar reads one: at least
/// one character, none of them whitespace, a colon, a quote or a backslash;
/// and a bare name does not begin like another token (`@`, `!`, `(`, `not`).
pub open spec fn well_written_lhs(lhs: LhsSpelling) -> bool {
    match lhs {
        LhsSpelling::Identifier(name) => {
            &&& name.len() > 0
            &&& all_of(name, CharClass::Lhs)
            &&& name[0] != '@'
            &&& name[0] != '!'
            &&& name[0] != '('
            &&& !has_not(name, 0)
        },
        LhsSpelling::Single(body) => body.len() > 0 && all_of(body, CharClass::Lhs),
        LhsSpelling::Double(body) => body.len() > 0 && all_of(body, CharClass::Lhs),
    }
}

/// Whether the last token of a spelling is a check. A right-hand side takes
/// every character up to the next whitespace, so whitespace has to follow a
/// check wherever the rule goes on.
pub open spec fn ends_in_check(f: Spelling) -> bool
    decreases f,
{
    match f {
        Spelling::Const(_) => false,
        Spelling::Check(_, _) => true,
        Spelling::Not(_, x) => ends_in_check(*x),
        Spelling::And(_, _, _, r) => ends_in_check(*r),
        Spelling::Or(_, _, _, r) => ends_in_check(*r),
        Spelling::Group(_, _, _) => false,
    }
}

/// Whether what follows a spelling that ends at `end` lets its last token
/// end there: the input ends, or whitespace follows a check.
pub open spec fn ends_at(f: Spelling, t: Seq<char>, end: int) -> bool {
    ends_in_check(f) ==> end == t.len() || (0 <= end < t.len() && is_space(t[end]))
}

/// How loosely the outermost operator of a spelling binds: 0 for a
/// constant, a negation or a group, 1 for `and`, 2 for `or`.
pub open spec fn looseness(f: Spelling) -> nat {
    match f {
        Spelling::And(_, _, _, _) => 1,
        Spelling::Or(_, _, _, _) => 2,
        _ => 0,
    }
}

/// Whether a spelling has only whitespace between its tokens, whitespace
/// after each check that is not the end, well-written checks, and
/// parentheses wherever precedence asks for them: around an `and` or `or`
/// under `not`, around one on the right of `and`, around an `or` on the left
/// of `and` or on the right of `or`.
pub open spec fn well_grouped(f: Spelling) -> bool
    decreases f,
{
    match f {
        Spelling::Const(_) => true,
        Spelling::Check(lhs, rhs) => well_written_lhs(lhs) && rhs.len() > 0 && all_of(rhs, CharClass::Rhs),
        Spelling::Not(gap, x) => blank(gap) && looseness(*x) == 0 && well_grouped(*x),
        Spelling::And(l, before, after, r) => {
            &&& blank(before)
            &&& blank(after)
            &&& (ends_in_check(*l) ==> before.len() > 0)
            &&& looseness(*l) <= 1
            &&& looseness(*r) == 0
            &&& well_grouped(*l)
            &&& well_grouped(*r)
        },
        Spelling::Or(l, before, after, r) => {
            &&& blank(before)
            &&& blank(after)
            &&& (ends_in_check(*l) ==> before.len() > 0)
            &&& looseness(*r) <= 1
            &&& well_grouped(*l)
            &&& well_grouped(*r)
        },
        Spelling::Group(before, x, after) => {
            &&& blank(before)
            &&& blank(after)
            &&& (ends_in_check(*x) ==> after.len() > 0)
            &&& well_grouped(*x)
        },
    }
}

/// Whether `t` holds the text `x` from position `o` on.
pub open spec fn holds(t: Seq<char>, o: int, x: Seq<char>) -> bool {
    &&& 0 <= o
    &&& o + x.len() <= t.len()
    &&& forall|k: int| 0 <= k < x.len() ==> t[o + k] == #[trigger] x[k]
}

proof fn lemma_holds_parts(t: Seq<char>, o: int, x: Seq<char>, y: Seq<char>, z: Seq<char>)
    requires
        holds(t, o, x + y + z),
    ensures
        holds(t, o, x),
        holds(t, o + x.len(), y),
        holds(t, o + x.len() + y.len(), z),
{
    let all = x + y + z;
    assert forall|k: int| 0 <= k < x.len() implies t[o + k] == #[trigger] x[k] by {
        assert(all[k] == x[k]);
    }
    assert forall|k: int| 0 <= k < y.len() implies t[o + x.len() + k] == #[trigger] y[k] by {
        assert(all[x.len() + k] == y[k]);
    }
    assert forall|k: int| 0 <= k < z.len() implies t[o + x.len() + y.len() + k] == #[trigger] z[k] by {
        assert(all[x.len() + y.len() + k] == z[k]);
    }
}

proof fn lemma_first_char(f: Spelling)
    requires
        well_grouped(f),
    ensures
        spelling_text(f).len() > 0,
        !is_space(spelling_text(f)[0]),
    decreases f,
{
    match f {
        Spelling::Check(lhs, rhs) => {
            match lhs {
                LhsSpelling::Identifier(name) => {
                    assert(in_class(name[0], CharClass::Lhs));
                },
                _ => {},
            }
        },
        Spelling::And(l, _, _, _) => {
            lemma_first_char(*l);
        },
        Spelling::Or(l, _, _, _) => {
            lemma_first_char(*l);
        },
        _ => {},
    }
}

/// A run goes on through a text of its class.
proof fn lemma_run_through(t: Seq<char>, p: int, x: Seq<char>, class: CharClass)
    requires
        holds(t, p, x),
        all_of(x, class),
    ensures
        run(t, p, class) == x.len() + run(t, p + x.len(), class),
    decreases x.len(),
{
    if x.len() > 0 {
        let rest = x.subrange(1, x.len() as int);
        assert(t[p + 0] == x[0]);
        assert forall|k: int| 0 <= k < rest.len() implies t[p + 1 + k] == #[trigger] rest[k] by {
            assert(rest[k] == x[k + 1]);
        }
        assert forall|k: int| 0 <= k < rest.len() implies in_class(#[trigger] rest[k], class) by {
            assert(rest[k] == x[k + 1]);
        }
        lemma_run_through(t, p + 1, rest, class);
    }
}

/// A run of whitespace goes on through a blank text.
proof fn lemma_run_through_blank(t: Seq<char>, p: int, gap: Seq<char>)
    requires
        holds(t, p, gap),
        blank(gap),
    ensures
        run(t, p, CharClass::Space) == gap.len() + run(t, p + gap.len(), CharClass::Space),
{
    lemma_run_through(t, p, gap, CharClass::Space);
}

/// A check that is written well, and after which the input ends or
/// whitespace follows, is read as it is written.
proof fn lemma_check_spelling(lhs: LhsSpelling, rhs: Seq<char>, t: Seq<char>, o: int)
    requires
        well_grouped(Spelling::Check(lhs, rhs)),
        holds(t, o, spelling_text(Spelling::Check(lhs, rhs))),
        ends_at(Spelling::Check(lhs, rhs), t, o + spelling_text(Spelling::Check(lhs, rhs)).len()),
    ensures
        check_at(t, o) == Some(
            (spelled(Spelling::Check(lhs, rhs)), spelling_text(Spelling::Check(lhs, rhs)).len()),
        ),
        t[o] != '@',
        t[o] != '!',
        t[o] != '(',
        !is_space(t[o]),
        !has_not(t, o),
{
    let colon = seq![':'];
    let x = lhs_spelling_text(lhs) + colon + rhs;
    lemma_holds_parts(t, o, lhs_spelling_text(lhs), colon, rhs);
    let c = o + lhs_spelling_text(lhs).len();
    assert(t[c + 0] == colon[0]);
    lemma_run_through(t, c + 1, rhs, CharClass::Rhs);
    assert(run(t, c + 1 + rhs.len(), CharClass::Rhs) == 0);
    assert(t.subrange(c + 1, c + 1 + rhs.len()) =~= rhs) by {
        assert forall|k: int| 0 <= k < rhs.len() implies t[c + 1 + k] == rhs[k] by {
            assert(t[c + 1 + k] == rhs[k]);
        }
    }
    match lhs {
        LhsSpelling::Identifier(name) => {
            assert(t[o + 0] == name[0]);
            assert(in_class(name[0], CharClass::Lhs));
            if name.len() > 1 {
                assert(t[o + 1] == name[1]);
            }
            if name.len() > 2 {
                assert(t[o + 2] == name[2]);
            }
            lemma_run_through(t, o, name, CharClass::Lhs);
            assert(run(t, c, CharClass::Lhs) == 0);
            assert(t.subrange(o, o + name.len()) =~= name) by {
                assert forall|k: int| 0 <= k < name.len() implies t[o + k] == name[k] by {
                    assert(t[o + k] == name[k]);
                }
            }
        },
        LhsSpelling::Single(body) => {
            let quote = seq!['\''];
            lemma_holds_parts(t, o, quote, body, quote);
            assert(t[o + 0] == quote[0]);
            assert(t[o + 1 + body.len() + 0] == quote[0]);
            lemma_run_through(t, o + 1, body, CharClass::Lhs);
            assert(run(t, o + 1 + body.len(), CharClass::Lhs) == 0);
            assert(t.subrange(o + 1, o + 1 + body.len()) =~= body) by {
                assert forall|k: int| 0 <= k < body.len() implies t[o + 1 + k] == body[k] by {
                    assert(t[o + 1 + k] == body[k]);
                }
            }
        },
        LhsSpelling::Double(body) => {
            let quote = seq!['"'];
            lemma_holds_parts(t, o, quote, body, quote);
            assert(t[o + 0] == quote[0]);
            assert(t[o + 1 + body.len() + 0] == quote[0]);
            lemma_run_through(t, o + 1, body, CharClass::Lhs);
            assert(run(t, o + 1 + body.len(), CharClass::Lhs) == 0);
            assert(t.subrange(o + 1, o + 1 + body.len()) =~= body) by {
                assert forall|k: int| 0 <= k < body.len() implies t[o + 1 + k] == body[k] by {
                    assert(t[o + 1 + k] == body[k]);
                }
            }
        },
    }
}

/// Whitespace before a negation or an atom counts as read.
proof fn lemma_unary_after_blank(t: Seq<char>, p: int, gap: Seq<char>)
    requires
        holds(t, p, gap),
        blank(gap),
    ensures
        unary_at(t, p) == match unary_at(t, p + gap.len()) {
            Some((e, n)) => Some((e, n + gap.len())),
            None => None,
        },
{
    lemma_run_through_blank(t, p, gap);
    lemma_unary_at(t, p);
    lemma_unary_at(t, p + gap.len());
    lemma_atom_at(t, p);
    lemma_atom_at(t, p + gap.len());
}

/// Whitespace before a chain of `and` counts as read.
proof fn lemma_and_after_blank(t: Seq<char>, p: int, gap: Seq<char>)
    requires
        holds(t, p, gap),
        blank(gap),
    ensures
        and_at(t, p) == match and_at(t, p + gap.len()) {
            Some((e, n)) => Some((e, n + gap.len())),
            None => None,
        },
{
    lemma_unary_after_blank(t, p, gap);
    lemma_and_at(t, p);
    lemma_and_at(t, p + gap.len());
}

/// Whitespace before an expression counts as read.
proof fn lemma_expr_after_blank(t: Seq<char>, p: int, gap: Seq<char>)
    requires
        holds(t, p, gap),
        blank(gap),
    ensures
        expr_at(t, p) == match expr_at(t, p + gap.len()) {
            Some((e, n)) => Some((e, n + gap.len())),
            None => None,
        },
{
    lemma_and_after_blank(t, p, gap);
    lemma_expr_at(t, p);
    lemma_expr_at(t, p + gap.len());
}

proof fn lemma_unary_spelling(f: Spelling, t: Seq<char>, o: int)
    requires
        well_grouped(f),
        looseness(f) == 0,
        holds(t, o, spelling_text(f)),
        ends_at(f, t, o + spelling_text(f).len()),
    ensures
        unary_at(t, o) == Some((spelled(f), spelling_text(f).len())),
    decreases f, 0int,
{
    let x = spelling_text(f);
    lemma_first_char(f);
    assert(t[o + 0] == x[0]);
    lemma_unary_at(t, o);
    lemma_atom_at(t, o);
    lemma_group_at(t, o);
    match f {
        Spelling::Check(lhs, rhs) => {
            lemma_check_spelling(lhs, rhs, t, o);
        },
        Spelling::Not(gap, inner) => {
            let word = seq!['n', 'o', 't'];
            lemma_holds_parts(t, o, word, gap, spelling_text(*inner));
            assert(t[o + 0] == word[0] && t[o + 1] == word[1] && t[o + 2] == word[2]);
            lemma_unary_spelling(*inner, t, o + 3 + gap.len());
            lemma_unary_after_blank(t, o + 3, gap);
        },
        Spelling::Group(before, inner, after) => {
            let open = seq!['('];
            let close = seq![')'];
            let mid = spelling_text(*inner);
            lemma_holds_parts(t, o, open + before + mid, after, close);
            lemma_holds_parts(t, o, open, before, mid);
            let start = o + 1 + before.len();
            let end = start + mid.len();
            let last = end + after.len();
            assert(t[last + 0] == close[0]);
            if after.len() > 0 {
                assert(t[end + 0] == after[0]);
            }
            lemma_run_through_blank(t, end, after);
            assert(run(t, last, CharClass::Space) == 0);
            lemma_expr_spelling(*inner, t, start);
            lemma_or_tail(t, spelled(*inner), end);
            lemma_expr_after_blank(t, o + 1, before);
        },
        _ => {},
    }
}

proof fn lemma_and_spelling(f: Spelling, t: Seq<char>, o: int)
    requires
        well_grouped(f),
        looseness(f) <= 1,
        holds(t, o, spelling_text(f)),
        ends_at(f, t, o + spelling_text(f).len()),
    ensures
        and_at(t, o) == Some(
            (
                and_tail(t, spelled(f), o + spelling_text(f).len()).0,
                spelling_text(f).len() + and_tail(t, spelled(f), o + spelling_text(f).len()).1,
            ),
        ),
    decreases f, 1int,
{
    lemma_and_at(t, o);
    match f {
        Spelling::And(l, before, after, r) => {
            let left_text = spelling_text(*l);
            let word = seq!['a', 'n', 'd'];
            let right_text = spelling_text(*r);
            lemma_holds_parts(t, o, left_text + before + word, after, right_text);
            lemma_holds_parts(t, o, left_text, before, word);
            let p = o + left_text.len();
            let w = p + before.len();
            assert(t[w + 0] == word[0] && t[w + 1] == word[1] && t[w + 2] == word[2]);
            if before.len() > 0 {
                assert(t[p + 0] == before[0]);
            }
            lemma_run_through_blank(t, p, before);
            assert(run(t, w, CharClass::Space) == 0);
            lemma_and_spelling(*l, t, o);
            lemma_unary_spelling(*r, t, w + 3 + after.len());
            lemma_unary_after_blank(t, w + 3, after);
            lemma_and_tail(t, spelled(*l), p);
        },
        _ => {
            lemma_unary_spelling(f, t, o);
        },
    }
}

proof fn lemma_expr_spelling(f: Spelling, t: Seq<char>, o: int)
    requires
        well_grouped(f),
        holds(t, o, spelling_text(f)),
        ends_at(f, t, o + spelling_text(f).len()),
        !has_and(t, o + spelling_text(f).len() + run(t, o + spelling_text(f).len(), CharClass::Space)),
    ensures
        expr_at(t, o) == Some(
            (
                or_tail(t, spelled(f), o + spelling_text(f).len()).0,
                spelling_text(f).len() + or_tail(t, spelled(f), o + spelling_text(f).len()).1,
            ),
        ),
    decreases f, 2int,
{
    lemma_expr_at(t, o);
    match f {
        Spelling::Or(l, before, after, r) => {
            let left_text = spelling_text(*l);
            let word = seq!['o', 'r'];
            let right_text = spelling_text(*r);
            lemma_holds_parts(t, o, left_text + before + word, after, right_text);
            lemma_holds_parts(t, o, left_text, before, word);
            let p = o + left_text.len();
            let w = p + before.len();
            assert(t[w + 0] == word[0] && t[w + 1] == word[1]);
            if before.len() > 0 {
                assert(t[p + 0] == before[0]);
            }
            lemma_run_through_blank(t, p, before);
            assert(run(t, w, CharClass::Space) == 0);
            lemma_expr_spelling(*l, t, o);
            lemma_or_tail(t, spelled(*l), p);
            lemma_and_spelling(*r, t, w + 2 + after.len());
            lemma_and_after_blank(t, w + 2, after);
            lemma_and_tail(t, spelled(*r), w + 2 + after.len() + right_text.len());
        },
        _ => {
            lemma_and_spelling(f, t, o);
            lemma_and_tail(t, spelled(f), o + spelling_text(f).len());
        },
    }
}

/// Every well-grouped spelling of an expression parses to that expression,
/// with whitespace before and after it too. So parentheses that precedence
/// does not ask for change nothing, around whichever part of a rule they
/// stand; neither does the whitespace between tokens, nor the kind of
/// quotes around a literal.
pub proof fn lemma_spelling_parses(f: Spelling, before: Seq<char>, after: Seq<char>)
    requires
        well_grouped(f),
        blank(before),
        blank(after),
    ensures
        parsed(before + spelling_text(f) + after) == Ok::<ExprModel, (nat, Expected)>(spelled(f)),
{
    let t = before + spelling_text(f) + after;
    let start = before.len() as int;
    let end = start + spelling_text(f).len();
    assert(holds(t, 0, t));
    lemma_holds_parts(t, 0, before, spelling_text(f), after);
    if after.len() > 0 {
        assert(t[end + 0] == after[0]);
    }
    lemma_run_through_blank(t, end, after);
    assert(run(t, t.len() as int, CharClass::Space) == 0);
    lemma_expr_spelling(f, t, start);
    lemma_or_tail(t, spelled(f), end);
    lemma_expr_after_blank(t, 0, before);
}

/// Two well-grouped spellings of one expression parse alike.
pub proof fn lemma_spellings_agree(f: Spelling, g: Spelling)
    requires
        well_grouped(f),
        well_grouped(g),
        spelled(f) == spelled(g),
    ensures
        parsed(spelling_text(f)) == parsed(spelling_text(g)),
{
    let none = Seq::<char>::empty();
    lemma_spelling_parses(f, none, none);
    lemma_spelling_parses(g, none, none);
    assert(none + spelling_text(f) + none =~= spelling_text(f));
    assert(none + spelling_text(g) + none =~= spelling_text(g));
}

/// Parentheses around any part of a rule that is an expression of its own
/// are redundant: the group parses to what the part alone parses to. After a
/// part that ends in a check, whitespace has to stand before the closing
/// parenthesis, which the right-hand side would take otherwise.
pub proof fn lemma_group_is_redundant(f: Spelling, before: Seq<char>, after: Seq<char>)
    requires
        well_grouped(f),
        blank(before),
        blank(after),
        ends_in_check(f) ==> after.len() > 0,
    ensures
        parsed(spelling_text(Spelling::Group(before, Box::new(f), after))) == parsed(spelling_text(f)),
{
    lemma_spellings_agree(Spelling::Group(before, Box::new(f), after), f);
}

/// A literal in single quotes and the same literal in double quotes are the
/// same left-hand side.
pub proof fn lemma_quotes_agree(body: Seq<char>, rhs: Seq<char>)
    requires
        body.len() > 0,
        all_of(body, CharClass::Lhs),
        rhs.len() > 0,
        all_of(rhs, CharClass::Rhs),
    ensures
        parsed(seq!['\''] + body + seq!['\''] + seq![':'] + rhs) == parsed(
            seq!['"'] + body + seq!['"'] + seq![':'] + rhs,
        ),
        parsed(seq!['"'] + body + seq!['"'] + seq![':'] + rhs) == Ok::<ExprModel, (nat, Expected)>(
            ExprModel::Check(LhsModel::Literal(body), rhs),
        ),
{
    let single = Spelling::Check(LhsSpelling::Single(body), rhs);
    let double = Spelling::Check(LhsSpelling::Double(body), rhs);
    let none = Seq::<char>::empty();
    lemma_spelling_parses(single, none, none);
    lemma_spelling_parses(double, none, none);
    assert(none + spelling_text(single) + none =~= spelling_text(single));
    assert(none + spelling_text(double) + none =~= spelling_text(double));
}

} // verus!
