use std::collections::HashMap;

use oslo_policy::{
    parse_expression, AttributeMap, Checker, Expected, Expression, LeftHandSide, Request,
    RequestModel, RoleChecker, RuleChecker, RuleSet, Ruling, SimpleToken, Target, Token, Verdict,
};

/// What can stand where an expression is built: a constant or an expression.
trait Operand {
    fn expr(self) -> Expression;
}

impl Operand for bool {
    fn expr(self) -> Expression {
        Expression::Const(self)
    }
}

impl Operand for Expression {
    fn expr(self) -> Expression {
        self
    }
}

fn make_check(l: &str, r: &str) -> Expression {
    Expression::Check(LeftHandSide::Identifier(l.to_owned()), r.to_owned())
}

fn make_literal_check(l: &str, r: &str) -> Expression {
    Expression::Check(LeftHandSide::Literal(l.to_owned()), r.to_owned())
}

fn make_and(l: impl Operand, r: impl Operand) -> Expression {
    Expression::And(Box::new(l.expr()), Box::new(r.expr()))
}

fn make_or(l: impl Operand, r: impl Operand) -> Expression {
    Expression::Or(Box::new(l.expr()), Box::new(r.expr()))
}

fn make_not(e: impl Operand) -> Expression {
    Expression::Not(Box::new(e.expr()))
}

fn roles(names: &[&str]) -> Vec<String> {
    names.iter().map(|&n| n.to_owned()).collect()
}

fn pair(x: &str, y: &str) -> (String, String) {
    (x.to_owned(), y.to_owned())
}

fn attrs<const N: usize>(pairs: [(String, String); N]) -> AttributeMap {
    let mut map = AttributeMap::new();
    for (name, value) in HashMap::from(pairs) {
        map.insert(name, value);
    }
    map
}

fn target_of(pairs: &[(&str, &str)]) -> AttributeMap {
    let mut map = AttributeMap::new();
    for (name, value) in pairs {
        map.insert((*name).to_owned(), (*value).to_owned());
    }
    map
}

fn new_ruleset() -> RuleSet<RoleChecker> {
    RuleSet::new()
}

#[test]
fn test_serialization() {
    let expr = make_and(true, false);
    assert_eq!(expr.to_string(), "@ and !");

    let expr = make_or(true, false);
    assert_eq!(expr.to_string(), "@ or !");

    let expr = make_or(true, make_or(false, make_not(true)));
    assert_eq!(expr.to_string(), "@ or ! or not @");
    let expr = make_or(make_or(true, false), make_not(true));
    assert_eq!(expr.to_string(), "@ or ! or not @");

    let expr = make_or(true, make_and(false, make_not(true)));
    assert_eq!(expr.to_string(), "@ or ! and not @");

    let expr = make_or(make_and(true, false), make_not(true));
    assert_eq!(expr.to_string(), "@ and ! or not @");

    let expr = make_and(true, make_and(false, make_not(true)));
    assert_eq!(expr.to_string(), "@ and ! and not @");
    let expr = make_and(make_and(true, false), make_not(true));
    assert_eq!(expr.to_string(), "@ and ! and not @");

    let expr = make_and(true, make_or(false, make_not(true)));
    assert_eq!(expr.to_string(), "@ and (! or not @)");

    let expr = make_and(make_or(true, false), make_not(true));
    assert_eq!(expr.to_string(), "(@ or !) and not @");
}

#[test]
fn test_basic() {
    assert_eq!(parse_expression("@ and !"), Ok(make_and(true, false)));
    assert_eq!(
        parse_expression("    @    or   !  "),
        Ok(make_or(true, false))
    );
}

fn assert_all_identical(inputs: &[&'static str]) {
    let expr0 = parse_expression(inputs[0]);
    assert!(expr0.is_ok(), "input was {:?}", inputs[0]);
    for input in inputs.iter() {
        let expr = parse_expression(input);
        assert_eq!(
            expr, expr0,
            "left input was {:?}, right input was {:?}",
            input, inputs[0]
        );
    }
}

#[test]
fn test_all_identical() {
    assert_all_identical(&[
        "( @ ) and ! or @",
        "@ and ( ! ) or @",
        "@ and ! or ( @ )",
        "( @ ) and ! or ( @ )",
        "@ and ( ! ) or ( @ )",
        "( @ ) and ( ! ) or ( @ )",
        "( @ and ! ) or @",
        "( ( @ ) and ! ) or @",
        "( @ and ( ! ) ) or @",
        "( ( @ and ! ) ) or @",
        "( @ and ! or @ )",
    ]);
    assert_all_identical(&[
        "not ( @ ) and ! or @",
        "not @ and ( ! ) or @",
        "not @ and ! or ( @ )",
        "( not @ ) and ! or @",
        "( not @ and ! ) or @",
        "( not @ and ! or @ )",
    ]);
    assert_all_identical(&[
        "( @ ) and not ! or @",
        "@ and ( not ! ) or @",
        "@ and not ( ! ) or @",
        "@ and not ! or ( @ )",
        "( @ and not ! ) or @",
        "( @ and not ! or @ )",
    ]);
    assert_all_identical(&[
        "( @ ) and ! or not @",
        "@ and ( ! ) or not @",
        "@ and ! or not ( @ )",
        "@ and ! or ( not @ )",
        "( @ and ! ) or not @",
        "( @ and ! or not @ )",
    ]);
}

#[test]
fn test_parsing_of_checks() {
    let input = "user_id:%(target.user_id)s and role:compute:get_all";
    let lhs = make_check("user_id", "%(target.user_id)s");
    let rhs = make_check("role", "compute:get_all");
    let parsed = parse_expression(input);
    assert_eq!(parsed, Ok(make_and(lhs, rhs)));
    assert_eq!(parsed.unwrap().to_string(), input);

    let input = "is_admin:True or 'Member':%(role.name)s";
    let lhs = make_check("is_admin", "True");
    let rhs = make_literal_check("Member", "%(role.name)s");
    let parsed = parse_expression(input);
    assert_eq!(parsed, Ok(make_or(lhs, rhs)));
    assert_eq!(parsed.unwrap().to_string(), input);

    let input = "\"Member\":%(role.name)s";
    let check = make_literal_check("Member", "%(role.name)s");
    let parsed = parse_expression(input);
    assert_eq!(parsed, Ok(check));
    // Rendering writes single quotes, so this does not give `input` back.
    assert_eq!(parsed.unwrap().to_string(), "'Member':%(role.name)s");

    // The empty string is not a rule.
    let input = "";
    assert!(parse_expression(input).is_err());

    // Whitespace inside a check is not allowed.
    let input = "'foo bar':%(role.name)s";
    assert!(parse_expression(input).is_err());

    // Escape sequences in literals are not allowed.
    for escape_sequence in ["\\n", "\\\\", "\\\"", "\\'"] {
        let input = format!("'foo{escape_sequence}bar':%(role.name)s");
        assert!(parse_expression(&input).is_err());
    }
}

#[test]
fn test_ruleset_basic() {
    let token = SimpleToken {
        roles: roles(&["guest", "member"]),
        api_attrs: attrs([pair("user_id", "u-1"), pair("project_id", "p-2")]),
    };
    let target = target_of(&[
        ("target.user_id", "u-1"),
        ("user_id", "u-2"),
        ("some_number", "1"),
        ("some_bool", "True"),
    ]);
    let req = Request::new(&token).with_target(&target);

    let test_cases = [
        ("@", true),
        ("!", false),
        ("role:member", true),
        ("not role:member", false),
        ("role:admin", false),
        ("role:admin or role:guest", true),
        ("role:admin and role:guest", false),
        ("user_id:u-1", true),
        ("user_id:u-2", false),
        ("'u-2':%(user_id)s", true),
        ("'True':%(some_bool)s", true),
        ("'1':%(some_number)s", true),
        ("domain_id:%(does_not_exist)s", false),
        ("not (@ or @)", false),
        ("not @ or @", true),
        ("@ and (! or (not !))", true),
    ];
    for (rule_str, expected) in test_cases {
        let mut ruleset = new_ruleset();
        ruleset.add_rule("test", rule_str).unwrap();
        let actual = ruleset.evaluate("test", &req);
        assert_eq!(actual, expected, "rule was: {rule_str}");
    }
}

#[test]
fn test_realistic_roles() {
    let service_token = SimpleToken {
        roles: roles(&["service"]),
        api_attrs: AttributeMap::new(),
    };
    let service_req = Request::new(&service_token).with_target(&());

    let admin_token = SimpleToken {
        roles: roles(&["admin"]),
        api_attrs: attrs([pair("domain_id", "admin_domain_id")]),
    };
    let admin_req = Request::new(&admin_token);

    let user_token = SimpleToken {
        roles: roles(&["member"]),
        api_attrs: attrs([pair("user_id", "u-1")]),
    };
    let user_target1 = target_of(&[("user_id", "u-1")]);
    let user_req1 = Request::new(&user_token).with_target(&user_target1);
    let user_target2 = target_of(&[("user_id", "u-2")]);
    let user_req2 = Request::new(&user_token).with_target(&user_target2);

    let rules = HashMap::from([
        pair("admin_required", "role:admin"),
        pair(
            "cloud_admin",
            "rule:admin_required and domain_id:admin_domain_id",
        ),
        pair("service_role", "role:service"),
        pair(
            "service_or_admin",
            "rule:admin_required or rule:service_role",
        ),
        pair(
            "owner",
            "user_id:%(user_id)s or user_id:%(target.token.user_id)s",
        ),
        pair(
            "service_admin_or_owner",
            "rule:service_or_admin or rule:owner",
        ),
    ]);
    let mut ruleset = new_ruleset();
    ruleset.add_rules(rules.into_iter().collect()).unwrap();

    for (rule_name, expected) in [("service_or_admin", true), ("non_existent_rule", false)] {
        let actual = ruleset.evaluate(rule_name, &service_req);
        assert_eq!(actual, expected, "rule was: {rule_name}");
    }
    for (rule_name, expected) in [("cloud_admin", true), ("service_admin_or_owner", true)] {
        let actual = ruleset.evaluate(rule_name, &admin_req);
        assert_eq!(actual, expected, "rule was: {rule_name}");
    }
    let actual = ruleset.evaluate("service_admin_or_owner", &user_req1);
    assert_eq!(actual, true, "rule was: service_admin_or_owner");
    let actual = ruleset.evaluate("service_admin_or_owner", &user_req2);
    assert_eq!(actual, false, "rule was: service_admin_or_owner");
}

#[test]
fn precedence_of_and_over_or() {
    let plain = parse_expression("@ and ! or @");
    assert_eq!(plain, parse_expression("(@ and !) or @"));
    assert_eq!(plain, Ok(make_or(make_and(true, false), true)));
    let grouped = parse_expression("@ and (! or @)");
    assert_eq!(grouped, Ok(make_and(true, make_or(false, true))));
    assert_ne!(plain, grouped);
}

#[test]
fn parentheses_around_a_rule_without_checks_are_redundant() {
    for input in ["@", " ! ", "not @", "@ and ! or not @", "( @ or ! ) and @", "not (@ or !) and !"] {
        let plain = parse_expression(input);
        assert!(plain.is_ok(), "input was {input:?}");
        let once = format!("({input})");
        let twice = format!("( ({input}) )");
        assert_eq!(parse_expression(&once), plain, "input was {input:?}");
        assert_eq!(parse_expression(&twice), plain, "input was {input:?}");
        let inside = format!("! or ({input}) and @");
        let expected = make_or(false, make_and(plain.unwrap(), true));
        assert_eq!(parse_expression(&inside), Ok(expected), "input was {input:?}");
    }
}

#[test]
fn chains_are_left_associative() {
    assert_eq!(
        parse_expression("@ or ! or @"),
        Ok(make_or(make_or(true, false), true))
    );
    assert_eq!(
        parse_expression("@ and ! and @"),
        Ok(make_and(make_and(true, false), true))
    );
}

#[test]
fn negation_binds_tighter_than_and() {
    assert_eq!(
        parse_expression("not @ and !"),
        Ok(make_and(make_not(true), false))
    );
    assert_eq!(parse_expression("not not @"), Ok(make_not(make_not(true))));
    assert_eq!(
        parse_expression("not(@ or !)"),
        Ok(make_not(make_or(true, false)))
    );
}

#[test]
fn whitespace_between_tokens_is_insignificant() {
    let expected = Ok(make_and(make_check("a", "b"), make_not(true)));
    assert_eq!(parse_expression("a:b and not @"), expected);
    assert_eq!(parse_expression("\t a:b \n and \n not \t @ \n"), expected);
    assert_eq!(parse_expression("(a:b )and not@"), expected);
}

#[test]
fn whitespace_inside_a_token_is_rejected() {
    assert!(parse_expression("'foo bar':x").is_err());
    assert!(parse_expression("\"foo\tbar\":x").is_err());
    assert!(parse_expression("foo :x").is_err());
    assert!(parse_expression("foo: x").is_err());
}

#[test]
fn quoting_styles_give_the_same_literal() {
    let single = parse_expression("'Member':%(role.name)s");
    let double = parse_expression("\"Member\":%(role.name)s");
    assert_eq!(single, double);
    assert_eq!(single, Ok(make_literal_check("Member", "%(role.name)s")));
    assert!(parse_expression("'Member\":x").is_err());
}

#[test]
fn only_the_first_colon_splits_a_check() {
    assert_eq!(
        parse_expression("rule:compute:get_all"),
        Ok(make_check("rule", "compute:get_all"))
    );
    assert_eq!(parse_expression("a:'b c'").is_err(), true);
    assert_eq!(parse_expression("a:'b'"), Ok(make_check("a", "'b'")));
}

#[test]
fn a_right_hand_side_takes_a_closing_parenthesis() {
    assert_eq!(parse_expression("a:b)"), Ok(make_check("a", "b)")));
    assert_eq!(parse_expression("(a:b)"), Ok(make_check("(a", "b)")));
    assert_eq!(parse_expression("(a:b )"), Ok(make_check("a", "b")));
}

#[test]
fn words_need_no_whitespace_around_them() {
    assert_eq!(parse_expression("notx:y"), Ok(make_not(make_check("x", "y"))));
    assert_eq!(parse_expression("not:x"), Ok(make_check("not", "x")));
    assert_eq!(parse_expression("@and!or@"), Ok(make_or(make_and(true, false), true)));
    assert_eq!(parse_expression("@ orx:y"), Ok(make_or(true, make_check("x", "y"))));
    assert_eq!(
        parse_expression("a:b and:c"),
        Err(oslo_policy::GrammarError { line: 1, column: 5, offset: 4, expected: Expected::EndOfInput })
    );
}

#[test]
fn malformed_rules_are_rejected() {
    for input in ["", "   ", "@ and", "or @", "(@", "@)", "a:", ":b", "a", "@ !", "not", "( )"] {
        assert!(parse_expression(input).is_err(), "input was {input:?}");
    }
}

#[test]
fn error_at_the_start_expects_an_expression() {
    let err = parse_expression("").unwrap_err();
    assert_eq!((err.line, err.column, err.offset), (1, 1, 0));
    assert_eq!(err.expected, Expected::Expression);
    let err = parse_expression("\n\n  and @").unwrap_err();
    assert_eq!((err.line, err.column, err.offset), (1, 1, 0));
    assert_eq!(err.expected, Expected::Expression);
}

#[test]
fn error_after_an_expression_expects_the_end() {
    let err = parse_expression("@ !").unwrap_err();
    assert_eq!((err.line, err.column, err.offset), (1, 3, 2));
    assert_eq!(err.expected, Expected::EndOfInput);
    let err = parse_expression("@ or\n!\n  and").unwrap_err();
    assert_eq!((err.line, err.column, err.offset), (3, 3, 9));
    assert_eq!(err.expected, Expected::EndOfInput);
    let err = parse_expression("é:ü\n )").unwrap_err();
    assert_eq!((err.line, err.column, err.offset), (2, 2, 5));
    assert_eq!(err.expected, Expected::EndOfInput);
}

#[test]
fn rendering_of_checks_and_negations() {
    assert_eq!(make_check("role", "admin").to_string(), "role:admin");
    assert_eq!(make_literal_check("u-2", "%(user_id)s").to_string(), "'u-2':%(user_id)s");
    assert_eq!(
        LeftHandSide::Literal("x".to_owned()).to_string(),
        "'x'"
    );
    assert_eq!(LeftHandSide::Identifier("x".to_owned()).to_string(), "x");
    assert_eq!(make_not(make_or(true, false)).to_string(), "not @ or !");
    assert_eq!(
        make_and(make_or(true, false), make_or(false, true)).to_string(),
        "(@ or !) and (! or @)"
    );
}

#[test]
fn interpolation_spans_the_whole_right_hand_side() {
    let target = target_of(&[("user_id", "u-2"), ("", "empty")]);
    let resolve = oslo_policy::resolve_target_attr_refs::<AttributeMap>;
    assert_eq!(resolve("%(user_id)s", &target), Some("u-2"));
    assert_eq!(resolve("%(missing)s", &target), None);
    assert_eq!(resolve("%()s", &target), Some("empty"));
    assert_eq!(resolve("x%(user_id)s", &target), Some("x%(user_id)s"));
    assert_eq!(resolve("%(user_id)sx", &target), Some("%(user_id)sx"));
    assert_eq!(resolve("%(s", &target), Some("%(s"));
    assert_eq!(resolve("plain", &target), Some("plain"));
    assert_eq!(resolve("", &target), Some(""));
    assert_eq!(oslo_policy::resolve_target_attr_refs("%(user_id)s", &()), None);
}

#[test]
fn attribute_map_keeps_the_last_value() {
    let mut map = AttributeMap::new();
    assert_eq!(map.get_attribute("a"), None);
    map.insert("a".to_owned(), "1".to_owned());
    map.insert("a".to_owned(), "2".to_owned());
    assert_eq!(map.get_attribute("a"), Some("2"));
    assert_eq!(().get_attribute("a"), None);
}

#[test]
fn missing_target_attribute_denies() {
    let token = SimpleToken {
        roles: roles(&[]),
        api_attrs: attrs([pair("domain_id", "d")]),
    };
    let target = target_of(&[("other", "d")]);
    let req = Request::new(&token).with_target(&target);
    let mut ruleset = new_ruleset();
    ruleset.add_rule("r", "domain_id:%(does_not_exist)s").unwrap();
    ruleset.add_rule("n", "not domain_id:%(does_not_exist)s").unwrap();
    ruleset.add_rule("l", "'d':%(does_not_exist)s").unwrap();
    ruleset.add_rule("ok", "domain_id:%(other)s").unwrap();
    assert_eq!(ruleset.evaluate("r", &req), false);
    assert_eq!(ruleset.evaluate("n", &req), true);
    assert_eq!(ruleset.evaluate("l", &req), false);
    assert_eq!(ruleset.evaluate("ok", &req), true);
}

#[test]
fn missing_api_attribute_denies() {
    let token = SimpleToken { roles: roles(&["member"]), api_attrs: AttributeMap::new() };
    let req = Request::new(&token);
    let mut ruleset = new_ruleset();
    ruleset.add_rule("r", "user_id:u-1").unwrap();
    assert_eq!(ruleset.evaluate("r", &req), false);
}

#[test]
fn undefined_rule_denies() {
    let token = SimpleToken { roles: roles(&["admin"]), api_attrs: AttributeMap::new() };
    let req = Request::new(&token);
    let mut ruleset = new_ruleset();
    assert_eq!(ruleset.evaluate("nothing", &req), false);
    ruleset.add_rule("r", "rule:nothing").unwrap();
    ruleset.add_rule("n", "not rule:nothing").unwrap();
    assert_eq!(ruleset.evaluate("r", &req), false);
    assert_eq!(ruleset.evaluate("n", &req), true);
}

#[test]
fn rule_composition() {
    let token = SimpleToken {
        roles: roles(&["admin"]),
        api_attrs: attrs([pair("domain_id", "admin_domain_id")]),
    };
    let req = Request::new(&token);
    let mut ruleset = new_ruleset();
    ruleset.add_rule("admin_required", "role:admin").unwrap();
    ruleset
        .add_rule("cloud_admin", "rule:admin_required and domain_id:admin_domain_id")
        .unwrap();
    assert_eq!(ruleset.evaluate("cloud_admin", &req), true);
}

#[test]
fn readding_a_rule_overwrites_it() {
    let token = SimpleToken { roles: roles(&[]), api_attrs: AttributeMap::new() };
    let req = Request::new(&token);
    let mut ruleset = new_ruleset();
    ruleset.add_rule("r", "@").unwrap();
    assert_eq!(ruleset.evaluate("r", &req), true);
    ruleset.add_rule("r", "!").unwrap();
    assert_eq!(ruleset.evaluate("r", &req), false);
}

#[test]
fn failed_add_rule_leaves_the_rule_set_unchanged() {
    let token = SimpleToken { roles: roles(&[]), api_attrs: AttributeMap::new() };
    let req = Request::new(&token);
    let mut ruleset = new_ruleset();
    ruleset.add_rule("r", "@").unwrap();
    let err = ruleset.add_rule("r", "@ and\n  !!").unwrap_err();
    assert_eq!(err.rule_name, "r");
    assert_eq!((err.error.line, err.error.column, err.error.offset), (2, 4, 9));
    assert_eq!(err.error.expected, Expected::EndOfInput);
    assert_eq!(ruleset.evaluate("r", &req), true);
    let err = ruleset.add_rule("fresh", "and").unwrap_err();
    assert_eq!(err.rule_name, "fresh");
    assert_eq!(err.error.expected, Expected::Expression);
    assert_eq!(ruleset.evaluate("fresh", &req), false);
}

#[test]
fn add_rules_keeps_what_came_before_the_first_failure() {
    let token = SimpleToken { roles: roles(&[]), api_attrs: AttributeMap::new() };
    let req = Request::new(&token);
    let mut ruleset = new_ruleset();
    let err = ruleset
        .add_rules(vec![pair("a", "@"), pair("b", "(@"), pair("c", "@"), pair("d", "")])
        .unwrap_err();
    assert_eq!(err.rule_name, "b");
    assert_eq!(ruleset.evaluate("a", &req), true);
    assert_eq!(ruleset.evaluate("b", &req), false);
    assert_eq!(ruleset.evaluate("c", &req), false);
    assert!(ruleset.add_rules(Vec::new()).is_ok());
}

#[test]
fn cyclic_rules_deny_at_the_depth_limit() {
    let token = SimpleToken { roles: roles(&[]), api_attrs: AttributeMap::new() };
    let req = Request::new(&token);
    let mut ruleset = new_ruleset();
    ruleset.add_rule("loop", "rule:loop").unwrap();
    ruleset.add_rule("ping", "not rule:pong").unwrap();
    ruleset.add_rule("pong", "rule:ping").unwrap();
    assert_eq!(ruleset.evaluate("loop", &req), false);
    // With an even limit, the innermost reference is denied under an even
    // number of negations.
    assert_eq!(ruleset.evaluate_within("ping", &req, 0), true);
    assert_eq!(ruleset.evaluate_within("ping", &req, 1), true);
    assert_eq!(ruleset.evaluate_within("ping", &req, 2), false);
}

#[test]
fn depth_limit_counts_nested_references() {
    let token = SimpleToken { roles: roles(&[]), api_attrs: AttributeMap::new() };
    let req = Request::new(&token);
    let mut ruleset = new_ruleset();
    ruleset.add_rule("a", "rule:b").unwrap();
    ruleset.add_rule("b", "rule:c").unwrap();
    ruleset.add_rule("c", "@").unwrap();
    assert_eq!(ruleset.evaluate("a", &req), true);
    ruleset.set_depth_limit(2);
    assert_eq!(ruleset.evaluate("a", &req), true);
    ruleset.set_depth_limit(1);
    assert_eq!(ruleset.evaluate("a", &req), false);
    assert_eq!(ruleset.evaluate("b", &req), true);
    assert_eq!(ruleset.evaluate_within("c", &req, 0), true);
}

/// A checker that holds where the right-hand side is the token's `user_id`,
/// and that defers a right-hand side `via-` and a name to the rule of that name.
struct OwnerChecker;

impl Checker for OwnerChecker {
    fn decides(&self, _: RequestModel, _: vstd::seq::Seq<char>) -> Ruling {
        unreachable!()
    }

    fn check<T: Token, G: Target>(&self, req: &Request<T, G>, rhs: &str) -> Verdict {
        match rhs.strip_prefix("via-") {
            Some(rule) => Verdict::Defer(rule.to_owned()),
            None => Verdict::Decided(req.token.get_api_attribute("user_id") == Some(rhs)),
        }
    }
}

#[test]
fn custom_checkers_take_precedence_over_api_attributes() {
    let token = SimpleToken {
        roles: roles(&["member"]),
        api_attrs: attrs([pair("user_id", "u-1"), pair("owner", "someone")]),
    };
    let req = Request::new(&token);
    let mut ruleset: RuleSet<OwnerChecker> = RuleSet::new();
    ruleset.add_rule("by_attr", "owner:someone").unwrap();
    ruleset.add_rule("by_checker", "owner:u-1").unwrap();
    ruleset.add_rule("deferred", "owner:via-member_rule").unwrap();
    ruleset.add_rule("member_rule", "role:member").unwrap();
    assert_eq!(ruleset.evaluate("by_attr", &req), true);
    assert_eq!(ruleset.evaluate("by_checker", &req), false);
    ruleset.add_checker("owner", OwnerChecker);
    assert_eq!(ruleset.evaluate("by_attr", &req), false);
    assert_eq!(ruleset.evaluate("by_checker", &req), true);
    assert_eq!(ruleset.evaluate("deferred", &req), true);
    assert_eq!(ruleset.evaluate_within("deferred", &req, 0), false);
}

#[test]
fn default_rule_set_has_the_built_in_checkers() {
    let token = SimpleToken { roles: roles(&["member"]), api_attrs: AttributeMap::new() };
    let req = Request::new(&token);
    let mut ruleset: RuleSet<RoleChecker> = RuleSet::default();
    ruleset.add_rule("m", "role:member").unwrap();
    ruleset.add_rule("r", "rule:m").unwrap();
    ruleset.add_rule("alias", "member_of:member").unwrap();
    assert_eq!(ruleset.evaluate("m", &req), true);
    assert_eq!(ruleset.evaluate("r", &req), true);
    assert_eq!(ruleset.evaluate("alias", &req), false);
    ruleset.add_checker("member_of", RoleChecker);
    assert_eq!(ruleset.evaluate("alias", &req), true);
}

#[test]
fn simple_token_answers_from_its_fields() {
    let token = SimpleToken {
        roles: roles(&["guest", "member"]),
        api_attrs: attrs([pair("user_id", "u-1")]),
    };
    assert_eq!(token.has_role("member"), true);
    assert_eq!(token.has_role("memb"), false);
    assert_eq!(token.has_role(""), false);
    assert_eq!(token.get_api_attribute("user_id"), Some("u-1"));
    assert_eq!(token.get_api_attribute("project_id"), None);
}

#[test]
fn built_in_checkers_answer_as_documented() {
    let token = SimpleToken { roles: roles(&["member"]), api_attrs: AttributeMap::new() };
    let req = Request::new(&token);
    assert_eq!(RoleChecker.check(&req, "member"), Verdict::Decided(true));
    assert_eq!(RoleChecker.check(&req, "admin"), Verdict::Decided(false));
    assert_eq!(RuleChecker.check(&req, "other"), Verdict::Defer("other".to_owned()));
}
