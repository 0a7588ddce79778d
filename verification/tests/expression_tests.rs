use mud_perspective::expressions::{is_float_literal, tokenize_expr, Condition, ConditionValue, ExprToken};

fn lit(s: &str) -> ConditionValue {
    ConditionValue::Literal(s.to_string())
}

#[test]
fn numbers_follow_the_float_grammar() {
    for s in ["10", "-2.5", "+.5", "1.", "1e5", "1E+3", "2.5e-3", "inf", "-Infinity", "NaN"] {
        assert!(is_float_literal(s), "{s}");
    }
    for s in ["", ".", "e5", "1e", "1_000", "1.2.3", "--1", "0x10", " 1"] {
        assert!(!is_float_literal(s), "{s}");
    }
}

#[test]
fn condition_tokens_are_read() {
    let tokens = tokenize_expr("$Weather == 'rain' && Source.hp >= 10 or not `a b`").unwrap();
    assert_eq!(
        tokens,
        vec![
            ExprToken::Val(ConditionValue::Variable("weather".to_string())),
            ExprToken::Eq,
            ExprToken::Val(lit("rain")),
            ExprToken::And,
            ExprToken::Val(ConditionValue::EntityProperty("source".to_string(), "hp".to_string())),
            ExprToken::GtEq,
            ExprToken::Val(ConditionValue::Number("10".to_string())),
            ExprToken::Or,
            ExprToken::Not,
            ExprToken::Val(lit("a b")),
        ]
    );
}

#[test]
fn quoted_literals_resolve_escapes() {
    assert_eq!(tokenize_expr(r#""a\"b""#).unwrap(), vec![ExprToken::Val(lit("a\"b"))]);
    assert_eq!(tokenize_expr(r"'\u{41}x\n'").unwrap(), vec![ExprToken::Val(lit("Ax\n"))]);
    assert_eq!(tokenize_expr("'open").unwrap(), vec![ExprToken::Val(lit("open"))]);
    assert_eq!(tokenize_expr("TRUE != False").unwrap(), vec![ExprToken::Val(lit("TRUE")), ExprToken::NotEq, ExprToken::Val(lit("False"))]);
}

#[test]
fn lone_operator_characters_are_errors() {
    assert_eq!(tokenize_expr("a = b"), Err("Expected '==' at index 2".to_string()));
    assert_eq!(tokenize_expr("é & b"), Err("Expected '&&' at index 3".to_string()));
    assert_eq!(tokenize_expr("a |"), Err("Expected '||' at index 2".to_string()));
}

#[test]
fn conditions_group_as_written() {
    let c = Condition::parse("not $dark or (a == b) and c", 32).unwrap();
    assert_eq!(
        c,
        Condition::Or(
            Box::new(Condition::Not(Box::new(Condition::Value(ConditionValue::Variable("dark".to_string()))))),
            Box::new(Condition::And(
                Box::new(Condition::Eq(lit("a"), lit("b"))),
                Box::new(Condition::Value(lit("c"))),
            )),
        )
    );
    assert_eq!(
        Condition::parse("x < 3 || y > 2 || z", 32).unwrap(),
        Condition::Or(
            Box::new(Condition::Or(
                Box::new(Condition::Lt(lit("x"), ConditionValue::Number("3".to_string()))),
                Box::new(Condition::Gt(lit("y"), ConditionValue::Number("2".to_string()))),
            )),
            Box::new(Condition::Value(lit("z"))),
        )
    );
}

#[test]
fn malformed_conditions_are_errors() {
    assert_eq!(Condition::parse("a ==", 32), Err("Expected expression or value".to_string()));
    assert_eq!(Condition::parse("(a", 32), Err("Expected ')'".to_string()));
    assert_eq!(Condition::parse("a b", 32), Err("Unexpected trailing tokens in expression".to_string()));
    assert_eq!(Condition::parse("!a == b", 32), Err("Left side of comparison must be a value".to_string()));
    assert_eq!(Condition::parse("a == (b)", 32), Ok(Condition::Eq(lit("a"), lit("b"))));
    assert_eq!(Condition::parse("a == !b", 32), Err("Right side of comparison must be a value".to_string()));
    assert_eq!(Condition::parse("", 32), Err("Expected expression or value".to_string()));
}

#[test]
fn nesting_is_limited() {
    assert_eq!(Condition::parse("a", 3), Err("Maximum expression nesting depth of 3 exceeded".to_string()));
    assert_eq!(Condition::parse("a", 4), Ok(Condition::Value(lit("a"))));
    assert_eq!(Condition::parse("(a)", 5), Err("Maximum expression nesting depth of 5 exceeded".to_string()));
    assert_eq!(Condition::parse("(a)", 8), Ok(Condition::Value(lit("a"))));
}
