use mlflow_server::parser::common::alphanumeric_or_underscore;
use mlflow_server::parser::common::backtick_delimited;
use mlflow_server::parser::common::double_quote_delimited;
use mlflow_server::parser::common::float_literal;
use mlflow_server::parser::common::identifier;
use mlflow_server::parser::common::integer_literal;
use mlflow_server::parser::common::literal;
use mlflow_server::parser::common::string_literal;
use mlflow_server::parser::common::Entity;
use mlflow_server::parser::common::Identifier;
use mlflow_server::parser::common::Literal;

#[test]
fn test_alphanumeric_or_underscore() {
    let (j, w) = alphanumeric_or_underscore("a", 0).unwrap();
    assert_eq!((&"a"[j..], w.as_str()), ("", "a"));
    let (j, w) = alphanumeric_or_underscore("a_b", 0).unwrap();
    assert_eq!((&"a_b"[j..], w.as_str()), ("", "a_b"));
    let (j, w) = alphanumeric_or_underscore("a_b = 'x'", 0).unwrap();
    assert_eq!((&"a_b = 'x'"[j..], w.as_str()), (" = 'x'", "a_b"));
}

#[test]
fn test_double_quote_delimited() {
    let (j, w) = double_quote_delimited("\"a\"", 0).unwrap();
    assert_eq!((&"\"a\""[j..], w.as_str()), ("", "a"));
    let (j, w) = double_quote_delimited("\"abc\"", 0).unwrap();
    assert_eq!((&"\"abc\""[j..], w.as_str()), ("", "abc"));
    let (j, w) = double_quote_delimited("\"a b c\"", 0).unwrap();
    assert_eq!((&"\"a b c\""[j..], w.as_str()), ("", "a b c"));
    let (j, w) = double_quote_delimited("\"abc\" = 'value'", 0).unwrap();
    assert_eq!((&"\"abc\" = 'value'"[j..], w.as_str()), (" = 'value'", "abc"));
}

#[test]
fn test_backtick_delimited() {
    let (j, w) = backtick_delimited("`a`", 0).unwrap();
    assert_eq!((&"`a`"[j..], w.as_str()), ("", "a"));
    let (j, w) = backtick_delimited("`abc`", 0).unwrap();
    assert_eq!((&"`abc`"[j..], w.as_str()), ("", "abc"));
    let (j, w) = backtick_delimited("`a b c`", 0).unwrap();
    assert_eq!((&"`a b c`"[j..], w.as_str()), ("", "a b c"));
    let (j, w) = backtick_delimited("`abc` = 'value'", 0).unwrap();
    assert_eq!((&"`abc` = 'value'"[j..], w.as_str()), (" = 'value'", "abc"));
}

#[test]
fn test_string_literal() {
    let (j, lit) = string_literal("'hello'", 0).unwrap();
    assert_eq!((&"'hello'"[j..], lit), ("", Literal::String("hello".to_string())));

    let (j, lit) = string_literal("'he%'", 0).unwrap();
    assert_eq!((&"'he%'"[j..], lit), ("", Literal::String("he%".to_string())));

    let (j, lit) = string_literal("''", 0).unwrap();
    assert_eq!((&"''"[j..], lit), ("", Literal::String("".to_string())));
}

#[test]
fn test_integer_literal() {
    let (j, lit) = integer_literal("1", 0).unwrap();
    assert_eq!((&"1"[j..], lit), ("", Literal::Integer(1)));

    let (j, lit) = integer_literal("100", 0).unwrap();
    assert_eq!((&"100"[j..], lit), ("", Literal::Integer(100)));

    let (j, lit) = integer_literal("-1", 0).unwrap();
    assert_eq!((&"-1"[j..], lit), ("", Literal::Integer(-1)));
}

#[test]
fn test_float_literal() {
    let (j, lit) = float_literal("0.1", 0).unwrap();
    assert_eq!((&"0.1"[j..], lit), ("", Literal::Float("0.1".to_string())));

    let (j, lit) = float_literal("0.123", 0).unwrap();
    assert_eq!((&"0.123"[j..], lit), ("", Literal::Float("0.123".to_string())));

    let (j, lit) = float_literal("-0.1", 0).unwrap();
    assert_eq!((&"-0.1"[j..], lit), ("", Literal::Float("-0.1".to_string())));
}

#[test]
fn test_literal() {
    let (j, lit) = literal("1", 0).unwrap();
    assert_eq!((&"1"[j..], lit), ("", Literal::Integer(1)));
    let (j, lit) = literal("1.0", 0).unwrap();
    assert_eq!((&"1.0"[j..], lit), ("", Literal::Float("1".to_string())));
    let (j, lit) = literal("'string'", 0).unwrap();
    assert_eq!((&"'string'"[j..], lit), ("", Literal::String("string".to_string())));
}

#[test]
fn test_identifier() {
    let (j, id) = identifier("key", 0).unwrap();
    assert_eq!(
        (&"key"[j..], id),
        ("", Identifier { entity: Entity::Attribute, key: "key".to_string() })
    );

    let (j, id) = identifier("attribute.key", 0).unwrap();
    assert_eq!(
        (&"attribute.key"[j..], id),
        ("", Identifier { entity: Entity::Attribute, key: "key".to_string() })
    );

    let (j, id) = identifier("attribute.\"key\"", 0).unwrap();
    assert_eq!(
        (&"attribute.\"key\""[j..], id),
        ("", Identifier { entity: Entity::Attribute, key: "key".to_string() })
    );

    let (j, id) = identifier("tag.key", 0).unwrap();
    assert_eq!(
        (&"tag.key"[j..], id),
        ("", Identifier { entity: Entity::Tag, key: "key".to_string() })
    );

    let (j, id) = identifier("param.key", 0).unwrap();
    assert_eq!(
        (&"param.key"[j..], id),
        ("", Identifier { entity: Entity::Param, key: "key".to_string() })
    );

    let (j, id) = identifier("metric.key", 0).unwrap();
    assert_eq!(
        (&"metric.key"[j..], id),
        ("", Identifier { entity: Entity::Metric, key: "key".to_string() })
    );
}
