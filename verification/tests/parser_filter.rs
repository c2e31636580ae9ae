use mlflow_server::parser::common::Entity;
use mlflow_server::parser::common::Identifier;
use mlflow_server::parser::common::Literal;
use mlflow_server::parser::filter::comparator;
use mlflow_server::parser::filter::comparison_op;
use mlflow_server::parser::filter::logical_operator;
use mlflow_server::parser::filter::parse_filter;
use mlflow_server::parser::filter::Comparator;
use mlflow_server::parser::filter::Comparison;
use mlflow_server::parser::filter::LogicalOperator;

#[test]
fn test_comparator() {
    let (j, op) = comparator("=", 0).unwrap();
    assert_eq!((&"="[j..], op), ("", Comparator::Equal));

    let (j, op) = comparator(" =", 0).unwrap();
    assert_eq!((&" ="[j..], op), ("", Comparator::Equal));

    let (j, op) = comparator("= ", 0).unwrap();
    assert_eq!((&"= "[j..], op), ("", Comparator::Equal));

    let (j, op) = comparator(" = ", 0).unwrap();
    assert_eq!((&" = "[j..], op), ("", Comparator::Equal));

    let (j, op) = comparator("!=", 0).unwrap();
    assert_eq!((&"!="[j..], op), ("", Comparator::NotEqual));

    let (j, op) = comparator("<", 0).unwrap();
    assert_eq!((&"<"[j..], op), ("", Comparator::LessThan));

    let (j, op) = comparator("<=", 0).unwrap();
    assert_eq!((&"<="[j..], op), ("", Comparator::LessThanOrEqual));

    let (j, op) = comparator(">", 0).unwrap();
    assert_eq!((&">"[j..], op), ("", Comparator::GreaterThan));

    let (j, op) = comparator(">=", 0).unwrap();
    assert_eq!((&">="[j..], op), ("", Comparator::GreaterThanOrEqual));

    let (j, op) = comparator("LIKE", 0).unwrap();
    assert_eq!((&"LIKE"[j..], op), ("", Comparator::Like));

    let (j, op) = comparator("like", 0).unwrap();
    assert_eq!((&"like"[j..], op), ("", Comparator::Like));

    let (j, op) = comparator("LiKe", 0).unwrap();
    assert_eq!((&"LiKe"[j..], op), ("", Comparator::Like));

    let (j, op) = comparator("ILIKE", 0).unwrap();
    assert_eq!((&"ILIKE"[j..], op), ("", Comparator::ILike));
}

#[test]
fn test_comparison_op() {
    let expected = Comparison {
        operator: Comparator::Equal,
        left: Identifier { entity: Entity::Attribute, key: "key".to_string() },
        right: Literal::String("value".to_string()),
    };
    let expected_contains_spaces = Comparison {
        operator: Comparator::Equal,
        left: Identifier { entity: Entity::Attribute, key: "k e y".to_string() },
        right: Literal::String("value".to_string()),
    };

    let input = "attribute.key = 'value'";
    let (j, c) = comparison_op(input, 0).unwrap();
    assert_eq!((&input[j..], c), ("", expected.clone()));

    let input = "attribute.key='value'";
    let (j, c) = comparison_op(input, 0).unwrap();
    assert_eq!((&input[j..], c), ("", expected.clone()));

    let input = "attribute.\"key\" = 'value'";
    let (j, c) = comparison_op(input, 0).unwrap();
    assert_eq!((&input[j..], c), ("", expected.clone()));

    let input = "attribute.\"k e y\" = 'value'";
    let (j, c) = comparison_op(input, 0).unwrap();
    assert_eq!((&input[j..], c), ("", expected_contains_spaces.clone()));

    let input = "attribute.`key`='value'";
    let (j, c) = comparison_op(input, 0).unwrap();
    assert_eq!((&input[j..], c), ("", expected));

    let input = "attribute.`k e y` = 'value'";
    let (j, c) = comparison_op(input, 0).unwrap();
    assert_eq!((&input[j..], c), ("", expected_contains_spaces));
}

#[test]
fn test_logical_operator() {
    let (j, op) = logical_operator("and", 0).unwrap();
    assert_eq!((&"and"[j..], op), ("", LogicalOperator::And));

    let (j, op) = logical_operator(" and", 0).unwrap();
    assert_eq!((&" and"[j..], op), ("", LogicalOperator::And));

    let (j, op) = logical_operator("and ", 0).unwrap();
    assert_eq!((&"and "[j..], op), ("", LogicalOperator::And));

    let (j, op) = logical_operator(" and ", 0).unwrap();
    assert_eq!((&" and "[j..], op), ("", LogicalOperator::And));

    let (j, op) = logical_operator("AND", 0).unwrap();
    assert_eq!((&"AND"[j..], op), ("", LogicalOperator::And));

    let (j, op) = logical_operator("AnD", 0).unwrap();
    assert_eq!((&"AnD"[j..], op), ("", LogicalOperator::And));
}

#[test]
fn test_parse_comparisons() {
    let input = "attribute.key = 'value'";
    let (j, comps) = parse_filter(input, 0);
    let expected = vec![Comparison {
        operator: Comparator::Equal,
        left: Identifier { entity: Entity::Attribute, key: "key".to_string() },
        right: Literal::String("value".to_string()),
    }];
    assert_eq!((&input[j..], comps), ("", expected));

    let input = "key = 'value'";
    let (j, comps) = parse_filter(input, 0);
    let expected = vec![Comparison {
        operator: Comparator::Equal,
        left: Identifier { entity: Entity::Attribute, key: "key".to_string() },
        right: Literal::String("value".to_string()),
    }];
    assert_eq!((&input[j..], comps), ("", expected));

    let input = "attribute.key = 'value' AND metric.key > 0.5";
    let (j, comps) = parse_filter(input, 0);
    let expected = vec![
        Comparison {
            operator: Comparator::Equal,
            left: Identifier { entity: Entity::Attribute, key: "key".to_string() },
            right: Literal::String("value".to_string()),
        },
        Comparison {
            operator: Comparator::GreaterThan,
            left: Identifier { entity: Entity::Metric, key: "key".to_string() },
            right: Literal::Float("0.5".to_string()),
        },
    ];
    assert_eq!((&input[j..], comps), ("", expected));
}
