use mlflow_server::parser::common::Entity;
use mlflow_server::parser::common::Identifier;
use mlflow_server::parser::order_by::order_by_direction;
use mlflow_server::parser::order_by::parse_order_by;
use mlflow_server::parser::order_by::OrderBy;
use mlflow_server::parser::order_by::OrderByDirection;

#[test]
fn test_order_by_direction() {
    let (j, d) = order_by_direction("ASC", 0).unwrap();
    assert_eq!((&"ASC"[j..], d), ("", OrderByDirection::Ascending));

    let (j, d) = order_by_direction("DESC", 0).unwrap();
    assert_eq!((&"DESC"[j..], d), ("", OrderByDirection::Descending));
}

#[test]
fn test_parse_order_by() {
    let input = "attr ASC";
    let (j, ob) = parse_order_by(input, 0).unwrap();
    assert_eq!(
        (&input[j..], ob),
        (
            "",
            OrderBy {
                identifier: Identifier { entity: Entity::Attribute, key: "attr".to_string() },
                ascending: OrderByDirection::Ascending,
            }
        )
    );

    let input = "attr DESC";
    let (j, ob) = parse_order_by(input, 0).unwrap();
    assert_eq!(
        (&input[j..], ob),
        (
            "",
            OrderBy {
                identifier: Identifier { entity: Entity::Attribute, key: "attr".to_string() },
                ascending: OrderByDirection::Descending,
            }
        )
    );

    let input = "attr";
    let (j, ob) = parse_order_by(input, 0).unwrap();
    assert_eq!(
        (&input[j..], ob),
        (
            "",
            OrderBy {
                identifier: Identifier { entity: Entity::Attribute, key: "attr".to_string() },
                ascending: OrderByDirection::Ascending,
            }
        )
    );

    let input = "attribute.attr";
    let (j, ob) = parse_order_by(input, 0).unwrap();
    assert_eq!(
        (&input[j..], ob),
        (
            "",
            OrderBy {
                identifier: Identifier { entity: Entity::Attribute, key: "attr".to_string() },
                ascending: OrderByDirection::Ascending,
            }
        )
    );

    let input = "attr   ASC";
    let (j, ob) = parse_order_by(input, 0).unwrap();
    assert_eq!(
        (&input[j..], ob),
        (
            "",
            OrderBy {
                identifier: Identifier { entity: Entity::Attribute, key: "attr".to_string() },
                ascending: OrderByDirection::Ascending,
            }
        )
    );
}
