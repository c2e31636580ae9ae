use mlflow_server::error::MlflowError;
use mlflow_server::parser::common::Entity;
use mlflow_server::parser::common::Identifier;
use mlflow_server::parser::common::Literal;
use mlflow_server::parser::filter::parse_filter;
use mlflow_server::parser::filter::Comparator;
use mlflow_server::parser::filter::Comparison;
use mlflow_server::parser::order_by::OrderBy;
use mlflow_server::parser::order_by::OrderByDirection;
use mlflow_server::query::add_order_by_tie_breaker;
use mlflow_server::query::build_search_experiments_query;
use mlflow_server::query::is_valid_key;
use mlflow_server::query::search_experiments_query;

#[test]
fn empty_filter_yields_no_comparisons() {
    let (j, comps) = parse_filter("", 0);
    assert_eq!(j, 0);
    assert!(comps.is_empty());
    // Through the whole pipeline an empty (or absent) filter is no error.
    let q = search_experiments_query(Some(""), None).unwrap();
    let q2 = search_experiments_query(None, None).unwrap();
    assert_eq!(q, q2);
    assert_eq!(
        q,
        "SELECT experiments.* FROM experiments WHERE 1 = 1 \
         ORDER BY experiment_id ASC LIMIT $1"
    );
}

#[test]
fn bare_name_defaults_to_attribute() {
    let input = "my_name_1 = 'v'";
    let (j, comps) = parse_filter(input, 0);
    assert_eq!(j, input.len());
    assert_eq!(
        comps,
        vec![Comparison {
            operator: Comparator::Equal,
            left: Identifier { entity: Entity::Attribute, key: "my_name_1".to_string() },
            right: Literal::String("v".to_string()),
        }]
    );
}

#[test]
fn qualifier_prefixes_select_entity() {
    for (prefix, entity) in [
        ("attribute.", Entity::Attribute),
        ("tag.", Entity::Tag),
        ("param.", Entity::Param),
        ("metric.", Entity::Metric),
    ] {
        let input = format!("{}k = 'v'", prefix);
        let (j, comps) = parse_filter(&input, 0);
        assert_eq!(j, input.len());
        assert_eq!(comps.len(), 1);
        assert_eq!(comps[0].left.entity, entity);
        assert_eq!(comps[0].left.key, "k");
    }
}

#[test]
fn conjunction_with_float_literal() {
    let input = "a = 'v' AND b > 0.5";
    let (j, comps) = parse_filter(input, 0);
    assert_eq!(j, input.len());
    assert_eq!(comps.len(), 2);
    assert_eq!(comps[1].operator, Comparator::GreaterThan);
    assert_eq!(comps[1].right, Literal::Float("0.5".to_string()));
}

#[test]
fn trailing_input_is_a_failure() {
    let r = search_experiments_query(Some("a = 'v' ###"), None);
    match r {
        Err(MlflowError::InvalidParameter(m)) => assert_eq!(m, "Invalid filter:  ###"),
        _ => panic!("expected an invalid-parameter error"),
    }
    // A filter that is cut short fails the same way.
    let r = search_experiments_query(Some("a = "), None);
    assert!(matches!(r, Err(MlflowError::InvalidParameter(_))));
    // Trailing whitespace alone is trimmed away and is fine — including
    // Unicode whitespace such as a no-break space.
    assert!(search_experiments_query(Some("a = 'v'   "), None).is_ok());
    assert!(search_experiments_query(Some("\u{a0}a = 'v'\u{3000}"), None).is_ok());
}

#[test]
fn attribute_only_filter_reads_experiments_alone() {
    let q = search_experiments_query(Some("a = 'v'"), None).unwrap();
    assert_eq!(
        q,
        "SELECT experiments.* FROM experiments WHERE a = 'v' \
         ORDER BY experiment_id ASC LIMIT $1"
    );
    assert!(!q.contains("experiment_tags"));
}

#[test]
fn two_distinct_tag_keys_count_two() {
    let q = search_experiments_query(Some("tag.k1 = 'a' AND tag.k2 = 'b'"), None).unwrap();
    assert_eq!(
        q,
        "SELECT experiments.* FROM experiments INNER JOIN (\
         SELECT experiment_id FROM experiment_tags WHERE \
         (key = 'k1' AND value = 'a') OR (key = 'k2' AND value = 'b') \
         GROUP BY experiment_id HAVING COUNT(*) >= 2\
         ) ft ON ft.experiment_id = experiments.experiment_id \
         WHERE 1 = 1 ORDER BY experiment_id ASC LIMIT $1"
    );
    assert!(q.contains("HAVING COUNT(*) >= 2"));
}

#[test]
fn repeated_tag_key_counts_once() {
    let q = search_experiments_query(
        Some("tag.key LIKE 'val%' AND tag.key LIKE '%ue1'"),
        None,
    )
    .unwrap();
    assert!(q.contains("(key = 'key' AND value LIKE 'val%' AND value LIKE '%ue1')"));
    assert!(q.contains("HAVING COUNT(*) >= 1"));
}

#[test]
fn mixed_attribute_and_tag_filter() {
    let q = search_experiments_query(Some("name = 'x' AND tag.k = 'y'"), None).unwrap();
    assert_eq!(
        q,
        "SELECT experiments.* FROM experiments INNER JOIN (\
         SELECT experiment_id FROM experiment_tags WHERE \
         (key = 'k' AND value = 'y') \
         GROUP BY experiment_id HAVING COUNT(*) >= 1\
         ) ft ON ft.experiment_id = experiments.experiment_id \
         WHERE name = 'x' ORDER BY experiment_id ASC LIMIT $1"
    );
}

#[test]
fn order_by_gets_tie_breaker() {
    let obs = vec!["name DESC".to_string()];
    let q = search_experiments_query(None, Some(&obs)).unwrap();
    assert!(q.ends_with("ORDER BY name DESC, experiment_id ASC LIMIT $1"));

    let obs = vec!["name".to_string()];
    let q = search_experiments_query(None, Some(&obs)).unwrap();
    assert!(q.ends_with("ORDER BY name ASC, experiment_id ASC LIMIT $1"));
}

#[test]
fn order_by_on_experiment_id_is_kept_alone() {
    let obs = vec!["experiment_id DESC".to_string()];
    let q = search_experiments_query(None, Some(&obs)).unwrap();
    assert!(q.ends_with("ORDER BY experiment_id DESC LIMIT $1"));
}

#[test]
fn tie_breaker_on_parsed_clauses() {
    let obs = vec![OrderBy {
        identifier: Identifier { entity: Entity::Attribute, key: "name".to_string() },
        ascending: OrderByDirection::Descending,
    }];
    let out = add_order_by_tie_breaker(obs);
    assert_eq!(out.len(), 2);
    assert_eq!(out[1].identifier.key, "experiment_id");
    assert_eq!(out[1].ascending, OrderByDirection::Ascending);
}

#[test]
fn invalid_filter_entity_is_rejected() {
    let r = search_experiments_query(Some("param.key = 'value'"), None);
    match r {
        Err(MlflowError::InvalidParameter(m)) => {
            assert_eq!(m, "Experiment search only supports filtering by attribute or tag")
        },
        _ => panic!("expected an invalid-parameter error"),
    }
    let r = search_experiments_query(Some("metric.m > 0.5"), None);
    assert!(r.is_err());
}

#[test]
fn invalid_order_by_entity_is_rejected() {
    let obs = vec!["tag.k".to_string()];
    let r = search_experiments_query(None, Some(&obs));
    match r {
        Err(MlflowError::InvalidParameter(m)) => {
            assert_eq!(m, "Experiment search only supports ordering by attribute")
        },
        _ => panic!("expected an invalid-parameter error"),
    }
}

#[test]
fn residual_order_by_is_rejected() {
    let obs = vec!["name DESC extra".to_string()];
    let r = search_experiments_query(None, Some(&obs));
    match r {
        Err(MlflowError::InvalidParameter(m)) => {
            assert_eq!(m, "Invalid order by clause:  extra")
        },
        _ => panic!("expected an invalid-parameter error"),
    }
    let obs = vec!["???".to_string()];
    let r = search_experiments_query(None, Some(&obs));
    match r {
        Err(MlflowError::InvalidParameter(m)) => {
            assert_eq!(m, "Invalid order by clause: ???")
        },
        _ => panic!("expected an invalid-parameter error"),
    }
}

#[test]
fn string_literal_quotes_are_doubled() {
    // A literal holding a quote cannot come out of the parser, but the
    // builder is a public entry and must keep such a value safe.
    let comps = vec![Comparison {
        operator: Comparator::Equal,
        left: Identifier { entity: Entity::Attribute, key: "name".to_string() },
        right: Literal::String("O'Brien".to_string()),
    }];
    let q = build_search_experiments_query(&comps, &Vec::new());
    assert!(q.contains("name = 'O''Brien'"));
}

#[test]
fn key_validity_follows_the_name_production() {
    assert!(is_valid_key("plain_name"));
    assert!(is_valid_key("a b c"));
    assert!(is_valid_key("a\\\"b"));
    assert!(is_valid_key(""));
    // A backtick beside an unescaped quote fits no name form.
    assert!(!is_valid_key("`\""));
    let comps = vec![Comparison {
        operator: Comparator::Equal,
        left: Identifier { entity: Entity::Attribute, key: "`\"".to_string() },
        right: Literal::String("v".to_string()),
    }];
    let r = mlflow_server::query::check_identifier_keys(&comps, &Vec::new());
    match r {
        Err(MlflowError::InvalidParameter(m)) => {
            assert_eq!(m, "Invalid identifier key: `\"")
        },
        _ => panic!("expected an invalid-parameter error"),
    }
}

#[test]
fn integer_literal_beyond_i64_fails_the_filter() {
    let r = search_experiments_query(Some("a = 99999999999999999999"), None);
    assert!(matches!(r, Err(MlflowError::InvalidParameter(_))));
    // The largest value that fits still parses.
    let (j, comps) = parse_filter("a = 9223372036854775807", 0);
    assert_eq!(j, "a = 9223372036854775807".len());
    assert_eq!(comps[0].right, Literal::Integer(i64::MAX));
}

#[test]
fn unicode_names_parse_as_bare_names() {
    let input = "übung = 'v'";
    let (j, comps) = parse_filter(input, 0);
    assert_eq!(comps.len(), 1);
    assert_eq!(comps[0].left.key, "übung");
    // The position counts characters, not bytes.
    assert_eq!(j, input.chars().count());
}

#[test]
fn keywords_match_as_prefixes() {
    // The connective is matched as a bare prefix, exactly as the grammar
    // says: `android` is read as `and` followed by the identifier `roid`.
    let input = "a = 1 android = 2";
    let (j, comps) = parse_filter(input, 0);
    assert_eq!(j, input.len());
    assert_eq!(comps.len(), 2);
    assert_eq!(comps[1].left.key, "roid");
    // Likewise a direction keyword: `ascending` is `asc` plus residue.
    let obs = vec!["attr ascending".to_string()];
    let r = search_experiments_query(None, Some(&obs));
    match r {
        Err(MlflowError::InvalidParameter(m)) => {
            assert_eq!(m, "Invalid order by clause: ending")
        },
        _ => panic!("expected an invalid-parameter error"),
    }
}

#[test]
fn keyword_operators_render_uppercase() {
    let q = search_experiments_query(Some("a ilike 'x%' AND b like '%y'"), None).unwrap();
    assert!(q.contains("a ILIKE 'x%'"));
    assert!(q.contains("b LIKE '%y'"));
}

#[test]
fn integer_literals_are_reserialised() {
    let q = search_experiments_query(Some("a = 007 AND b = -5"), None).unwrap();
    assert!(q.contains("a = 7"));
    assert!(q.contains("b = -5"));
}

#[test]
fn whitespace_around_comparators_is_optional() {
    let q = search_experiments_query(Some("a='b'"), None).unwrap();
    assert!(q.contains("WHERE a = 'b'"));
    let q = search_experiments_query(Some("a>=3"), None).unwrap();
    assert!(q.contains("WHERE a >= 3"));
}

#[test]
fn scientific_notation_is_not_a_float() {
    // The grammar has no exponent form: the float stops at the `e` and the
    // residue fails the request.
    let r = search_experiments_query(Some("a > 1.5e3"), None);
    match r {
        Err(MlflowError::InvalidParameter(m)) => assert_eq!(m, "Invalid filter: e3"),
        _ => panic!("expected an invalid-parameter error"),
    }
}

#[test]
fn float_literals_are_reserialised() {
    let cases = [
        ("007.2500", "7.25"),
        ("1.0", "1"),
        ("-0.50", "-0.5"),
        ("0.0", "0"),
        ("-0.0", "-0"),
        ("10.010", "10.01"),
    ];
    for (input, expected) in cases {
        let filter = format!("a = {}", input);
        let (j, comps) = parse_filter(&filter, 0);
        assert_eq!(j, filter.chars().count());
        assert_eq!(comps[0].right, Literal::Float(expected.to_string()), "case {}", input);
    }
    let q = search_experiments_query(Some("a > 0.50"), None).unwrap();
    assert!(q.contains("a > 0.5 "));
}
