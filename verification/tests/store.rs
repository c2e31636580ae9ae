use mlflow_server::api::get_api_endpoint;
use mlflow_server::entities::ExperimentTag;
use mlflow_server::entities::SqlExperiment;
use mlflow_server::entities::SqlExperimentTag;
use mlflow_server::entities::SqlMetric;
use mlflow_server::entities::SqlParam;
use mlflow_server::entities::SqlRun;
use mlflow_server::entities::SqlRunTag;
use mlflow_server::error::MlflowError;
use mlflow_server::store::artifact_location_for;
use mlflow_server::store::assemble_experiment;
use mlflow_server::store::assemble_experiment_tag;
use mlflow_server::store::assemble_metric;
use mlflow_server::store::assemble_param;
use mlflow_server::store::assemble_run;
use mlflow_server::store::assemble_run_tag;
use mlflow_server::store::experiment_id_string;
use mlflow_server::store::experiment_tags_insert_query;
use mlflow_server::store::parse_experiment_id;
use mlflow_server::store::search_runs_query;
use mlflow_server::text::escape_single_quotes;
use mlflow_server::text::trim_str;

#[test]
fn experiment_ids_parse_exactly() {
    assert_eq!(parse_experiment_id("123").unwrap(), 123);
    assert_eq!(parse_experiment_id("0").unwrap(), 0);
    assert_eq!(parse_experiment_id("-7").unwrap(), -7);
    assert_eq!(parse_experiment_id("+5").unwrap(), 5);
    assert_eq!(parse_experiment_id("2147483647").unwrap(), i32::MAX);
    assert_eq!(parse_experiment_id("-2147483648").unwrap(), i32::MIN);
    for bad in ["", "+", "-", "12a", "2147483648", "99999999999999999999", " 3"] {
        match parse_experiment_id(bad) {
            Err(MlflowError::InvalidParameter(m)) => {
                assert_eq!(m, format!("Invalid experiment id: {}", bad))
            },
            _ => panic!("expected an invalid-parameter error for {:?}", bad),
        }
    }
}

#[test]
fn experiment_ids_render_in_decimal() {
    assert_eq!(experiment_id_string(0), "0");
    assert_eq!(experiment_id_string(42), "42");
    assert_eq!(experiment_id_string(-13), "-13");
    assert_eq!(experiment_id_string(i32::MAX), "2147483647");
    assert_eq!(experiment_id_string(i32::MIN), "-2147483648");
}

#[test]
fn artifact_location_ends_with_id() {
    let loc = artifact_location_for("s3://bucket/artifacts", 17);
    assert_eq!(loc, "s3://bucket/artifacts/17");
    assert!(loc.ends_with("/17"));
}

#[test]
fn experiment_assembly_keeps_every_field() {
    let row = SqlExperiment {
        experiment_id: 9,
        name: "exp".to_string(),
        artifact_location: "loc/9".to_string(),
        lifecycle_stage: "active".to_string(),
    };
    let tag = assemble_experiment_tag(SqlExperimentTag {
        experiment_id: 9,
        key: "key".to_string(),
        value: "value".to_string(),
    });
    assert_eq!(tag, ExperimentTag { key: "key".to_string(), value: "value".to_string() });
    let e = assemble_experiment(row, vec![tag.clone()]);
    assert_eq!(e.experiment_id, "9");
    assert_eq!(e.name, "exp");
    assert_eq!(e.artifact_location, "loc/9");
    assert_eq!(e.lifecycle_stage, "active");
    assert_eq!(e.tags, vec![tag]);
}

#[test]
fn run_assembly_mirrors_the_row() {
    let row = SqlRun {
        run_uuid: "abcd1234".to_string(),
        name: "run".to_string(),
        source_type: "LOCAL".to_string(),
        source_name: "src".to_string(),
        entry_point_name: "main".to_string(),
        user_id: "user".to_string(),
        status: "FINISHED".to_string(),
        start_time: 10,
        end_time: 20,
        source_version: "v1".to_string(),
        lifecycle_stage: "active".to_string(),
        artifact_uri: "loc/9/abcd1234".to_string(),
        experiment_id: 9,
    };
    let params = vec![
        assemble_param(SqlParam {
            run_uuid: "abcd1234".to_string(),
            key: "lr".to_string(),
            value: "0.01".to_string(),
        }),
    ];
    let metrics = vec![
        assemble_metric(SqlMetric {
            run_uuid: "abcd1234".to_string(),
            key: "loss".to_string(),
            value_bits: 0.25f64.to_bits(),
            timestamp: 111,
            step: 3,
        }),
    ];
    let tags = vec![
        assemble_run_tag(SqlRunTag {
            run_uuid: "abcd1234".to_string(),
            key: "stage".to_string(),
            value: "dev".to_string(),
        }),
    ];
    let run = assemble_run(row, params.clone(), metrics.clone(), tags.clone());
    assert_eq!(run.info.run_uuid, "abcd1234");
    assert_eq!(run.info.run_id, "abcd1234");
    assert_eq!(run.info.experiment_id, "9");
    assert_eq!(run.info.status, "FINISHED");
    assert_eq!(run.info.start_time, 10);
    assert_eq!(run.info.end_time, 20);
    // The data lists carry exactly the rows handed in.
    assert_eq!(run.data.params, params);
    assert_eq!(run.data.metrics, metrics);
    assert_eq!(run.data.tags, tags);
    assert_eq!(run.data.params[0].key, "lr");
    assert_eq!(run.data.params[0].value, "0.01");
    assert_eq!(f64::from_bits(run.data.metrics[0].value_bits), 0.25);
    assert_eq!(run.data.metrics[0].timestamp, 111);
    assert_eq!(run.data.metrics[0].step, 3);
    assert_eq!(run.data.tags[0].key, "stage");
    assert_eq!(run.data.tags[0].value, "dev");
}

#[test]
fn search_runs_query_splices_ids() {
    let ids = vec!["1".to_string(), "2".to_string()];
    assert_eq!(
        search_runs_query(&ids),
        "SELECT * FROM runs WHERE experiment_id IN (1,2)"
    );
    let one = vec!["0".to_string()];
    assert_eq!(
        search_runs_query(&one),
        "SELECT * FROM runs WHERE experiment_id IN (0)"
    );
}

#[test]
fn tag_insert_query_has_one_group_per_tag() {
    assert_eq!(
        experiment_tags_insert_query(1),
        "INSERT INTO experiment_tags (experiment_id, key, value) VALUES (?, ?, ?)"
    );
    assert_eq!(
        experiment_tags_insert_query(3),
        "INSERT INTO experiment_tags (experiment_id, key, value) VALUES \
         (?, ?, ?), (?, ?, ?), (?, ?, ?)"
    );
}

#[test]
fn error_kinds_map_to_status_codes() {
    assert_eq!(MlflowError::InvalidParameter("m".to_string()).status_code(), 400);
    assert_eq!(MlflowError::NotFound("m".to_string()).status_code(), 404);
    assert_eq!(MlflowError::Conflict("m".to_string()).status_code(), 409);
    assert_eq!(MlflowError::Storage("m".to_string()).status_code(), 500);
    assert_eq!(MlflowError::Storage("boom".to_string()).message(), "boom");
}

#[test]
fn api_endpoints_share_the_prefix() {
    assert_eq!(get_api_endpoint("/experiments/list"), "/api/2.0/mlflow/experiments/list");
    assert_eq!(get_api_endpoint("/runs/search"), "/api/2.0/mlflow/runs/search");
}

#[test]
fn text_helpers_behave() {
    assert_eq!(escape_single_quotes("a'b''c"), "a''b''''c");
    assert_eq!(escape_single_quotes("plain"), "plain");
    assert_eq!(trim_str("  a b \t\n"), "a b");
    assert_eq!(trim_str("\u{b}\u{c}x\u{c}"), "x");
    assert_eq!(trim_str("   "), "");
    // Trimming removes the whole Unicode White_Space set, as str::trim does.
    assert_eq!(trim_str("\u{a0}\u{2003}x\u{3000}\u{85}"), "x");
    assert_eq!(trim_str("\u{2028}\u{202f}\u{205f}\u{1680}"), "");
}
