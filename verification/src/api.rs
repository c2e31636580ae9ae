//! The shapes of the JSON/HTTP surface: request and response bodies, and the
//! path prefix under which every endpoint is served.

use crate::entities::Experiment;
use crate::entities::Run;
use vstd::prelude::*;
use vstd::string::StringExecFns;

verus! {

/// The full path of an endpoint: the fixed API prefix followed by the
/// endpoint's own path.
pub fn get_api_endpoint(endpoint: &str) -> (r: String)
    ensures
        r@ == "/api/2.0/mlflow"@ + endpoint@,
{
    let mut out = String::new();
    out.append("/api/2.0/mlflow");
    out.append(endpoint);
    proof {
        assert(out@ =~= "/api/2.0/mlflow"@ + endpoint@);
    }
    out
}

/// The response of the experiment-list endpoint.
#[derive(Debug)]
pub struct ListExperimentsResponse {
    pub experiments: Vec<Experiment>,
    pub next_page_token: Option<String>,
}

/// The body of an experiment-search request.
#[derive(Debug)]
pub struct SearchExperimentsRequest {
    pub max_results: Option<i64>,
    pub filter_string: Option<String>,
}

/// The body of a create-experiment request.
#[derive(Debug)]
pub struct CreateExperimentRequest {
    pub name: String,
    pub artifact_location: Option<String>,
}

/// The response of the create-experiment endpoint.
#[derive(Debug)]
pub struct CreateExperimentResponse {
    pub experiment: Experiment,
}

/// The body of a delete-experiment request.
#[derive(Debug)]
pub struct DeleteExperimentRequest {
    pub experiment_id: String,
}

/// The response of the delete-experiment endpoint.
#[derive(Debug)]
pub struct DeleteExperimentResponse {
    pub experiment: Experiment,
}

/// The body of a restore-experiment request.
#[derive(Debug)]
pub struct RestoreExperimentRequest {
    pub experiment_id: String,
}

/// The response of the restore-experiment endpoint.
#[derive(Debug)]
pub struct RestoreExperimentResponse {
    pub experiment: Experiment,
}

/// The body of an update-experiment request.
#[derive(Debug)]
pub struct UpdateExperimentRequest {
    pub experiment_id: String,
    pub new_name: String,
}

/// The response of the update-experiment endpoint.
#[derive(Debug)]
pub struct UpdateExperimentResponse {
    pub experiment: Experiment,
}

/// The body of a run-search request.
#[derive(Debug)]
pub struct SearchRunsRequest {
    pub experiment_ids: Vec<String>,
}

/// The query parameters of a get-run request.
#[derive(Debug)]
pub struct GetRunParams {
    pub run_id: String,
}

/// The response of the get-run endpoint.
#[derive(Debug)]
pub struct GetRunResponse {
    pub run: Run,
}

} // verus!
