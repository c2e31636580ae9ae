//! The entities of the tracking store: database row shapes (`Sql*`) and the
//! externally visible record shapes assembled from them.

use vstd::prelude::*;

verus! {

/// An `experiments` table row.
#[derive(Debug, Clone, PartialEq)]
pub struct SqlExperiment {
    pub experiment_id: i32,
    pub name: String,
    pub artifact_location: String,
    pub lifecycle_stage: String,
}

/// The externally visible experiment record: the row with its id rendered in
/// decimal and its tags merged in.
#[derive(Debug, Clone, PartialEq)]
pub struct Experiment {
    pub experiment_id: String,
    pub name: String,
    pub artifact_location: String,
    pub lifecycle_stage: String,
    pub tags: Vec<ExperimentTag>,
}

/// An `experiment_tags` table row.
#[derive(Debug, Clone, PartialEq)]
pub struct SqlExperimentTag {
    pub experiment_id: i32,
    pub key: String,
    pub value: String,
}

/// The externally visible tag of an experiment.
#[derive(Debug, Clone, PartialEq)]
pub struct ExperimentTag {
    pub key: String,
    pub value: String,
}

/// A `params` table row.
#[derive(Debug, Clone, PartialEq)]
pub struct SqlParam {
    pub run_uuid: String,
    pub key: String,
    pub value: String,
}

/// A parameter of a run.
#[derive(Debug, Clone, PartialEq)]
pub struct Param {
    pub key: String,
    pub value: String,
}

/// A `metrics` table row.  The value is a double held as its IEEE 754 bit
/// pattern; the boundary that speaks SQL converts it to and from a number.
#[derive(Debug, Clone, PartialEq)]
pub struct SqlMetric {
    pub run_uuid: String,
    pub key: String,
    pub value_bits: u64,
    pub timestamp: i64,
    pub step: i64,
}

/// A metric point of a run.  The value is a double held as its IEEE 754 bit
/// pattern; the boundary that speaks JSON converts it to and from a number.
#[derive(Debug, Clone, PartialEq)]
pub struct Metric {
    pub key: String,
    pub value_bits: u64,
    pub timestamp: i64,
    pub step: i64,
}

/// A `tags` table row.
#[derive(Debug, Clone, PartialEq)]
pub struct SqlRunTag {
    pub run_uuid: String,
    pub key: String,
    pub value: String,
}

/// A tag of a run.
#[derive(Debug, Clone, PartialEq)]
pub struct RunTag {
    pub key: String,
    pub value: String,
}

/// The data lists of a run.
#[derive(Debug, Clone, PartialEq)]
pub struct RunData {
    pub params: Vec<Param>,
    pub metrics: Vec<Metric>,
    pub tags: Vec<RunTag>,
}

/// The descriptive part of a run.
#[derive(Debug, Clone, PartialEq)]
pub struct RunInfo {
    pub name: String,
    pub run_uuid: String,
    pub run_id: String,
    pub experiment_id: String,
    pub user_id: String,
    pub status: String,
    pub start_time: i64,
    pub end_time: i64,
    pub lifecycle_stage: String,
    pub artifact_uri: String,
}

/// A `runs` table row.
#[derive(Debug, Clone, PartialEq)]
pub struct SqlRun {
    pub run_uuid: String,
    pub name: String,
    pub source_type: String,
    pub source_name: String,
    pub entry_point_name: String,
    pub user_id: String,
    pub status: String,
    pub start_time: i64,
    pub end_time: i64,
    pub source_version: String,
    pub lifecycle_stage: String,
    pub artifact_uri: String,
    pub experiment_id: i32,
}

/// The externally visible run record.
#[derive(Debug, Clone, PartialEq)]
pub struct Run {
    pub info: RunInfo,
    pub data: RunData,
}

} // verus!
