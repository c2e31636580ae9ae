//! The pure half of the tracking store: experiment-id parsing and rendering,
//! default artifact locations, the queries whose text depends on the request,
//! and the assembly of database rows into the externally visible records.
//!
//! The database round-trips themselves happen outside this crate; they hand
//! rows in and take records and query texts back.

use crate::entities::Experiment;
use crate::entities::ExperimentTag;
use crate::entities::Metric;
use crate::entities::Param;
use crate::entities::Run;
use crate::entities::RunData;
use crate::entities::RunInfo;
use crate::entities::RunTag;
use crate::entities::SqlExperiment;
use crate::entities::SqlExperimentTag;
use crate::entities::SqlMetric;
use crate::entities::SqlParam;
use crate::entities::SqlRun;
use crate::entities::SqlRunTag;
use crate::error::ErrorView;
use crate::error::MlflowError;
use crate::parser::common::digits_to_u64;
use crate::parser::common::lemma_scan_digits_bounds;
use crate::parser::common::scan_digits;
use crate::parser::common::scan_digits_exec;
use crate::text::dec_int;
use crate::text::digits_val;
use crate::text::i64_to_string;
use crate::text::is_digit_char;
use crate::text::join_strings;
use crate::text::spec_join;
use vstd::prelude::*;
use vstd::string::StrSliceExecFns;
use vstd::string::StringExecFns;

verus! {

/// Whether `s` is a decimal integer lexeme: an optional sign and at least
/// one digit, nothing else.
pub open spec fn is_id_lexeme(s: Seq<char>) -> bool {
    let b: int = if s.len() > 0 && (s[0] == '-' || s[0] == '+') {
        1
    } else {
        0
    };
    s.len() > b && forall |k: int| b <= k < s.len() ==> is_digit_char(#[trigger] s[k])
}

/// The value of a decimal integer lexeme.
pub open spec fn id_value(s: Seq<char>) -> int
    recommends
        is_id_lexeme(s),
{
    let b: int = if s.len() > 0 && (s[0] == '-' || s[0] == '+') {
        1
    } else {
        0
    };
    let v = digits_val(s.subrange(b, s.len() as int)) as int;
    if s.len() > 0 && s[0] == '-' {
        -v
    } else {
        v
    }
}

/// Parses an experiment id handed in by a client.  Succeeds exactly on a
/// decimal integer that fits a 32-bit id; anything else is an invalid
/// parameter.
pub fn parse_experiment_id(s: &str) -> (r: Result<i32, MlflowError>)
    ensures
        r is Ok <==> is_id_lexeme(s@) && -2147483648 <= id_value(s@) <= 2147483647,
        r matches Ok(v) ==> v as int == id_value(s@),
        r matches Err(e) ==> e@ == ErrorView::InvalidParameter("Invalid experiment id: "@ + s@),
{
    proof {
        reveal_strlit("Invalid experiment id: ");
    }
    let n: usize = s.unicode_len();
    let neg = n > 0 && s.get_char(0) == '-';
    let b: usize = if n > 0 && (s.get_char(0) == '-' || s.get_char(0) == '+') {
        1
    } else {
        0
    };
    let mut ok: bool = false;
    let mut value: i32 = 0;
    if n > b {
        let j = scan_digits_exec(s, b);
        if j == n {
            proof {
                lemma_scan_digits_bounds(s@, b as int);
            }
            match digits_to_u64(s, b, n) {
                Some(v) => {
                    proof {
                        assert(s@.subrange(b as int, n as int) =~= s@.subrange(
                            b as int,
                            s@.len() as int,
                        ));
                    }
                    if neg {
                        if v <= 2147483648 {
                            ok = true;
                            value = (-(v as i64)) as i32;
                        }
                    } else {
                        if v <= 2147483647 {
                            ok = true;
                            value = v as i32;
                        }
                    }
                },
                None => {},
            }
        } else {
            proof {
                lemma_scan_digits_bounds(s@, b as int);
                assert(!is_digit_char(s@[scan_digits(s@, b as int)]));
                assert(!is_id_lexeme(s@));
            }
        }
    }
    if ok {
        Ok(value)
    } else {
        let mut m = String::new();
        m.append("Invalid experiment id: ");
        m.append(s);
        Err(MlflowError::InvalidParameter(m))
    }
}

/// The decimal text under which an experiment id is shown to clients.
pub fn experiment_id_string(id: i32) -> (r: String)
    ensures
        r@ == dec_int(id as int),
{
    i64_to_string(id as i64)
}

/// The artifact location synthesised for an experiment that supplied none:
/// the default artifact root, a slash, and the allocated id.
pub fn artifact_location_for(root: &str, id: i32) -> (r: String)
    ensures
        r@ == root@ + seq!['/'] + dec_int(id as int),
{
    proof {
        reveal_strlit("/");
    }
    let mut out = String::new();
    out.append(root);
    out.append("/");
    out.append(i64_to_string(id as i64).as_str());
    proof {
        assert(out@ =~= root@ + seq!['/'] + dec_int(id as int));
    }
    out
}

/// Merges an experiment row and its tag rows into the externally visible
/// record: every field is carried over and the id is rendered in decimal.
pub fn assemble_experiment(e: SqlExperiment, tags: Vec<ExperimentTag>) -> (r: Experiment)
    ensures
        r.experiment_id@ == dec_int(e.experiment_id as int),
        r.name == e.name,
        r.artifact_location == e.artifact_location,
        r.lifecycle_stage == e.lifecycle_stage,
        r.tags == tags,
{
    Experiment {
        experiment_id: experiment_id_string(e.experiment_id),
        name: e.name,
        artifact_location: e.artifact_location,
        lifecycle_stage: e.lifecycle_stage,
        tags,
    }
}

/// Strips the experiment id from a tag row, leaving the visible key/value
/// pair.
pub fn assemble_experiment_tag(t: SqlExperimentTag) -> (r: ExperimentTag)
    ensures
        r.key == t.key,
        r.value == t.value,
{
    ExperimentTag { key: t.key, value: t.value }
}

/// Strips the run id from a parameter row, leaving the visible key/value
/// pair.
pub fn assemble_param(p: SqlParam) -> (r: Param)
    ensures
        r.key == p.key,
        r.value == p.value,
{
    Param { key: p.key, value: p.value }
}

/// Strips the run id from a metric row, keeping the value's bit pattern, the
/// timestamp and the step.
pub fn assemble_metric(m: SqlMetric) -> (r: Metric)
    ensures
        r.key == m.key,
        r.value_bits == m.value_bits,
        r.timestamp == m.timestamp,
        r.step == m.step,
{
    Metric { key: m.key, value_bits: m.value_bits, timestamp: m.timestamp, step: m.step }
}

/// Strips the run id from a run-tag row, leaving the visible key/value pair.
pub fn assemble_run_tag(t: SqlRunTag) -> (r: RunTag)
    ensures
        r.key == t.key,
        r.value == t.value,
{
    RunTag { key: t.key, value: t.value }
}

/// Merges a run row and its parameter, metric and tag rows into the
/// externally visible record: `run_id` mirrors `run_uuid`, the experiment id
/// is rendered in decimal, and the data lists carry exactly the rows handed
/// in, in their order.
pub fn assemble_run(r: SqlRun, params: Vec<Param>, metrics: Vec<Metric>, tags: Vec<RunTag>) -> (out:
    Run)
    ensures
        out.info.name == r.name,
        out.info.run_uuid == r.run_uuid,
        out.info.run_id == r.run_uuid,
        out.info.experiment_id@ == dec_int(r.experiment_id as int),
        out.info.user_id == r.user_id,
        out.info.status == r.status,
        out.info.start_time == r.start_time,
        out.info.end_time == r.end_time,
        out.info.lifecycle_stage == r.lifecycle_stage,
        out.info.artifact_uri == r.artifact_uri,
        out.data.params == params,
        out.data.metrics == metrics,
        out.data.tags == tags,
{
    let run_id = r.run_uuid.clone();
    Run {
        info: RunInfo {
            name: r.name,
            run_uuid: r.run_uuid,
            run_id,
            experiment_id: experiment_id_string(r.experiment_id),
            user_id: r.user_id,
            status: r.status,
            start_time: r.start_time,
            end_time: r.end_time,
            lifecycle_stage: r.lifecycle_stage,
            artifact_uri: r.artifact_uri,
        },
        data: RunData { params, metrics, tags },
    }
}

/// The query that fetches the runs of the given experiments.  The ids are
/// spliced into an `IN` list, so each must be a plain decimal integer; the
/// caller parses what a client hands in before building the query.
pub fn search_runs_query(experiment_ids: &Vec<String>) -> (r: String)
    requires
        forall |k: int|
            0 <= k < experiment_ids.deep_view().len() ==> is_id_lexeme(
                #[trigger] experiment_ids.deep_view()[k],
            ),
    ensures
        r@ == "SELECT * FROM runs WHERE experiment_id IN ("@ + spec_join(
            experiment_ids.deep_view(),
            ","@,
        ) + ")"@,
{
    let mut out = String::new();
    out.append("SELECT * FROM runs WHERE experiment_id IN (");
    out.append(join_strings(experiment_ids, ",").as_str());
    out.append(")");
    proof {
        assert(out@ =~= "SELECT * FROM runs WHERE experiment_id IN ("@ + spec_join(
            experiment_ids.deep_view(),
            ","@,
        ) + ")"@);
    }
    out
}

/// The placeholder groups of a multi-row tag insert: `n` copies of
/// `(?, ?, ?)` separated by commas.
pub open spec fn tag_values_groups(n: nat) -> Seq<char>
    decreases n,
{
    if n == 0 {
        Seq::<char>::empty()
    } else if n == 1 {
        "(?, ?, ?)"@
    } else {
        tag_values_groups((n - 1) as nat) + ", "@ + "(?, ?, ?)"@
    }
}

/// The single multi-row statement that inserts `n` tags of one experiment.
pub fn experiment_tags_insert_query(n: usize) -> (r: String)
    requires
        n >= 1,
    ensures
        r@ == "INSERT INTO experiment_tags (experiment_id, key, value) VALUES "@
            + tag_values_groups(n as nat),
{
    let mut out = String::new();
    out.append("INSERT INTO experiment_tags (experiment_id, key, value) VALUES ");
    out.append("(?, ?, ?)");
    let mut i: usize = 1;
    while i < n
        invariant
            1 <= i <= n,
            out@ == "INSERT INTO experiment_tags (experiment_id, key, value) VALUES "@
                + tag_values_groups(i as nat),
        decreases n - i,
    {
        out.append(", ");
        out.append("(?, ?, ?)");
        proof {
            assert(out@ =~= "INSERT INTO experiment_tags (experiment_id, key, value) VALUES "@
                + tag_values_groups((i + 1) as nat));
        }
        i = i + 1;
    }
    out
}

} // verus!
