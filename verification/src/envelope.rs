//! The result pipeline: each settled execution yields at most one envelope
//! for its destination — none for a cancellation, a typed payload on
//! success, the error text otherwise.

use vstd::prelude::*;
use vstd::string::StringExecFns;
use crate::executor::Outcome;
use crate::parsers::{
    parse_ahead_behind, parse_branches, parse_log, parse_show, parse_show_files, parse_status,
    counter_overflows, spec_counter, ahead_pat, behind_pat, spec_branch_records, spec_log_records,
    spec_show_file_records, spec_show_record, spec_status_records, AheadBehindCount, BranchRecord,
    LogRecord, ShowRecord, StatusRecord,
};

verus! {

/// What one destination receives for one settled execution.
pub enum ResultEnvelope<T> {
    /// the execution succeeded; the parsed or raw payload
    Payload(T),
    /// the execution failed; the captured error text
    ErrorText(String),
}

impl<T> ResultEnvelope<T> {
    /// Whether this envelope reports success.
    pub open spec fn spec_success(&self) -> bool {
        self is Payload
    }

    pub fn success(&self) -> (r: bool)
        ensures
            r == self.spec_success(),
    {
        match self {
            ResultEnvelope::Payload(_) => true,
            ResultEnvelope::ErrorText(_) => false,
        }
    }
}

/// Envelope of an operation whose payload is the raw output text.
pub fn text_envelope(outcome: Outcome) -> (r: Option<ResultEnvelope<String>>)
    ensures
        outcome is Cancelled <==> r is None,
        (outcome matches Outcome::Success { stdout } ==> r == Some(
            ResultEnvelope::<String>::Payload(stdout),
        )),
        (outcome matches Outcome::Failure { kind, error } ==> r == Some(
            ResultEnvelope::<String>::ErrorText(error),
        )),
{
    match outcome {
        Outcome::Cancelled => None,
        Outcome::Success { stdout } => Some(ResultEnvelope::Payload(stdout)),
        Outcome::Failure { kind, error } => Some(ResultEnvelope::ErrorText(error)),
    }
}

/// Envelope of a status listing: the parsed records of the output.
pub fn status_envelope(outcome: Outcome) -> (r: Option<ResultEnvelope<Vec<StatusRecord>>>)
    ensures
        outcome is Cancelled <==> r is None,
        (outcome matches Outcome::Success { stdout } ==> (r matches Some(
            ResultEnvelope::Payload(v),
        ) && v.deep_view() == spec_status_records(stdout@))),
        (outcome matches Outcome::Failure { kind, error } ==> r == Some(
            ResultEnvelope::<Vec<StatusRecord>>::ErrorText(error),
        )),
{
    match outcome {
        Outcome::Cancelled => None,
        Outcome::Success { stdout } => Some(
            ResultEnvelope::Payload(parse_status(stdout.as_str())),
        ),
        Outcome::Failure { kind, error } => Some(ResultEnvelope::ErrorText(error)),
    }
}

/// Envelope of a commit file listing: the parsed records of the output.
pub fn show_files_envelope(outcome: Outcome) -> (r: Option<ResultEnvelope<Vec<StatusRecord>>>)
    ensures
        outcome is Cancelled <==> r is None,
        (outcome matches Outcome::Success { stdout } ==> (r matches Some(
            ResultEnvelope::Payload(v),
        ) && v.deep_view() == spec_show_file_records(stdout@))),
        (outcome matches Outcome::Failure { kind, error } ==> r == Some(
            ResultEnvelope::<Vec<StatusRecord>>::ErrorText(error),
        )),
{
    match outcome {
        Outcome::Cancelled => None,
        Outcome::Success { stdout } => Some(
            ResultEnvelope::Payload(parse_show_files(stdout.as_str())),
        ),
        Outcome::Failure { kind, error } => Some(ResultEnvelope::ErrorText(error)),
    }
}

/// Envelope of a history listing: the parsed records of the output.
pub fn log_envelope(outcome: Outcome) -> (r: Option<ResultEnvelope<Vec<LogRecord>>>)
    ensures
        outcome is Cancelled <==> r is None,
        (outcome matches Outcome::Success { stdout } ==> (r matches Some(
            ResultEnvelope::Payload(v),
        ) && v.deep_view() == spec_log_records(stdout@))),
        (outcome matches Outcome::Failure { kind, error } ==> r == Some(
            ResultEnvelope::<Vec<LogRecord>>::ErrorText(error),
        )),
{
    match outcome {
        Outcome::Cancelled => None,
        Outcome::Success { stdout } => Some(ResultEnvelope::Payload(parse_log(stdout.as_str()))),
        Outcome::Failure { kind, error } => Some(ResultEnvelope::ErrorText(error)),
    }
}

/// Envelope of a single shown commit: the parsed record of the output.
pub fn show_envelope(outcome: Outcome) -> (r: Option<ResultEnvelope<ShowRecord>>)
    ensures
        outcome is Cancelled <==> r is None,
        (outcome matches Outcome::Success { stdout } ==> (r matches Some(
            ResultEnvelope::Payload(v),
        ) && v@ == spec_show_record(stdout@))),
        (outcome matches Outcome::Failure { kind, error } ==> r == Some(
            ResultEnvelope::<ShowRecord>::ErrorText(error),
        )),
{
    match outcome {
        Outcome::Cancelled => None,
        Outcome::Success { stdout } => Some(ResultEnvelope::Payload(parse_show(stdout.as_str()))),
        Outcome::Failure { kind, error } => Some(ResultEnvelope::ErrorText(error)),
    }
}

/// Envelope of a branch listing: the parsed records of the output.
pub fn branch_envelope(outcome: Outcome) -> (r: Option<ResultEnvelope<Vec<BranchRecord>>>)
    ensures
        outcome is Cancelled <==> r is None,
        (outcome matches Outcome::Success { stdout } ==> (r matches Some(
            ResultEnvelope::Payload(v),
        ) && v.deep_view() == spec_branch_records(stdout@))),
        (outcome matches Outcome::Failure { kind, error } ==> r == Some(
            ResultEnvelope::<Vec<BranchRecord>>::ErrorText(error),
        )),
{
    match outcome {
        Outcome::Cancelled => None,
        Outcome::Success { stdout } => Some(
            ResultEnvelope::Payload(parse_branches(stdout.as_str())),
        ),
        Outcome::Failure { kind, error } => Some(ResultEnvelope::ErrorText(error)),
    }
}

/// Envelope of the ahead/behind counters: parsed from the tracking status
/// line, with a malformed counter reported as error text.
pub fn counts_envelope(outcome: Outcome) -> (r: Option<ResultEnvelope<AheadBehindCount>>)
    ensures
        outcome is Cancelled <==> r is None,
        (outcome matches Outcome::Success { stdout } ==> (if counter_overflows(stdout@) {
            r matches Some(ResultEnvelope::ErrorText(e)) && e@ == "failed to read ahead/behind counts"@
        } else {
            r matches Some(ResultEnvelope::Payload(c)) && c.push == spec_counter(
                stdout@,
                ahead_pat(),
            ) && c.pull == spec_counter(stdout@, behind_pat())
        })),
        (outcome matches Outcome::Failure { kind, error } ==> r == Some(
            ResultEnvelope::<AheadBehindCount>::ErrorText(error),
        )),
{
    match outcome {
        Outcome::Cancelled => None,
        Outcome::Success { stdout } => {
            match parse_ahead_behind(stdout.as_str()) {
                Ok(c) => Some(ResultEnvelope::Payload(c)),
                Err(_) => Some(
                    ResultEnvelope::ErrorText(String::from_str("failed to read ahead/behind counts")),
                ),
            }
        },
        Outcome::Failure { kind, error } => Some(ResultEnvelope::ErrorText(error)),
    }
}

} // verus!
