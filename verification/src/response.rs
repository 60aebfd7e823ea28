//! Decoding of the answer to the pull-request query.
//!
//! An answer is a JSON object. It reports failure by a non-empty list under
//! `errors`, and else holds the statistics under `data.pullRequests`, in the
//! three parts `all`, `open` and `oldest` that the query asked for.

use vstd::prelude::*;
use crate::json::{duplicate_all, field, models, Json, JsonValue};
use crate::metrics::{PullRequestsMetrics, RepoMetrics};
use crate::time::{
    age_days, age_in_days, lemma_age_in_days_bounded, parsed_timestamp, Timestamp,
};

verus! {

/// Why an answer gave no statistics.
#[derive(Debug, PartialEq, Eq)]
pub enum ResponseError {
    /// The answer does not have the shape that the query asks for, or its
    /// parts contradict each other.
    MalformedResponse,
    /// The answer reports errors: the entries of its `errors` list, as they
    /// came.
    ApiReportedError(Vec<Json>),
    /// The answer has no `data`.
    MissingField,
}

/// The mathematical model of a `ResponseError`.
pub enum ResponseFailure {
    MalformedResponse,
    ApiReportedError(Seq<JsonValue>),
    MissingField,
}

impl View for ResponseError {
    type V = ResponseFailure;

    open spec fn view(&self) -> ResponseFailure {
        match self {
            ResponseError::MalformedResponse => ResponseFailure::MalformedResponse,
            ResponseError::ApiReportedError(entries) => ResponseFailure::ApiReportedError(
                models(entries@),
            ),
            ResponseError::MissingField => ResponseFailure::MissingField,
        }
    }
}

/// The entries of the answer's `errors` list, where it has one that is not
/// empty.
pub open spec fn reported_errors(payload: JsonValue) -> Option<Seq<JsonValue>> {
    match field(payload, "errors"@) {
        Some(JsonValue::Array(entries)) => if entries.len() > 0 {
            Some(entries)
        } else {
            None
        },
        _ => None,
    }
}

/// The count that a part of the answer holds under `totalCount`: an integer
/// that is not negative. `None` where the part holds no such count.
pub open spec fn total_count(part: JsonValue) -> Option<u64> {
    match field(part, "totalCount"@) {
        Some(JsonValue::Int(n)) => if n >= 0 {
            Some(n as u64)
        } else {
            None
        },
        _ => None,
    }
}

/// The entries under `edges` of the part `oldest`, where it holds a list
/// there.
pub open spec fn edges(oldest: JsonValue) -> Option<Seq<JsonValue>> {
    match field(oldest, "edges"@) {
        Some(JsonValue::Array(entries)) => Some(entries),
        _ => None,
    }
}

/// The text under `node.createdAt` of one entry of `edges`.
pub open spec fn created_at(edge: JsonValue) -> Option<Seq<char>> {
    match field(edge, "node"@) {
        Some(node) => match field(node, "createdAt"@) {
            Some(JsonValue::Text(text)) => Some(text),
            _ => None,
        },
        None => None,
    }
}

/// What the part `oldest` says of the oldest open pull request: `Ok(None)`
/// where it lists none, `Ok(Some(text))` with the text of its creation time
/// where it lists one, and `Err(())` where it has another shape.
pub open spec fn oldest_created_at(oldest: JsonValue) -> Result<Option<Seq<char>>, ()> {
    match edges(oldest) {
        Some(entries) => if entries.len() == 0 {
            Ok(None)
        } else if entries.len() == 1 {
            match created_at(entries[0]) {
                Some(text) => Ok(Some(text)),
                None => Err(()),
            }
        } else {
            Err(())
        },
        None => Err(()),
    }
}

/// The age of the oldest open pull request at `now`, from the outcome of
/// reading its creation time.
pub open spec fn age_of_reading(reading: Option<Timestamp>, now: Timestamp) -> Result<
    u64,
    ResponseFailure,
> {
    match reading {
        Some(created) => Ok(age_in_days(created, now) as u64),
        None => Err(ResponseFailure::MalformedResponse),
    }
}

/// The age in whole days that the part `oldest` gives at `now`.
pub open spec fn oldest_age(oldest: JsonValue, now: Timestamp) -> Result<
    Option<u64>,
    ResponseFailure,
> {
    match oldest_created_at(oldest) {
        Ok(None) => Ok(None),
        Ok(Some(text)) => match age_of_reading(parsed_timestamp(text), now) {
            Ok(days) => Ok(Some(days)),
            Err(failure) => Err(failure),
        },
        Err(_) => Err(ResponseFailure::MalformedResponse),
    }
}

/// The record of two counts and an age, where they agree.
pub open spec fn agreed(all: u64, open: u64, oldest: Option<u64>) -> Result<
    PullRequestsMetrics,
    ResponseFailure,
> {
    let metrics = PullRequestsMetrics { all, open, oldest };
    if metrics.well_formed() {
        Ok(metrics)
    } else {
        Err(ResponseFailure::MalformedResponse)
    }
}

/// The statistics that the three parts `all`, `open` and `oldest` give at
/// `now`.
pub open spec fn pull_requests_outcome(parts: JsonValue, now: Timestamp) -> Result<
    PullRequestsMetrics,
    ResponseFailure,
> {
    match (field(parts, "all"@), field(parts, "open"@), field(parts, "oldest"@)) {
        (Some(all_part), Some(open_part), Some(oldest_part)) => match (
            total_count(all_part),
            total_count(open_part),
            oldest_age(oldest_part, now),
        ) {
            (Some(all), Some(open), Ok(oldest)) => agreed(all, open, oldest),
            _ => Err(ResponseFailure::MalformedResponse),
        },
        _ => Err(ResponseFailure::MalformedResponse),
    }
}

/// The statistics that the answer's `data` gives at `now`.
pub open spec fn data_outcome(data: JsonValue, now: Timestamp) -> Result<
    RepoMetrics,
    ResponseFailure,
> {
    match field(data, "pullRequests"@) {
        Some(parts) => match pull_requests_outcome(parts, now) {
            Ok(pull_requests) => Ok(RepoMetrics { pull_requests }),
            Err(failure) => Err(failure),
        },
        None => Err(ResponseFailure::MalformedResponse),
    }
}

/// What a whole answer gives at `now`: in this order, an answer that is no
/// object is malformed; one that reports errors fails with them; one without
/// `data` misses a field; any other gives what its `data` gives.
pub open spec fn response_outcome(payload: JsonValue, now: Timestamp) -> Result<
    RepoMetrics,
    ResponseFailure,
> {
    if !(payload is Object) {
        Err(ResponseFailure::MalformedResponse)
    } else {
        match reported_errors(payload) {
            Some(entries) => Err(ResponseFailure::ApiReportedError(entries)),
            None => match field(payload, "data"@) {
                Some(data) => data_outcome(data, now),
                None => Err(ResponseFailure::MissingField),
            },
        }
    }
}

/// Whether an executable result is the outcome `expected`.
pub open spec fn is_outcome<T>(
    result: Result<T, ResponseError>,
    expected: Result<T, ResponseFailure>,
) -> bool {
    match result {
        Ok(value) => expected == Ok::<T, ResponseFailure>(value),
        Err(error) => expected == Err::<T, ResponseFailure>(error@),
    }
}

/// Reads the count that a part of the answer holds under `totalCount`.
pub fn deserialize_nested_total_count(part: &Json) -> (r: Result<u64, ResponseError>)
    ensures
        match r {
            Ok(count) => total_count(part@) == Some(count),
            Err(error) => total_count(part@) is None && error@
                == ResponseFailure::MalformedResponse,
        },
{
    match part.get("totalCount") {
        Some(found) => match found.as_int() {
            Some(n) => if n >= 0 {
                Ok(n as u64)
            } else {
                Err(ResponseError::MalformedResponse)
            },
            None => Err(ResponseError::MalformedResponse),
        },
        None => Err(ResponseError::MalformedResponse),
    }
}

/// Finds the creation time of the oldest open pull request in the part
/// `oldest`, as the text that the answer gives.
pub fn oldest_creation_text(oldest: &Json) -> (r: Result<Option<&String>, ResponseError>)
    ensures
        match r {
            Ok(Some(text)) => oldest_created_at(oldest@) == Ok::<Option<Seq<char>>, ()>(
                Some(text@),
            ),
            Ok(None) => oldest_created_at(oldest@) == Ok::<Option<Seq<char>>, ()>(None),
            Err(error) => oldest_created_at(oldest@) is Err && error@
                == ResponseFailure::MalformedResponse,
        },
{
    let listed = match oldest.get("edges") {
        Some(found) => found.as_array(),
        None => None,
    };
    match listed {
        Some(entries) => {
            if entries.len() == 0 {
                Ok(None)
            } else if entries.len() == 1 {
                let text = match entries[0].get("node") {
                    Some(node) => match node.get("createdAt") {
                        Some(found) => found.as_text(),
                        None => None,
                    },
                    None => None,
                };
                match text {
                    Some(text) => Ok(Some(text)),
                    None => Err(ResponseError::MalformedResponse),
                }
            } else {
                Err(ResponseError::MalformedResponse)
            }
        },
        None => Err(ResponseError::MalformedResponse),
    }
}

/// The age at `now` of a pull request, from the outcome of reading its
/// creation time: a time that could not be read makes the answer malformed.
pub fn age_from_reading(reading: Option<Timestamp>, now: &Timestamp) -> (r: Result<
    u64,
    ResponseError,
>)
    ensures
        is_outcome(r, age_of_reading(reading, *now)),
{
    match reading {
        Some(created) => Ok(age_days(&created, now)),
        None => Err(ResponseError::MalformedResponse),
    }
}

/// Reads the part `oldest` into the age in whole days, at `now`, of the
/// oldest open pull request; `None` where the part lists no pull request.
pub fn deserialize_duration_since_creation_date(oldest: &Json, now: &Timestamp) -> (r: Result<
    Option<u64>,
    ResponseError,
>)
    ensures
        is_outcome(r, oldest_age(oldest@, *now)),
{
    match oldest_creation_text(oldest) {
        Ok(Some(text)) => {
            match age_from_reading(Timestamp::parse(text.as_str()), now) {
                Ok(days) => Ok(Some(days)),
                Err(error) => Err(error),
            }
        },
        Ok(None) => Ok(None),
        Err(error) => Err(error),
    }
}

/// Reads the three parts `all`, `open` and `oldest` into a record.
pub fn decode_pull_requests(parts: &Json, now: &Timestamp) -> (r: Result<
    PullRequestsMetrics,
    ResponseError,
>)
    ensures
        is_outcome(r, pull_requests_outcome(parts@, *now)),
        r matches Ok(metrics) ==> metrics.well_formed(),
{
    let all_part = match parts.get("all") {
        Some(found) => found,
        None => return Err(ResponseError::MalformedResponse),
    };
    let open_part = match parts.get("open") {
        Some(found) => found,
        None => return Err(ResponseError::MalformedResponse),
    };
    let oldest_part = match parts.get("oldest") {
        Some(found) => found,
        None => return Err(ResponseError::MalformedResponse),
    };
    let all = match deserialize_nested_total_count(all_part) {
        Ok(count) => count,
        Err(error) => return Err(error),
    };
    let open = match deserialize_nested_total_count(open_part) {
        Ok(count) => count,
        Err(error) => return Err(error),
    };
    let oldest = match deserialize_duration_since_creation_date(oldest_part, now) {
        Ok(age) => age,
        Err(error) => return Err(error),
    };
    match PullRequestsMetrics::new(all, open, oldest) {
        Some(metrics) => Ok(metrics),
        None => Err(ResponseError::MalformedResponse),
    }
}

/// Reads the answer's `data` into a record.
pub fn decode_data(data: &Json, now: &Timestamp) -> (r: Result<RepoMetrics, ResponseError>)
    ensures
        is_outcome(r, data_outcome(data@, *now)),
        r matches Ok(metrics) ==> metrics.well_formed(),
{
    match data.get("pullRequests") {
        Some(parts) => match decode_pull_requests(parts, now) {
            Ok(pull_requests) => Ok(RepoMetrics { pull_requests }),
            Err(error) => Err(error),
        },
        None => Err(ResponseError::MalformedResponse),
    }
}

/// Decodes one answer into the repository's statistics as of `now`, or says
/// why it gives none.
pub fn parse_response(payload: &Json, now: &Timestamp) -> (r: Result<RepoMetrics, ResponseError>)
    ensures
        is_outcome(r, response_outcome(payload@, *now)),
        r matches Ok(metrics) ==> metrics.well_formed(),
{
    match payload {
        Json::Object(_) => {},
        _ => {
            return Err(ResponseError::MalformedResponse);
        },
    }
    let listed = match payload.get("errors") {
        Some(found) => found.as_array(),
        None => None,
    };
    match listed {
        Some(entries) => {
            if entries.len() > 0 {
                return Err(ResponseError::ApiReportedError(duplicate_all(entries)));
            }
        },
        None => {},
    }
    match payload.get("data") {
        Some(data) => decode_data(data, now),
        None => Err(ResponseError::MissingField),
    }
}

/// The part `oldest` of an answer, found under `data.pullRequests`.
pub open spec fn oldest_part(payload: JsonValue) -> Option<JsonValue> {
    match field(payload, "data"@) {
        Some(data) => match field(data, "pullRequests"@) {
            Some(parts) => field(parts, "oldest"@),
            None => None,
        },
        None => None,
    }
}

/// The count under `data.pullRequests.open.totalCount` of an answer.
pub open spec fn open_count(payload: JsonValue) -> Option<u64> {
    match field(payload, "data"@) {
        Some(data) => match field(data, "pullRequests"@) {
            Some(parts) => match field(parts, "open"@) {
                Some(open_part) => total_count(open_part),
                None => None,
            },
            None => None,
        },
        None => None,
    }
}

/// Every record that an answer gives is well formed, and holds the count of
/// open pull requests that the answer holds.
pub proof fn lemma_record_well_formed(payload: JsonValue, now: Timestamp)
    requires
        response_outcome(payload, now) is Ok,
    ensures
        response_outcome(payload, now)->Ok_0.well_formed(),
        open_count(payload) == Some(response_outcome(payload, now)->Ok_0.pull_requests.open),
{
}

/// An answer that decodes and counts no open pull request gives no age for
/// the oldest one: the age is absent, not zero.
pub proof fn lemma_no_open_pull_request_has_no_age(payload: JsonValue, now: Timestamp)
    requires
        response_outcome(payload, now) is Ok,
        open_count(payload) == Some(0u64),
    ensures
        response_outcome(payload, now)->Ok_0.pull_requests.oldest is None,
{
}

/// An answer that decodes, counts at least one open pull request and lists
/// exactly one under `oldest.edges` gives as age the whole days between the
/// creation time read from that entry and `now`, rounded down.
pub proof fn lemma_age_is_distance_in_days(payload: JsonValue, now: Timestamp)
    requires
        response_outcome(payload, now) is Ok,
        open_count(payload) is Some,
        open_count(payload)->Some_0 >= 1,
        oldest_part(payload) is Some,
        edges(oldest_part(payload)->Some_0) is Some,
        edges(oldest_part(payload)->Some_0)->Some_0.len() == 1,
    ensures
        ({
            let entry = edges(oldest_part(payload)->Some_0)->Some_0[0];
            &&& created_at(entry) is Some
            &&& parsed_timestamp(created_at(entry)->Some_0) is Some
            &&& response_outcome(payload, now)->Ok_0.pull_requests.oldest matches Some(days)
                && days as nat == age_in_days(
                parsed_timestamp(created_at(entry)->Some_0)->Some_0,
                now,
            )
        }),
{
    let entry = edges(oldest_part(payload)->Some_0)->Some_0[0];
    if created_at(entry) is Some && parsed_timestamp(created_at(entry)->Some_0) is Some {
        lemma_age_in_days_bounded(parsed_timestamp(created_at(entry)->Some_0)->Some_0, now);
    }
}

/// An object without `data` that reports no errors fails for the missing
/// field.
pub proof fn lemma_missing_data(payload: JsonValue, now: Timestamp)
    requires
        payload is Object,
        reported_errors(payload) is None,
        field(payload, "data"@) is None,
    ensures
        response_outcome(payload, now) == Err::<RepoMetrics, ResponseFailure>(
            ResponseFailure::MissingField,
        ),
{
}

/// An object with a non-empty `errors` list fails with the entries of that
/// list, whatever it holds besides, `data` included.
pub proof fn lemma_reported_errors_win(payload: JsonValue, now: Timestamp)
    requires
        payload is Object,
        reported_errors(payload) is Some,
    ensures
        response_outcome(payload, now) == Err::<RepoMetrics, ResponseFailure>(
            ResponseFailure::ApiReportedError(reported_errors(payload)->Some_0),
        ),
{
}

/// An answer that reports no errors and lists two or more pull requests
/// under `oldest.edges` is malformed.
pub proof fn lemma_too_many_edges(payload: JsonValue, now: Timestamp)
    requires
        payload is Object,
        reported_errors(payload) is None,
        oldest_part(payload) is Some,
        edges(oldest_part(payload)->Some_0) is Some,
        edges(oldest_part(payload)->Some_0)->Some_0.len() >= 2,
    ensures
        response_outcome(payload, now) == Err::<RepoMetrics, ResponseFailure>(
            ResponseFailure::MalformedResponse,
        ),
{
}

} // verus!
