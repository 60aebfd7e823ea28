use github_metrics_exporter::json::{Json, Member};
use github_metrics_exporter::metrics::{PullRequestsMetrics, RepoMetrics};
use github_metrics_exporter::response::{
    age_from_reading, decode_data, decode_pull_requests, deserialize_duration_since_creation_date,
    deserialize_nested_total_count, oldest_creation_text, parse_response, ResponseError,
};
use github_metrics_exporter::time::Timestamp;

fn obj(members: Vec<(&str, Json)>) -> Json {
    Json::Object(
        members
            .into_iter()
            .map(|(name, value)| Member { name: name.to_string(), value })
            .collect(),
    )
}

fn text(s: &str) -> Json {
    Json::Text(s.to_string())
}

fn count(n: i64) -> Json {
    obj(vec![("totalCount", Json::Int(n))])
}

fn edge(created_at: &str) -> Json {
    obj(vec![(
        "node",
        obj(vec![("createdAt", text(created_at)), ("url", text("https://example/pr/1"))]),
    )])
}

fn oldest(edges: Vec<Json>) -> Json {
    obj(vec![("edges", Json::Array(edges))])
}

fn parts(all: Json, open: Json, oldest: Json) -> Json {
    obj(vec![("all", all), ("open", open), ("oldest", oldest)])
}

fn answer(all: i64, open: i64, edges: Vec<Json>) -> Json {
    obj(vec![(
        "data",
        obj(vec![("pullRequests", parts(count(all), count(open), oldest(edges)))]),
    )])
}

fn now() -> Timestamp {
    Timestamp::parse("2021-01-11T00:00:00Z").unwrap()
}

fn record(all: u64, open: u64, oldest: Option<u64>) -> RepoMetrics {
    RepoMetrics { pull_requests: PullRequestsMetrics { all, open, oldest } }
}

#[test]
fn parses_counts_and_age_of_oldest_open_pull_request() {
    let payload = answer(2, 1, vec![edge("2021-01-01T00:00:00Z")]);
    assert_eq!(parse_response(&payload, &now()), Ok(record(2, 1, Some(10))));
}

#[test]
fn reported_not_found_error_carries_the_message() {
    let message = "Could not resolve to a Repository with the name 'UnexistingOwner/UnexistingRepo'.";
    let entry = obj(vec![("type", text("NOT_FOUND")), ("message", text(message))]);
    let payload = obj(vec![
        ("data", obj(vec![("pullRequests", Json::Null)])),
        ("errors", Json::Array(vec![entry])),
    ]);
    match parse_response(&payload, &now()) {
        Err(ResponseError::ApiReportedError(entries)) => {
            assert_eq!(entries.len(), 1);
            assert_eq!(entries[0].get("message"), Some(&text(message)));
            assert_eq!(entries[0].get("type"), Some(&text("NOT_FOUND")));
        }
        other => panic!("unexpected outcome: {:?}", other),
    }
}

#[test]
fn reported_error_fails_although_transport_succeeded() {
    let entry = || obj(vec![("type", text("NOT_FOUND")), ("message", text("..."))]);
    let payload = obj(vec![
        ("data", obj(vec![("pullRequests", Json::Null)])),
        ("errors", Json::Array(vec![entry()])),
    ]);
    assert_eq!(
        parse_response(&payload, &now()),
        Err(ResponseError::ApiReportedError(vec![entry()]))
    );
}

#[test]
fn no_open_pull_request_gives_absent_age() {
    let payload = answer(7, 0, vec![]);
    let parsed = parse_response(&payload, &now()).unwrap();
    assert_eq!(parsed, record(7, 0, None));
    assert_ne!(parsed.pull_requests.oldest, Some(0));
}

#[test]
fn pull_request_created_today_has_age_zero_not_absent() {
    let payload = answer(1, 1, vec![edge("2021-01-10T12:00:00Z")]);
    assert_eq!(parse_response(&payload, &now()), Ok(record(1, 1, Some(0))));
}

#[test]
fn open_pull_requests_without_listed_edge_give_absent_age() {
    let payload = answer(3, 2, vec![]);
    assert_eq!(parse_response(&payload, &now()), Ok(record(3, 2, None)));
}

#[test]
fn missing_data_is_missing_field() {
    let payload = obj(vec![("extensions", Json::Null)]);
    assert_eq!(parse_response(&payload, &now()), Err(ResponseError::MissingField));
    assert_eq!(parse_response(&obj(vec![]), &now()), Err(ResponseError::MissingField));
}

#[test]
fn errors_win_over_present_data() {
    let entry = obj(vec![("message", text("rate limited"))]);
    let payload = obj(vec![
        (
            "data",
            obj(vec![(
                "pullRequests",
                parts(count(2), count(1), oldest(vec![edge("2021-01-01T00:00:00Z")])),
            )]),
        ),
        ("errors", Json::Array(vec![entry])),
    ]);
    let expected = obj(vec![("message", text("rate limited"))]);
    assert_eq!(
        parse_response(&payload, &now()),
        Err(ResponseError::ApiReportedError(vec![expected]))
    );
}

#[test]
fn errors_win_over_missing_data() {
    let payload = obj(vec![("errors", Json::Array(vec![text("boom")]))]);
    assert_eq!(
        parse_response(&payload, &now()),
        Err(ResponseError::ApiReportedError(vec![text("boom")]))
    );
}

#[test]
fn empty_errors_list_is_no_failure() {
    let payload = obj(vec![
        ("errors", Json::Array(vec![])),
        ("data", obj(vec![("pullRequests", parts(count(4), count(0), oldest(vec![])))])),
    ]);
    assert_eq!(parse_response(&payload, &now()), Ok(record(4, 0, None)));
}

#[test]
fn two_edges_are_malformed() {
    let payload =
        answer(5, 2, vec![edge("2021-01-01T00:00:00Z"), edge("2021-01-02T00:00:00Z")]);
    assert_eq!(parse_response(&payload, &now()), Err(ResponseError::MalformedResponse));
}

#[test]
fn top_level_that_is_no_object_is_malformed() {
    assert_eq!(parse_response(&Json::Null, &now()), Err(ResponseError::MalformedResponse));
    assert_eq!(parse_response(&Json::Array(vec![]), &now()), Err(ResponseError::MalformedResponse));
    assert_eq!(parse_response(&text("data"), &now()), Err(ResponseError::MalformedResponse));
    assert_eq!(parse_response(&Json::Int(1), &now()), Err(ResponseError::MalformedResponse));
}

#[test]
fn data_without_pull_requests_is_malformed() {
    let payload = obj(vec![("data", obj(vec![]))]);
    assert_eq!(parse_response(&payload, &now()), Err(ResponseError::MalformedResponse));
    let payload = obj(vec![("data", Json::Null)]);
    assert_eq!(parse_response(&payload, &now()), Err(ResponseError::MalformedResponse));
    let payload = obj(vec![("data", obj(vec![("pullRequests", Json::Null)]))]);
    assert_eq!(parse_response(&payload, &now()), Err(ResponseError::MalformedResponse));
    assert_eq!(decode_data(&obj(vec![]), &now()), Err(ResponseError::MalformedResponse));
}

#[test]
fn missing_part_is_malformed() {
    let no_all = obj(vec![("open", count(1)), ("oldest", oldest(vec![]))]);
    let no_open = obj(vec![("all", count(1)), ("oldest", oldest(vec![]))]);
    let no_oldest = obj(vec![("all", count(1)), ("open", count(1))]);
    assert_eq!(decode_pull_requests(&no_all, &now()), Err(ResponseError::MalformedResponse));
    assert_eq!(decode_pull_requests(&no_open, &now()), Err(ResponseError::MalformedResponse));
    assert_eq!(decode_pull_requests(&no_oldest, &now()), Err(ResponseError::MalformedResponse));
}

#[test]
fn nested_total_count_is_read() {
    assert_eq!(deserialize_nested_total_count(&count(0)), Ok(0));
    assert_eq!(deserialize_nested_total_count(&count(42)), Ok(42));
    assert_eq!(deserialize_nested_total_count(&count(i64::MAX)), Ok(i64::MAX as u64));
}

#[test]
fn nested_total_count_rejects_what_is_no_count() {
    let malformed = Err(ResponseError::MalformedResponse);
    assert_eq!(deserialize_nested_total_count(&obj(vec![])), malformed);
    assert_eq!(deserialize_nested_total_count(&Json::Null), malformed);
    assert_eq!(deserialize_nested_total_count(&Json::Int(3)), malformed);
    assert_eq!(deserialize_nested_total_count(&count(-1)), malformed);
    assert_eq!(deserialize_nested_total_count(&obj(vec![("totalCount", text("3"))])), malformed);
    assert_eq!(
        deserialize_nested_total_count(&obj(vec![("totalCount", Json::Real("3.5".to_string()))])),
        malformed
    );
    assert_eq!(deserialize_nested_total_count(&obj(vec![("total_count", Json::Int(3))])), malformed);
}

#[test]
fn creation_text_of_the_one_edge_is_found() {
    let part = oldest(vec![edge("2021-12-31T23:59:59Z")]);
    assert_eq!(oldest_creation_text(&part), Ok(Some(&"2021-12-31T23:59:59Z".to_string())));
    assert_eq!(oldest_creation_text(&oldest(vec![])), Ok(None));
}

#[test]
fn malformed_oldest_part_is_rejected() {
    let malformed = Err(ResponseError::MalformedResponse);
    assert_eq!(deserialize_duration_since_creation_date(&obj(vec![]), &now()), malformed);
    assert_eq!(
        deserialize_duration_since_creation_date(&obj(vec![("edges", Json::Null)]), &now()),
        malformed
    );
    let no_node = oldest(vec![obj(vec![])]);
    assert_eq!(deserialize_duration_since_creation_date(&no_node, &now()), malformed);
    let no_created_at = oldest(vec![obj(vec![("node", obj(vec![("url", text("u"))]))])]);
    assert_eq!(deserialize_duration_since_creation_date(&no_created_at, &now()), malformed);
    let not_text = oldest(vec![obj(vec![("node", obj(vec![("createdAt", Json::Int(5))]))])]);
    assert_eq!(deserialize_duration_since_creation_date(&not_text, &now()), malformed);
    let not_a_time = oldest(vec![edge("yesterday")]);
    assert_eq!(deserialize_duration_since_creation_date(&not_a_time, &now()), malformed);
    let no_offset = oldest(vec![edge("2021-01-01T00:00:00")]);
    assert_eq!(deserialize_duration_since_creation_date(&no_offset, &now()), malformed);
    let bad_hour = oldest(vec![edge("2021-12-31T25:59:59Z")]);
    assert_eq!(deserialize_duration_since_creation_date(&bad_hour, &now()), malformed);
}

#[test]
fn age_of_oldest_part_is_in_whole_days() {
    let part = oldest(vec![edge("2021-01-01T00:00:01Z")]);
    assert_eq!(deserialize_duration_since_creation_date(&part, &now()), Ok(Some(9)));
    let part = oldest(vec![edge("2021-01-01T01:00:00+01:00")]);
    assert_eq!(deserialize_duration_since_creation_date(&part, &now()), Ok(Some(10)));
    assert_eq!(deserialize_duration_since_creation_date(&oldest(vec![]), &now()), Ok(None));
}

#[test]
fn age_from_reading_rejects_unread_time() {
    assert_eq!(age_from_reading(None, &now()), Err(ResponseError::MalformedResponse));
    let created = Timestamp::new(now().secs - 3 * 86_400, 0);
    assert_eq!(age_from_reading(Some(created), &now()), Ok(3));
}

#[test]
fn more_open_than_all_is_malformed() {
    let payload = answer(1, 2, vec![edge("2021-01-01T00:00:00Z")]);
    assert_eq!(parse_response(&payload, &now()), Err(ResponseError::MalformedResponse));
}

#[test]
fn listed_pull_request_with_no_open_count_is_malformed() {
    let payload = answer(3, 0, vec![edge("2021-01-01T00:00:00Z")]);
    assert_eq!(parse_response(&payload, &now()), Err(ResponseError::MalformedResponse));
}

#[test]
fn first_member_of_a_name_counts() {
    let payload = obj(vec![
        ("data", obj(vec![("pullRequests", parts(count(2), count(0), oldest(vec![])))])),
        ("data", Json::Null),
    ]);
    assert_eq!(parse_response(&payload, &now()), Ok(record(2, 0, None)));
}

#[test]
fn well_formed_record_constructor() {
    assert_eq!(
        PullRequestsMetrics::new(2, 1, Some(10)),
        Some(PullRequestsMetrics { all: 2, open: 1, oldest: Some(10) })
    );
    assert_eq!(
        PullRequestsMetrics::new(2, 0, None),
        Some(PullRequestsMetrics { all: 2, open: 0, oldest: None })
    );
    assert_eq!(PullRequestsMetrics::new(2, 3, None), None);
    assert_eq!(PullRequestsMetrics::new(2, 0, Some(0)), None);
}
