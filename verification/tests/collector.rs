use github_metrics_exporter::collector::{
    collect, judge, CollectError, CollectionFailure, CollectionPass, Fetched,
    RepositoryMetricsRecord,
};
use github_metrics_exporter::json::{Json, Member};
use github_metrics_exporter::metrics::{PullRequestsMetrics, RepoMetrics};
use github_metrics_exporter::metrics_query::RepositoryIdentity;
use github_metrics_exporter::response::ResponseError;
use github_metrics_exporter::time::Timestamp;

fn obj(members: Vec<(&str, Json)>) -> Json {
    Json::Object(
        members
            .into_iter()
            .map(|(name, value)| Member { name: name.to_string(), value })
            .collect(),
    )
}

fn answer(all: i64, open: i64) -> Json {
    let count = |n: i64| obj(vec![("totalCount", Json::Int(n))]);
    obj(vec![(
        "data",
        obj(vec![(
            "pullRequests",
            obj(vec![
                ("all", count(all)),
                ("open", count(open)),
                ("oldest", obj(vec![("edges", Json::Array(vec![]))])),
            ]),
        )]),
    )])
}

fn repo(name: &str) -> RepositoryIdentity {
    RepositoryIdentity::new("Horgix", name).unwrap()
}

fn record(name: &str, all: u64, open: u64) -> RepositoryMetricsRecord {
    RepositoryMetricsRecord {
        identity: repo(name),
        metrics: RepoMetrics { pull_requests: PullRequestsMetrics { all, open, oldest: None } },
    }
}

fn now() -> Timestamp {
    Timestamp::new(1_610_323_200, 0)
}

#[test]
fn transport_failure_of_one_repository_leaves_the_others() {
    let fetches = vec![
        Fetched { identity: repo("incidents-automation-app"), outcome: Ok(answer(5, 2)) },
        Fetched { identity: repo("kind-demo"), outcome: Err("connection reset".to_string()) },
        Fetched { identity: repo("github-demo"), outcome: Ok(answer(9, 0)) },
    ];
    let pass = collect(&fetches, &now());
    assert_eq!(
        pass.records,
        vec![record("incidents-automation-app", 5, 2), record("github-demo", 9, 0)]
    );
    assert_eq!(
        pass.failures,
        vec![CollectionFailure {
            identity: repo("kind-demo"),
            error: CollectError::Transport("connection reset".to_string()),
        }]
    );
}

#[test]
fn failing_answer_of_one_repository_leaves_the_others() {
    let fetches = vec![
        Fetched { identity: repo("a"), outcome: Ok(obj(vec![])) },
        Fetched { identity: repo("b"), outcome: Ok(answer(1, 1)) },
        Fetched { identity: repo("c"), outcome: Ok(Json::Null) },
    ];
    let pass = collect(&fetches, &now());
    assert_eq!(pass.records, vec![record("b", 1, 1)]);
    assert_eq!(
        pass.failures,
        vec![
            CollectionFailure {
                identity: repo("a"),
                error: CollectError::Response(ResponseError::MissingField),
            },
            CollectionFailure {
                identity: repo("c"),
                error: CollectError::Response(ResponseError::MalformedResponse),
            },
        ]
    );
}

#[test]
fn pass_over_no_repository_is_empty() {
    let pass = collect(&Vec::new(), &now());
    assert_eq!(pass, CollectionPass { records: vec![], failures: vec![] });
    assert_eq!(CollectionPass::new(), pass);
}

#[test]
fn pass_where_every_repository_fails_has_no_record() {
    let fetches = vec![
        Fetched { identity: repo("a"), outcome: Err("timeout".to_string()) },
        Fetched { identity: repo("b"), outcome: Err("refused".to_string()) },
    ];
    let pass = collect(&fetches, &now());
    assert!(pass.records.is_empty());
    assert_eq!(pass.failures.len(), 2);
    assert_eq!(pass.failures[0].identity, repo("a"));
    assert_eq!(pass.failures[1].error, CollectError::Transport("refused".to_string()));
}

#[test]
fn absorb_takes_one_repository_at_a_time() {
    let mut pass = CollectionPass::new();
    pass.absorb(&Fetched { identity: repo("a"), outcome: Ok(answer(3, 1)) }, &now());
    pass.absorb(&Fetched { identity: repo("b"), outcome: Err("down".to_string()) }, &now());
    pass.absorb(&Fetched { identity: repo("c"), outcome: Ok(answer(4, 4)) }, &now());
    assert_eq!(pass.records, vec![record("a", 3, 1), record("c", 4, 4)]);
    assert_eq!(pass.failures.len(), 1);
    assert_eq!(pass.failures[0].identity, repo("b"));
}

#[test]
fn judge_gives_record_or_failure() {
    let fine = Fetched { identity: repo("a"), outcome: Ok(answer(3, 1)) };
    assert_eq!(judge(&fine, &now()), Ok(record("a", 3, 1)));
    let down = Fetched { identity: repo("a"), outcome: Err("down".to_string()) };
    assert_eq!(
        judge(&down, &now()),
        Err(CollectionFailure {
            identity: repo("a"),
            error: CollectError::Transport("down".to_string())
        })
    );
}
