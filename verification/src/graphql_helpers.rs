//! The three parts of the pull-request query, each under the alias by which
//! its result is found in the answer.

use vstd::prelude::*;

verus! {

/// Counts every pull request of the repository, under the alias `all`.
pub const GRAPHQL_REPO_SUBQUERY_ALL_PULL_REQUESTS: &'static str = "
  all: pullRequests {
    totalCount
  }
";

/// Counts the open pull requests of the repository, under the alias `open`.
pub const GRAPHQL_REPO_SUBQUERY_ALL_OPEN_PULL_REQUEST: &'static str = "
  open: pullRequests(states: OPEN) {
    totalCount
  }
";

/// Asks for the one open pull request that was created first, with its
/// creation time and its address, under the alias `oldest`.
pub const GRAPHQL_REPO_SUBERY_OLDEST_PULL_REQUEST: &'static str = "
  oldest: pullRequests(
    orderBy: {field: CREATED_AT, direction: ASC}
    states: OPEN
    first: 1
  ) {
    edges {
      node {
        createdAt
        url
      }
    }
  }
";

} // verus!
