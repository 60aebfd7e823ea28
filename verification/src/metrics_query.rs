//! The query that asks for the pull-request statistics of one repository.

use vstd::prelude::*;
use vstd::string::StringExecFns;
use crate::graphql_helpers::{
    GRAPHQL_REPO_SUBERY_OLDEST_PULL_REQUEST,
    GRAPHQL_REPO_SUBQUERY_ALL_OPEN_PULL_REQUEST,
    GRAPHQL_REPO_SUBQUERY_ALL_PULL_REQUESTS,
};

verus! {

/// The owner and the name that identify one repository. Neither is empty in
/// a well-formed identity.
#[derive(Debug, PartialEq, Eq)]
pub struct RepositoryIdentity {
    pub owner: String,
    pub name: String,
}

/// The mathematical model of a `RepositoryIdentity`.
pub struct RepositoryName {
    pub owner: Seq<char>,
    pub name: Seq<char>,
}

impl View for RepositoryIdentity {
    type V = RepositoryName;

    open spec fn view(&self) -> RepositoryName {
        RepositoryName { owner: self.owner@, name: self.name@ }
    }
}

impl RepositoryName {
    /// The label by which the repository is told apart: owner, a slash, and
    /// name.
    pub open spec fn label(self) -> Seq<char> {
        self.owner + "/"@ + self.name
    }
}

impl RepositoryIdentity {
    /// Owner and name are both given.
    pub open spec fn well_formed(&self) -> bool {
        self.owner@.len() > 0 && self.name@.len() > 0
    }

    /// The identity of the repository `name` of `owner`; `None` where either
    /// is empty.
    pub fn new(owner: &str, name: &str) -> (r: Option<RepositoryIdentity>)
        ensures
            (owner@.len() > 0 && name@.len() > 0) <==> r is Some,
            r matches Some(identity) ==> identity@ == (RepositoryName {
                owner: owner@,
                name: name@,
            }) && identity.well_formed(),
    {
        if owner.is_empty() || name.is_empty() {
            None
        } else {
            Some(
                RepositoryIdentity { owner: String::from_str(owner), name: String::from_str(name) },
            )
        }
    }

    /// A copy of the identity.
    pub fn duplicate(&self) -> (r: RepositoryIdentity)
        ensures
            r@ == self@,
    {
        RepositoryIdentity { owner: self.owner.clone(), name: self.name.clone() }
    }

    /// The label `owner/name`.
    pub fn label(&self) -> (r: String)
        ensures
            r@ == self@.label(),
    {
        let mut text = self.owner.clone();
        text.append("/");
        text.append(self.name.as_str());
        text
    }
}

/// The text of the query for the repository `name` of `owner`: one selection
/// of that repository under the alias `pullRequests`, holding the three
/// parts `all`, `open` and `oldest` in this order.
pub open spec fn query_text(owner: Seq<char>, name: Seq<char>) -> Seq<char> {
    "\n        query RepoStats {\n            pullRequests: repository(owner: \""@ + owner
        + "\", name: \""@ + name + "\") {\n                "@
        + GRAPHQL_REPO_SUBQUERY_ALL_PULL_REQUESTS@ + "\n                "@
        + GRAPHQL_REPO_SUBQUERY_ALL_OPEN_PULL_REQUEST@ + "\n                "@
        + GRAPHQL_REPO_SUBERY_OLDEST_PULL_REQUEST@
        + "\n            }\n          }\n          "@
}

/// Builds the query for one repository.
pub fn build_query(identity: &RepositoryIdentity) -> (r: String)
    requires
        identity.well_formed(),
    ensures
        r@ == query_text(identity.owner@, identity.name@),
{
    let mut text = String::from_str(
        "\n        query RepoStats {\n            pullRequests: repository(owner: \"",
    );
    text.append(identity.owner.as_str());
    text.append("\", name: \"");
    text.append(identity.name.as_str());
    text.append("\") {\n                ");
    text.append(GRAPHQL_REPO_SUBQUERY_ALL_PULL_REQUESTS);
    text.append("\n                ");
    text.append(GRAPHQL_REPO_SUBQUERY_ALL_OPEN_PULL_REQUEST);
    text.append("\n                ");
    text.append(GRAPHQL_REPO_SUBERY_OLDEST_PULL_REQUEST);
    text.append("\n            }\n          }\n          ");
    text
}

} // verus!
