//! Pull-request statistics of hosted repositories: the query that asks for
//! them, the decoding of the answer into a typed record, the collection of
//! records over a list of repositories, and the registry of metric samples
//! that a scrape endpoint serves.

pub mod collector;
pub mod exposition;
pub mod graphql_helpers;
pub mod json;
pub mod metrics;
pub mod metrics_query;
pub mod registry;
pub mod response;
pub mod samples;
pub mod time;
