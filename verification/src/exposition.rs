//! What the scrape endpoint answers: two routes, and a refusal for
//! everything else.

use vstd::prelude::*;
use vstd::string::{StrSliceExecFns, StringExecFns, StringSliceAdditionalSpecFns};
use crate::collector::CollectionPass;
use crate::registry::{lists, updated, MetricsRegistry};
use crate::samples::{MetricSample, SeriesKey};

verus! {

/// The body of the answer on the root route.
pub const GREETING: &'static str = "Hello World!";

/// The body of the answer to a request that no route takes.
pub const NOT_FOUND: &'static str = "Not found. Only available path are '/' and '/metrics'";

/// The status of an answer that serves what was asked for.
pub const STATUS_OK: u16 = 200;

/// The status of an answer to a request that no route takes.
pub const STATUS_NOT_FOUND: u16 = 404;

/// What a request asks for.
#[derive(Clone, Copy, Debug, PartialEq, Eq, Structural)]
pub enum Route {
    /// `GET /`: the greeting.
    Root,
    /// `GET /metrics`: the samples, after a fresh collection pass.
    Metrics,
    /// Any other method or path.
    NotFound,
}

/// An answer to a request: the status, the content type where one is set,
/// and the body.
#[derive(Debug, PartialEq, Eq)]
pub struct Reply {
    pub status: u16,
    pub content_type: Option<String>,
    pub body: Vec<u8>,
}

/// The route of a request with the given method and path.
pub open spec fn route_of(method: Seq<char>, path: Seq<char>) -> Route {
    if method == "GET"@ && path == "/metrics"@ {
        Route::Metrics
    } else if method == "GET"@ && path == "/"@ {
        Route::Root
    } else {
        Route::NotFound
    }
}

/// Finds the route of a request.
pub fn route(method: &str, path: &str) -> (r: Route)
    ensures
        r == route_of(method@, path@),
{
    let method = String::from_str(method);
    let path = String::from_str(path);
    if method != String::from_str("GET") {
        Route::NotFound
    } else if path == String::from_str("/metrics") {
        Route::Metrics
    } else if path == String::from_str("/") {
        Route::Root
    } else {
        Route::NotFound
    }
}

/// The answer on a route that needs no collection pass: the greeting on the
/// root route, the refusal where no route takes the request. `None` on the
/// metrics route, whose answer holds the encoded samples.
pub fn fixed_reply(route: Route) -> (r: Option<Reply>)
    ensures
        match route {
            Route::Root => r matches Some(reply) && reply.status == 200
                && reply.content_type is None && reply.body@ == GREETING.spec_bytes(),
            Route::NotFound => r matches Some(reply) && reply.status == 404
                && reply.content_type is None && reply.body@ == NOT_FOUND.spec_bytes(),
            Route::Metrics => r is None,
        },
{
    match route {
        Route::Root => Some(
            Reply { status: STATUS_OK, content_type: None, body: GREETING.as_bytes_vec() },
        ),
        Route::NotFound => Some(
            Reply {
                status: STATUS_NOT_FOUND,
                content_type: None,
                body: NOT_FOUND.as_bytes_vec(),
            },
        ),
        Route::Metrics => None,
    }
}

/// The answer on the metrics route: the encoded samples as they are, under
/// the content type that their encoder names.
pub fn metrics_reply(encoded: Vec<u8>, format_type: &str) -> (r: Reply)
    ensures
        r.status == 200,
        r.content_type matches Some(named) && named@ == format_type@,
        r.body@ == encoded@,
{
    Reply { status: STATUS_OK, content_type: Some(String::from_str(format_type)), body: encoded }
}

/// Takes one collection pass into the registry and lists the samples to
/// serve: those that the pass wrote, and those that earlier passes left for
/// the repositories that this pass has no record of.
pub fn scrape(registry: &mut MetricsRegistry, pass: &CollectionPass) -> (r: Vec<MetricSample>)
    requires
        old(registry).well_formed(),
    ensures
        final(registry).well_formed(),
        final(registry)@ == updated(old(registry)@, pass@.records, pass@.records.len() as int),
        forall|n: int|
            0 <= n < r@.len() ==> final(registry)@.get((#[trigger] r@[n])@.key) == Some(
                r@[n].value,
            ),
        forall|key: SeriesKey| final(registry)@.contains_key(key) ==> lists(r@, key),
        forall|n: int, m: int|
            0 <= n < m < r@.len() ==> (#[trigger] r@[n])@.key != (#[trigger] r@[m])@.key,
{
    registry.update(pass);
    registry.samples()
}

} // verus!
