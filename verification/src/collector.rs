//! One collection pass over the configured repositories.
//!
//! The caller fetches the answer for each repository and hands over what
//! came back, an answer or the reason why none came. The pass decodes each
//! answer by itself: a repository whose fetch or answer fails is set aside
//! with its failure, and the others keep their records.

use vstd::prelude::*;
use crate::json::Json;
use crate::metrics::RepoMetrics;
use crate::metrics_query::{RepositoryIdentity, RepositoryName};
use crate::response::{parse_response, response_outcome, ResponseError, ResponseFailure};
use crate::time::Timestamp;

verus! {

/// What the fetch for one repository came back with: the answer, or the
/// message of the transport's failure.
#[derive(Debug, PartialEq, Eq)]
pub struct Fetched {
    pub identity: RepositoryIdentity,
    pub outcome: Result<Json, String>,
}

/// The statistics of one repository, as one pass found them.
#[derive(Debug, PartialEq, Eq)]
pub struct RepositoryMetricsRecord {
    pub identity: RepositoryIdentity,
    pub metrics: RepoMetrics,
}

/// Why a pass has no record of a repository.
#[derive(Debug, PartialEq, Eq)]
pub enum CollectError {
    /// No answer came: the transport's message.
    Transport(String),
    /// An answer came and gave no statistics.
    Response(ResponseError),
}

/// A repository that a pass has no record of, and why.
#[derive(Debug, PartialEq, Eq)]
pub struct CollectionFailure {
    pub identity: RepositoryIdentity,
    pub error: CollectError,
}

/// The result of one pass: the records, and the failures, each in the order
/// of the repositories.
#[derive(Debug, PartialEq, Eq)]
pub struct CollectionPass {
    pub records: Vec<RepositoryMetricsRecord>,
    pub failures: Vec<CollectionFailure>,
}

/// The mathematical model of a `CollectError`.
pub enum CollectFailure {
    Transport(Seq<char>),
    Response(ResponseFailure),
}

/// The mathematical model of a `RepositoryMetricsRecord`.
pub struct RecordModel {
    pub identity: RepositoryName,
    pub metrics: RepoMetrics,
}

/// The mathematical model of a `CollectionFailure`.
pub struct FailureModel {
    pub identity: RepositoryName,
    pub error: CollectFailure,
}

/// The mathematical model of a `CollectionPass`.
pub struct PassModel {
    pub records: Seq<RecordModel>,
    pub failures: Seq<FailureModel>,
}

impl View for CollectError {
    type V = CollectFailure;

    open spec fn view(&self) -> CollectFailure {
        match self {
            CollectError::Transport(message) => CollectFailure::Transport(message@),
            CollectError::Response(error) => CollectFailure::Response(error@),
        }
    }
}

impl View for RepositoryMetricsRecord {
    type V = RecordModel;

    open spec fn view(&self) -> RecordModel {
        RecordModel { identity: self.identity@, metrics: self.metrics }
    }
}

impl View for CollectionFailure {
    type V = FailureModel;

    open spec fn view(&self) -> FailureModel {
        FailureModel { identity: self.identity@, error: self.error@ }
    }
}

impl View for CollectionPass {
    type V = PassModel;

    open spec fn view(&self) -> PassModel {
        PassModel {
            records: Seq::new(self.records@.len(), |i: int| self.records@[i]@),
            failures: Seq::new(self.failures@.len(), |i: int| self.failures@[i]@),
        }
    }
}

/// What one repository's fetch gives at `now`: its statistics, or why there
/// are none.
pub open spec fn verdict(fetched: Fetched, now: Timestamp) -> Result<RecordModel, FailureModel> {
    match fetched.outcome {
        Ok(payload) => match response_outcome(payload@, now) {
            Ok(metrics) => Ok(RecordModel { identity: fetched.identity@, metrics }),
            Err(failure) => Err(
                FailureModel {
                    identity: fetched.identity@,
                    error: CollectFailure::Response(failure),
                },
            ),
        },
        Err(message) => Err(
            FailureModel {
                identity: fetched.identity@,
                error: CollectFailure::Transport(message@),
            },
        ),
    }
}

/// A pass with one more repository taken in: its record joins the records,
/// or its failure the failures, and nothing else changes.
pub open spec fn absorbed(pass: PassModel, fetched: Fetched, now: Timestamp) -> PassModel {
    match verdict(fetched, now) {
        Ok(record) => PassModel { records: pass.records.push(record), failures: pass.failures },
        Err(failure) => PassModel {
            records: pass.records,
            failures: pass.failures.push(failure),
        },
    }
}

/// The pass over the first `count` of the fetches.
pub open spec fn collected(fetches: Seq<Fetched>, now: Timestamp, count: int) -> PassModel
    decreases count,
{
    if count <= 0 {
        PassModel { records: Seq::empty(), failures: Seq::empty() }
    } else {
        absorbed(collected(fetches, now, count - 1), fetches[count - 1], now)
    }
}

/// Judges what came back for one repository.
pub fn judge(fetched: &Fetched, now: &Timestamp) -> (r: Result<
    RepositoryMetricsRecord,
    CollectionFailure,
>)
    ensures
        match r {
            Ok(record) => verdict(*fetched, *now) == Ok::<RecordModel, FailureModel>(record@),
            Err(failure) => verdict(*fetched, *now) == Err::<RecordModel, FailureModel>(
                failure@,
            ),
        },
        r matches Ok(record) ==> record.metrics.well_formed(),
{
    match &fetched.outcome {
        Ok(payload) => match parse_response(payload, now) {
            Ok(metrics) => Ok(
                RepositoryMetricsRecord { identity: fetched.identity.duplicate(), metrics },
            ),
            Err(error) => Err(
                CollectionFailure {
                    identity: fetched.identity.duplicate(),
                    error: CollectError::Response(error),
                },
            ),
        },
        Err(message) => Err(
            CollectionFailure {
                identity: fetched.identity.duplicate(),
                error: CollectError::Transport(message.clone()),
            },
        ),
    }
}

impl CollectionPass {
    /// Every record of the pass is well formed.
    pub open spec fn well_formed(&self) -> bool {
        forall|i: int|
            0 <= i < self.records@.len() ==> (#[trigger] self.records@[i]).metrics.well_formed()
    }

    /// A pass over no repository.
    pub fn new() -> (r: CollectionPass)
        ensures
            r@ == (PassModel { records: Seq::empty(), failures: Seq::empty() }),
            r.well_formed(),
    {
        let r = CollectionPass { records: Vec::new(), failures: Vec::new() };
        assert(r@.records =~= Seq::empty());
        assert(r@.failures =~= Seq::empty());
        r
    }

    /// Takes in what came back for one more repository.
    pub fn absorb(&mut self, fetched: &Fetched, now: &Timestamp)
        ensures
            final(self)@ == absorbed(old(self)@, *fetched, *now),
            old(self).well_formed() ==> final(self).well_formed(),
    {
        match judge(fetched, now) {
            Ok(record) => {
                self.records.push(record);
                assert(self@.records =~= old(self)@.records.push(record@));
                assert(self@.failures =~= old(self)@.failures);
            },
            Err(failure) => {
                self.failures.push(failure);
                assert(self@.records =~= old(self)@.records);
                assert(self@.failures =~= old(self)@.failures.push(failure@));
            },
        }
    }
}

/// Runs one pass over what came back for the repositories, in their order.
/// No failure ends the pass: each repository is judged by itself.
pub fn collect(fetches: &Vec<Fetched>, now: &Timestamp) -> (r: CollectionPass)
    ensures
        r@ == collected(fetches@, *now, fetches@.len() as int),
        r.well_formed(),
{
    let mut pass = CollectionPass::new();
    let mut i: usize = 0;
    while i < fetches.len()
        invariant
            i <= fetches.len(),
            pass.well_formed(),
            pass@ == collected(fetches@, *now, i as int),
        decreases fetches.len() - i,
    {
        pass.absorb(&fetches[i], now);
        i += 1;
    }
    pass
}

/// A pass accounts for every repository once: as a record or as a failure.
pub proof fn lemma_every_repository_accounted(fetches: Seq<Fetched>, now: Timestamp, count: int)
    requires
        0 <= count <= fetches.len(),
    ensures
        collected(fetches, now, count).records.len() + collected(
            fetches,
            now,
            count,
        ).failures.len() == count,
    decreases count,
{
    if count > 0 {
        lemma_every_repository_accounted(fetches, now, count - 1);
    }
}

/// The pass over the first `count` fetches, where the fetch at `k` fails and
/// every other one gives statistics.
proof fn lemma_failure_is_isolated_among(
    fetches: Seq<Fetched>,
    now: Timestamp,
    k: int,
    count: int,
)
    requires
        0 <= k < fetches.len(),
        0 <= count <= fetches.len(),
        verdict(fetches[k], now) is Err,
        forall|i: int| 0 <= i < fetches.len() && i != k ==> verdict(fetches[i], now) is Ok,
    ensures
        ({
            let pass = collected(fetches, now, count);
            &&& count <= k ==> pass.failures.len() == 0 && pass.records.len() == count
            &&& count > k ==> pass.failures == seq![verdict(fetches[k], now)->Err_0]
                && pass.records.len() == count - 1
            &&& forall|i: int|
                0 <= i < k && i < count ==> pass.records[i] == verdict(fetches[i], now)->Ok_0
            &&& forall|i: int|
                k < i < count ==> pass.records[i - 1] == verdict(fetches[i], now)->Ok_0
        }),
    decreases count,
{
    if count > 0 {
        lemma_failure_is_isolated_among(fetches, now, k, count - 1);
        let before = collected(fetches, now, count - 1);
        let pass = collected(fetches, now, count);
        assert(pass == absorbed(before, fetches[count - 1], now));
        if count - 1 == k {
            assert(pass.failures =~= seq![verdict(fetches[k], now)->Err_0]);
        } else {
            assert(verdict(fetches[count - 1], now) is Ok);
            assert(pass.failures == before.failures);
        }
    }
}

/// One failure does not reach the other repositories: where the fetch for
/// the repository at `k` fails in transport and every other repository gives
/// statistics, the pass holds that one failure, with the transport's
/// message, and the records of all the others, in their order.
pub proof fn lemma_failure_is_isolated(fetches: Seq<Fetched>, now: Timestamp, k: int)
    requires
        0 <= k < fetches.len(),
        fetches[k].outcome is Err,
        forall|i: int| 0 <= i < fetches.len() && i != k ==> verdict(fetches[i], now) is Ok,
    ensures
        ({
            let pass = collected(fetches, now, fetches.len() as int);
            &&& pass.failures == seq![
                FailureModel {
                    identity: fetches[k].identity@,
                    error: CollectFailure::Transport(fetches[k].outcome->Err_0@),
                },
            ]
            &&& pass.records.len() == fetches.len() - 1
            &&& forall|i: int| 0 <= i < k ==> pass.records[i] == verdict(fetches[i], now)->Ok_0
            &&& forall|i: int|
                k < i < fetches.len() ==> pass.records[i - 1] == verdict(fetches[i], now)->Ok_0
        }),
{
    lemma_failure_is_isolated_among(fetches, now, k, fetches.len() as int);
}

} // verus!
