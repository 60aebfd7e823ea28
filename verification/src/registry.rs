//! The registry of the latest sample of every series.
//!
//! A collection pass writes the samples of each repository that it has a
//! record of. A repository without a record in a pass keeps the samples that
//! an earlier pass wrote.

use vstd::prelude::*;
use vstd::string::StringExecFns;
use crate::collector::{CollectionPass, RecordModel, RepositoryMetricsRecord};
use crate::metrics_query::RepositoryName;
use crate::samples::{
    duplicate_labels, label_from, label_map, sample_models, same_series, series_key, Label,
    MetricSample, SampleModel, SeriesKey,
};

verus! {

/// The series that counts all pull requests of a repository.
pub const SERIES_ALL_PULL_REQUESTS: &'static str = "all_pull_requests";

/// The series that counts the open pull requests of a repository.
pub const SERIES_OPEN_PULL_REQUESTS: &'static str = "open_pull_requests";

/// The series of the age, in whole days, of the oldest open pull request of
/// a repository.
pub const SERIES_OLDEST_OPEN_AGE_DAYS: &'static str = "oldest_open_pull_request_age_days";

/// The label that names the repository of a sample, as `owner/name`.
pub const LABEL_REPOSITORY: &'static str = "repository";

/// The place of one series in the registry: its name, its labels, and its
/// value where it has one.
#[derive(Debug, PartialEq, Eq)]
struct SeriesSlot {
    series_name: String,
    labels: Vec<Label>,
    value: Option<u64>,
}

/// The latest sample of every series. Its model is the mapping from the key
/// of a series to the value that the series has.
#[derive(Debug, PartialEq, Eq)]
pub struct MetricsRegistry {
    slots: Vec<SeriesSlot>,
}

/// The key of the series that a slot holds.
spec fn slot_key(slot: SeriesSlot) -> SeriesKey {
    series_key(slot.series_name@, slot.labels@)
}

/// The index of the first slot among `slots[from..]` that holds the series
/// `key`.
spec fn slot_from(slots: Seq<SeriesSlot>, key: SeriesKey, from: int) -> Option<int>
    decreases slots.len() - from,
{
    if from < 0 || from >= slots.len() {
        None
    } else if slot_key(slots[from]) == key {
        Some(from)
    } else {
        slot_from(slots, key, from + 1)
    }
}

/// The value that the slots hold for the series `key`.
spec fn value_of(slots: Seq<SeriesSlot>, key: SeriesKey) -> Option<u64> {
    match slot_from(slots, key, 0) {
        Some(i) => slots[i].value,
        None => None,
    }
}

/// The key of the series `series_name` of one repository: its only label
/// names the repository.
pub open spec fn repository_key(series_name: Seq<char>, identity: RepositoryName) -> SeriesKey {
    SeriesKey {
        series_name,
        labels: Map::empty().insert(LABEL_REPOSITORY@, identity.label()),
    }
}

/// The mapping with the series `key` set to `value`, or without that series
/// where `value` is `None`.
pub open spec fn put_in(samples: Map<SeriesKey, u64>, key: SeriesKey, value: Option<u64>) -> Map<
    SeriesKey,
    u64,
> {
    match value {
        Some(v) => samples.insert(key, v),
        None => samples.remove(key),
    }
}

/// The mapping after the record of one repository is written: its three
/// series hold what the record holds, and the series of its age is gone
/// where the record has no age.
pub open spec fn recorded(samples: Map<SeriesKey, u64>, record: RecordModel) -> Map<
    SeriesKey,
    u64,
> {
    let metrics = record.metrics.pull_requests;
    let with_all = put_in(
        samples,
        repository_key(SERIES_ALL_PULL_REQUESTS@, record.identity),
        Some(metrics.all),
    );
    let with_open = put_in(
        with_all,
        repository_key(SERIES_OPEN_PULL_REQUESTS@, record.identity),
        Some(metrics.open),
    );
    put_in(
        with_open,
        repository_key(SERIES_OLDEST_OPEN_AGE_DAYS@, record.identity),
        metrics.oldest,
    )
}

/// The samples that the record of one repository stands for: its two
/// counts, and its age where it has one.
pub open spec fn samples_of(record: RecordModel) -> Seq<SampleModel> {
    let metrics = record.metrics.pull_requests;
    let counts = seq![
        SampleModel {
            key: repository_key(SERIES_ALL_PULL_REQUESTS@, record.identity),
            value: metrics.all as nat,
        },
        SampleModel {
            key: repository_key(SERIES_OPEN_PULL_REQUESTS@, record.identity),
            value: metrics.open as nat,
        },
    ];
    match metrics.oldest {
        Some(days) => counts.push(
            SampleModel {
                key: repository_key(SERIES_OLDEST_OPEN_AGE_DAYS@, record.identity),
                value: days as nat,
            },
        ),
        None => counts,
    }
}

/// The mapping after the first `count` records are written, in their order.
pub open spec fn updated(
    samples: Map<SeriesKey, u64>,
    records: Seq<RecordModel>,
    count: int,
) -> Map<SeriesKey, u64>
    decreases count,
{
    if count <= 0 {
        samples
    } else {
        recorded(updated(samples, records, count - 1), records[count - 1])
    }
}

impl View for MetricsRegistry {
    type V = Map<SeriesKey, u64>;

    closed spec fn view(&self) -> Map<SeriesKey, u64> {
        Map::new(
            |key: SeriesKey| value_of(self.slots@, key) is Some,
            |key: SeriesKey| value_of(self.slots@, key)->Some_0,
        )
    }
}

/// Where a slot is found, it lies in the range searched and holds the
/// series.
proof fn lemma_slot_found(slots: Seq<SeriesSlot>, key: SeriesKey, from: int)
    requires
        0 <= from,
    ensures
        slot_from(slots, key, from) matches Some(i) ==> from <= i < slots.len() && slot_key(
            slots[i],
        ) == key,
    decreases slots.len() - from,
{
    if from < slots.len() && slot_key(slots[from]) != key {
        lemma_slot_found(slots, key, from + 1);
    }
}

/// Two lists of slots that hold the same series at every index find every
/// series at the same index.
proof fn lemma_same_keys(a: Seq<SeriesSlot>, b: Seq<SeriesSlot>, key: SeriesKey, from: int)
    requires
        0 <= from,
        a.len() == b.len(),
        forall|j: int| 0 <= j < a.len() ==> slot_key(#[trigger] a[j]) == slot_key(b[j]),
    ensures
        slot_from(a, key, from) == slot_from(b, key, from),
    decreases a.len() - from,
{
    if from < a.len() {
        assert(slot_key(a[from]) == slot_key(b[from]));
        if slot_key(a[from]) != key {
            lemma_same_keys(a, b, key, from + 1);
        }
    }
}

/// A slot added at the end is found only for a series that no slot before it
/// holds.
proof fn lemma_pushed(slots: Seq<SeriesSlot>, slot: SeriesSlot, key: SeriesKey, from: int)
    requires
        0 <= from <= slots.len(),
    ensures
        slot_from(slots.push(slot), key, from) == match slot_from(slots, key, from) {
            Some(i) => Some(i),
            None => if slot_key(slot) == key {
                Some(slots.len() as int)
            } else {
                None
            },
        },
    decreases slots.len() - from,
{
    let longer = slots.push(slot);
    if from < slots.len() {
        assert(longer[from] == slots[from]);
        if slot_key(slots[from]) != key {
            lemma_pushed(slots, slot, key, from + 1);
        }
    } else {
        assert(longer[from] == slot);
        assert(slot_from(longer, key, from + 1) is None);
    }
}

/// Where no slot before `i` holds the series of the slot at `i`, that series
/// is found at `i`.
proof fn lemma_first_slot(slots: Seq<SeriesSlot>, i: int, from: int)
    requires
        0 <= from <= i < slots.len(),
        forall|j: int| from <= j < i ==> slot_key(#[trigger] slots[j]) != slot_key(slots[i]),
    ensures
        slot_from(slots, slot_key(slots[i]), from) == Some(i),
    decreases i - from,
{
    if from < i {
        assert(slot_key(slots[from]) != slot_key(slots[i]));
        lemma_first_slot(slots, i, from + 1);
    }
}

/// A series that is not found is held by no slot in the range searched.
proof fn lemma_slot_missing(slots: Seq<SeriesSlot>, key: SeriesKey, from: int)
    requires
        0 <= from,
        slot_from(slots, key, from) is None,
    ensures
        forall|j: int| from <= j < slots.len() ==> slot_key(#[trigger] slots[j]) != key,
    decreases slots.len() - from,
{
    if from < slots.len() {
        lemma_slot_missing(slots, key, from + 1);
    }
}

/// Whether one of the samples is of the series `key`.
pub open spec fn lists(samples: Seq<MetricSample>, key: SeriesKey) -> bool {
    exists|n: int| 0 <= n < samples.len() && (#[trigger] samples[n])@.key == key
}

/// Whether one of the first `count` slots holds the series `key`.
spec fn holds(slots: Seq<SeriesSlot>, count: int, key: SeriesKey) -> bool {
    exists|i: int| 0 <= i < count && slot_key(#[trigger] slots[i]) == key
}

/// The labels of a sample of one repository: the one label that names it.
pub fn repository_labels(label: String) -> (r: Vec<Label>)
    ensures
        label_map(r@) == Map::<Seq<char>, Seq<char>>::empty().insert(LABEL_REPOSITORY@, label@),
{
    let mut labels: Vec<Label> = Vec::new();
    labels.push(Label { name: String::from_str(LABEL_REPOSITORY), value: label });
    proof {
        let expected = Map::<Seq<char>, Seq<char>>::empty().insert(LABEL_REPOSITORY@, label@);
        assert forall|name: Seq<char>| #[trigger]
            label_map(labels@).dom().contains(name) == expected.dom().contains(name) by {
            assert(label_from(labels@, name, 1) is None);
        }
        assert(label_map(labels@).dom() =~= expected.dom());
        assert(label_map(labels@) =~= expected);
    }
    labels
}

/// Turns the record of one repository into its samples.
pub fn record_samples(record: &RepositoryMetricsRecord) -> (r: Vec<MetricSample>)
    ensures
        sample_models(r@) == samples_of(record@),
{
    let metrics = record.metrics.pull_requests;
    let mut out: Vec<MetricSample> = Vec::new();
    out.push(
        MetricSample {
            series_name: String::from_str(SERIES_ALL_PULL_REQUESTS),
            labels: repository_labels(record.identity.label()),
            value: metrics.all,
        },
    );
    out.push(
        MetricSample {
            series_name: String::from_str(SERIES_OPEN_PULL_REQUESTS),
            labels: repository_labels(record.identity.label()),
            value: metrics.open,
        },
    );
    match metrics.oldest {
        Some(days) => {
            out.push(
                MetricSample {
                    series_name: String::from_str(SERIES_OLDEST_OPEN_AGE_DAYS),
                    labels: repository_labels(record.identity.label()),
                    value: days,
                },
            );
        },
        None => {},
    }
    assert(sample_models(out@) =~= samples_of(record@));
    out
}

impl MetricsRegistry {
    /// The registry keeps every series in one place.
    pub closed spec fn well_formed(&self) -> bool {
        forall|i: int, j: int|
            0 <= i < j < self.slots@.len() ==> slot_key(#[trigger] self.slots@[i]) != slot_key(
                #[trigger] self.slots@[j],
            )
    }

    /// A registry without any sample.
    pub fn new() -> (r: MetricsRegistry)
        ensures
            r@ == Map::<SeriesKey, u64>::empty(),
            r.well_formed(),
    {
        let r = MetricsRegistry { slots: Vec::new() };
        assert(r@ =~= Map::<SeriesKey, u64>::empty());
        r
    }

    /// Finds the slot of a series.
    fn find_slot(&self, series_name: &String, labels: &Vec<Label>) -> (r: Option<usize>)
        ensures
            match r {
                Some(i) => slot_from(self.slots@, series_key(series_name@, labels@), 0) == Some(
                    i as int,
                ) && i < self.slots@.len(),
                None => slot_from(self.slots@, series_key(series_name@, labels@), 0) is None,
            },
    {
        let ghost key = series_key(series_name@, labels@);
        let mut i: usize = 0;
        while i < self.slots.len()
            invariant
                i <= self.slots.len(),
                key == series_key(series_name@, labels@),
                slot_from(self.slots@, key, 0) == slot_from(self.slots@, key, i as int),
            decreases self.slots.len() - i,
        {
            if same_series(series_name, labels, &self.slots[i].series_name, &self.slots[i].labels) {
                return Some(i);
            }
            i += 1;
        }
        None
    }

    /// The value that the series `series_name` has for `labels`.
    pub fn get(&self, series_name: &String, labels: &Vec<Label>) -> (r: Option<u64>)
        ensures
            r == self@.get(series_key(series_name@, labels@)),
    {
        match self.find_slot(series_name, labels) {
            Some(i) => self.slots[i].value,
            None => None,
        }
    }

    /// The samples of all series that have a value: every sample listed is
    /// the value that the registry holds for its series, every series with a
    /// value is listed, and none is listed twice.
    pub fn samples(&self) -> (r: Vec<MetricSample>)
        requires
            self.well_formed(),
        ensures
            forall|n: int|
                0 <= n < r@.len() ==> self@.get((#[trigger] r@[n])@.key) == Some(r@[n].value),
            forall|key: SeriesKey| self@.contains_key(key) ==> lists(r@, key),
            forall|n: int, m: int|
                0 <= n < m < r@.len() ==> (#[trigger] r@[n])@.key != (#[trigger] r@[m])@.key,
    {
        let mut out: Vec<MetricSample> = Vec::new();
        let mut i: usize = 0;
        while i < self.slots.len()
            invariant
                i <= self.slots.len(),
                self.well_formed(),
                forall|n: int|
                    0 <= n < out@.len() ==> self@.get((#[trigger] out@[n])@.key) == Some(
                        out@[n].value,
                    ) && holds(self.slots@, i as int, out@[n]@.key),
                forall|j: int|
                    0 <= j < i && (#[trigger] self.slots@[j]).value is Some ==> lists(
                        out@,
                        slot_key(self.slots@[j]),
                    ),
                forall|n: int, m: int|
                    0 <= n < m < out@.len() ==> (#[trigger] out@[n])@.key != (
                    #[trigger] out@[m])@.key,
            decreases self.slots.len() - i,
        {
            let ghost before = out@;
            match self.slots[i].value {
                Some(value) => {
                    let sample = MetricSample {
                        series_name: self.slots[i].series_name.clone(),
                        labels: duplicate_labels(&self.slots[i].labels),
                        value,
                    };
                    out.push(sample);
                    proof {
                        let key = slot_key(self.slots@[i as int]);
                        assert(sample@.key == key);
                        lemma_first_slot(self.slots@, i as int, 0);
                        assert forall|n: int| 0 <= n < before.len() implies (
                        #[trigger] out@[n])@.key != key by {
                            assert(out@[n] == before[n]);
                            assert(holds(self.slots@, i as int, before[n]@.key));
                        }
                        assert forall|j: int|
                            0 <= j < i + 1 && (#[trigger] self.slots@[j]).value is Some
                            implies lists(out@, slot_key(self.slots@[j])) by {
                            if j < i {
                                assert(lists(before, slot_key(self.slots@[j])));
                                let n = choose|n: int|
                                    0 <= n < before.len() && (#[trigger] before[n])@.key
                                        == slot_key(self.slots@[j]);
                                assert(out@[n] == before[n]);
                            } else {
                                assert(out@[before.len() as int]@.key == key);
                            }
                        }
                        assert forall|n: int| 0 <= n < out@.len() implies holds(
                            self.slots@,
                            i + 1,
                            (#[trigger] out@[n])@.key,
                        ) by {
                            if n < before.len() {
                                assert(out@[n] == before[n]);
                                assert(holds(self.slots@, i as int, before[n]@.key));
                                let j = choose|j: int|
                                    0 <= j < i && slot_key(#[trigger] self.slots@[j])
                                        == before[n]@.key;
                                assert(slot_key(self.slots@[j]) == out@[n]@.key);
                            } else {
                                assert(slot_key(self.slots@[i as int]) == out@[n]@.key);
                            }
                        }
                    }
                },
                None => {
                    proof {
                        assert forall|n: int| 0 <= n < out@.len() implies holds(
                            self.slots@,
                            i + 1,
                            (#[trigger] out@[n])@.key,
                        ) by {
                            assert(holds(self.slots@, i as int, out@[n]@.key));
                            let j = choose|j: int|
                                0 <= j < i && slot_key(#[trigger] self.slots@[j]) == out@[n]@.key;
                            assert(slot_key(self.slots@[j]) == out@[n]@.key);
                        }
                    }
                },
            }
            i += 1;
        }
        proof {
            assert forall|key: SeriesKey| self@.contains_key(key) implies lists(out@, key) by {
                lemma_slot_found(self.slots@, key, 0);
                let j = slot_from(self.slots@, key, 0)->Some_0;
                assert(self.slots@[j].value is Some);
            }
        }
        out
    }

    /// Sets the series `series_name` with `labels` to `value`, or takes the
    /// series out where `value` is `None`. No other series changes.
    pub fn put(&mut self, series_name: String, labels: Vec<Label>, value: Option<u64>)
        requires
            old(self).well_formed(),
        ensures
            final(self)@ == put_in(old(self)@, series_key(series_name@, labels@), value),
            final(self).well_formed(),
    {
        let ghost key = series_key(series_name@, labels@);
        let ghost before = self.slots@;
        let found = self.find_slot(&series_name, &labels);
        let slot = SeriesSlot { series_name, labels, value };
        match found {
            Some(i) => {
                self.slots.set(i, slot);
                proof {
                    lemma_slot_found(before, key, 0);
                    assert forall|j: int| 0 <= j < before.len() implies slot_key(
                        #[trigger] self.slots@[j],
                    ) == slot_key(before[j]) by {}
                    assert forall|other: SeriesKey|
                        slot_from(self.slots@, other, 0) == slot_from(before, other, 0) by {
                        lemma_same_keys(self.slots@, before, other, 0);
                    }
                    assert forall|other: SeriesKey| other != key implies value_of(
                        self.slots@,
                        other,
                    ) == value_of(before, other) by {
                        lemma_slot_found(before, other, 0);
                    }
                }
            },
            None => {
                self.slots.push(slot);
                proof {
                    lemma_slot_missing(before, key, 0);
                    assert forall|j: int| 0 <= j < before.len() implies #[trigger] self.slots@[j]
                        == before[j] by {}
                    assert forall|other: SeriesKey| other != key implies value_of(
                        self.slots@,
                        other,
                    ) == value_of(before, other) by {
                        lemma_pushed(before, slot, other, 0);
                        lemma_slot_found(before, other, 0);
                    }
                    lemma_pushed(before, slot, key, 0);
                }
            },
        }
        assert(value_of(self.slots@, key) == value);
        assert(self@ =~= put_in(old(self)@, key, value));
    }

    /// Writes the three series of one repository from its record.
    pub fn record(&mut self, record: &RepositoryMetricsRecord)
        requires
            old(self).well_formed(),
        ensures
            final(self)@ == recorded(old(self)@, record@),
            final(self).well_formed(),
    {
        let metrics = record.metrics.pull_requests;
        self.put(
            String::from_str(SERIES_ALL_PULL_REQUESTS),
            repository_labels(record.identity.label()),
            Some(metrics.all),
        );
        self.put(
            String::from_str(SERIES_OPEN_PULL_REQUESTS),
            repository_labels(record.identity.label()),
            Some(metrics.open),
        );
        self.put(
            String::from_str(SERIES_OLDEST_OPEN_AGE_DAYS),
            repository_labels(record.identity.label()),
            metrics.oldest,
        );
    }

    /// Writes the series of every repository that the pass has a record of.
    /// The series of every other repository stay as they are.
    pub fn update(&mut self, pass: &CollectionPass)
        requires
            old(self).well_formed(),
        ensures
            final(self)@ == updated(old(self)@, pass@.records, pass@.records.len() as int),
            final(self).well_formed(),
    {
        let mut i: usize = 0;
        while i < pass.records.len()
            invariant
                i <= pass.records.len(),
                self.well_formed(),
                self@ == updated(old(self)@, pass@.records, i as int),
            decreases pass.records.len() - i,
        {
            self.record(&pass.records[i]);
            i += 1;
        }
    }
}

/// The three series have three names.
pub proof fn lemma_series_names_differ()
    ensures
        SERIES_ALL_PULL_REQUESTS@ != SERIES_OPEN_PULL_REQUESTS@,
        SERIES_ALL_PULL_REQUESTS@ != SERIES_OLDEST_OPEN_AGE_DAYS@,
        SERIES_OPEN_PULL_REQUESTS@ != SERIES_OLDEST_OPEN_AGE_DAYS@,
{
    reveal_strlit("all_pull_requests");
    reveal_strlit("open_pull_requests");
    reveal_strlit("oldest_open_pull_request_age_days");
    assert(SERIES_ALL_PULL_REQUESTS@.len() == 17);
    assert(SERIES_OPEN_PULL_REQUESTS@.len() == 18);
    assert(SERIES_OLDEST_OPEN_AGE_DAYS@.len() == 33);
}

/// What is written is what is read: after the record of a repository is
/// written, its three series hold the record's two counts and its age, the
/// series of the age being absent where the record has none, and every other
/// series holds what it held before.
pub proof fn lemma_recorded_values(samples: Map<SeriesKey, u64>, record: RecordModel)
    ensures
        ({
            let after = recorded(samples, record);
            let all_key = repository_key(SERIES_ALL_PULL_REQUESTS@, record.identity);
            let open_key = repository_key(SERIES_OPEN_PULL_REQUESTS@, record.identity);
            let age_key = repository_key(SERIES_OLDEST_OPEN_AGE_DAYS@, record.identity);
            &&& after.get(all_key) == Some(record.metrics.pull_requests.all)
            &&& after.get(open_key) == Some(record.metrics.pull_requests.open)
            &&& after.get(age_key) == record.metrics.pull_requests.oldest
            &&& forall|key: SeriesKey|
                key != all_key && key != open_key && key != age_key ==> after.get(key)
                    == samples.get(key)
        }),
{
    lemma_series_names_differ();
}

/// Every sample that a record stands for is read back from the registry
/// with its value, once the record is written.
pub proof fn lemma_samples_read_back(samples: Map<SeriesKey, u64>, record: RecordModel, i: int)
    requires
        0 <= i < samples_of(record).len(),
    ensures
        recorded(samples, record).get(samples_of(record)[i].key) matches Some(value)
            && value as nat == samples_of(record)[i].value,
{
    lemma_recorded_values(samples, record);
}

/// A pass without any record leaves every series as it is.
pub proof fn lemma_no_record_no_change(samples: Map<SeriesKey, u64>, records: Seq<RecordModel>)
    requires
        records.len() == 0,
    ensures
        updated(samples, records, records.len() as int) == samples,
{
}

/// A repository without a record keeps its samples: a series whose labels
/// are those of none of the repositories written holds after the writing
/// what it held before.
pub proof fn lemma_untouched(
    samples: Map<SeriesKey, u64>,
    records: Seq<RecordModel>,
    count: int,
    key: SeriesKey,
)
    requires
        0 <= count <= records.len(),
        forall|i: int|
            0 <= i < count ==> key.labels != repository_key(
                key.series_name,
                (#[trigger] records[i]).identity,
            ).labels,
    ensures
        updated(samples, records, count).get(key) == samples.get(key),
    decreases count,
{
    if count > 0 {
        lemma_untouched(samples, records, count - 1, key);
        lemma_recorded_values(updated(samples, records, count - 1), records[count - 1]);
        assert(key.labels != repository_key(key.series_name, records[count - 1].identity).labels);
    }
}

} // verus!
