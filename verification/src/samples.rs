//! Metric samples: a series name, a set of labels and a value.

use vstd::prelude::*;

verus! {

/// One label of a sample: a name and its value.
#[derive(Debug, PartialEq, Eq)]
pub struct Label {
    pub name: String,
    pub value: String,
}

/// One sample of a series: the value that the series has for one set of
/// labels.
#[derive(Debug, PartialEq, Eq)]
pub struct MetricSample {
    pub series_name: String,
    pub labels: Vec<Label>,
    pub value: u64,
}

/// What tells one sample from another: the name of its series, and its
/// labels as a mapping from label name to label value.
pub struct SeriesKey {
    pub series_name: Seq<char>,
    pub labels: Map<Seq<char>, Seq<char>>,
}

/// The mathematical model of a `MetricSample`.
pub struct SampleModel {
    pub key: SeriesKey,
    pub value: nat,
}

/// The value of the first label called `name` among `labels[from..]`.
pub open spec fn label_from(labels: Seq<Label>, name: Seq<char>, from: int) -> Option<Seq<char>>
    decreases labels.len() - from,
{
    if from < 0 || from >= labels.len() {
        None
    } else if labels[from].name@ == name {
        Some(labels[from].value@)
    } else {
        label_from(labels, name, from + 1)
    }
}

/// The mapping that a list of labels stands for. The order of the list does
/// not count; of two labels with one name, the first one does.
pub open spec fn label_map(labels: Seq<Label>) -> Map<Seq<char>, Seq<char>> {
    Map::new(
        |name: Seq<char>| label_from(labels, name, 0) is Some,
        |name: Seq<char>| label_from(labels, name, 0)->Some_0,
    )
}

/// The key of the series `series_name` with the given labels.
pub open spec fn series_key(series_name: Seq<char>, labels: Seq<Label>) -> SeriesKey {
    SeriesKey { series_name, labels: label_map(labels) }
}

impl View for MetricSample {
    type V = SampleModel;

    open spec fn view(&self) -> SampleModel {
        SampleModel {
            key: series_key(self.series_name@, self.labels@),
            value: self.value as nat,
        }
    }
}

/// The models of the samples of a list, in its order.
pub open spec fn sample_models(samples: Seq<MetricSample>) -> Seq<SampleModel> {
    Seq::new(samples.len(), |i: int| samples[i]@)
}

/// A label that stands in the list has a value in the mapping.
pub proof fn lemma_label_named(labels: Seq<Label>, i: int, from: int)
    requires
        0 <= from <= i < labels.len(),
    ensures
        label_from(labels, labels[i].name@, from) is Some,
    decreases i - from,
{
    if labels[from].name@ != labels[i].name@ {
        lemma_label_named(labels, i, from + 1);
    }
}

/// A name with a value in the mapping is the name of a label in the list.
pub proof fn lemma_label_found(labels: Seq<Label>, name: Seq<char>, from: int) -> (i: int)
    requires
        0 <= from,
        label_from(labels, name, from) is Some,
    ensures
        from <= i < labels.len(),
        labels[i].name@ == name,
    decreases labels.len() - from,
{
    if labels[from].name@ == name {
        from
    } else {
        lemma_label_found(labels, name, from + 1)
    }
}

/// Whether two lists give the same value, or both none, to `name`.
pub open spec fn agree_on(a: Seq<Label>, b: Seq<Label>, name: Seq<char>) -> bool {
    label_from(a, name, 0) == label_from(b, name, 0)
}

/// Whether `b` gives every name of a label in `a` the value that `a` gives
/// it.
pub open spec fn agree_on_names_of(a: Seq<Label>, b: Seq<Label>) -> bool {
    forall|i: int| 0 <= i < a.len() ==> agree_on(a, b, #[trigger] a[i].name@)
}

/// Two lists stand for the same mapping just when each gives the names of
/// the other the values that the other gives them.
pub proof fn lemma_same_mapping(a: Seq<Label>, b: Seq<Label>)
    ensures
        (label_map(a) == label_map(b)) <==> (agree_on_names_of(a, b) && agree_on_names_of(b, a)),
{
    if agree_on_names_of(a, b) && agree_on_names_of(b, a) {
        assert forall|name: Seq<char>| agree_on(a, b, name) by {
            if label_from(a, name, 0) is Some {
                let i = lemma_label_found(a, name, 0);
                assert(agree_on(a, b, a[i].name@));
            } else if label_from(b, name, 0) is Some {
                let j = lemma_label_found(b, name, 0);
                assert(agree_on(b, a, b[j].name@));
            }
        }
        assert forall|name: Seq<char>| #[trigger]
            label_map(a).dom().contains(name) == label_map(b).dom().contains(name) by {
            assert(agree_on(a, b, name));
        }
        assert forall|name: Seq<char>| #[trigger]
            label_map(a).dom().contains(name) implies label_map(a)[name] == label_map(b)[name] by {
            assert(agree_on(a, b, name));
        }
        assert(label_map(a).dom() =~= label_map(b).dom());
        assert(label_map(a) =~= label_map(b));
    }
    if label_map(a) == label_map(b) {
        assert forall|i: int| 0 <= i < a.len() implies agree_on(a, b, #[trigger] a[i].name@) by {
            lemma_label_named(a, i, 0);
            assert(label_map(a).dom().contains(a[i].name@));
            assert(label_map(b).dom().contains(a[i].name@));
            assert(label_map(a)[a[i].name@] == label_map(b)[a[i].name@]);
        }
        assert forall|i: int| 0 <= i < b.len() implies agree_on(b, a, #[trigger] b[i].name@) by {
            lemma_label_named(b, i, 0);
            assert(label_map(b).dom().contains(b[i].name@));
            assert(label_map(a).dom().contains(b[i].name@));
            assert(label_map(a)[b[i].name@] == label_map(b)[b[i].name@]);
        }
    }
}

/// Looks up the value of the label called `name`.
pub fn find_label<'a>(labels: &'a Vec<Label>, name: &String) -> (r: Option<&'a String>)
    ensures
        match r {
            Some(value) => label_from(labels@, name@, 0) == Some(value@),
            None => label_from(labels@, name@, 0) is None,
        },
{
    let mut i: usize = 0;
    while i < labels.len()
        invariant
            i <= labels.len(),
            label_from(labels@, name@, 0) == label_from(labels@, name@, i as int),
        decreases labels.len() - i,
    {
        if labels[i].name == *name {
            return Some(&labels[i].value);
        }
        i += 1;
    }
    None
}

/// Whether `b` gives every name of a label in `a` the value that `a` gives
/// it.
fn labels_agree(a: &Vec<Label>, b: &Vec<Label>) -> (r: bool)
    ensures
        r == agree_on_names_of(a@, b@),
{
    let mut i: usize = 0;
    while i < a.len()
        invariant
            i <= a.len(),
            forall|j: int| 0 <= j < i ==> agree_on(a@, b@, #[trigger] a@[j].name@),
        decreases a.len() - i,
    {
        let same = match (find_label(a, &a[i].name), find_label(b, &a[i].name)) {
            (Some(ours), Some(theirs)) => *ours == *theirs,
            (None, None) => true,
            _ => false,
        };
        if !same {
            assert(!agree_on(a@, b@, a@[i as int].name@));
            return false;
        }
        i += 1;
    }
    true
}

/// Whether two lists of labels stand for the same mapping.
pub fn same_labels(a: &Vec<Label>, b: &Vec<Label>) -> (r: bool)
    ensures
        r == (label_map(a@) == label_map(b@)),
{
    proof {
        lemma_same_mapping(a@, b@);
    }
    labels_agree(a, b) && labels_agree(b, a)
}

/// Whether the series `series_name` with the labels `labels` is the series
/// of `sample_name` and `sample_labels`.
pub fn same_series(
    series_name: &String,
    labels: &Vec<Label>,
    sample_name: &String,
    sample_labels: &Vec<Label>,
) -> (r: bool)
    ensures
        r == (series_key(series_name@, labels@) == series_key(sample_name@, sample_labels@)),
{
    *series_name == *sample_name && same_labels(labels, sample_labels)
}

/// Two lists with the same names and values at every index stand for the
/// same mapping.
proof fn lemma_same_entries(a: Seq<Label>, b: Seq<Label>, name: Seq<char>, from: int)
    requires
        0 <= from,
        a.len() == b.len(),
        forall|j: int|
            0 <= j < a.len() ==> (#[trigger] a[j]).name@ == b[j].name@ && a[j].value@
                == b[j].value@,
    ensures
        label_from(a, name, from) == label_from(b, name, from),
    decreases a.len() - from,
{
    if from < a.len() {
        assert(a[from].name@ == b[from].name@);
        if a[from].name@ != name {
            lemma_same_entries(a, b, name, from + 1);
        }
    }
}

/// A copy of a list of labels.
pub fn duplicate_labels(labels: &Vec<Label>) -> (r: Vec<Label>)
    ensures
        label_map(r@) == label_map(labels@),
{
    let mut copies: Vec<Label> = Vec::new();
    let mut i: usize = 0;
    while i < labels.len()
        invariant
            i <= labels.len(),
            copies@.len() == i,
            forall|j: int|
                0 <= j < i ==> (#[trigger] copies@[j]).name@ == labels@[j].name@
                    && copies@[j].value@ == labels@[j].value@,
        decreases labels.len() - i,
    {
        copies.push(Label { name: labels[i].name.clone(), value: labels[i].value.clone() });
        i += 1;
    }
    proof {
        assert forall|name: Seq<char>| agree_on(copies@, labels@, name) by {
            lemma_same_entries(copies@, labels@, name, 0);
        }
        assert forall|name: Seq<char>| #[trigger]
            label_map(copies@).dom().contains(name) == label_map(labels@).dom().contains(
                name,
            ) by {
            assert(agree_on(copies@, labels@, name));
        }
        assert forall|name: Seq<char>| #[trigger]
            label_map(copies@).dom().contains(name) implies label_map(copies@)[name]
            == label_map(labels@)[name] by {
            assert(agree_on(copies@, labels@, name));
        }
        assert(label_map(copies@).dom() =~= label_map(labels@).dom());
        assert(label_map(copies@) =~= label_map(labels@));
    }
    copies
}

} // verus!
