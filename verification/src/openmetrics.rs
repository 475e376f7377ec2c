//! The data model in which a metrics registry hands out its metrics.

use crate::influx::{query, Double, EntryView, QueryView, TypeView, WriteQuery};
use crate::text::same_text;
use vstd::prelude::*;

verus! {

/// A name and a value that tell a metric from the others of its family.
#[derive(Debug)]
pub struct Label {
    pub name: String,
    pub value: String,
}

/// The total of a counter.
#[derive(Clone, Copy, Debug)]
pub enum Total {
    DoubleValue(Double),
    IntValue(u64),
}

/// The value of a gauge.
#[derive(Clone, Copy, Debug)]
pub enum Gauge {
    DoubleValue(Double),
    IntValue(i64),
}

/// How often a histogram saw a value up to a bound.
#[derive(Clone, Copy, Debug)]
pub struct Bucket {
    pub count: u64,
    pub upper_bound: Double,
}

/// A histogram.
#[derive(Debug)]
pub struct HistogramValue {
    pub buckets: Vec<Bucket>,
}

/// What a metric point holds.
#[derive(Debug)]
pub enum Value {
    UnknownValue,
    GaugeValue(Option<Gauge>),
    CounterValue(Option<Total>),
    HistogramValue(HistogramValue),
    StateSetValue,
    InfoValue,
    SummaryValue,
}

/// A value that was taken at one time.
#[derive(Debug)]
pub struct MetricPoint {
    pub value: Option<Value>,
}

/// One metric of a family.
#[derive(Debug)]
pub struct Metric {
    pub labels: Vec<Label>,
    pub metric_points: Vec<MetricPoint>,
}

/// Metrics that differ in their labels only.
#[derive(Debug)]
pub struct MetricFamily {
    pub name: String,
    pub metrics: Vec<Metric>,
}

impl Metric {
    /// The value of the metric, where it has exactly one.
    pub open spec fn value(self) -> Option<Value> {
        if self.metric_points@.len() == 1 {
            self.metric_points@[0].value
        } else {
            None
        }
    }

    /// Whether the metric is a counter.
    pub open spec fn is_counter(self) -> bool {
        self.value() matches Some(Value::CounterValue(Some(total)))
    }

    /// Whether the metric is a gauge.
    pub open spec fn is_gauge(self) -> bool {
        self.value() matches Some(Value::GaugeValue(Some(gauge)))
    }

    /// Whether the metric is a histogram.
    pub open spec fn is_histogram(self) -> bool {
        self.value() matches Some(Value::HistogramValue(histogram))
    }

    /// The total of a counter.
    pub open spec fn total(self) -> Total {
        self.value()->Some_0->CounterValue_0->Some_0
    }

    /// The value of a gauge.
    pub open spec fn gauge(self) -> Gauge {
        self.value()->Some_0->GaugeValue_0->Some_0
    }

    /// The buckets of a histogram.
    pub open spec fn buckets(self) -> Seq<Bucket> {
        self.value()->Some_0->HistogramValue_0.buckets@
    }

    /// Whether the metric is a counter with a whole number.
    pub open spec fn counts(self) -> bool {
        self.is_counter() && self.total() is IntValue
    }

    /// The whole number of a counter.
    pub open spec fn count(self) -> u64 {
        self.total()->IntValue_0
    }

    /// Whether the metric is a gauge with a whole number.
    pub open spec fn measures(self) -> bool {
        self.is_gauge() && self.gauge() is IntValue
    }

    /// The whole number of a gauge.
    pub open spec fn measure(self) -> i64 {
        self.gauge()->IntValue_0
    }
}

impl MetricFamily {
    /// Whether all metrics of the family are counters with whole numbers.
    pub open spec fn all_count(self) -> bool {
        forall|i: int| 0 <= i < self.metrics@.len() ==> (#[trigger] self.metrics@[i]).counts()
    }

    /// Whether all metrics of the family are gauges with whole numbers.
    pub open spec fn all_measure(self) -> bool {
        forall|i: int| 0 <= i < self.metrics@.len() ==> (#[trigger] self.metrics@[i]).measures()
    }

    /// Whether all metrics of the family are histograms.
    pub open spec fn all_histograms(self) -> bool {
        forall|i: int|
            0 <= i < self.metrics@.len() ==> (#[trigger] self.metrics@[i]).is_histogram()
    }

    /// Whether all metrics of the family are counters with whole numbers.
    pub fn has_counts(&self) -> (all: bool)
        ensures
            all == self.all_count(),
    {
        let mut i: usize = 0;
        while i < self.metrics.len()
            invariant
                i <= self.metrics@.len(),
                forall|k: int| 0 <= k < i ==> (#[trigger] self.metrics@[k]).counts(),
            decreases self.metrics@.len() - i,
        {
            let metric: &Metric = &self.metrics[i];
            if metric.metric_points.len() != 1 {
                return false;
            }
            match &metric.metric_points[0].value {
                Some(Value::CounterValue(Some(Total::IntValue(_)))) => {},
                _ => {
                    return false;
                },
            }
            i = i + 1;
        }
        true
    }

    /// Whether all metrics of the family are gauges with whole numbers.
    pub fn has_measures(&self) -> (all: bool)
        ensures
            all == self.all_measure(),
    {
        let mut i: usize = 0;
        while i < self.metrics.len()
            invariant
                i <= self.metrics@.len(),
                forall|k: int| 0 <= k < i ==> (#[trigger] self.metrics@[k]).measures(),
            decreases self.metrics@.len() - i,
        {
            let metric: &Metric = &self.metrics[i];
            if metric.metric_points.len() != 1 {
                return false;
            }
            match &metric.metric_points[0].value {
                Some(Value::GaugeValue(Some(Gauge::IntValue(_)))) => {},
                _ => {
                    return false;
                },
            }
            i = i + 1;
        }
        true
    }

    /// Whether all metrics of the family are histograms.
    pub fn has_histograms(&self) -> (all: bool)
        ensures
            all == self.all_histograms(),
    {
        let mut i: usize = 0;
        while i < self.metrics.len()
            invariant
                i <= self.metrics@.len(),
                forall|k: int| 0 <= k < i ==> (#[trigger] self.metrics@[k]).is_histogram(),
            decreases self.metrics@.len() - i,
        {
            let metric: &Metric = &self.metrics[i];
            if metric.metric_points.len() != 1 {
                return false;
            }
            match &metric.metric_points[0].value {
                Some(Value::HistogramValue(_)) => {},
                _ => {
                    return false;
                },
            }
            i = i + 1;
        }
        true
    }
}

/// The total of a counter: a whole number or a double.
pub fn get_counter_value(metric: &Metric) -> (value: (Option<u64>, Option<Double>))
    requires
        metric.is_counter(),
    ensures
        value == match metric.total() {
            Total::IntValue(i) => (Some(i), None),
            Total::DoubleValue(d) => (None, Some(d)),
        },
{
    match &metric.metric_points[0].value {
        Some(Value::CounterValue(Some(Total::IntValue(i)))) => (Some(*i), None),
        Some(Value::CounterValue(Some(Total::DoubleValue(d)))) => (None, Some(*d)),
        _ => (None, None),
    }
}

/// The value of a gauge: a whole number or a double.
pub fn get_gauge_value(metric: &Metric) -> (value: (Option<i64>, Option<Double>))
    requires
        metric.is_gauge(),
    ensures
        value == match metric.gauge() {
            Gauge::IntValue(i) => (Some(i), None),
            Gauge::DoubleValue(d) => (None, Some(d)),
        },
{
    match &metric.metric_points[0].value {
        Some(Value::GaugeValue(Some(Gauge::IntValue(i)))) => (Some(*i), None),
        Some(Value::GaugeValue(Some(Gauge::DoubleValue(d)))) => (None, Some(*d)),
        _ => (None, None),
    }
}

/// The buckets of a histogram.
pub fn get_histogram_value(metric: &Metric) -> (histogram: &HistogramValue)
    requires
        metric.is_histogram(),
    ensures
        histogram.buckets@ == metric.buckets(),
        metric.value() == Some(Value::HistogramValue(*histogram)),
{
    match metric.metric_points[0].value.as_ref().unwrap() {
        Value::HistogramValue(histogram) => histogram,
        _ => vstd::pervasive::unreached(),
    }
}

impl QueryView {
    /// The query with one more tag for each label.
    pub open spec fn labelled(self, labels: Seq<Label>) -> QueryView {
        QueryView {
            tags: self.tags + labels.map_values(
                |label: Label| EntryView { name: label.name@, value: TypeView::Text(label.value@) },
            ),
            ..self
        }
    }
}

/// Adds a tag for each label.
pub fn add_labels(query: WriteQuery, labels: &Vec<Label>) -> (labelled: WriteQuery)
    ensures
        labelled@ == query@.labelled(labels@),
{
    let ghost start = query@;
    let mut labelled: WriteQuery = query;
    let mut i: usize = 0;
    assert(labelled@ =~= start.labelled(labels@.take(0)));
    while i < labels.len()
        invariant
            i <= labels@.len(),
            labelled@ == start.labelled(labels@.take(i as int)),
        decreases labels@.len() - i,
    {
        labelled = labelled.add_text_tag(labels[i].name.as_str(), labels[i].value.as_str());
        assert(labelled@ =~= start.labelled(labels@.take(i + 1)));
        i = i + 1;
    }
    assert(labels@.take(i as int) =~= labels@);
    labelled
}

/// Whether `other` has a label with the name and the value of each of `labels`.
pub open spec fn carries(other: Seq<Label>, labels: Seq<Label>) -> bool {
    forall|i: int| 0 <= i < labels.len() ==> has_label(other, #[trigger] labels[i])
}

/// Whether one of `labels` has the name and the value of `label`.
pub open spec fn has_label(labels: Seq<Label>, label: Label) -> bool {
    exists|k: int|
        0 <= k < labels.len() && (#[trigger] labels[k]).name@ == label.name@ && labels[k].value@
            == label.value@
}

/// The first metric that carries `labels`.
pub open spec fn first_carrying(metrics: Seq<Metric>, labels: Seq<Label>) -> Option<Metric>
    decreases metrics.len(),
{
    if metrics.len() == 0 {
        None
    } else if carries(metrics[0].labels@, labels) {
        Some(metrics[0])
    } else {
        first_carrying(metrics.drop_first(), labels)
    }
}

/// The first metric that carries labels is one of the metrics.
pub proof fn lemma_first_carrying(metrics: Seq<Metric>, labels: Seq<Label>)
    ensures
        match first_carrying(metrics, labels) {
            Some(metric) => exists|k: int|
                0 <= k < metrics.len() && #[trigger] metrics[k] == metric,
            None => true,
        },
    decreases metrics.len(),
{
    if metrics.len() > 0 && !carries(metrics[0].labels@, labels) {
        let rest = metrics.drop_first();
        lemma_first_carrying(rest, labels);
        if let Some(metric) = first_carrying(rest, labels) {
            let k = choose|k: int| 0 <= k < rest.len() && #[trigger] rest[k] == metric;
            assert(metrics[k + 1] == metric);
        }
    }
}

fn label_in(labels: &Vec<Label>, label: &Label) -> (found: bool)
    ensures
        found == has_label(labels@, *label),
{
    let mut k: usize = 0;
    while k < labels.len()
        invariant
            k <= labels@.len(),
            forall|m: int|
                0 <= m < k ==> !((#[trigger] labels@[m]).name@ == label.name@ && labels@[m].value@
                    == label.value@),
        decreases labels@.len() - k,
    {
        if same_text(labels[k].name.as_str(), label.name.as_str()) && same_text(
            labels[k].value.as_str(),
            label.value.as_str(),
        ) {
            return true;
        }
        k = k + 1;
    }
    false
}

fn carries_all(other: &Vec<Label>, labels: &Vec<Label>) -> (all: bool)
    ensures
        all == carries(other@, labels@),
{
    let mut i: usize = 0;
    while i < labels.len()
        invariant
            i <= labels@.len(),
            forall|m: int| 0 <= m < i ==> has_label(other@, #[trigger] labels@[m]),
        decreases labels@.len() - i,
    {
        if !label_in(other, &labels[i]) {
            return false;
        }
        i = i + 1;
    }
    true
}

/// The first metric of a family that carries `labels`.
pub fn find_carrying<'a>(family: &'a MetricFamily, labels: &Vec<Label>) -> (found: Option<
    &'a Metric,
>)
    ensures
        match found {
            Some(metric) => first_carrying(family.metrics@, labels@) == Some(*metric) && exists|
                k: int,
            | 0 <= k < family.metrics@.len() && #[trigger] family.metrics@[k] == *metric,
            None => first_carrying(family.metrics@, labels@) is None,
        },
{
    let mut i: usize = 0;
    assert(family.metrics@.skip(0) =~= family.metrics@);
    while i < family.metrics.len()
        invariant
            i <= family.metrics@.len(),
            first_carrying(family.metrics@, labels@) == first_carrying(
                family.metrics@.skip(i as int),
                labels@,
            ),
        decreases family.metrics@.len() - i,
    {
        assert(family.metrics@.skip(i as int).drop_first() =~= family.metrics@.skip(i + 1));
        if carries_all(&family.metrics[i].labels, labels) {
            return Some(&family.metrics[i]);
        }
        i = i + 1;
    }
    None
}

} // verus!
