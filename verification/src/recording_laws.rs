//! What holds of the write queries that metrics become.

use crate::influx::{EntryView, QueryView, TypeView};
use crate::openmetrics::{
    carries, first_carrying, has_label, Gauge, Label, Metric, MetricFamily, Total, Value,
};
use crate::recording::{
    all_join, all_recordable, bucket_points, counter_points, duplicate_points, excess,
    excess_points, family_points, first_named, gauge_points, histogram_points, join_point,
    joined_counters, recordable, Recorded, Table,
};
use vstd::prelude::*;

verus! {

/// What a metric with exactly one point holds.
pub open spec fn holds_value(metric: Metric, value: Value) -> bool {
    metric.metric_points@.len() == 1 && metric.metric_points@[0].value == Some(value)
}

/// What a metric is and which number it has is told by its only point.
pub proof fn metrics_have_one_point(metric: Metric)
    ensures
        metric.is_counter() <==> exists|total: Total| #[trigger]
            holds_value(metric, Value::CounterValue(Some(total))),
        metric.is_gauge() <==> exists|gauge: Gauge| #[trigger]
            holds_value(metric, Value::GaugeValue(Some(gauge))),
        forall|total: Total| #[trigger]
            holds_value(metric, Value::CounterValue(Some(total))) ==> metric.total() == total,
        forall|gauge: Gauge| #[trigger]
            holds_value(metric, Value::GaugeValue(Some(gauge))) ==> metric.gauge() == gauge,
        metric.counts() <==> holds_value(
            metric,
            Value::CounterValue(Some(Total::IntValue(metric.count()))),
        ),
        metric.measures() <==> holds_value(
            metric,
            Value::GaugeValue(Some(Gauge::IntValue(metric.measure()))),
        ),
        metric.is_histogram() <==> metric.metric_points@.len() == 1
            && metric.metric_points@[0].value matches Some(Value::HistogramValue(histogram)),
        metric.is_histogram() ==> metric.buckets()
            == metric.metric_points@[0].value->Some_0->HistogramValue_0.buckets@,
{
    if metric.is_counter() {
        assert(holds_value(metric, Value::CounterValue(Some(metric.total()))));
    }
    if metric.is_gauge() {
        assert(holds_value(metric, Value::GaugeValue(Some(metric.gauge()))));
    }
}

/// Whether a data point is about a family: it has the time, the tags and the prefix that all share,
/// the name of the family, and a tag for each label of the metric.
pub open spec fn is_about(
    point: QueryView,
    origin: QueryView,
    name: Seq<char>,
    labels: Seq<Label>,
) -> bool {
    &&& point.timestamp == origin.timestamp
    &&& point.measurement == origin.measurement + name
    &&& point.tags.len() == origin.tags.len() + labels.len()
    &&& forall|i: int| 0 <= i < origin.tags.len() ==> #[trigger] point.tags[i] == origin.tags[i]
    &&& forall|i: int|
        0 <= i < labels.len() ==> #[trigger] point.tags[origin.tags.len() + i] == (EntryView {
            name: labels[i].name@,
            value: TypeView::Text(labels[i].value@),
        })
}

/// The name and the value under which the number of a metric is recorded.
pub open spec fn field_of(recorded: Recorded, metric: Metric) -> EntryView {
    EntryView {
        name: if recorded is Status {
            "status"@
        } else if recorded is Peers {
            "peers"@
        } else {
            "count"@
        },
        value: if recorded is Counter {
            TypeView::UnsignedInteger(metric.count())
        } else {
            TypeView::SignedInteger(metric.measure())
        },
    }
}

/// A family of counters or gauges becomes one data point for each of its metrics, with the number of
/// the metric. A family that is skipped becomes none.
pub proof fn each_metric_is_recorded(recorded: Recorded, origin: QueryView, family: MetricFamily)
    requires
        origin.fields.len() == 0,
    ensures
        recorded is Skipped ==> recorded.points(origin, family).len() == 0,
        !(recorded is Skipped) && !(recorded is Histogram) ==> {
            let points = recorded.points(origin, family);
            &&& points.len() == family.metrics@.len()
            &&& forall|i: int|
                0 <= i < points.len() ==> {
                    &&& is_about(
                        #[trigger] points[i],
                        origin,
                        family.name@,
                        family.metrics@[i].labels@,
                    )
                    &&& points[i].fields == seq![field_of(recorded, family.metrics@[i])]
                }
        },
        recorded.fits(family) <==> match recorded {
            Recorded::Skipped => true,
            Recorded::Counter => forall|i: int|
                0 <= i < family.metrics@.len() ==> (#[trigger] family.metrics@[i]).counts(),
            Recorded::Histogram => forall|i: int|
                0 <= i < family.metrics@.len() ==> (#[trigger] family.metrics@[i]).is_histogram(),
            _ => forall|i: int|
                0 <= i < family.metrics@.len() ==> (#[trigger] family.metrics@[i]).measures(),
        },
{
    let points = recorded.points(origin, family);
    assert forall|i: int| 0 <= i < points.len() && !(recorded is Histogram) implies (
    #[trigger] points[i]).fields =~= seq![field_of(recorded, family.metrics@[i])] by {
        reveal_strlit("status");
        reveal_strlit("count");
        reveal_strlit("peers");
    }
}

/// A histogram becomes one data point for each of its buckets, in order: how often a value up to the
/// bound of the bucket was seen.
pub proof fn each_bucket_is_recorded(
    origin: QueryView,
    family: MetricFamily,
    before: Seq<Metric>,
    metric: Metric,
)
    requires
        origin.fields.len() == 0,
    ensures
        Recorded::Histogram.points(origin, family) == histogram_points(
            origin.about(family.name@),
            family.metrics@,
        ),
        histogram_points(origin.about(family.name@), Seq::empty()).len() == 0,
        ({
            let start = origin.about(family.name@);
            let earlier = histogram_points(start, before);
            let all = histogram_points(start, before.push(metric));
            let buckets = metric.buckets();
            &&& all.len() == earlier.len() + buckets.len()
            &&& forall|i: int| 0 <= i < earlier.len() ==> #[trigger] all[i] == earlier[i]
            &&& forall|i: int|
                0 <= i < buckets.len() ==> {
                    let point = #[trigger] all[earlier.len() + i];
                    &&& is_about(point, origin, family.name@, metric.labels@)
                    &&& point.fields == seq![
                        EntryView {
                            name: "count"@,
                            value: TypeView::UnsignedInteger(buckets[i].count),
                        },
                        EntryView {
                            name: "upper_bound"@,
                            value: TypeView::Float(buckets[i].upper_bound),
                        },
                    ]
                }
        }),
{
    let start = origin.about(family.name@);
    let earlier = histogram_points(start, before);
    let all = histogram_points(start, before.push(metric));
    let buckets = metric.buckets();
    assert(before.push(metric).drop_last() =~= before);
    assert(all =~= earlier + bucket_points(start, metric));
    assert forall|i: int| 0 <= i < buckets.len() implies (#[trigger] all[earlier.len()
        + i]).fields =~= seq![
        EntryView { name: "count"@, value: TypeView::UnsignedInteger(buckets[i].count) },
        EntryView { name: "upper_bound"@, value: TypeView::Float(buckets[i].upper_bound) },
    ] by {}
}

/// Families are recorded one after the other, each as the table tells.
pub proof fn families_are_recorded_in_order<T: Table>(
    origin: QueryView,
    before: Seq<MetricFamily>,
    family: MetricFamily,
)
    requires
        recordable::<T>(family),
    ensures
        family_points::<T>(origin, Seq::empty()).len() == 0,
        T::recorded(family.name@) is Some,
        T::recorded(family.name@)->Some_0.fits(family),
        family_points::<T>(origin, before.push(family)) == family_points::<T>(origin, before)
            + T::recorded(family.name@)->Some_0.points(origin, family),
{
    assert(before.push(family).drop_last() =~= before);
}

/// A family can be recorded exactly where it is known and its metrics are of the kind that its way of
/// recording asks for.
pub proof fn recordable_families_are_known<T: Table>(families: Seq<MetricFamily>)
    ensures
        all_recordable::<T>(families) <==> forall|i: int|
            0 <= i < families.len() ==> T::recorded((#[trigger] families[i]).name@) is Some
                && T::recorded(families[i].name@)->Some_0.fits(families[i]),
{
    if forall|i: int|
        0 <= i < families.len() ==> T::recorded((#[trigger] families[i]).name@) is Some
            && T::recorded(families[i].name@)->Some_0.fits(families[i]) {
        assert forall|i: int| 0 <= i < families.len() implies recordable::<T>(
            #[trigger] families[i],
        ) by {
            assert(T::recorded(families[i].name@) is Some);
        }
    }
    if all_recordable::<T>(families) {
        assert forall|i: int| 0 <= i < families.len() implies T::recorded(
            (#[trigger] families[i]).name@,
        ) is Some && T::recorded(families[i].name@)->Some_0.fits(families[i]) by {
            assert(recordable::<T>(families[i]));
        }
    }
}

/// The family of a name is the first one that has it.
pub proof fn first_family_of_a_name(families: Seq<MetricFamily>, name: Seq<char>)
    ensures
        match first_named(families, name) {
            Some(family) => exists|k: int|
                0 <= k < families.len() && #[trigger] families[k] == family && family.name@ == name
                    && forall|j: int| 0 <= j < k ==> (#[trigger] families[j]).name@ != name,
            None => forall|k: int| 0 <= k < families.len() ==> (#[trigger] families[k]).name@
                != name,
        },
    decreases families.len(),
{
    if families.len() > 0 {
        if families[0].name@ == name {
            assert(families[0] == first_named(families, name)->Some_0);
        } else {
            let rest = families.drop_first();
            first_family_of_a_name(rest, name);
            match first_named(rest, name) {
                Some(family) => {
                    let k = choose|k: int|
                        0 <= k < rest.len() && #[trigger] rest[k] == family && family.name@ == name
                            && forall|j: int| 0 <= j < k ==> (#[trigger] rest[j]).name@ != name;
                    assert(families[k + 1] == family);
                    assert forall|j: int| 0 <= j < k + 1 implies (#[trigger] families[j]).name@
                        != name by {
                        if j > 0 {
                            assert(rest[j - 1] == families[j]);
                        }
                    }
                },
                None => {
                    assert forall|k: int| 0 <= k < families.len() implies (
                    #[trigger] families[k]).name@ != name by {
                        if k > 0 {
                            assert(rest[k - 1] == families[k]);
                        }
                    }
                },
            }
        }
    }
}

/// Whether a metric has a label with that name and that value.
pub open spec fn has_pair(metric: Metric, name: Seq<char>, value: Seq<char>) -> bool {
    exists|k: int|
        0 <= k < metric.labels@.len() && (#[trigger] metric.labels@[k]).name@ == name
            && metric.labels@[k].value@ == value
}

/// Whether a metric has a label with the name and the value of each label of another.
pub open spec fn matches_labels(metric: Metric, labels: Seq<Label>) -> bool {
    forall|i: int|
        0 <= i < labels.len() ==> has_pair(
            metric,
            (#[trigger] labels[i]).name@,
            labels[i].value@,
        )
}

proof fn lemma_matches_labels(metric: Metric, labels: Seq<Label>)
    ensures
        carries(metric.labels@, labels) <==> matches_labels(metric, labels),
{
    assert forall|i: int| 0 <= i < labels.len() implies has_label(
        metric.labels@,
        #[trigger] labels[i],
    ) == has_pair(metric, labels[i].name@, labels[i].value@) by {}
}

/// The partner of a metric is the first that has all its labels.
pub proof fn first_metric_with_labels(metrics: Seq<Metric>, labels: Seq<Label>)
    ensures
        match first_carrying(metrics, labels) {
            Some(metric) => exists|k: int|
                0 <= k < metrics.len() && #[trigger] metrics[k] == metric && matches_labels(
                    metric,
                    labels,
                ) && forall|j: int| 0 <= j < k ==> !matches_labels(#[trigger] metrics[j], labels),
            None => forall|k: int|
                0 <= k < metrics.len() ==> !matches_labels(#[trigger] metrics[k], labels),
        },
    decreases metrics.len(),
{
    if metrics.len() > 0 {
        lemma_matches_labels(metrics[0], labels);
        if carries(metrics[0].labels@, labels) {
            assert(metrics[0] == first_carrying(metrics, labels)->Some_0);
        } else {
            let rest = metrics.drop_first();
            first_metric_with_labels(rest, labels);
            match first_carrying(rest, labels) {
                Some(metric) => {
                    let k = choose|k: int|
                        0 <= k < rest.len() && #[trigger] rest[k] == metric && matches_labels(
                            metric,
                            labels,
                        ) && forall|j: int|
                            0 <= j < k ==> !matches_labels(#[trigger] rest[j], labels);
                    assert(metrics[k + 1] == metric);
                    assert forall|j: int| 0 <= j < k + 1 implies !matches_labels(
                        #[trigger] metrics[j],
                        labels,
                    ) by {
                        if j > 0 {
                            assert(rest[j - 1] == metrics[j]);
                        }
                    }
                },
                None => {
                    assert forall|k: int| 0 <= k < metrics.len() implies !matches_labels(
                        #[trigger] metrics[k],
                        labels,
                    ) by {
                        if k > 0 {
                            assert(rest[k - 1] == metrics[k]);
                        }
                    }
                },
            }
        }
    }
}

/// A counter is joined exactly where the first metric with all its labels is a whole number, and with
/// that number. Counters are joined in order.
pub proof fn counters_are_joined_with_their_partner(
    before: Seq<Metric>,
    metric: Metric,
    others: Seq<Metric>,
)
    ensures
        joined_counters(Seq::empty(), others).len() == 0,
        ({
            let earlier = joined_counters(before, others);
            let all = joined_counters(before.push(metric), others);
            match first_carrying(others, metric.labels@) {
                Some(partner) => if partner.counts() {
                    all == earlier.push((metric, partner.count()))
                } else {
                    all == earlier
                },
                None => all == earlier,
            }
        }),
{
    assert(before.push(metric).drop_last() =~= before);
}

/// Duplicates are the messages that were received above those that passed the filter, counted for each
/// counter that has a partner, and never below zero.
pub proof fn duplicates_are_counted(origin: QueryView, families: Seq<MetricFamily>)
    requires
        origin.fields.len() == 0,
    ensures
        ({
            let points = duplicate_points(origin, families);
            match (
                first_named(families, "topic_msg_recv_counts_unfiltered"@),
                first_named(families, "topic_msg_recv_counts"@),
            ) {
                (Some(received), Some(passed)) => {
                    let joined = joined_counters(received.metrics@, passed.metrics@);
                    &&& points.len() == joined.len()
                    &&& forall|i: int|
                        0 <= i < points.len() ==> {
                            let count = joined[i].0.count();
                            &&& is_about(
                                #[trigger] points[i],
                                origin,
                                "topic_msg_recv_duplicates"@,
                                joined[i].0.labels@,
                            )
                            &&& points[i].fields.len() == 1
                            &&& points[i].fields[0].name == "count"@
                            &&& points[i].fields[0].value is UnsignedInteger
                            &&& points[i].fields[0].value->UnsignedInteger_0 == if count
                                > joined[i].1 {
                                count - joined[i].1
                            } else {
                                0
                            }
                        }
                },
                _ => points.len() == 0,
            }
        }),
{
}

/// The data point of a joined counter holds the number that comes out, and is about the counter.
pub proof fn joined_counters_are_recorded(
    origin: QueryView,
    name: Seq<char>,
    metric: Metric,
    count: u64,
)
    requires
        origin.fields.len() == 0,
    ensures
        is_about(join_point(origin.about(name), metric, count), origin, name, metric.labels@),
        join_point(origin.about(name), metric, count).fields == seq![
            EntryView { name: "count"@, value: TypeView::UnsignedInteger(count) },
        ],
{
    assert(join_point(origin.about(name), metric, count).fields =~= seq![
        EntryView { name: "count"@, value: TypeView::UnsignedInteger(count) },
    ]);
}

/// Counters are recorded as counts and gauges under whatever field they are asked for, one data point for
/// each metric.
pub proof fn numbers_are_recorded_under_their_field(
    origin: QueryView,
    field: Seq<char>,
    family: MetricFamily,
    i: int,
)
    requires
        origin.fields.len() == 0,
        0 <= i < family.metrics@.len(),
    ensures
        ({
            let metric = family.metrics@[i];
            let counted = counter_points(origin, family);
            let measured = gauge_points(origin, field, family);
            &&& counted.len() == family.metrics@.len() && measured.len() == family.metrics@.len()
            &&& is_about(counted[i], origin, family.name@, metric.labels@)
            &&& is_about(measured[i], origin, family.name@, metric.labels@)
            &&& counted[i].fields == seq![
                EntryView { name: "count"@, value: TypeView::UnsignedInteger(metric.count()) },
            ]
            &&& measured[i].fields == seq![
                EntryView { name: field, value: TypeView::SignedInteger(metric.measure()) },
            ]
        }),
{
    let metric = family.metrics@[i];
    assert(counter_points(origin, family)[i].fields =~= seq![
        EntryView { name: "count"@, value: TypeView::UnsignedInteger(metric.count()) },
    ]);
    assert(gauge_points(origin, field, family)[i].fields =~= seq![
        EntryView { name: field, value: TypeView::SignedInteger(metric.measure()) },
    ]);
}

/// A join calls the predicate once for each joined counter, with the counter first and its partner second,
/// and records what comes out.
pub proof fn joins_record_what_comes_out<F: Fn(u64, u64) -> u64>(
    predicate: F,
    start: QueryView,
    joined: Seq<(Metric, u64)>,
    points: Seq<QueryView>,
    i: int,
)
    requires
        all_join(predicate, start, joined, points),
        0 <= i < joined.len(),
    ensures
        points.len() == joined.len(),
        exists|count: u64|
            call_ensures(predicate, (joined[i].0.count(), joined[i].1), count) && points[i]
                == #[trigger] join_point(start, joined[i].0, count),
{
    assert(crate::recording::joins(predicate, start, joined[i], points[i]));
}

/// What a counter has above its partner: with it, it is the larger of the two.
pub proof fn excess_is_what_is_above(
    a: u64,
    b: u64,
    start: QueryView,
    metrics: Seq<Metric>,
    others: Seq<Metric>,
)
    ensures
        excess(a, b) + b == if a > b {
            a
        } else {
            b
        },
        ({
            let joined = joined_counters(metrics, others);
            let points = excess_points(start, metrics, others);
            &&& points.len() == joined.len()
            &&& forall|i: int|
                0 <= i < joined.len() ==> #[trigger] points[i] == join_point(
                    start,
                    joined[i].0,
                    excess(joined[i].0.count(), joined[i].1),
                )
        }),
{
}

} // verus!
