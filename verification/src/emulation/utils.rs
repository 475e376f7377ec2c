//! Write queries of the emulation.

use crate::influx::{EntryView, QueryView, Type, TypeView, WriteQuery};
use crate::openmetrics::{get_counter_value, get_gauge_value, Label, Metric, MetricFamily};
use crate::text::same_text;
use vstd::prelude::*;

verus! {

/// The state that is signalled when the transport runs.
pub const BARRIER_STARTED_LIBP2P: &'static str = "Started libp2p";

/// The state that is signalled when all peers are dialed.
pub const BARRIER_DIALED: &'static str = "Dialed";

/// The state that is signalled at the end.
pub const BARRIER_DONE: &'static str = "Done";

/// Whether there is a label with the hash of a topic.
pub open spec fn has_topic_hash(labels: Seq<Label>) -> bool {
    exists|i: int| 0 <= i < labels.len() && (#[trigger] labels[i]).name@ == "hash"@
}

/// The value of the first label with the hash of a topic.
pub open spec fn topic_hash(labels: Seq<Label>) -> Seq<char>
    decreases labels.len(),
{
    if labels.len() == 0 {
        Seq::empty()
    } else if labels[0].name@ == "hash"@ {
        labels[0].value@
    } else {
        topic_hash(labels.drop_first())
    }
}

/// The hash of the topic that labels tell.
pub fn get_topic_hash(labels: &Vec<Label>) -> (hash: String)
    requires
        has_topic_hash(labels@),
    ensures
        hash@ == topic_hash(labels@),
{
    let mut i: usize = 0;
    assert(labels@.skip(0) =~= labels@);
    while i < labels.len() && !same_text(labels[i].name.as_str(), "hash")
        invariant
            i <= labels@.len(),
            forall|k: int| 0 <= k < i ==> (#[trigger] labels@[k]).name@ != "hash"@,
            topic_hash(labels@) == topic_hash(labels@.skip(i as int)),
        decreases labels@.len() - i,
    {
        assert(labels@.skip(i as int).drop_first() =~= labels@.skip(i + 1));
        i = i + 1;
    }
    labels[i].value.clone()
}

/// Whether all metrics of a family tell the hash of a topic.
pub open spec fn all_have_topic_hash(family: MetricFamily) -> bool {
    forall|i: int|
        0 <= i < family.metrics@.len() ==> has_topic_hash((#[trigger] family.metrics@[i]).labels@)
}

/// The name of the field of a metric: its family and its topic.
pub open spec fn field_name(family: MetricFamily, metric: Metric) -> Seq<char> {
    family.name@ + "_"@ + topic_hash(metric.labels@)
}

/// Writes the name of the field of a metric.
fn field_name_text(family: &MetricFamily, metric: &Metric) -> (name: String)
    requires
        has_topic_hash(metric.labels@),
    ensures
        name@ == field_name(*family, *metric),
{
    family.name.clone().concat("_").concat(get_topic_hash(&metric.labels).as_str())
}

/// The fields of a family of counters.
pub open spec fn counter_fields(family: MetricFamily) -> Seq<EntryView> {
    family.metrics@.map_values(
        |metric: Metric|
            EntryView {
                name: field_name(family, metric),
                value: TypeView::UnsignedInteger(metric.count()),
            },
    )
}

/// The fields of a family of gauges.
pub open spec fn gauge_fields(family: MetricFamily) -> Seq<EntryView> {
    family.metrics@.map_values(
        |metric: Metric|
            EntryView {
                name: field_name(family, metric),
                value: TypeView::SignedInteger(metric.measure()),
            },
    )
}

/// Adds a field for each counter of a family.
pub fn add_counter_metrics(query: WriteQuery, family: &MetricFamily) -> (longer: WriteQuery)
    requires
        family.all_count(),
        all_have_topic_hash(*family),
    ensures
        longer@ == (QueryView { fields: query@.fields + counter_fields(*family), ..query@ }),
{
    let ghost start = query@;
    let ghost fields = counter_fields(*family);
    let mut longer: WriteQuery = query;
    let mut i: usize = 0;
    assert(longer@ =~= (QueryView { fields: start.fields + fields.take(0), ..start }));
    while i < family.metrics.len()
        invariant
            family.all_count(),
            all_have_topic_hash(*family),
            fields == counter_fields(*family),
            i <= family.metrics@.len(),
            longer@ == (QueryView { fields: start.fields + fields.take(i as int), ..start }),
        decreases family.metrics@.len() - i,
    {
        let metric: &Metric = &family.metrics[i];
        assert(metric.counts() && has_topic_hash(metric.labels@));
        let count: u64 = get_counter_value(metric).0.unwrap();
        longer =
        longer.add_field(
            field_name_text(family, metric).as_str(),
            Type::UnsignedInteger(count),
        );
        assert(fields.take(i + 1) =~= fields.take(i as int).push(fields[i as int]));
        assert(longer@ =~= (QueryView { fields: start.fields + fields.take(i + 1), ..start }));
        i = i + 1;
    }
    assert(fields.take(i as int) =~= fields);
    longer
}

/// Adds a field for each gauge of a family.
pub fn add_gauge_metrics(query: WriteQuery, family: &MetricFamily) -> (longer: WriteQuery)
    requires
        family.all_measure(),
        all_have_topic_hash(*family),
    ensures
        longer@ == (QueryView { fields: query@.fields + gauge_fields(*family), ..query@ }),
{
    let ghost start = query@;
    let ghost fields = gauge_fields(*family);
    let mut longer: WriteQuery = query;
    let mut i: usize = 0;
    assert(longer@ =~= (QueryView { fields: start.fields + fields.take(0), ..start }));
    while i < family.metrics.len()
        invariant
            family.all_measure(),
            all_have_topic_hash(*family),
            fields == gauge_fields(*family),
            i <= family.metrics@.len(),
            longer@ == (QueryView { fields: start.fields + fields.take(i as int), ..start }),
        decreases family.metrics@.len() - i,
    {
        let metric: &Metric = &family.metrics[i];
        assert(metric.measures() && has_topic_hash(metric.labels@));
        let measure: i64 = get_gauge_value(metric).0.unwrap();
        longer =
        longer.add_field(
            field_name_text(family, metric).as_str(),
            Type::SignedInteger(measure),
        );
        assert(fields.take(i + 1) =~= fields.take(i as int).push(fields[i as int]));
        assert(longer@ =~= (QueryView { fields: start.fields + fields.take(i + 1), ..start }));
        i = i + 1;
    }
    assert(fields.take(i as int) =~= fields);
    longer
}

} // verus!
