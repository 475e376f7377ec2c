//! Write queries for the metrics of a registry.

use crate::influx::{query, query_views, QueryView, Timestamp, Type, TypeView, WriteQuery};
use crate::openmetrics::{
    add_labels, find_carrying, first_carrying, get_counter_value, get_gauge_value,
    get_histogram_value, lemma_first_carrying, Bucket, HistogramValue, Label, Metric, MetricFamily,
};
use crate::text::same_text;
use vstd::prelude::*;

verus! {

impl QueryView {
    /// The query with `name` behind its measurement.
    pub open spec fn about(self, name: Seq<char>) -> QueryView {
        QueryView { measurement: self.measurement + name, ..self }
    }
}

/// What the queries of one recording share: when and by whom it was taken.
#[derive(Debug)]
pub struct Origin {
    pub timestamp: Timestamp,
    /// What every measurement starts with.
    pub prefix: String,
    pub tags: Vec<Label>,
}

impl View for Origin {
    type V = QueryView;

    open spec fn view(&self) -> QueryView {
        query(self.timestamp, self.prefix@).labelled(self.tags@)
    }
}

impl Origin {
    /// An origin without tags.
    pub fn new(timestamp: Timestamp, prefix: &str) -> (origin: Self)
        ensures
            origin@ == query(timestamp, prefix@),
    {
        let origin = Origin { timestamp, prefix: prefix.to_owned(), tags: Vec::new() };
        assert(origin@ =~= query(timestamp, prefix@));
        origin
    }

    /// Adds a tag that holds a text.
    pub fn add_text_tag(self, name: &str, value: &str) -> (longer: Self)
        ensures
            longer@ == self@.text_tag(name@, value@),
    {
        let mut longer = self;
        longer.tags.push(Label { name: name.to_owned(), value: value.to_owned() });
        assert(longer@ =~= self@.text_tag(name@, value@));
        longer
    }

    /// The start of a query about `name`.
    pub fn about(&self, name: &str) -> (start: WriteQuery)
        ensures
            start@ == self@.about(name@),
    {
        let mut measurement: String = self.prefix.clone();
        measurement.append(name);
        let start: WriteQuery = add_labels(
            WriteQuery::new(self.timestamp, measurement.as_str()),
            &self.tags,
        );
        assert(start@ =~= self@.about(name@));
        start
    }
}

/// The data point of a counter.
pub open spec fn counter_point(start: QueryView, metric: Metric) -> QueryView {
    start.field("count"@, TypeView::UnsignedInteger(metric.count())).labelled(metric.labels@)
}

/// The data points of a family of counters.
pub open spec fn counter_points(origin: QueryView, family: MetricFamily) -> Seq<QueryView> {
    family.metrics@.map_values(|metric: Metric| counter_point(origin.about(family.name@), metric))
}

/// The data point of a gauge.
pub open spec fn gauge_point(start: QueryView, field_name: Seq<char>, metric: Metric) -> QueryView {
    start.field(field_name, TypeView::SignedInteger(metric.measure())).labelled(metric.labels@)
}

/// The data points of a family of gauges.
pub open spec fn gauge_points(
    origin: QueryView,
    field_name: Seq<char>,
    family: MetricFamily,
) -> Seq<QueryView> {
    family.metrics@.map_values(
        |metric: Metric| gauge_point(origin.about(family.name@), field_name, metric),
    )
}

/// The data point of a bucket of a histogram.
pub open spec fn bucket_point(start: QueryView, labels: Seq<Label>, bucket: Bucket) -> QueryView {
    start.field("count"@, TypeView::UnsignedInteger(bucket.count)).field(
        "upper_bound"@,
        TypeView::Float(bucket.upper_bound),
    ).labelled(labels)
}

/// The data points of a histogram.
pub open spec fn bucket_points(start: QueryView, metric: Metric) -> Seq<QueryView> {
    metric.buckets().map_values(|bucket: Bucket| bucket_point(start, metric.labels@, bucket))
}

/// The data points of some histograms, one histogram after the other.
pub open spec fn histogram_points(start: QueryView, metrics: Seq<Metric>) -> Seq<QueryView>
    decreases metrics.len(),
{
    if metrics.len() == 0 {
        Seq::empty()
    } else {
        histogram_points(start, metrics.drop_last()) + bucket_points(start, metrics.last())
    }
}

/// How far a counter exceeds another, or zero where it does not.
pub open spec fn excess(a: u64, b: u64) -> u64 {
    if a >= b {
        (a - b) as u64
    } else {
        0
    }
}

/// The counters that have a partner, each with the number of its partner: the first of the other
/// counters that carries its labels. A partner that is no whole number does not count.
pub open spec fn joined_counters(metrics: Seq<Metric>, others: Seq<Metric>) -> Seq<(Metric, u64)>
    decreases metrics.len(),
{
    if metrics.len() == 0 {
        Seq::empty()
    } else {
        let before = joined_counters(metrics.drop_last(), others);
        match first_carrying(others, metrics.last().labels@) {
            Some(other) => if other.counts() {
                before.push((metrics.last(), other.count()))
            } else {
                before
            },
            None => before,
        }
    }
}

/// The data point of a joined counter.
pub open spec fn join_point(start: QueryView, metric: Metric, count: u64) -> QueryView {
    start.field("count"@, TypeView::UnsignedInteger(count)).labelled(metric.labels@)
}

/// Whether a data point holds what `predicate` makes of a counter and its partner.
pub open spec fn joins<F: Fn(u64, u64) -> u64>(
    predicate: F,
    start: QueryView,
    joined: (Metric, u64),
    point: QueryView,
) -> bool {
    exists|count: u64|
        call_ensures(predicate, (joined.0.count(), joined.1), count) && point
            == #[trigger] join_point(start, joined.0, count)
}

/// Whether data points hold what `predicate` makes of counters and their partners, one by one.
pub open spec fn all_join<F: Fn(u64, u64) -> u64>(
    predicate: F,
    start: QueryView,
    joined: Seq<(Metric, u64)>,
    points: Seq<QueryView>,
) -> bool {
    &&& points.len() == joined.len()
    &&& forall|i: int|
        0 <= i < points.len() ==> joins(predicate, start, joined[i], #[trigger] points[i])
}

/// The data points of joined counters: how far each counter exceeds its partner.
pub open spec fn excess_points(
    start: QueryView,
    metrics: Seq<Metric>,
    others: Seq<Metric>,
) -> Seq<QueryView> {
    joined_counters(metrics, others).map_values(
        |joined: (Metric, u64)| join_point(start, joined.0, excess(joined.0.count(), joined.1)),
    )
}

/// Whether each metric that has a partner, the first of the others that carries its labels, has a
/// counter for it.
pub open spec fn partners_are_counters(metrics: Seq<Metric>, others: Seq<Metric>) -> bool {
    forall|i: int|
        0 <= i < metrics.len() ==> match first_carrying(others, (#[trigger] metrics[i]).labels@) {
            Some(other) => other.is_counter(),
            None => true,
        }
}

/// Queries for a family of counters.
pub fn counter_queries(origin: &Origin, family: &MetricFamily) -> (queries: Vec<WriteQuery>)
    requires
        family.all_count(),
    ensures
        query_views(queries@) == counter_points(origin@, *family),
{
    let mut queries: Vec<WriteQuery> = Vec::new();
    let mut i: usize = 0;
    while i < family.metrics.len()
        invariant
            family.all_count(),
            i <= family.metrics@.len(),
            query_views(queries@) == counter_points(origin@, *family).take(i as int),
        decreases family.metrics@.len() - i,
    {
        let metric: &Metric = &family.metrics[i];
        assert(metric.counts());
        let count: u64 = get_counter_value(metric).0.unwrap();
        let start: WriteQuery = origin.about(family.name.as_str());
        let point: WriteQuery = add_labels(
            start.add_field("count", Type::UnsignedInteger(count)),
            &metric.labels,
        );
        let ghost before = queries@;
        queries.push(point);
        proof {
            assert(point@ == counter_points(origin@, *family)[i as int]);
            assert(query_views(queries@) =~= query_views(before).push(point@));
            assert(query_views(queries@) =~= counter_points(origin@, *family).take(i + 1));
        }
        i = i + 1;
    }
    assert(query_views(queries@) =~= counter_points(origin@, *family));
    queries
}

/// Queries for a family of gauges.
pub fn gauge_queries(origin: &Origin, family: &MetricFamily, field_name: &str) -> (queries: Vec<
    WriteQuery,
>)
    requires
        family.all_measure(),
    ensures
        query_views(queries@) == gauge_points(origin@, field_name@, *family),
{
    let mut queries: Vec<WriteQuery> = Vec::new();
    let mut i: usize = 0;
    while i < family.metrics.len()
        invariant
            family.all_measure(),
            i <= family.metrics@.len(),
            query_views(queries@) == gauge_points(origin@, field_name@, *family).take(i as int),
        decreases family.metrics@.len() - i,
    {
        let metric: &Metric = &family.metrics[i];
        assert(metric.measures());
        let measure: i64 = get_gauge_value(metric).0.unwrap();
        let start: WriteQuery = origin.about(family.name.as_str());
        let point: WriteQuery = add_labels(
            start.add_field(field_name, Type::SignedInteger(measure)),
            &metric.labels,
        );
        let ghost before = queries@;
        queries.push(point);
        proof {
            let points = gauge_points(origin@, field_name@, *family);
            assert(point@ == points[i as int]);
            assert(query_views(queries@) =~= query_views(before).push(point@));
            assert(query_views(queries@) =~= points.take(i + 1));
        }
        i = i + 1;
    }
    assert(query_views(queries@) =~= gauge_points(origin@, field_name@, *family));
    queries
}

/// Queries for a family of histograms.
pub fn histogram_queries(origin: &Origin, family: &MetricFamily) -> (queries: Vec<WriteQuery>)
    requires
        family.all_histograms(),
    ensures
        query_views(queries@) == histogram_points(origin@.about(family.name@), family.metrics@),
{
    let ghost start = origin@.about(family.name@);
    let mut queries: Vec<WriteQuery> = Vec::new();
    let mut i: usize = 0;
    assert(query_views(queries@) =~= histogram_points(start, family.metrics@.take(0)));
    while i < family.metrics.len()
        invariant
            family.all_histograms(),
            start == origin@.about(family.name@),
            i <= family.metrics@.len(),
            query_views(queries@) == histogram_points(start, family.metrics@.take(i as int)),
        decreases family.metrics@.len() - i,
    {
        let metric: &Metric = &family.metrics[i];
        assert(metric.is_histogram());
        let histogram: &HistogramValue = get_histogram_value(metric);
        let ghost head = query_views(queries@);
        let ghost points = bucket_points(start, *metric);
        let mut k: usize = 0;
        assert(query_views(queries@) =~= head + points.take(0));
        while k < histogram.buckets.len()
            invariant
                start == origin@.about(family.name@),
                metric == family.metrics@[i as int],
                histogram.buckets@ == metric.buckets(),
                points == bucket_points(start, *metric),
                k <= histogram.buckets@.len(),
                query_views(queries@) == head + points.take(k as int),
            decreases histogram.buckets@.len() - k,
        {
            let bucket: Bucket = histogram.buckets[k];
            let point: WriteQuery = add_labels(
                origin.about(family.name.as_str()).add_field(
                    "count",
                    Type::UnsignedInteger(bucket.count),
                ).add_field("upper_bound", Type::Float(bucket.upper_bound)),
                &metric.labels,
            );
            let ghost before = queries@;
            queries.push(point);
            proof {
                assert(point@ == points[k as int]);
                assert(query_views(queries@) =~= query_views(before).push(point@));
                assert(query_views(queries@) =~= head + points.take(k + 1));
            }
            k = k + 1;
        }
        proof {
            assert(points.take(k as int) =~= points);
            let next = family.metrics@.take(i + 1);
            assert(next.drop_last() =~= family.metrics@.take(i as int));
            assert(next.last() == *metric);
        }
        i = i + 1;
    }
    assert(family.metrics@.take(i as int) =~= family.metrics@);
    queries
}

/// Queries for joined counters: what `predicate` makes of each counter and its partner.
pub fn join_queries<F: Fn(u64, u64) -> u64>(
    origin: &Origin,
    family: &MetricFamily,
    other_family: &MetricFamily,
    name: &str,
    predicate: F,
) -> (queries: Vec<WriteQuery>)
    requires
        family.all_count(),
        partners_are_counters(family.metrics@, other_family.metrics@),
        forall|a: u64, b: u64| #[trigger] call_requires(predicate, (a, b)),
    ensures
        all_join(
            predicate,
            origin@.about(name@),
            joined_counters(family.metrics@, other_family.metrics@),
            query_views(queries@),
        ),
{
    let ghost start = origin@.about(name@);
    let ghost others = other_family.metrics@;
    let mut queries: Vec<WriteQuery> = Vec::new();
    let mut i: usize = 0;
    assert(joined_counters(family.metrics@.take(0), others) =~= Seq::empty());
    while i < family.metrics.len()
        invariant
            family.all_count(),
            partners_are_counters(family.metrics@, other_family.metrics@),
            forall|a: u64, b: u64| #[trigger] call_requires(predicate, (a, b)),
            start == origin@.about(name@),
            others == other_family.metrics@,
            i <= family.metrics@.len(),
            all_join(
                predicate,
                start,
                joined_counters(family.metrics@.take(i as int), others),
                query_views(queries@),
            ),
        decreases family.metrics@.len() - i,
    {
        let metric: &Metric = &family.metrics[i];
        assert(metric.counts());
        let count: u64 = get_counter_value(metric).0.unwrap();
        proof {
            let next = family.metrics@.take(i + 1);
            assert(next.drop_last() =~= family.metrics@.take(i as int));
            assert(next.last() == *metric);
        }
        let ghost before = queries@;
        match find_carrying(other_family, &metric.labels) {
            Some(other) => {
                assert(other.is_counter());
                match get_counter_value(other).0 {
                    Some(other_count) => {
                        let value: u64 = predicate(count, other_count);
                        let point: WriteQuery = add_labels(
                            origin.about(name).add_field("count", Type::UnsignedInteger(value)),
                            &metric.labels,
                        );
                        queries.push(point);
                        proof {
                            let joined = joined_counters(family.metrics@.take(i + 1), others);
                            assert(query_views(queries@) =~= query_views(before).push(point@));
                            let pair = joined.last();
                            assert(pair == (*metric, other_count));
                            assert(call_ensures(predicate, (pair.0.count(), pair.1), value));
                            assert(point@ == join_point(start, pair.0, value));
                            assert(joins(predicate, start, pair, point@));
                            assert forall|k: int| 0 <= k < query_views(queries@).len() implies joins(
                                predicate,
                                start,
                                joined[k],
                                #[trigger] query_views(queries@)[k],
                            ) by {
                                if k < query_views(before).len() {
                                    assert(query_views(queries@)[k] == query_views(before)[k]);
                                }
                            }
                        }
                    },
                    None => {},
                }
            },
            None => {},
        }
        i = i + 1;
    }
    assert(family.metrics@.take(i as int) =~= family.metrics@);
    queries
}

/// How a family of metrics is recorded.
#[derive(Clone, Copy, Debug, PartialEq, Eq, Structural)]
pub enum Recorded {
    /// Not at all.
    Skipped,
    /// As counters.
    Counter,
    /// As gauges of a status.
    Status,
    /// As gauges of a count.
    Count,
    /// As gauges of a number of peers.
    Peers,
    /// As histograms.
    Histogram,
}

impl Recorded {
    /// Whether a family can be recorded in this way.
    pub open spec fn fits(self, family: MetricFamily) -> bool {
        match self {
            Recorded::Skipped => true,
            Recorded::Counter => family.all_count(),
            Recorded::Status | Recorded::Count | Recorded::Peers => family.all_measure(),
            Recorded::Histogram => family.all_histograms(),
        }
    }

    /// The data points of a family that is recorded in this way.
    pub open spec fn points(self, origin: QueryView, family: MetricFamily) -> Seq<QueryView> {
        match self {
            Recorded::Skipped => Seq::empty(),
            Recorded::Counter => counter_points(origin, family),
            Recorded::Status => gauge_points(origin, "status"@, family),
            Recorded::Count => gauge_points(origin, "count"@, family),
            Recorded::Peers => gauge_points(origin, "peers"@, family),
            Recorded::Histogram => histogram_points(
                origin.about(family.name@),
                family.metrics@,
            ),
        }
    }

    /// Whether a family can be recorded in this way.
    pub fn can_record(self, family: &MetricFamily) -> (fits: bool)
        ensures
            fits == self.fits(*family),
    {
        match self {
            Recorded::Skipped => true,
            Recorded::Counter => family.has_counts(),
            Recorded::Status | Recorded::Count | Recorded::Peers => family.has_measures(),
            Recorded::Histogram => family.has_histograms(),
        }
    }

    /// Queries for a family that is recorded in this way.
    pub fn queries(self, origin: &Origin, family: &MetricFamily) -> (queries: Vec<WriteQuery>)
        requires
            self.fits(*family),
        ensures
            query_views(queries@) == self.points(origin@, *family),
    {
        match self {
            Recorded::Skipped => {
                let queries: Vec<WriteQuery> = Vec::new();
                assert(query_views(queries@) =~= Seq::empty());
                queries
            },
            Recorded::Counter => counter_queries(origin, family),
            Recorded::Status => gauge_queries(origin, family, "status"),
            Recorded::Count => gauge_queries(origin, family, "count"),
            Recorded::Peers => gauge_queries(origin, family, "peers"),
            Recorded::Histogram => histogram_queries(origin, family),
        }
    }
}

/// Appends queries to others.
pub fn extend_queries(queries: &mut Vec<WriteQuery>, more: Vec<WriteQuery>)
    ensures
        query_views(final(queries)@) == query_views(old(queries)@) + query_views(more@),
{
    let mut rest: Vec<WriteQuery> = more;
    queries.append(&mut rest);
    assert(query_views(queries@) =~= query_views(old(queries)@) + query_views(more@));
}

/// The first family of that name.
pub open spec fn first_named(families: Seq<MetricFamily>, name: Seq<char>) -> Option<MetricFamily>
    decreases families.len(),
{
    if families.len() == 0 {
        None
    } else if families[0].name@ == name {
        Some(families[0])
    } else {
        first_named(families.drop_first(), name)
    }
}

/// The first family of that name.
pub fn find_named<'a>(families: &'a Vec<MetricFamily>, name: &str) -> (found: Option<
    &'a MetricFamily,
>)
    ensures
        match found {
            Some(family) => first_named(families@, name@) == Some(*family) && family.name@ == name@
                && exists|k: int| 0 <= k < families@.len() && #[trigger] families@[k] == *family,
            None => first_named(families@, name@) is None,
        },
{
    let mut i: usize = 0;
    assert(families@.skip(0) =~= families@);
    while i < families.len()
        invariant
            i <= families@.len(),
            first_named(families@, name@) == first_named(families@.skip(i as int), name@),
        decreases families@.len() - i,
    {
        assert(families@.skip(i as int).drop_first() =~= families@.skip(i + 1));
        if same_text(families[i].name.as_str(), name) {
            return Some(&families[i]);
        }
        i = i + 1;
    }
    None
}

/// Which families of metrics are recorded, and how.
pub trait Table {
    /// How the family of that name is recorded. `None` is a name that is not known.
    spec fn recorded(name: Seq<char>) -> Option<Recorded>;

    /// How the family of that name is recorded.
    fn recorded_as(name: &str) -> (recorded: Option<Recorded>)
        ensures
            recorded == Self::recorded(name@),
    ;
}

/// Whether a family is known and can be recorded as it should be.
pub open spec fn recordable<T: Table>(family: MetricFamily) -> bool {
    match T::recorded(family.name@) {
        Some(recorded) => recorded.fits(family),
        None => false,
    }
}

/// Whether all families are known and can be recorded as they should be.
pub open spec fn all_recordable<T: Table>(families: Seq<MetricFamily>) -> bool {
    forall|i: int| 0 <= i < families.len() ==> recordable::<T>(#[trigger] families[i])
}

/// The data points of some families, one family after the other.
pub open spec fn family_points<T: Table>(
    origin: QueryView,
    families: Seq<MetricFamily>,
) -> Seq<QueryView>
    decreases families.len(),
{
    if families.len() == 0 {
        Seq::empty()
    } else {
        let family = families.last();
        family_points::<T>(origin, families.drop_last()) + T::recorded(
            family.name@,
        )->Some_0.points(origin, family)
    }
}

/// Whether all families are known and can be recorded as they should be.
pub fn can_record_all<T: Table>(families: &Vec<MetricFamily>) -> (all: bool)
    ensures
        all == all_recordable::<T>(families@),
{
    let mut i: usize = 0;
    while i < families.len()
        invariant
            i <= families@.len(),
            forall|k: int| 0 <= k < i ==> recordable::<T>(#[trigger] families@[k]),
        decreases families@.len() - i,
    {
        match T::recorded_as(families[i].name.as_str()) {
            Some(recorded) => {
                if !recorded.can_record(&families[i]) {
                    assert(!recordable::<T>(families@[i as int]));
                    return false;
                }
            },
            None => {
                assert(!recordable::<T>(families@[i as int]));
                return false;
            },
        }
        i = i + 1;
    }
    true
}

/// Queries for some families, one family after the other.
pub fn family_queries<T: Table>(origin: &Origin, families: &Vec<MetricFamily>) -> (queries: Vec<
    WriteQuery,
>)
    requires
        all_recordable::<T>(families@),
    ensures
        query_views(queries@) == family_points::<T>(origin@, families@),
{
    let mut queries: Vec<WriteQuery> = Vec::new();
    let mut i: usize = 0;
    assert(query_views(queries@) =~= family_points::<T>(origin@, families@.take(0)));
    while i < families.len()
        invariant
            all_recordable::<T>(families@),
            i <= families@.len(),
            query_views(queries@) == family_points::<T>(origin@, families@.take(i as int)),
        decreases families@.len() - i,
    {
        let family: &MetricFamily = &families[i];
        proof {
            assert(recordable::<T>(families@[i as int]));
            let next = families@.take(i + 1);
            assert(next.drop_last() =~= families@.take(i as int));
            assert(next.last() == *family);
        }
        let recorded: Recorded = T::recorded_as(family.name.as_str()).unwrap();
        extend_queries(&mut queries, recorded.queries(origin, family));
        i = i + 1;
    }
    assert(families@.take(i as int) =~= families@);
    queries
}

/// The data points of duplicates: how many more messages were received than passed the filter. There
/// are none where one of the two families is missing.
pub open spec fn duplicate_points(origin: QueryView, families: Seq<MetricFamily>) -> Seq<
    QueryView,
> {
    match (
        first_named(families, "topic_msg_recv_counts_unfiltered"@),
        first_named(families, "topic_msg_recv_counts"@),
    ) {
        (Some(unfiltered), Some(filtered)) => excess_points(
            origin.about("topic_msg_recv_duplicates"@),
            unfiltered.metrics@,
            filtered.metrics@,
        ),
        _ => Seq::empty(),
    }
}

/// Queries for duplicates.
pub fn duplicate_queries<T: Table>(origin: &Origin, families: &Vec<MetricFamily>) -> (queries: Vec<
    WriteQuery,
>)
    requires
        all_recordable::<T>(families@),
        T::recorded("topic_msg_recv_counts_unfiltered"@) == Some(Recorded::Counter),
        T::recorded("topic_msg_recv_counts"@) == Some(Recorded::Counter),
    ensures
        query_views(queries@) == duplicate_points(origin@, families@),
{
    match find_named(families, "topic_msg_recv_counts_unfiltered") {
        Some(unfiltered) => match find_named(families, "topic_msg_recv_counts") {
            Some(filtered) => {
                proof {
                    let k = choose|k: int|
                        0 <= k < families@.len() && #[trigger] families@[k] == *unfiltered;
                    assert(recordable::<T>(families@[k]));
                    let m = choose|m: int|
                        0 <= m < families@.len() && #[trigger] families@[m] == *filtered;
                    assert(recordable::<T>(families@[m]));
                    assert forall|i: int| 0 <= i < unfiltered.metrics@.len() implies match first_carrying(
                        filtered.metrics@,
                        (#[trigger] unfiltered.metrics@[i]).labels@,
                    ) {
                        Some(other) => other.is_counter(),
                        None => true,
                    } by {
                        lemma_first_carrying(filtered.metrics@, unfiltered.metrics@[i].labels@);
                    }
                }
                let difference = |a: u64, b: u64| -> (c: u64)
                    ensures
                        c == excess(a, b),
                    { a.saturating_sub(b) };
                let queries: Vec<WriteQuery> = join_queries(
                    origin,
                    unfiltered,
                    filtered,
                    "topic_msg_recv_duplicates",
                    difference,
                );
                proof {
                    let start = origin@.about("topic_msg_recv_duplicates"@);
                    let points = excess_points(start, unfiltered.metrics@, filtered.metrics@);
                    let joined = joined_counters(unfiltered.metrics@, filtered.metrics@);
                    assert forall|k: int| 0 <= k < points.len() implies #[trigger] query_views(
                        queries@,
                    )[k] == points[k] by {
                        assert(joins(difference, start, joined[k], query_views(queries@)[k]));
                    }
                    assert(query_views(queries@) =~= points);
                }
                return queries;
            },
            None => {},
        },
        None => {},
    }
    let queries: Vec<WriteQuery> = Vec::new();
    assert(query_views(queries@) =~= Seq::empty());
    queries
}

} // verus!
