//! Write queries for the time series database that collects the results of a run.

use vstd::prelude::*;

verus! {

/// A point in time, counted from the Unix epoch.
#[derive(Clone, Copy, Debug, PartialEq, Eq, Structural)]
pub struct Timestamp {
    pub seconds: i64,
    pub nanos: u32,
}

/// A double precision number, held as its bit pattern. The library passes such numbers on and never
/// computes with them.
#[derive(Clone, Copy, Debug, PartialEq, Eq, Structural)]
pub struct Double {
    pub bits: u64,
}

/// The value of a tag or a field.
#[derive(Debug)]
pub enum Type {
    Float(Double),
    SignedInteger(i64),
    UnsignedInteger(u64),
    Text(String),
}

/// What a [`Type`] stands for.
pub enum TypeView {
    Float(Double),
    SignedInteger(i64),
    UnsignedInteger(u64),
    Text(Seq<char>),
}

impl View for Type {
    type V = TypeView;

    open spec fn view(&self) -> TypeView {
        match self {
            Type::Float(x) => TypeView::Float(*x),
            Type::SignedInteger(x) => TypeView::SignedInteger(*x),
            Type::UnsignedInteger(x) => TypeView::UnsignedInteger(*x),
            Type::Text(x) => TypeView::Text(x@),
        }
    }
}

/// A named value.
#[derive(Debug)]
pub struct Entry {
    pub name: String,
    pub value: Type,
}

/// What an [`Entry`] stands for.
pub struct EntryView {
    pub name: Seq<char>,
    pub value: TypeView,
}

impl View for Entry {
    type V = EntryView;

    open spec fn view(&self) -> EntryView {
        EntryView { name: self.name@, value: self.value@ }
    }
}

/// What a sequence of entries stands for.
pub open spec fn entry_views(entries: Seq<Entry>) -> Seq<EntryView> {
    entries.map_values(|entry: Entry| entry@)
}

/// One data point: a measurement at a time, tags to look it up by, and fields with its values.
#[derive(Debug)]
pub struct WriteQuery {
    pub timestamp: Timestamp,
    pub measurement: String,
    pub tags: Vec<Entry>,
    pub fields: Vec<Entry>,
}

/// What a [`WriteQuery`] stands for.
#[verifier::ext_equal]
pub struct QueryView {
    pub timestamp: Timestamp,
    pub measurement: Seq<char>,
    pub tags: Seq<EntryView>,
    pub fields: Seq<EntryView>,
}

impl View for WriteQuery {
    type V = QueryView;

    open spec fn view(&self) -> QueryView {
        QueryView {
            timestamp: self.timestamp,
            measurement: self.measurement@,
            tags: entry_views(self.tags@),
            fields: entry_views(self.fields@),
        }
    }
}

/// What a sequence of queries stands for.
pub open spec fn query_views(queries: Seq<WriteQuery>) -> Seq<QueryView> {
    queries.map_values(|query: WriteQuery| query@)
}

/// A query without tags and fields.
pub open spec fn query(timestamp: Timestamp, measurement: Seq<char>) -> QueryView {
    QueryView { timestamp, measurement, tags: Seq::empty(), fields: Seq::empty() }
}

impl QueryView {
    /// The query with one more tag.
    pub open spec fn tag(self, name: Seq<char>, value: TypeView) -> QueryView {
        QueryView { tags: self.tags.push(EntryView { name, value }), ..self }
    }

    /// The query with one more tag that holds a text.
    pub open spec fn text_tag(self, name: Seq<char>, value: Seq<char>) -> QueryView {
        self.tag(name, TypeView::Text(value))
    }

    /// The query with one more field.
    pub open spec fn field(self, name: Seq<char>, value: TypeView) -> QueryView {
        QueryView { fields: self.fields.push(EntryView { name, value }), ..self }
    }

    /// The query with one more field that holds a text.
    pub open spec fn text_field(self, name: Seq<char>, value: Seq<char>) -> QueryView {
        self.field(name, TypeView::Text(value))
    }
}

impl WriteQuery {
    /// A query without tags and fields.
    pub fn new(timestamp: Timestamp, measurement: &str) -> (new_query: Self)
        ensures
            new_query@ == query(timestamp, measurement@),
    {
        let new_query = WriteQuery {
            timestamp,
            measurement: measurement.to_owned(),
            tags: Vec::new(),
            fields: Vec::new(),
        };
        assert(new_query@ =~= query(timestamp, measurement@));
        new_query
    }

    /// Adds a tag.
    pub fn add_tag(self, name: &str, value: Type) -> (longer: Self)
        ensures
            longer@ == self@.tag(name@, value@),
    {
        let mut longer = self;
        longer.tags.push(Entry { name: name.to_owned(), value });
        assert(longer@ =~= self@.tag(name@, value@));
        longer
    }

    /// Adds a tag that holds a text.
    pub fn add_text_tag(self, name: &str, value: &str) -> (longer: Self)
        ensures
            longer@ == self@.text_tag(name@, value@),
    {
        self.add_tag(name, Type::Text(value.to_owned()))
    }

    /// Adds a field.
    pub fn add_field(self, name: &str, value: Type) -> (longer: Self)
        ensures
            longer@ == self@.field(name@, value@),
    {
        let mut longer = self;
        longer.fields.push(Entry { name: name.to_owned(), value });
        assert(longer@ =~= self@.field(name@, value@));
        longer
    }

    /// Adds a field that holds a text.
    pub fn add_text_field(self, name: &str, value: &str) -> (longer: Self)
        ensures
            longer@ == self@.text_field(name@, value@),
    {
        self.add_field(name, Type::Text(value.to_owned()))
    }
}

/// A query stands for what it holds: its time and measurement, and each tag and field in its place.
pub proof fn queries_stand_for_what_they_hold(query: WriteQuery, i: int)
    ensures
        query@.timestamp == query.timestamp,
        query@.measurement == query.measurement@,
        query@.tags.len() == query.tags@.len(),
        query@.fields.len() == query.fields@.len(),
        0 <= i < query.tags@.len() ==> query@.tags[i].name == query.tags@[i].name@
            && query@.tags[i].value == query.tags@[i].value@,
        0 <= i < query.fields@.len() ==> query@.fields[i].name == query.fields@[i].name@
            && query@.fields[i].value == query.fields@[i].value@,
{
}

/// A value stands for itself.
pub proof fn values_stand_for_themselves(value: Type)
    ensures
        value matches Type::Float(x) ==> value@ == TypeView::Float(x),
        value matches Type::SignedInteger(x) ==> value@ == TypeView::SignedInteger(x),
        value matches Type::UnsignedInteger(x) ==> value@ == TypeView::UnsignedInteger(x),
        value matches Type::Text(x) ==> value@ == TypeView::Text(x@),
{
}

/// A new query is empty. A tag goes behind the other tags and a field behind the other fields, and
/// nothing else changes.
pub proof fn queries_grow_at_their_end(
    origin: QueryView,
    time: Timestamp,
    name: Seq<char>,
    value: TypeView,
    text: Seq<char>,
)
    ensures
        ({
            let entry = EntryView { name, value };
            let text_entry = EntryView { name, value: TypeView::Text(text) };
            let QueryView { timestamp, measurement, tags, fields } = origin;
            &&& query(time, name).timestamp == time && query(time, name).measurement == name
            &&& query(time, name).tags.len() == 0 && query(time, name).fields.len() == 0
            &&& origin.tag(name, value) == (QueryView {
                timestamp,
                measurement,
                tags: tags.push(entry),
                fields,
            })
            &&& origin.field(name, value) == (QueryView {
                timestamp,
                measurement,
                tags,
                fields: fields.push(entry),
            })
            &&& origin.text_tag(name, text) == (QueryView {
                timestamp,
                measurement,
                tags: tags.push(text_entry),
                fields,
            })
            &&& origin.text_field(name, text) == (QueryView {
                timestamp,
                measurement,
                tags,
                fields: fields.push(text_entry),
            })
        }),
{
}

/// A sequence of queries stands for what each of them stands for, in order.
pub proof fn sequences_stand_for_their_queries(queries: Seq<WriteQuery>)
    ensures
        query_views(queries).len() == queries.len(),
        forall|i: int| 0 <= i < queries.len() ==> #[trigger] query_views(queries)[i] == queries[i]@,
{
}

} // verus!
