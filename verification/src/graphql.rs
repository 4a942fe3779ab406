//! The values of GraphQL: what a query passes in and what a resolver
//! answers with.

use crate::text::same_text;
use vstd::prelude::*;

verus! {

/// A GraphQL value.
///
/// A float is kept as the bit pattern of a 64-bit IEEE 754 number. An
/// object keeps its fields in the order in which they were given; where a
/// name occurs twice, the later field is the one that counts.
#[derive(Debug, PartialEq)]
pub enum QueryValue {
    Variable(String),
    Int(i64),
    Float(u64),
    String(String),
    Boolean(bool),
    Null,
    Enum(String),
    List(Vec<QueryValue>),
    Object(Vec<(String, QueryValue)>),
}

/// What a [`QueryValue`] stands for.
pub enum QueryValueView {
    Variable(Seq<char>),
    Int(int),
    Float(u64),
    String(Seq<char>),
    Boolean(bool),
    Null,
    Enum(Seq<char>),
    List(Seq<QueryValueView>),
    Object(Seq<(Seq<char>, QueryValueView)>),
}

/// The view of a value, as a function on the value itself.
pub open spec fn query_value_view(value: QueryValue) -> QueryValueView
    decreases value,
{
    match value {
        QueryValue::Variable(name) => QueryValueView::Variable(name@),
        QueryValue::Int(n) => QueryValueView::Int(n as int),
        QueryValue::Float(bits) => QueryValueView::Float(bits),
        QueryValue::String(text) => QueryValueView::String(text@),
        QueryValue::Boolean(b) => QueryValueView::Boolean(b),
        QueryValue::Null => QueryValueView::Null,
        QueryValue::Enum(name) => QueryValueView::Enum(name@),
        QueryValue::List(items) => QueryValueView::List(
            Seq::new(
                items@.len(),
                |i: int|
                    if 0 <= i < items@.len() {
                        query_value_view(items@[i])
                    } else {
                        QueryValueView::Null
                    },
            ),
        ),
        QueryValue::Object(fields) => QueryValueView::Object(
            Seq::new(
                fields@.len(),
                |i: int|
                    if 0 <= i < fields@.len() {
                        (fields@[i].0@, query_value_view(fields@[i].1))
                    } else {
                        (Seq::empty(), QueryValueView::Null)
                    },
            ),
        ),
    }
}

impl View for QueryValue {
    type V = QueryValueView;

    open spec fn view(&self) -> QueryValueView {
        query_value_view(*self)
    }
}

/// The views of the values of a list, one for one.
pub open spec fn query_value_views(items: Seq<QueryValue>) -> Seq<QueryValueView> {
    Seq::new(items.len(), |i: int| items[i]@)
}

/// The views of the fields of an object, one for one.
pub open spec fn field_views(fields: Seq<(String, QueryValue)>) -> Seq<(Seq<char>, QueryValueView)> {
    Seq::new(fields.len(), |i: int| (fields[i].0@, fields[i].1@))
}

/// A list is viewed item by item.
pub proof fn lemma_list_view(items: Vec<QueryValue>)
    ensures
        QueryValue::List(items)@ == QueryValueView::List(query_value_views(items@)),
{
    assert(QueryValue::List(items)@->List_0 =~= query_value_views(items@));
}

/// An object is viewed field by field.
pub proof fn lemma_object_view(fields: Vec<(String, QueryValue)>)
    ensures
        QueryValue::Object(fields)@ == QueryValueView::Object(field_views(fields@)),
{
    assert(QueryValue::Object(fields)@->Object_0 =~= field_views(fields@));
}

/// The value of the field `name`: that of the last field so named.
pub open spec fn field_value(fields: Seq<(Seq<char>, QueryValueView)>, name: Seq<char>) -> Option<
    QueryValueView,
>
    decreases fields.len(),
{
    if fields.len() == 0 {
        None
    } else if fields.last().0 == name {
        Some(fields.last().1)
    } else {
        field_value(fields.drop_last(), name)
    }
}

impl Clone for QueryValue {
    fn clone(&self) -> (copy: QueryValue)
        ensures
            copy@ == self@,
        decreases self,
    {
        match self {
            QueryValue::Variable(name) => QueryValue::Variable(name.clone()),
            QueryValue::Int(n) => QueryValue::Int(*n),
            QueryValue::Float(bits) => QueryValue::Float(*bits),
            QueryValue::String(text) => QueryValue::String(text.clone()),
            QueryValue::Boolean(b) => QueryValue::Boolean(*b),
            QueryValue::Null => QueryValue::Null,
            QueryValue::Enum(name) => QueryValue::Enum(name.clone()),
            QueryValue::List(items) => {
                let mut copies: Vec<QueryValue> = Vec::new();
                let mut i: usize = 0;
                while i < items.len()
                    invariant
                        *self == QueryValue::List(*items),
                        i <= items.len(),
                        copies.len() == i,
                        forall|j: int| 0 <= j < i ==> (#[trigger] copies@[j])@ == items@[j]@,
                    decreases items.len() - i,
                {
                    proof {
                        assert(decreases_to!(self => self->List_0@[i as int]));
                    }
                    copies.push(items[i].clone());
                    i += 1;
                }
                proof {
                    lemma_list_view(copies);
                    lemma_list_view(*items);
                    assert(query_value_views(copies@) =~= query_value_views(items@));
                }
                QueryValue::List(copies)
            },
            QueryValue::Object(fields) => {
                let mut copies: Vec<(String, QueryValue)> = Vec::new();
                let mut i: usize = 0;
                while i < fields.len()
                    invariant
                        *self == QueryValue::Object(*fields),
                        i <= fields.len(),
                        copies.len() == i,
                        forall|j: int|
                            0 <= j < i ==> (#[trigger] copies@[j]).0@ == fields@[j].0@
                                && copies@[j].1@ == fields@[j].1@,
                    decreases fields.len() - i,
                {
                    proof {
                        assert(decreases_to!(self => self->Object_0@[i as int].1));
                    }
                    copies.push((fields[i].0.clone(), fields[i].1.clone()));
                    i += 1;
                }
                proof {
                    lemma_object_view(copies);
                    lemma_object_view(*fields);
                    assert(field_views(copies@) =~= field_views(fields@));
                }
                QueryValue::Object(copies)
            },
        }
    }
}

impl QueryValue {
    /// The value of the field `name` of an object; nothing for a value
    /// that is no object or has no such field.
    pub fn get(&self, name: &str) -> (found: Option<&QueryValue>)
        ensures
            match found {
                Some(value) => self@ matches QueryValueView::Object(fields) && field_value(
                    fields,
                    name@,
                ) == Some(value@),
                None => self@ matches QueryValueView::Object(fields) ==> field_value(
                    fields,
                    name@,
                ) is None,
            },
    {
        match self {
            QueryValue::Object(fields) => {
                proof {
                    lemma_object_view(*fields);
                }
                let ghost views = field_views(fields@);
                let mut i: usize = fields.len();
                proof {
                    assert(views.take(i as int) =~= views);
                }
                while i > 0
                    invariant
                        i <= fields.len(),
                        views == field_views(fields@),
                        self@ == QueryValueView::Object(views),
                        field_value(views, name@) == field_value(views.take(i as int), name@),
                    decreases i,
                {
                    i -= 1;
                    proof {
                        assert(views.take(i + 1).drop_last() =~= views.take(i as int));
                    }
                    if same_text(fields[i].0.as_str(), name) {
                        return Some(&fields[i].1);
                    }
                }
                None
            },
            _ => None,
        }
    }
}

/// An object with the given fields, in the given order.
pub fn object_value(data: Vec<(&str, QueryValue)>) -> (object: QueryValue)
    ensures
        object@ == QueryValueView::Object(
            Seq::new(data@.len(), |i: int| (data@[i].0@, data@[i].1@)),
        ),
{
    let ghost wanted = Seq::new(data@.len(), |i: int| (data@[i].0@, data@[i].1@));
    let mut fields: Vec<(String, QueryValue)> = Vec::new();
    for field in iter: data
        invariant
            iter.seq().len() == wanted.len(),
            forall|i: int|
                0 <= i < iter.seq().len() ==> wanted[i] == ((#[trigger] iter.seq()[i]).0@, iter.seq()[i].1@),
            fields@.len() == iter.index(),
            forall|i: int|
                0 <= i < fields@.len() ==> ((#[trigger] fields@[i]).0@, fields@[i].1@) == wanted[i],
    {
        let (name, value) = field;
        fields.push((name.to_owned(), value));
    }
    proof {
        lemma_object_view(fields);
        assert(field_views(fields@) =~= wanted);
    }
    QueryValue::Object(fields)
}

} // verus!
