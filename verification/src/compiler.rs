//! The filter compiler: from a tree of filters to the predicates of a query.
//!
//! A leaf filter becomes one predicate, chosen by the operator of the filter
//! and the kind of its value, or it is refused as unsupported. A composite
//! filter adds the predicates of its children from left to right, each
//! joined by the mode of the composite: `And` for all must hold, `Or` for at
//! least one must hold.

use crate::decimal::parse_decimal;
use crate::filter::{filter_views, FilterView, StoreFilter};
use crate::query::{
    Clause, ClauseView, FilterMode, Param, ParamView, Predicate, PredicateView, Query,
};
use crate::scalar::hex_text;
use crate::value::{Value, ValueView};
use vstd::prelude::*;
use vstd::string::*;

verus! {

/// An operator that cannot be applied to the value it was given.
#[derive(Clone, Debug, PartialEq)]
pub struct UnsupportedFilter {
    /// The operator: `!=`, `>`, `<`, `>=`, `<=`, `contains` or
    /// `not_contains`.
    pub filter: String,
    /// The value that the operator was refused for.
    pub value: Value,
}

/// What an [`UnsupportedFilter`] stands for.
pub struct UnsupportedFilterView {
    pub filter: Seq<char>,
    pub value: ValueView,
}

impl View for UnsupportedFilter {
    type V = UnsupportedFilterView;

    open spec fn view(&self) -> UnsupportedFilterView {
        UnsupportedFilterView { filter: self.filter@, value: self.value@ }
    }
}

/// Whether the filter tests for equality or inequality.
pub open spec fn is_equality(filter: FilterView) -> bool {
    filter is Equal || filter is Not
}

/// Whether the filter compares by order.
pub open spec fn is_ordering(filter: FilterView) -> bool {
    filter is GreaterThan || filter is LessThan || filter is GreaterOrEqual || filter is LessOrEqual
}

/// Whether the filter tests for containment.
pub open spec fn is_containment(filter: FilterView) -> bool {
    filter is Contains || filter is NotContains
}

/// The attribute that a leaf filter names.
pub open spec fn leaf_attribute(filter: FilterView) -> Seq<char> {
    match filter {
        FilterView::Equal(attribute, _)
        | FilterView::Not(attribute, _)
        | FilterView::GreaterThan(attribute, _)
        | FilterView::LessThan(attribute, _)
        | FilterView::GreaterOrEqual(attribute, _)
        | FilterView::LessOrEqual(attribute, _)
        | FilterView::Contains(attribute, _)
        | FilterView::NotContains(attribute, _) => attribute,
        FilterView::And(_) | FilterView::Or(_) => Seq::empty(),
    }
}

/// The value that a leaf filter compares with.
pub open spec fn leaf_value(filter: FilterView) -> ValueView {
    match filter {
        FilterView::Equal(_, value)
        | FilterView::Not(_, value)
        | FilterView::GreaterThan(_, value)
        | FilterView::LessThan(_, value)
        | FilterView::GreaterOrEqual(_, value)
        | FilterView::LessOrEqual(_, value)
        | FilterView::Contains(_, value)
        | FilterView::NotContains(_, value) => value,
        FilterView::And(_) | FilterView::Or(_) => ValueView::Null,
    }
}

/// The operator of a leaf filter, as it stands in SQL and in errors.
pub open spec fn operator_name(filter: FilterView) -> Seq<char> {
    match filter {
        FilterView::Equal(_, _) => "="@,
        FilterView::Not(_, _) => "!="@,
        FilterView::GreaterThan(_, _) => ">"@,
        FilterView::LessThan(_, _) => "<"@,
        FilterView::GreaterOrEqual(_, _) => ">="@,
        FilterView::LessOrEqual(_, _) => "<="@,
        FilterView::Contains(_, _) => "contains"@,
        FilterView::NotContains(_, _) => "not_contains"@,
        FilterView::And(_) | FilterView::Or(_) => Seq::empty(),
    }
}

/// Whether the operator of a leaf filter can be applied to its value.
///
/// Text takes every operator. Numbers can be compared but contain nothing.
/// Booleans are only tested for equality and inequality. Byte strings and
/// lists have no order. Null takes `=` alone: there is a test for a field
/// that is null, and none for one that is not.
pub open spec fn supported(filter: FilterView) -> bool {
    match leaf_value(filter) {
        ValueView::String(_) => true,
        ValueView::Float(_) | ValueView::Int(_) | ValueView::BigInt(_) => !is_containment(filter),
        ValueView::Bool(_) => is_equality(filter),
        ValueView::Null => filter is Equal,
        ValueView::Bytes(_) | ValueView::List(_) => !is_ordering(filter),
    }
}

/// The SQL cast that turns the text of a field into the kind of `value`.
pub open spec fn cast_suffix(value: ValueView) -> Seq<char> {
    match value {
        ValueView::Float(_) => "::float"@,
        ValueView::Int(_) => "::int"@,
        ValueView::Bool(_) => "::boolean"@,
        ValueView::BigInt(_) => "::numeric"@,
        _ => ""@,
    }
}

/// The parameter in which a comparison binds `value`: of the SQL type of
/// its kind, as JSON text for a byte string or a list, and none for null.
///
/// A big integer is bound as the decimal with that integer and scale 0.
pub open spec fn value_param(value: ValueView) -> Option<ParamView> {
    match value {
        ValueView::String(text) => Some(ParamView::Text(text)),
        ValueView::Float(bits) => Some(ParamView::Float(bits)),
        ValueView::Int(n) => Some(ParamView::Integer(n)),
        ValueView::Bool(b) => Some(ParamView::Boolean(b)),
        ValueView::BigInt(n) => Some(ParamView::Numeric { unscaled: n, scale: 0 }),
        ValueView::Bytes(_) | ValueView::List(_) => Some(ParamView::Json(value)),
        ValueView::Null => None,
    }
}

/// `data ->> $1 <infix> $2`: the field as text, then the operator.
pub open spec fn bare_predicate(
    attribute: Seq<char>,
    infix: Seq<char>,
    value: Option<ParamView>,
) -> PredicateView {
    PredicateView { negated: false, prefix: "data ->> "@, attribute, infix, value }
}

/// `(data ->> $1)<cast><operator> $2`: the field as text, cast, compared.
pub open spec fn grouped_predicate(
    attribute: Seq<char>,
    cast: Seq<char>,
    operator: Seq<char>,
    value: Option<ParamView>,
) -> PredicateView {
    PredicateView {
        negated: false,
        prefix: "(data ->> "@,
        attribute,
        infix: ")"@ + cast + operator,
        value,
    }
}

/// The predicate of `=` and `!=`.
///
/// Null is a case of its own, and of `=` alone: the predicate says that the
/// field itself, not its text, is the JSON `null`. A list is compared as
/// text without a group; every other kind in a group with the cast of its
/// kind.
pub open spec fn equality_predicate(
    operator: Seq<char>,
    attribute: Seq<char>,
    value: ValueView,
) -> PredicateView {
    match value {
        ValueView::Null => PredicateView {
            negated: false,
            prefix: "data -> "@,
            attribute,
            infix: " = 'null' "@,
            value: None,
        },
        ValueView::List(_) => bare_predicate(attribute, operator, value_param(value)),
        _ => grouped_predicate(attribute, cast_suffix(value), operator, value_param(value)),
    }
}

/// The predicate of `>`, `<`, `>=` and `<=` for a value that has an order.
pub open spec fn ordering_predicate(
    operator: Seq<char>,
    attribute: Seq<char>,
    value: ValueView,
) -> PredicateView {
    match value {
        ValueView::String(_) => bare_predicate(attribute, operator, value_param(value)),
        _ => grouped_predicate(attribute, cast_suffix(value), operator, value_param(value)),
    }
}

/// The predicate of `contains` and, negated, of `not_contains`.
///
/// For text it is `LIKE`, for a byte string `LIKE` on its text form. For a
/// list it is the containment operator `@>` on the JSON text of the list;
/// `not_contains` is then that very predicate inside `NOT (..)`.
pub open spec fn containment_predicate(
    negated: bool,
    attribute: Seq<char>,
    value: ValueView,
) -> PredicateView {
    let like = if negated {
        " NOT LIKE "@
    } else {
        " LIKE "@
    };
    match value {
        ValueView::List(_) => PredicateView {
            negated,
            prefix: "data ->> "@,
            attribute,
            infix: " @> "@,
            value: Some(ParamView::Json(value)),
        },
        ValueView::Bytes(bytes) => bare_predicate(
            attribute,
            like,
            Some(ParamView::Text(hex_text(bytes))),
        ),
        ValueView::String(text) => bare_predicate(attribute, like, Some(ParamView::Text(text))),
        _ => bare_predicate(attribute, like, None),
    }
}

/// The predicate of a leaf filter whose operator its value supports.
pub open spec fn leaf_predicate(filter: FilterView) -> PredicateView {
    if is_equality(filter) {
        equality_predicate(operator_name(filter), leaf_attribute(filter), leaf_value(filter))
    } else if is_ordering(filter) {
        ordering_predicate(operator_name(filter), leaf_attribute(filter), leaf_value(filter))
    } else {
        containment_predicate(
            filter is NotContains,
            leaf_attribute(filter),
            leaf_value(filter),
        )
    }
}

/// What a leaf filter compiles to: its predicate, or the error that names
/// its operator and holds its value.
pub open spec fn compiled_leaf(filter: FilterView) -> Result<PredicateView, UnsupportedFilterView> {
    if supported(filter) {
        Ok(leaf_predicate(filter))
    } else {
        Err(UnsupportedFilterView { filter: operator_name(filter), value: leaf_value(filter) })
    }
}

/// The clauses that `filter` adds to a query when it is attached by `mode`.
///
/// A leaf adds its one predicate with that mode. A composite has a mode of
/// its own for its children and adds nothing by itself, so the mode it is
/// attached by has no effect on it. The first unsupported leaf, from the
/// left, is the error of the whole filter.
pub open spec fn compiled(filter: FilterView, mode: FilterMode) -> Result<
    Seq<ClauseView>,
    UnsupportedFilterView,
>
    decreases filter,
{
    match filter {
        FilterView::And(filters) => compiled_all(filters, FilterMode::And),
        FilterView::Or(filters) => compiled_all(filters, FilterMode::Or),
        _ => match compiled_leaf(filter) {
            Ok(predicate) => Ok(seq![ClauseView { mode, predicate }]),
            Err(error) => Err(error),
        },
    }
}

/// The clauses that a list of filters adds, each attached by `mode`.
pub open spec fn compiled_all(filters: Seq<FilterView>, mode: FilterMode) -> Result<
    Seq<ClauseView>,
    UnsupportedFilterView,
>
    decreases filters,
{
    if filters.len() == 0 {
        Ok(Seq::empty())
    } else {
        match compiled_all(filters.drop_last(), mode) {
            Ok(clauses) => match compiled(filters.last(), mode) {
                Ok(more) => Ok(clauses + more),
                Err(error) => Err(error),
            },
            Err(error) => Err(error),
        }
    }
}

/// The SQL cast for the kind of `value`.
fn cast_of(value: &Value) -> (cast: &'static str)
    ensures
        cast@ == cast_suffix(value@),
{
    match value {
        Value::Float(_) => "::float",
        Value::Int(_) => "::int",
        Value::Bool(_) => "::boolean",
        Value::BigInt(_) => "::numeric",
        _ => "",
    }
}

/// Turns a value into the parameter that a comparison binds.
fn bind_value(value: Value) -> (param: Option<Param>)
    ensures
        match param {
            Some(bound) => value_param(value@) == Some(bound@),
            None => value_param(value@) is None,
        },
{
    match value {
        Value::String(text) => Some(Param::Text(text)),
        Value::Float(f) => Some(Param::Float(f)),
        Value::Int(n) => Some(Param::Integer(n)),
        Value::Bool(b) => Some(Param::Boolean(b)),
        Value::BigInt(n) => {
            // The decimal is read from the decimal spelling of the integer,
            // so that it holds the same digits whatever the number's size.
            let text = n.to_string();
            match parse_decimal(text.as_str()) {
                Ok(decimal) => Some(Param::Numeric(decimal)),
                Err(_) => unreached(),
            }
        },
        Value::Bytes(bytes) => Some(Param::Json(Value::Bytes(bytes))),
        Value::List(items) => Some(Param::Json(Value::List(items))),
        Value::Null => None,
    }
}

fn bare(attribute: String, infix: &str, value: Option<Param>) -> (predicate: Predicate)
    ensures
        predicate@ == bare_predicate(
            attribute@,
            infix@,
            match value {
                Some(param) => Some(param@),
                None => None,
            },
        ),
{
    Predicate {
        negated: false,
        prefix: "data ->> ".to_owned(),
        attribute,
        infix: infix.to_owned(),
        value,
    }
}

fn grouped(attribute: String, cast: &str, operator: &str, value: Option<Param>) -> (predicate:
    Predicate)
    ensures
        predicate@ == grouped_predicate(
            attribute@,
            cast@,
            operator@,
            match value {
                Some(param) => Some(param@),
                None => None,
            },
        ),
{
    let mut infix = ")".to_owned();
    infix.append(cast);
    infix.append(operator);
    Predicate { negated: false, prefix: "(data ->> ".to_owned(), attribute, infix, value }
}

fn equality(operator: &str, attribute: String, value: Value) -> (predicate: Predicate)
    ensures
        predicate@ == equality_predicate(operator@, attribute@, value@),
{
    match value {
        Value::Null => Predicate {
            negated: false,
            prefix: "data -> ".to_owned(),
            attribute,
            infix: " = 'null' ".to_owned(),
            value: None,
        },
        Value::List(items) => bare(attribute, operator, bind_value(Value::List(items))),
        other => {
            let cast = cast_of(&other);
            grouped(attribute, cast, operator, bind_value(other))
        },
    }
}

fn ordering(operator: &str, attribute: String, value: Value) -> (result: Result<
    Predicate,
    UnsupportedFilter,
>)
    ensures
        match result {
            Ok(predicate) => (value@ is String || value@ is Float || value@ is Int
                || value@ is BigInt) && predicate@ == ordering_predicate(
                operator@,
                attribute@,
                value@,
            ),
            Err(error) => !(value@ is String || value@ is Float || value@ is Int
                || value@ is BigInt) && error@ == (UnsupportedFilterView {
                filter: operator@,
                value: value@,
            }),
        },
{
    match value {
        Value::String(text) => Ok(bare(attribute, operator, bind_value(Value::String(text)))),
        Value::Float(f) => Ok(grouped(attribute, "::float", operator, bind_value(Value::Float(f)))),
        Value::Int(n) => Ok(grouped(attribute, "::int", operator, bind_value(Value::Int(n)))),
        Value::BigInt(n) => Ok(
            grouped(attribute, "::numeric", operator, bind_value(Value::BigInt(n))),
        ),
        other => Err(UnsupportedFilter { filter: operator.to_owned(), value: other }),
    }
}

fn containment(negated: bool, attribute: String, value: Value) -> (result: Result<
    Predicate,
    UnsupportedFilter,
>)
    ensures
        match result {
            Ok(predicate) => (value@ is String || value@ is Bytes || value@ is List)
                && predicate@ == containment_predicate(negated, attribute@, value@),
            Err(error) => !(value@ is String || value@ is Bytes || value@ is List) && error@ == (
                UnsupportedFilterView {
                    filter: if negated {
                        "not_contains"@
                    } else {
                        "contains"@
                    },
                    value: value@,
                }),
        },
{
    let like = if negated {
        " NOT LIKE "
    } else {
        " LIKE "
    };
    match value {
        Value::String(text) => Ok(bare(attribute, like, Some(Param::Text(text)))),
        Value::Bytes(bytes) => Ok(bare(attribute, like, Some(Param::Text(bytes.to_string())))),
        Value::List(items) => Ok(
            Predicate {
                negated,
                prefix: "data ->> ".to_owned(),
                attribute,
                infix: " @> ".to_owned(),
                value: Some(Param::Json(Value::List(items))),
            },
        ),
        other => {
            let name = if negated {
                "not_contains"
            } else {
                "contains"
            };
            Err(UnsupportedFilter { filter: name.to_owned(), value: other })
        },
    }
}

/// Adds `predicate` to `query`, joined by `filter_mode` to the predicates
/// that the query already has.
pub fn add_filter(query: Query, filter_mode: FilterMode, predicate: Predicate) -> (extended: Query)
    ensures
        extended@ == query@.push(ClauseView { mode: filter_mode, predicate: predicate@ }),
{
    let ghost before = query@;
    let ghost added = ClauseView { mode: filter_mode, predicate: predicate@ };
    let mut query = query;
    query.clauses.push(Clause { mode: filter_mode, predicate });
    assert(query@ =~= before.push(added));
    query
}

/// Attaches a leaf predicate, or hands on the refusal.
fn attach(query: Query, filter_mode: FilterMode, leaf: Result<Predicate, UnsupportedFilter>) -> (result:
    Result<Query, UnsupportedFilter>)
    ensures
        match leaf {
            Ok(predicate) => result matches Ok(extended) && extended@ == query@.push(
                ClauseView { mode: filter_mode, predicate: predicate@ },
            ),
            Err(error) => result matches Err(handed) && handed@ == error@,
        },
{
    match leaf {
        Ok(predicate) => Ok(add_filter(query, filter_mode, predicate)),
        Err(error) => Err(error),
    }
}

/// Adds the filters of a list to `query` from left to right, each joined
/// by `filter_mode`, up to the first one that is unsupported.
fn store_filters(query: Query, filters: Vec<StoreFilter>, filter_mode: FilterMode) -> (result:
    Result<Query, UnsupportedFilter>)
    ensures
        match compiled_all(filter_views(filters@), filter_mode) {
            Ok(clauses) => result matches Ok(extended) && extended@ == query@ + clauses,
            Err(error) => result matches Err(unsupported) && unsupported@ == error,
        },
    decreases filters,
{
    let ghost base = query@;
    let ghost all = filters@;
    let ghost views = filter_views(filters@);
    let mut query = query;
    proof {
        assert(views.take(0) =~= Seq::<FilterView>::empty());
        assert(query@ =~= base + Seq::<ClauseView>::empty());
    }
    for filter in iter: filters
        invariant
            iter.seq() == all,
            views == filter_views(all),
            compiled_all(views.take(iter.index() as int), filter_mode) is Ok,
            query@ == base + compiled_all(views.take(iter.index() as int), filter_mode)->Ok_0,
    {
        let ghost i = iter.index() as int;
        proof {
            assert(views.take(i + 1).drop_last() =~= views.take(i));
            assert(views.take(i + 1).last() == filter@);
        }
        match store_filter_by_mode(query, filter, filter_mode) {
            Ok(extended) => {
                query = extended;
            },
            Err(unsupported) => {
                proof {
                    lemma_error_stays(views, i + 1, filter_mode);
                }
                return Err(unsupported);
            },
        }
    }
    proof {
        assert(views.take(views.len() as int) =~= views);
    }
    Ok(query)
}

/// Adds `filter` to a `SELECT data FROM entities` statement, joined by
/// `filter_mode` to the predicates that the statement already has.
///
/// The result is the query with the clauses of [`compiled`] behind its own,
/// or the error of [`compiled`]; a refused filter leaves no query behind.
pub fn store_filter_by_mode(query: Query, filter: StoreFilter, filter_mode: FilterMode) -> (result:
    Result<Query, UnsupportedFilter>)
    ensures
        match compiled(filter@, filter_mode) {
            Ok(clauses) => result matches Ok(extended) && extended@ == query@ + clauses,
            Err(error) => result matches Err(unsupported) && unsupported@ == error,
        },
    decreases filter,
{
    let ghost base = query@;
    let result = match filter {
        StoreFilter::And(filters) => {
            return store_filters(query, filters, FilterMode::And);
        },
        StoreFilter::Or(filters) => {
            return store_filters(query, filters, FilterMode::Or);
        },
        StoreFilter::Equal(attribute, value) => Ok(
            add_filter(query, filter_mode, equality("=", attribute, value)),
        ),
        StoreFilter::Not(attribute, value) => match value {
            Value::Null => Err(UnsupportedFilter { filter: "!=".to_owned(), value: Value::Null }),
            other => Ok(add_filter(query, filter_mode, equality("!=", attribute, other))),
        },
        StoreFilter::GreaterThan(attribute, value) => attach(
            query,
            filter_mode,
            ordering(">", attribute, value),
        ),
        StoreFilter::LessThan(attribute, value) => attach(
            query,
            filter_mode,
            ordering("<", attribute, value),
        ),
        StoreFilter::GreaterOrEqual(attribute, value) => attach(
            query,
            filter_mode,
            ordering(">=", attribute, value),
        ),
        StoreFilter::LessOrEqual(attribute, value) => attach(
            query,
            filter_mode,
            ordering("<=", attribute, value),
        ),
        StoreFilter::Contains(attribute, value) => attach(
            query,
            filter_mode,
            containment(false, attribute, value),
        ),
        StoreFilter::NotContains(attribute, value) => attach(
            query,
            filter_mode,
            containment(true, attribute, value),
        ),
    };
    proof {
        if result is Ok {
            let extended = result->Ok_0@;
            assert(extended =~= base + seq![extended.last()]);
        }
    }
    result
}

/// Adds `filter` to a `SELECT data FROM entities` statement.
///
/// The filter as a whole must hold together with what the statement
/// already asks for: it is attached in `And` mode.
pub fn store_filter(query: Query, filter: StoreFilter) -> (result: Result<Query, UnsupportedFilter>)
    ensures
        match compiled(filter@, FilterMode::And) {
            Ok(clauses) => result matches Ok(extended) && extended@ == query@ + clauses,
            Err(error) => result matches Err(unsupported) && unsupported@ == error,
        },
{
    store_filter_by_mode(query, filter, FilterMode::And)
}

/// Once a prefix of a list of filters has an unsupported leaf, every longer
/// prefix has the same error.
proof fn lemma_error_stays(filters: Seq<FilterView>, n: int, mode: FilterMode)
    requires
        0 <= n <= filters.len(),
        compiled_all(filters.take(n), mode) is Err,
    ensures
        compiled_all(filters, mode) == compiled_all(filters.take(n), mode),
    decreases filters.len() - n,
{
    if n == filters.len() {
        assert(filters.take(n) =~= filters);
    } else {
        assert(filters.take(n + 1).drop_last() =~= filters.take(n));
        lemma_error_stays(filters, n + 1, mode);
    }
}

} // verus!
