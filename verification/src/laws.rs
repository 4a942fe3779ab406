//! What holds of the filter compiler, whatever filter it is given.

use crate::compiler::{
    cast_suffix, compiled, compiled_all, containment_predicate, equality_predicate,
    is_equality, is_ordering, leaf_attribute, leaf_predicate, leaf_value, operator_name,
    supported, value_param, UnsupportedFilterView,
};
use crate::filter::FilterView;
use crate::query::{
    predicate_truth, truth_not, where_truth, ClauseView, FilterMode, ParamView, PredicateView,
    Truth,
};
use crate::value::ValueView;
use vstd::prelude::*;

verus! {

/// The SQL type of a parameter, as the cast that gives a field that type.
pub open spec fn param_cast(param: ParamView) -> Seq<char> {
    match param {
        ParamView::Float(_) => "::float"@,
        ParamView::Integer(_) => "::int"@,
        ParamView::Boolean(_) => "::boolean"@,
        ParamView::Numeric { .. } => "::numeric"@,
        ParamView::Text(_) | ParamView::Json(_) => ""@,
    }
}

/// Whether two leaf filters have the same operator and values of one kind.
pub open spec fn same_shape(first: FilterView, second: FilterView) -> bool {
    &&& operator_name(first) == operator_name(second)
    &&& first is NotContains <==> second is NotContains
    &&& is_equality(first) <==> is_equality(second)
    &&& is_ordering(first) <==> is_ordering(second)
    &&& cast_suffix(leaf_value(first)) == cast_suffix(leaf_value(second))
    &&& leaf_value(first) is String <==> leaf_value(second) is String
    &&& leaf_value(first) is Bytes <==> leaf_value(second) is Bytes
    &&& leaf_value(first) is List <==> leaf_value(second) is List
    &&& leaf_value(first) is Null <==> leaf_value(second) is Null
}

/// Every pairing of an operator with a kind of value has exactly one
/// outcome, whatever the attribute, the value and the mode: one clause
/// that holds the predicate of the pairing, where the value supports the
/// operator, and otherwise the error that names the operator and hands the
/// value back.
pub proof fn lemma_leaf_outcome(filter: FilterView, mode: FilterMode)
    requires
        !(filter is And),
        !(filter is Or),
    ensures
        supported(filter) ==> compiled(filter, mode) == Ok::<
            Seq<ClauseView>,
            UnsupportedFilterView,
        >(seq![ClauseView { mode, predicate: leaf_predicate(filter) }]),
        !supported(filter) ==> compiled(filter, mode) == Err::<
            Seq<ClauseView>,
            UnsupportedFilterView,
        >(UnsupportedFilterView { filter: operator_name(filter), value: leaf_value(filter) }),
        supported(filter) ==> leaf_predicate(filter).attribute == leaf_attribute(filter),
{
}

/// Null takes `=` alone: whether a field is null can be asked, and every
/// other operator is refused for null, `!=` too.
pub proof fn lemma_null_takes_equality_alone(filter: FilterView, mode: FilterMode)
    requires
        !(filter is And),
        !(filter is Or),
        leaf_value(filter) is Null,
    ensures
        compiled(filter, mode) is Ok <==> filter is Equal,
        filter is Not ==> compiled(filter, mode) == Err::<Seq<ClauseView>, UnsupportedFilterView>(
            UnsupportedFilterView { filter: "!="@, value: ValueView::Null },
        ),
{
}

/// A comparison binds its value in the SQL type to which it casts the
/// field: both sides of the operator are of one type.
pub proof fn lemma_cast_matches_parameter(value: ValueView)
    ensures
        value_param(value) matches Some(param) ==> param_cast(param) == cast_suffix(value),
{
}

/// The SQL text of a predicate is chosen by the operator and by the kind of
/// the value alone: what a user supplies, the attribute and the value, is
/// only ever bound as a parameter.
pub proof fn lemma_sql_text_is_fixed(first: FilterView, second: FilterView)
    requires
        !(first is And) && !(first is Or),
        !(second is And) && !(second is Or),
        same_shape(first, second),
    ensures
        leaf_predicate(first).prefix == leaf_predicate(second).prefix,
        leaf_predicate(first).infix == leaf_predicate(second).infix,
        leaf_predicate(first).negated == leaf_predicate(second).negated,
{
}

/// A big integer is bound as the decimal that holds that very integer, with
/// scale 0, whatever its size: nothing of it is lost on the way to the
/// parameter.
pub proof fn lemma_big_int_is_bound_exactly(filter: FilterView)
    requires
        is_equality(filter) || is_ordering(filter),
        leaf_value(filter) is BigInt,
    ensures
        supported(filter),
        leaf_predicate(filter).value == Some(
            ParamView::Numeric { unscaled: leaf_value(filter)->BigInt_0, scale: 0 },
        ),
{
}

/// Equality on lists tells apart any two lists that differ, be it only in
/// the order of their items: they are bound as different parameters.
pub proof fn lemma_list_equality_is_order_sensitive(
    attribute: Seq<char>,
    first: Seq<ValueView>,
    second: Seq<ValueView>,
)
    requires
        first != second,
    ensures
        equality_predicate("="@, attribute, ValueView::List(first)).value != equality_predicate(
            "="@,
            attribute,
            ValueView::List(second),
        ).value,
{
}

/// `not_contains` is the negation of `contains` on every value: both are
/// supported for the same values; for a list, the empty one too, it is the
/// predicate of `contains` inside `NOT (..)`; for text and byte strings it
/// is the same predicate with `NOT LIKE` in place of `LIKE`.
pub proof fn lemma_not_contains_negates_contains(attribute: Seq<char>, value: ValueView)
    ensures
        supported(FilterView::NotContains(attribute, value)) == supported(
            FilterView::Contains(attribute, value),
        ),
        value is List ==> containment_predicate(true, attribute, value) == (PredicateView {
            negated: true,
            ..containment_predicate(false, attribute, value)
        }) && !containment_predicate(false, attribute, value).negated,
        !(value is List) ==> containment_predicate(true, attribute, value) == (PredicateView {
            infix: " NOT LIKE "@,
            ..containment_predicate(false, attribute, value)
        }) && containment_predicate(false, attribute, value).infix == " LIKE "@,
{
}

/// Whether every filter of the list is a leaf whose value supports its
/// operator.
pub open spec fn supported_leaves(filters: Seq<FilterView>) -> bool {
    forall|i: int|
        0 <= i < filters.len() ==> !((#[trigger] filters[i]) is And) && !(filters[i] is Or)
            && supported(filters[i])
}

/// A list of supported leaves compiles to one clause for each leaf, in the
/// order of the leaves.
pub proof fn lemma_leaves_compile(filters: Seq<FilterView>, mode: FilterMode)
    requires
        supported_leaves(filters),
    ensures
        compiled_all(filters, mode) == Ok::<Seq<ClauseView>, UnsupportedFilterView>(
            Seq::new(
                filters.len(),
                |i: int| ClauseView { mode, predicate: leaf_predicate(filters[i]) },
            ),
        ),
    decreases filters.len(),
{
    let clauses = Seq::new(
        filters.len(),
        |i: int| ClauseView { mode, predicate: leaf_predicate(filters[i]) },
    );
    if filters.len() == 0 {
        assert(clauses =~= Seq::<ClauseView>::empty());
    } else {
        let front = filters.drop_last();
        assert forall|i: int| 0 <= i < front.len() implies !((#[trigger] front[i]) is And) && !(
        front[i] is Or) && supported(front[i]) by {
            assert(front[i] == filters[i]);
        }
        lemma_leaves_compile(front, mode);
        let before = compiled_all(front, mode)->Ok_0;
        assert(filters.last() == filters[filters.len() - 1]);
        lemma_leaf_outcome(filters.last(), mode);
        assert(before + seq![ClauseView { mode, predicate: leaf_predicate(filters.last()) }]
            =~= clauses);
    }
}

/// `And` means that all of its filters hold: the clauses of an `And` of
/// supported leaves, taken as the whole `WHERE` clause, are true of an
/// entity exactly when the predicate of every leaf is true of it.
pub proof fn lemma_and_selects_all(
    filters: Seq<FilterView>,
    mode: FilterMode,
    expression: spec_fn(PredicateView) -> Truth,
)
    requires
        supported_leaves(filters),
    ensures
        compiled(FilterView::And(filters), mode) is Ok,
        where_truth(compiled(FilterView::And(filters), mode)->Ok_0, expression) is True
            <==> forall|i: int|
            0 <= i < filters.len() ==> predicate_truth(
                leaf_predicate(#[trigger] filters[i]),
                expression,
            ) is True,
    decreases filters.len(),
{
    lemma_leaves_compile(filters, FilterMode::And);
    let clauses = compiled_all(filters, FilterMode::And)->Ok_0;
    if filters.len() >= 2 {
        let front = filters.drop_last();
        assert forall|i: int| 0 <= i < front.len() implies !((#[trigger] front[i]) is And) && !(
        front[i] is Or) && supported(front[i]) by {
            assert(front[i] == filters[i]);
        }
        lemma_and_selects_all(front, mode, expression);
        lemma_leaves_compile(front, FilterMode::And);
        assert(clauses.drop_last() =~= compiled_all(front, FilterMode::And)->Ok_0);
        assert(filters.last() == filters[filters.len() - 1]);
        assert forall|i: int| 0 <= i < front.len() implies front[i] == filters[i] by {}
        if forall|i: int|
            0 <= i < front.len() ==> predicate_truth(
                leaf_predicate(#[trigger] front[i]),
                expression,
            ) is True {
            assert forall|i: int| 0 <= i < filters.len() - 1 implies predicate_truth(
                leaf_predicate(#[trigger] filters[i]),
                expression,
            ) is True by {
                assert(front[i] == filters[i]);
            }
        }
    }
}

/// `Or` means that at least one of its filters holds: the clauses of an
/// `Or` of supported leaves, taken as the whole `WHERE` clause, are true of
/// an entity exactly when the predicate of some leaf is true of it. (An
/// `Or` of no filters adds no clause, and so selects every entity.)
pub proof fn lemma_or_selects_any(
    filters: Seq<FilterView>,
    mode: FilterMode,
    expression: spec_fn(PredicateView) -> Truth,
)
    requires
        supported_leaves(filters),
        filters.len() > 0,
    ensures
        compiled(FilterView::Or(filters), mode) is Ok,
        where_truth(compiled(FilterView::Or(filters), mode)->Ok_0, expression) is True
            <==> exists|i: int|
            0 <= i < filters.len() && predicate_truth(
                leaf_predicate(#[trigger] filters[i]),
                expression,
            ) is True,
    decreases filters.len(),
{
    lemma_leaves_compile(filters, FilterMode::Or);
    let clauses = compiled_all(filters, FilterMode::Or)->Ok_0;
    let last = filters.len() - 1;
    if filters.len() >= 2 {
        let front = filters.drop_last();
        assert forall|i: int| 0 <= i < front.len() implies !((#[trigger] front[i]) is And) && !(
        front[i] is Or) && supported(front[i]) by {
            assert(front[i] == filters[i]);
        }
        lemma_or_selects_any(front, mode, expression);
        lemma_leaves_compile(front, FilterMode::Or);
        assert(clauses.drop_last() =~= compiled_all(front, FilterMode::Or)->Ok_0);
        assert(filters.last() == filters[last]);
        if exists|i: int|
            0 <= i < front.len() && predicate_truth(
                leaf_predicate(#[trigger] front[i]),
                expression,
            ) is True {
            let i = choose|i: int|
                0 <= i < front.len() && predicate_truth(
                    leaf_predicate(#[trigger] front[i]),
                    expression,
                ) is True;
            assert(front[i] == filters[i]);
        }
        if exists|i: int|
            0 <= i < filters.len() && predicate_truth(
                leaf_predicate(#[trigger] filters[i]),
                expression,
            ) is True {
            let i = choose|i: int|
                0 <= i < filters.len() && predicate_truth(
                    leaf_predicate(#[trigger] filters[i]),
                    expression,
                ) is True;
            if i < last {
                assert(front[i] == filters[i]);
            }
        }
    } else {
        assert(filters[0] == filters[last]);
    }
}

/// On a list, `not_contains` is true of an entity exactly when `contains`
/// is false of it, and unknown when `contains` is unknown.
pub proof fn lemma_not_contains_truth(
    attribute: Seq<char>,
    items: Seq<ValueView>,
    expression: spec_fn(PredicateView) -> Truth,
)
    ensures
        predicate_truth(
            containment_predicate(true, attribute, ValueView::List(items)),
            expression,
        ) == truth_not(
            predicate_truth(
                containment_predicate(false, attribute, ValueView::List(items)),
                expression,
            ),
        ),
{
}

/// A composite filter has its own mode for its children, so the mode by
/// which it is attached changes nothing.
pub proof fn lemma_composite_ignores_mode(filter: FilterView, first: FilterMode, second: FilterMode)
    requires
        filter is And || filter is Or,
    ensures
        compiled(filter, first) == compiled(filter, second),
{
}

/// The filters of a list are compiled one after the other: a list in two
/// parts gives the clauses of the first part and then those of the second,
/// and the error of the first part that has one.
pub proof fn lemma_compiled_all_concat(
    first: Seq<FilterView>,
    second: Seq<FilterView>,
    mode: FilterMode,
)
    ensures
        compiled_all(first + second, mode) == match compiled_all(first, mode) {
            Ok(clauses) => match compiled_all(second, mode) {
                Ok(more) => Ok(clauses + more),
                Err(error) => Err(error),
            },
            Err(error) => Err(error),
        },
    decreases second.len(),
{
    if second.len() == 0 {
        assert(first + second =~= first);
        if let Ok(clauses) = compiled_all(first, mode) {
            assert(clauses + Seq::<ClauseView>::empty() =~= clauses);
        }
    } else {
        assert((first + second).drop_last() =~= first + second.drop_last());
        assert((first + second).last() == second.last());
        lemma_compiled_all_concat(first, second.drop_last(), mode);
        if let Ok(clauses) = compiled_all(first, mode) {
            if let Ok(more) = compiled_all(second.drop_last(), mode) {
                if let Ok(last) = compiled(second.last(), mode) {
                    assert((clauses + more) + last =~= clauses + (more + last));
                }
            }
        }
    }
}

} // verus!
