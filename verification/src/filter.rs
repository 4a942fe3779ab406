//! The filters by which entities are selected.

use crate::value::{Value, ValueView};
use vstd::prelude::*;

verus! {

/// A tree of conditions on the attributes of an entity.
///
/// The attribute of a leaf names a top-level key of the entity's document.
#[derive(Debug, PartialEq)]
pub enum StoreFilter {
    /// All of the filters hold.
    And(Vec<StoreFilter>),
    /// At least one of the filters holds.
    Or(Vec<StoreFilter>),
    Equal(String, Value),
    Not(String, Value),
    GreaterThan(String, Value),
    LessThan(String, Value),
    GreaterOrEqual(String, Value),
    LessOrEqual(String, Value),
    /// The text contains the value, or the list contains every item of it.
    Contains(String, Value),
    NotContains(String, Value),
}

/// What a [`StoreFilter`] stands for.
pub enum FilterView {
    And(Seq<FilterView>),
    Or(Seq<FilterView>),
    Equal(Seq<char>, ValueView),
    Not(Seq<char>, ValueView),
    GreaterThan(Seq<char>, ValueView),
    LessThan(Seq<char>, ValueView),
    GreaterOrEqual(Seq<char>, ValueView),
    LessOrEqual(Seq<char>, ValueView),
    Contains(Seq<char>, ValueView),
    NotContains(Seq<char>, ValueView),
}

/// The views of the filters of a list, one for one.
pub open spec fn filter_views(filters: Seq<StoreFilter>) -> Seq<FilterView>
    decreases filters,
{
    Seq::new(
        filters.len(),
        |i: int|
            if 0 <= i < filters.len() {
                filter_view(filters[i])
            } else {
                FilterView::And(Seq::empty())
            },
    )
}

/// The view of a filter, as a function on the filter itself.
pub open spec fn filter_view(filter: StoreFilter) -> FilterView
    decreases filter,
{
    match filter {
        StoreFilter::And(filters) => FilterView::And(filter_views(filters@)),
        StoreFilter::Or(filters) => FilterView::Or(filter_views(filters@)),
        StoreFilter::Equal(attribute, value) => FilterView::Equal(attribute@, value@),
        StoreFilter::Not(attribute, value) => FilterView::Not(attribute@, value@),
        StoreFilter::GreaterThan(attribute, value) => FilterView::GreaterThan(attribute@, value@),
        StoreFilter::LessThan(attribute, value) => FilterView::LessThan(attribute@, value@),
        StoreFilter::GreaterOrEqual(attribute, value) => FilterView::GreaterOrEqual(
            attribute@,
            value@,
        ),
        StoreFilter::LessOrEqual(attribute, value) => FilterView::LessOrEqual(attribute@, value@),
        StoreFilter::Contains(attribute, value) => FilterView::Contains(attribute@, value@),
        StoreFilter::NotContains(attribute, value) => FilterView::NotContains(attribute@, value@),
    }
}

impl View for StoreFilter {
    type V = FilterView;

    open spec fn view(&self) -> FilterView {
        filter_view(*self)
    }
}

fn clone_filters(filters: &Vec<StoreFilter>) -> (copies: Vec<StoreFilter>)
    ensures
        filter_views(copies@) == filter_views(filters@),
    decreases filters,
{
    let mut copies: Vec<StoreFilter> = Vec::new();
    let mut i: usize = 0;
    while i < filters.len()
        invariant
            i <= filters.len(),
            copies.len() == i,
            forall|j: int| 0 <= j < i ==> (#[trigger] copies@[j])@ == filters@[j]@,
        decreases filters.len() - i,
    {
        copies.push(filters[i].clone());
        i += 1;
    }
    assert(filter_views(copies@) =~= filter_views(filters@));
    copies
}

impl Clone for StoreFilter {
    fn clone(&self) -> (copy: StoreFilter)
        ensures
            copy@ == self@,
        decreases self,
    {
        match self {
            StoreFilter::And(filters) => StoreFilter::And(clone_filters(filters)),
            StoreFilter::Or(filters) => StoreFilter::Or(clone_filters(filters)),
            StoreFilter::Equal(attribute, value) => StoreFilter::Equal(
                attribute.clone(),
                value.clone(),
            ),
            StoreFilter::Not(attribute, value) => StoreFilter::Not(attribute.clone(), value.clone()),
            StoreFilter::GreaterThan(attribute, value) => StoreFilter::GreaterThan(
                attribute.clone(),
                value.clone(),
            ),
            StoreFilter::LessThan(attribute, value) => StoreFilter::LessThan(
                attribute.clone(),
                value.clone(),
            ),
            StoreFilter::GreaterOrEqual(attribute, value) => StoreFilter::GreaterOrEqual(
                attribute.clone(),
                value.clone(),
            ),
            StoreFilter::LessOrEqual(attribute, value) => StoreFilter::LessOrEqual(
                attribute.clone(),
                value.clone(),
            ),
            StoreFilter::Contains(attribute, value) => StoreFilter::Contains(
                attribute.clone(),
                value.clone(),
            ),
            StoreFilter::NotContains(attribute, value) => StoreFilter::NotContains(
                attribute.clone(),
                value.clone(),
            ),
        }
    }
}

} // verus!
