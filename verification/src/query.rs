//! The part of a `SELECT data FROM entities` statement that the filter
//! compiler builds: the predicates of its `WHERE` clause.
//!
//! The statement itself belongs to the storage layer. The library keeps the
//! predicates as plain data, with every value that came from a user as a
//! typed parameter and never as part of the SQL text.

use crate::decimal::decimal_parts;
use crate::scalar::Float;
use crate::value::{Value, ValueView};
use bigdecimal::BigDecimal;
use vstd::prelude::*;

verus! {

/// How a predicate is joined to the predicates that a query already has.
#[derive(Clone, Copy, Debug, PartialEq, Eq, Structural)]
pub enum FilterMode {
    And,
    Or,
}

/// A value bound to a placeholder of a predicate, with its SQL type.
#[derive(Debug, PartialEq)]
pub enum Param {
    /// Bound as `text`.
    Text(String),
    /// Bound as `float`.
    Float(Float),
    /// Bound as `integer`.
    Integer(i32),
    /// Bound as `boolean`.
    Boolean(bool),
    /// Bound as `numeric`.
    Numeric(BigDecimal),
    /// Bound as `text`: the JSON text of the value.
    Json(Value),
}

/// What a [`Param`] stands for.
pub enum ParamView {
    Text(Seq<char>),
    Float(u32),
    Integer(int),
    Boolean(bool),
    /// The number `unscaled / 10^scale`.
    Numeric { unscaled: int, scale: int },
    Json(ValueView),
}

impl View for Param {
    type V = ParamView;

    open spec fn view(&self) -> ParamView {
        match self {
            Param::Text(text) => ParamView::Text(text@),
            Param::Float(f) => ParamView::Float(f@),
            Param::Integer(n) => ParamView::Integer(*n as int),
            Param::Boolean(b) => ParamView::Boolean(*b),
            Param::Numeric(decimal) => ParamView::Numeric {
                unscaled: decimal_parts(*decimal).0,
                scale: decimal_parts(*decimal).1,
            },
            Param::Json(value) => ParamView::Json(value@),
        }
    }
}

impl Clone for Param {
    fn clone(&self) -> (copy: Param)
        ensures
            copy@ == self@,
    {
        match self {
            Param::Text(text) => Param::Text(text.clone()),
            Param::Float(f) => Param::Float(*f),
            Param::Integer(n) => Param::Integer(*n),
            Param::Boolean(b) => Param::Boolean(*b),
            Param::Numeric(decimal) => Param::Numeric(decimal.clone()),
            Param::Json(value) => Param::Json(value.clone()),
        }
    }
}

/// One boolean SQL expression over the `data` column.
///
/// It reads `prefix $1 infix $2`, where `$1` is the attribute name, bound as
/// text, and `$2` is `value`; without a value it ends after `infix`. A
/// negated predicate is that expression inside `NOT (..)`.
#[derive(Clone, Debug, PartialEq)]
pub struct Predicate {
    pub negated: bool,
    pub prefix: String,
    pub attribute: String,
    pub infix: String,
    pub value: Option<Param>,
}

/// What a [`Predicate`] stands for.
pub struct PredicateView {
    pub negated: bool,
    pub prefix: Seq<char>,
    pub attribute: Seq<char>,
    pub infix: Seq<char>,
    pub value: Option<ParamView>,
}

impl View for Predicate {
    type V = PredicateView;

    open spec fn view(&self) -> PredicateView {
        PredicateView {
            negated: self.negated,
            prefix: self.prefix@,
            attribute: self.attribute@,
            infix: self.infix@,
            value: match self.value {
                Some(param) => Some(param@),
                None => None,
            },
        }
    }
}

/// A predicate together with the way it joins what came before it.
#[derive(Clone, Debug, PartialEq)]
pub struct Clause {
    pub mode: FilterMode,
    pub predicate: Predicate,
}

/// What a [`Clause`] stands for.
pub struct ClauseView {
    pub mode: FilterMode,
    pub predicate: PredicateView,
}

impl View for Clause {
    type V = ClauseView;

    open spec fn view(&self) -> ClauseView {
        ClauseView { mode: self.mode, predicate: self.predicate@ }
    }
}

/// The truth of an SQL expression for one entity: besides true and false
/// it may be unknown, which is what a comparison with a missing value
/// gives. A statement selects the entities of which its `WHERE` clause is
/// true.
#[derive(Clone, Copy, Debug, PartialEq, Eq, Structural)]
pub enum Truth {
    True,
    False,
    Unknown,
}

/// `NOT` in SQL.
pub open spec fn truth_not(truth: Truth) -> Truth {
    match truth {
        Truth::True => Truth::False,
        Truth::False => Truth::True,
        Truth::Unknown => Truth::Unknown,
    }
}

/// `AND` in SQL.
pub open spec fn truth_and(left: Truth, right: Truth) -> Truth {
    if left is False || right is False {
        Truth::False
    } else if left is True && right is True {
        Truth::True
    } else {
        Truth::Unknown
    }
}

/// `OR` in SQL.
pub open spec fn truth_or(left: Truth, right: Truth) -> Truth {
    if left is True || right is True {
        Truth::True
    } else if left is False && right is False {
        Truth::False
    } else {
        Truth::Unknown
    }
}

/// The truth of a predicate, where `expression` gives the truth of every
/// expression `prefix $1 infix $2` as it stands without `NOT`.
pub open spec fn predicate_truth(
    predicate: PredicateView,
    expression: spec_fn(PredicateView) -> Truth,
) -> Truth {
    let inner = expression(PredicateView { negated: false, ..predicate });
    if predicate.negated {
        truth_not(inner)
    } else {
        inner
    }
}

/// The truth of the `WHERE` clause that the clauses of a query make up.
///
/// Without a clause every entity is selected. The first clause stands
/// alone; each further clause is joined by its mode to all before it.
pub open spec fn where_truth(
    clauses: Seq<ClauseView>,
    expression: spec_fn(PredicateView) -> Truth,
) -> Truth
    decreases clauses.len(),
{
    if clauses.len() == 0 {
        Truth::True
    } else if clauses.len() == 1 {
        predicate_truth(clauses[0].predicate, expression)
    } else {
        let before = where_truth(clauses.drop_last(), expression);
        let last = predicate_truth(clauses.last().predicate, expression);
        match clauses.last().mode {
            FilterMode::And => truth_and(before, last),
            FilterMode::Or => truth_or(before, last),
        }
    }
}

/// The predicates of a query, in the order in which they were added.
///
/// The first clause stands alone, whatever its mode. Each further clause is
/// joined by its mode to all that came before it, taken as one group:
/// `((c1 AND c2) OR c3)` for the modes `_`, `And`, `Or`. [`where_truth`]
/// says of which entities the clauses are true.
#[derive(Clone, Debug, PartialEq)]
pub struct Query {
    pub clauses: Vec<Clause>,
}

impl View for Query {
    type V = Seq<ClauseView>;

    open spec fn view(&self) -> Seq<ClauseView> {
        self.clauses@.map_values(|clause: Clause| clause@)
    }
}

impl Query {
    /// A query without any predicate: it selects every entity.
    pub fn new() -> (query: Query)
        ensures
            query@ == Seq::<ClauseView>::empty(),
    {
        let query = Query { clauses: Vec::new() };
        assert(query@ =~= Seq::<ClauseView>::empty());
        query
    }
}

} // verus!
