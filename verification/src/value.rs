//! The values that an attribute of an entity can hold.

use crate::scalar::{BigInt, Bytes, Float};
use vstd::prelude::*;

verus! {

/// One stored scalar or list.
///
/// A value carries no attribute name: the filter that holds it supplies the
/// name. Two values are equal when they are of the same kind and hold the
/// same data; two lists with the same items in another order are different
/// values.
#[derive(Debug, PartialEq)]
pub enum Value {
    String(String),
    Int(i32),
    Float(Float),
    Bool(bool),
    BigInt(BigInt),
    Bytes(Bytes),
    List(Vec<Value>),
    Null,
}

/// What a [`Value`] stands for: text as a sequence of characters, integers
/// unbounded, a float by its bit pattern, a list as a sequence.
pub enum ValueView {
    String(Seq<char>),
    Int(int),
    Float(u32),
    Bool(bool),
    BigInt(int),
    Bytes(Seq<u8>),
    List(Seq<ValueView>),
    Null,
}

/// The view of a value, as a function on the value itself.
pub open spec fn value_view(value: Value) -> ValueView
    decreases value,
{
    match value {
        Value::String(text) => ValueView::String(text@),
        Value::Int(n) => ValueView::Int(n as int),
        Value::Float(f) => ValueView::Float(f@),
        Value::Bool(b) => ValueView::Bool(b),
        Value::BigInt(n) => ValueView::BigInt(n@),
        Value::Bytes(bytes) => ValueView::Bytes(bytes@),
        Value::List(items) => ValueView::List(
            Seq::new(
                items@.len(),
                |i: int|
                    if 0 <= i < items@.len() {
                        value_view(items@[i])
                    } else {
                        ValueView::Null
                    },
            ),
        ),
        Value::Null => ValueView::Null,
    }
}

impl View for Value {
    type V = ValueView;

    open spec fn view(&self) -> ValueView {
        value_view(*self)
    }
}

impl Clone for Value {
    fn clone(&self) -> (copy: Value)
        ensures
            copy@ == self@,
        decreases self,
    {
        match self {
            Value::String(text) => Value::String(text.clone()),
            Value::Int(n) => Value::Int(*n),
            Value::Float(f) => Value::Float(*f),
            Value::Bool(b) => Value::Bool(*b),
            Value::BigInt(n) => Value::BigInt(n.clone()),
            Value::Bytes(bytes) => Value::Bytes(bytes.clone()),
            Value::List(items) => {
                let mut copies: Vec<Value> = Vec::new();
                let mut i: usize = 0;
                while i < items.len()
                    invariant
                        *self == Value::List(*items),
                        i <= items.len(),
                        copies.len() == i,
                        forall|j: int| 0 <= j < i ==> (#[trigger] copies@[j])@ == items@[j]@,
                    decreases items.len() - i,
                {
                    proof {
                        vstd::std_specs::vec::axiom_vec_index_decreases(*items, i as int);
                    }
                    proof {
                        assert(decreases_to!(self => self->List_0@[i as int]));
                    }
                    copies.push(items[i].clone());
                    i += 1;
                }
                let copy = Value::List(copies);
                assert(self@ is List);
                assert(self@->List_0.len() == items@.len());
                assert(copy@->List_0.len() == items@.len());
                assert forall|j: int| 0 <= j < items@.len() implies self@->List_0[j] == items@[j]@ by {}
                assert forall|j: int| 0 <= j < items@.len() implies copy@->List_0[j] == copies@[j]@ by {}
                assert(copy@->List_0 =~= self@->List_0);
                copy
            },
            Value::Null => Value::Null,
        }
    }
}

} // verus!
