//! The objects that describe the types of a schema, kept by the name of
//! their type and in the order of the names.

use crate::graphql::{field_views, QueryValue, QueryValueView};
use crate::text::{
    comes_before, lemma_text_before_asymmetric, lemma_text_before_irreflexive,
    lemma_text_before_total, lemma_text_before_transitive, same_text, text_before,
};
use vstd::prelude::*;

verus! {

/// Whether the names of the entries strictly increase: the entries are in
/// the order of their names, and no name occurs twice.
pub open spec fn names_increase(entries: Seq<(Seq<char>, QueryValueView)>) -> bool {
    forall|i: int, j: int|
        0 <= i < j < entries.len() ==> text_before(
            (#[trigger] entries[i]).0,
            (#[trigger] entries[j]).0,
        )
}

/// Whether an entry of the name `name` is among `entries`.
pub open spec fn has_name(entries: Seq<(Seq<char>, QueryValueView)>, name: Seq<char>) -> bool {
    exists|i: int| 0 <= i < entries.len() && (#[trigger] entries[i]).0 == name
}

/// The entries as a map from the name to the object.
pub open spec fn entries_map(entries: Seq<(Seq<char>, QueryValueView)>) -> Map<
    Seq<char>,
    QueryValueView,
> {
    Map::new(
        |name: Seq<char>| has_name(entries, name),
        |name: Seq<char>|
            entries[choose|i: int| 0 <= i < entries.len() && (#[trigger] entries[i]).0 == name].1,
    )
}

/// Where the names increase, an entry is what the map has under its name.
pub proof fn lemma_entry_in_map(entries: Seq<(Seq<char>, QueryValueView)>, i: int)
    requires
        names_increase(entries),
        0 <= i < entries.len(),
    ensures
        entries_map(entries).contains_key(entries[i].0),
        entries_map(entries)[entries[i].0] == entries[i].1,
{
    let name = entries[i].0;
    let chosen = choose|j: int| 0 <= j < entries.len() && (#[trigger] entries[j]).0 == name;
    lemma_text_before_irreflexive(name);
    if chosen < i {
        assert(text_before(entries[chosen].0, entries[i].0));
    } else if i < chosen {
        assert(text_before(entries[i].0, entries[chosen].0));
    }
}

/// Objects by the name of their type. A name has at most one object, and
/// the objects are kept in the order of their names.
#[derive(Clone, Debug, PartialEq)]
pub struct TypeObjects {
    entries: Vec<(String, QueryValue)>,
}

impl View for TypeObjects {
    type V = Seq<(Seq<char>, QueryValueView)>;

    closed spec fn view(&self) -> Seq<(Seq<char>, QueryValueView)> {
        field_views(self.entries@)
    }
}

impl TypeObjects {
    /// The invariant of the collection: see [`names_increase`].
    pub open spec fn wf(&self) -> bool {
        names_increase(self@)
    }

    /// The collection as a map from the name to the object.
    pub open spec fn map(&self) -> Map<Seq<char>, QueryValueView> {
        entries_map(self@)
    }

    /// A collection without objects.
    pub fn new() -> (objects: TypeObjects)
        ensures
            objects.wf(),
            objects@ == Seq::<(Seq<char>, QueryValueView)>::empty(),
    {
        let objects = TypeObjects { entries: Vec::new() };
        assert(objects@ =~= Seq::<(Seq<char>, QueryValueView)>::empty());
        objects
    }

    /// The number of objects.
    pub fn len(&self) -> (len: usize)
        ensures
            len == self@.len(),
    {
        self.entries.len()
    }

    /// The position of the first entry whose name does not come before
    /// `name`.
    fn position(&self, name: &str) -> (at: usize)
        requires
            self.wf(),
        ensures
            at <= self@.len(),
            forall|i: int| 0 <= i < at ==> text_before((#[trigger] self@[i]).0, name@),
            forall|i: int| at <= i < self@.len() ==> !text_before((#[trigger] self@[i]).0, name@),
    {
        let mut at: usize = 0;
        while at < self.entries.len()
            invariant
                self.wf(),
                at <= self.entries.len(),
                self@.len() == self.entries.len(),
                forall|i: int| 0 <= i < at ==> text_before((#[trigger] self@[i]).0, name@),
            decreases self.entries.len() - at,
        {
            if !comes_before(self.entries[at].0.as_str(), name) {
                assert forall|i: int| at <= i < self@.len() implies !text_before(
                    (#[trigger] self@[i]).0,
                    name@,
                ) by {
                    if i > at && text_before(self@[i].0, name@) {
                        assert(text_before(self@[at as int].0, self@[i].0));
                        lemma_text_before_transitive(self@[at as int].0, self@[i].0, name@);
                    }
                }
                return at;
            }
            at += 1;
        }
        at
    }

    /// The object of the type `name`, if the collection has one.
    pub fn get(&self, name: &str) -> (found: Option<&QueryValue>)
        requires
            self.wf(),
        ensures
            match found {
                Some(object) => self.map().contains_key(name@) && self.map()[name@] == object@,
                None => !self.map().contains_key(name@),
            },
    {
        let at = self.position(name);
        if at < self.entries.len() && same_text(self.entries[at].0.as_str(), name) {
            proof {
                lemma_entry_in_map(self@, at as int);
            }
            Some(&self.entries[at].1)
        } else {
            proof {
                if has_name(self@, name@) {
                    let i = choose|i: int| 0 <= i < self@.len() && (#[trigger] self@[i]).0 == name@;
                    lemma_text_before_irreflexive(name@);
                    if i > at {
                        assert(text_before(self@[at as int].0, self@[i].0));
                        lemma_text_before_total(self@[at as int].0, name@);
                        lemma_text_before_asymmetric(self@[at as int].0, name@);
                    }
                }
            }
            None
        }
    }

    /// Whether the collection has an object of the type `name`.
    pub fn contains_key(&self, name: &str) -> (found: bool)
        requires
            self.wf(),
        ensures
            found == self.map().contains_key(name@),
    {
        self.get(name).is_some()
    }

    /// Puts `object` under `name`, in place of the object that the
    /// collection had under that name, if it had one.
    pub fn insert(&mut self, name: String, object: QueryValue)
        requires
            old(self).wf(),
        ensures
            final(self).wf(),
            final(self).map() == old(self).map().insert(name@, object@),
    {
        let ghost before = self@;
        let ghost key = name@;
        let ghost value = object@;
        let at = self.position(name.as_str());
        if at < self.entries.len() && same_text(self.entries[at].0.as_str(), name.as_str()) {
            self.entries.set(at, (name, object));
            proof {
                let after = self@;
                assert(after =~= before.update(at as int, (key, value)));
                assert(names_increase(after)) by {
                    assert forall|i: int, j: int| 0 <= i < j < after.len() implies text_before(
                        (#[trigger] after[i]).0,
                        (#[trigger] after[j]).0,
                    ) by {
                        assert(after[i].0 == before[i].0);
                        assert(after[j].0 == before[j].0);
                    }
                }
                assert forall|k: Seq<char>| has_name(after, k) == (k == key || has_name(
                    before,
                    k,
                )) by {
                    if has_name(after, k) {
                        let i = choose|i: int| 0 <= i < after.len() && (#[trigger] after[i]).0 == k;
                        assert(before[i].0 == k);
                    }
                    if has_name(before, k) {
                        let i = choose|i: int|
                            0 <= i < before.len() && (#[trigger] before[i]).0 == k;
                        assert(after[i].0 == k);
                    }
                    if k == key {
                        assert(after[at as int].0 == k);
                    }
                }
                assert forall|k: Seq<char>| has_name(after, k) implies #[trigger] entries_map(
                    after,
                )[k] == entries_map(before).insert(key, value)[k] by {
                    let i = choose|i: int| 0 <= i < after.len() && (#[trigger] after[i]).0 == k;
                    lemma_entry_in_map(after, i);
                    if i != at {
                        lemma_entry_in_map(before, i);
                        lemma_text_before_irreflexive(key);
                        if i < at {
                            assert(text_before(before[i].0, before[at as int].0));
                        } else {
                            assert(text_before(before[at as int].0, before[i].0));
                        }
                    }
                }
                assert(entries_map(after) =~= entries_map(before).insert(key, value));
            }
        } else {
            self.entries.insert(at, (name, object));
            proof {
                let after = self@;
                assert(after =~= before.insert(at as int, (key, value)));
                assert forall|j: int| at <= j < before.len() implies text_before(
                    key,
                    (#[trigger] before[j]).0,
                ) by {
                    lemma_text_before_total(before[j].0, key);
                    if before[j].0 == key {
                        assert(j > at);
                        assert(text_before(before[at as int].0, before[j].0));
                    }
                }
                assert(names_increase(after)) by {
                    assert forall|i: int, j: int| 0 <= i < j < after.len() implies text_before(
                        (#[trigger] after[i]).0,
                        (#[trigger] after[j]).0,
                    ) by {
                        let a = if i < at {
                            i
                        } else {
                            i - 1
                        };
                        let b = if j < at {
                            j
                        } else {
                            j - 1
                        };
                        if i != at {
                            assert(after[i] == before[a]);
                        }
                        if j != at {
                            assert(after[j] == before[b]);
                        }
                        if i != at && j != at {
                            assert(text_before(before[a].0, before[b].0));
                        }
                    }
                }
                assert forall|k: Seq<char>| has_name(after, k) == (k == key || has_name(
                    before,
                    k,
                )) by {
                    if has_name(after, k) {
                        let i = choose|i: int| 0 <= i < after.len() && (#[trigger] after[i]).0 == k;
                        if i < at {
                            assert(before[i].0 == k);
                        } else if i > at {
                            assert(before[i - 1].0 == k);
                        }
                    }
                    if has_name(before, k) {
                        let i = choose|i: int|
                            0 <= i < before.len() && (#[trigger] before[i]).0 == k;
                        if i < at {
                            assert(after[i].0 == k);
                        } else {
                            assert(after[i + 1].0 == k);
                        }
                    }
                    if k == key {
                        assert(after[at as int].0 == k);
                    }
                }
                assert forall|k: Seq<char>| has_name(after, k) implies #[trigger] entries_map(
                    after,
                )[k] == entries_map(before).insert(key, value)[k] by {
                    let i = choose|i: int| 0 <= i < after.len() && (#[trigger] after[i]).0 == k;
                    lemma_entry_in_map(after, i);
                    if i < at {
                        lemma_entry_in_map(before, i);
                        lemma_text_before_irreflexive(key);
                    } else if i > at {
                        lemma_entry_in_map(before, i - 1);
                        lemma_text_before_irreflexive(key);
                    }
                }
                assert(entries_map(after) =~= entries_map(before).insert(key, value));
            }
        }
    }

    /// Copies of the objects, in the order of the names of their types.
    pub fn values(&self) -> (objects: Vec<QueryValue>)
        ensures
            objects@.len() == self@.len(),
            forall|i: int| 0 <= i < self@.len() ==> (#[trigger] objects@[i])@ == self@[i].1,
    {
        let mut objects: Vec<QueryValue> = Vec::new();
        let mut i: usize = 0;
        while i < self.entries.len()
            invariant
                i <= self.entries.len(),
                self@.len() == self.entries.len(),
                objects@.len() == i,
                forall|j: int| 0 <= j < i ==> (#[trigger] objects@[j])@ == self@[j].1,
            decreases self.entries.len() - i,
        {
            objects.push(self.entries[i].1.clone());
            i += 1;
        }
        objects
    }
}

} // verus!
