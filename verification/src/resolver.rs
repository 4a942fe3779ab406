//! The resolver that answers introspection queries from the objects of a
//! schema.

use crate::graphql::{
    field_value, lemma_list_view, object_value, query_value_views, QueryValue, QueryValueView,
};
use crate::introspection::{
    describes, directive_objects, schema_directive_objects, schema_type_objects,
    spec_named_type_object,
};
use crate::schema::{
    named_type, schema_resolves, Definition, EnumType, ObjectType, ScalarType, Schema,
    TypeDefinition,
};
use crate::text::same_text;
use crate::type_objects::TypeObjects;
use std::collections::HashMap;
use vstd::prelude::*;

verus! {

/// What a scalar type makes of a value: the value itself where it is of
/// the kind that the name of the type asks for, and nothing otherwise.
pub open spec fn spec_coerce_scalar_value(
    scalar_type: ScalarType,
    value: Option<QueryValueView>,
) -> Option<QueryValueView> {
    match value {
        Some(given) => if (scalar_type.name@ == "Boolean"@ && given is Boolean) || (
        scalar_type.name@ == "Float"@ && given is Float) || (scalar_type.name@ == "Int"@
            && given is Int) || (scalar_type.name@ == "String"@ && given is String) {
            Some(given)
        } else {
            None
        },
        None => None,
    }
}

/// Whether the enum type has a value of the name `name`.
pub open spec fn has_enum_value(enum_type: EnumType, name: Seq<char>) -> bool {
    exists|i: int| 0 <= i < enum_type.values@.len() && (#[trigger] enum_type.values@[i]).name@ == name
}

/// What an enum type makes of a value: the value itself where it names one
/// of the values of the type, and nothing otherwise.
pub open spec fn spec_coerce_enum_value(
    enum_type: EnumType,
    value: Option<QueryValueView>,
) -> Option<QueryValueView> {
    match value {
        Some(QueryValueView::Enum(name)) => if has_enum_value(enum_type, name) {
            Some(QueryValueView::Enum(name))
        } else {
            None
        },
        _ => None,
    }
}

/// The field `field` of `object`, where that is an object with such a
/// field.
pub open spec fn spec_object_field(object: Option<QueryValue>, field: Seq<char>) -> Option<
    QueryValueView,
> {
    match object {
        Some(value) => match value@ {
            QueryValueView::Object(fields) => field_value(fields, field),
            _ => None,
        },
        None => None,
    }
}

/// The objects of the types that `items` names, in the order of the names;
/// items that are no text are passed over.
pub open spec fn named_objects(
    definitions: Seq<Definition>,
    items: Seq<QueryValueView>,
) -> Seq<QueryValueView>
    decreases items.len(),
{
    if items.len() == 0 {
        Seq::empty()
    } else {
        let before = named_objects(definitions, items.drop_last());
        match items.last() {
            QueryValueView::String(name) => before.push(spec_named_type_object(definitions, name)),
            _ => before,
        }
    }
}

/// Whether the document defines every type that `items` names.
pub open spec fn names_resolve(definitions: Seq<Definition>, items: Seq<QueryValueView>) -> bool {
    forall|i: int|
        0 <= i < items.len() ==> ((#[trigger] items[i]) matches QueryValueView::String(name)
            ==> named_type(definitions, name) is Some)
}

/// Whether the entities of `field` can be resolved: where the field is
/// `possibleTypes` and the parent lists types there, every type that it
/// names must be defined.
pub open spec fn entities_resolve(
    definitions: Seq<Definition>,
    parent: Option<QueryValue>,
    field: Seq<char>,
) -> bool {
    field == "possibleTypes"@ ==> (spec_object_field(parent, field) matches Some(
        QueryValueView::List(items),
    ) ==> names_resolve(definitions, items))
}

/// The entities of a field of `parent`.
///
/// The possible types of an interface or a union are kept by their names:
/// they are resolved to the objects of those types, or to null where there
/// is none. Every other field is resolved to what the parent has there.
pub open spec fn spec_resolve_entities(
    definitions: Seq<Definition>,
    parent: Option<QueryValue>,
    field: Seq<char>,
) -> QueryValueView {
    if field == "possibleTypes"@ {
        match spec_object_field(parent, field) {
            Some(QueryValueView::List(items)) => if items.len() > 0 {
                QueryValueView::List(named_objects(definitions, items))
            } else {
                QueryValueView::Null
            },
            _ => QueryValueView::Null,
        }
    } else {
        match spec_object_field(parent, field) {
            Some(value) => value,
            None => QueryValueView::Null,
        }
    }
}

/// Whether the entity of `field` can be resolved: where the field is `type`
/// or `ofType` and the parent names a type there, that type must be
/// defined.
pub open spec fn entity_resolves(
    definitions: Seq<Definition>,
    parent: Option<QueryValue>,
    field: Seq<char>,
) -> bool {
    (field == "type"@ || field == "ofType"@) ==> (spec_object_field(parent, field) matches Some(
        QueryValueView::String(name),
    ) ==> named_type(definitions, name) is Some)
}

/// The object that describes the schema as a whole.
pub open spec fn spec_schema_object(
    definitions: Seq<Definition>,
    types: Seq<(Seq<char>, QueryValueView)>,
) -> QueryValueView {
    QueryValueView::Object(
        seq![
            (
                "queryType"@,
                if named_type(definitions, "Query"@) is Some {
                    spec_named_type_object(definitions, "Query"@)
                } else {
                    QueryValueView::Null
                },
            ),
            ("mutationType"@, QueryValueView::Null),
            ("types"@, QueryValueView::List(Seq::new(types.len(), |i: int| types[i].1))),
            ("directives"@, QueryValueView::List(directive_objects(definitions))),
        ],
    )
}

/// The entity of a field of `parent`, given the objects of all types in
/// the order of their names.
pub open spec fn spec_resolve_entity(
    definitions: Seq<Definition>,
    types: Seq<(Seq<char>, QueryValueView)>,
    parent: Option<QueryValue>,
    field: Seq<char>,
) -> QueryValueView {
    if field == "__schema"@ {
        spec_schema_object(definitions, types)
    } else if field == "__type"@ {
        QueryValueView::Null
    } else if field == "type"@ || field == "ofType"@ {
        match spec_object_field(parent, field) {
            Some(QueryValueView::String(name)) => spec_named_type_object(definitions, name),
            Some(value) => value,
            None => QueryValueView::Null,
        }
    } else {
        match spec_object_field(parent, field) {
            Some(value) => value,
            None => QueryValueView::Null,
        }
    }
}

/// The value itself where a scalar type accepts it: see
/// [`spec_coerce_scalar_value`].
pub fn coerce_scalar_value(scalar_type: &ScalarType, value: &Option<&QueryValue>) -> (coerced:
    Option<QueryValue>)
    ensures
        match coerced {
            Some(accepted) => spec_coerce_scalar_value(
                *scalar_type,
                match value {
                    Some(given) => Some(given@),
                    None => None,
                },
            ) == Some(accepted@),
            None => spec_coerce_scalar_value(
                *scalar_type,
                match value {
                    Some(given) => Some(given@),
                    None => None,
                },
            ) is None,
        },
{
    match value {
        Some(given) => {
            let name = scalar_type.name.as_str();
            let accepted = match given {
                QueryValue::Boolean(_) => same_text(name, "Boolean"),
                QueryValue::Float(_) => same_text(name, "Float"),
                QueryValue::Int(_) => same_text(name, "Int"),
                QueryValue::String(_) => same_text(name, "String"),
                _ => false,
            };
            if accepted {
                Some((*given).clone())
            } else {
                None
            }
        },
        None => None,
    }
}

/// The value itself where an enum type has it: see
/// [`spec_coerce_enum_value`].
#[verifier::loop_isolation(false)]
pub fn coerce_enum_value(enum_type: &EnumType, value: &Option<&QueryValue>) -> (coerced: Option<
    QueryValue,
>)
    ensures
        match coerced {
            Some(accepted) => spec_coerce_enum_value(
                *enum_type,
                match value {
                    Some(given) => Some(given@),
                    None => None,
                },
            ) == Some(accepted@),
            None => spec_coerce_enum_value(
                *enum_type,
                match value {
                    Some(given) => Some(given@),
                    None => None,
                },
            ) is None,
        },
{
    match value {
        Some(QueryValue::Enum(name)) => {
            let mut i: usize = 0;
            while i < enum_type.values.len()
                invariant
                    i <= enum_type.values.len(),
                    forall|j: int| 0 <= j < i ==> (#[trigger] enum_type.values@[j]).name@ != name@,
                decreases enum_type.values.len() - i,
            {
                if same_text(enum_type.values[i].name.as_str(), name.as_str()) {
                    assert(enum_type.values@[i as int].name@ == name@);
                    return Some(QueryValue::Enum(enum_type.values[i].name.clone()));
                }
                i += 1;
            }
            None
        },
        _ => None,
    }
}

/// The field `field` of `object`, where that is an object with such a
/// field.
pub fn object_field<'a>(object: &'a Option<QueryValue>, field: &str) -> (found: Option<
    &'a QueryValue,
>)
    ensures
        match found {
            Some(value) => spec_object_field(*object, field@) == Some(value@),
            None => spec_object_field(*object, field@) is None,
        },
{
    match object {
        Some(value) => value.get(field),
        None => None,
    }
}

/// A GraphQL resolver that answers from the objects of a schema.
#[derive(Clone, Debug)]
pub struct IntrospectionResolver<'a> {
    pub schema: &'a Schema,
    pub type_objects: TypeObjects,
    pub directives: QueryValue,
}

impl<'a> IntrospectionResolver<'a> {
    /// The definitions of the schema that the resolver answers for.
    pub open spec fn definitions(&self) -> Seq<Definition> {
        self.schema.document.definitions@
    }

    /// What holds of a resolver: it has the object of every type that its
    /// schema defines and of no other, and the objects of the directives.
    pub open spec fn wf(&self) -> bool {
        &&& schema_resolves(self.definitions())
        &&& self.type_objects.wf()
        &&& describes(self.definitions(), self.type_objects.map())
        &&& forall|name: Seq<char>|
            self.type_objects.map().contains_key(name) <==> named_type(self.definitions(), name)
                is Some
        &&& self.directives@ == QueryValueView::List(directive_objects(self.definitions()))
    }

    /// A resolver for the schema, with the objects of all its types and
    /// directives made.
    pub fn new(schema: &'a Schema) -> (resolver: Self)
        requires
            schema_resolves(schema.document.definitions@),
        ensures
            resolver.wf(),
            resolver.schema == schema,
    {
        let type_objects = schema_type_objects(schema);
        let directives = schema_directive_objects(&schema.document.definitions);
        IntrospectionResolver { schema, type_objects, directives }
    }

    /// The object of a type that the schema defines.
    fn known_type_object(&self, name: &str) -> (object: QueryValue)
        requires
            self.wf(),
            named_type(self.definitions(), name@) is Some,
        ensures
            object@ == spec_named_type_object(self.definitions(), name@),
    {
        match self.type_objects.get(name) {
            Some(object) => object.clone(),
            None => unreached(),
        }
    }

    /// The object that describes the schema as a whole.
    pub fn schema_object(&self) -> (object: QueryValue)
        requires
            self.wf(),
        ensures
            object@ == spec_schema_object(self.definitions(), self.type_objects@),
    {
        let query_type = match self.type_objects.get("Query") {
            Some(object) => object.clone(),
            None => QueryValue::Null,
        };
        let types = self.type_objects.values();
        proof {
            lemma_list_view(types);
        }
        let object = object_value(
            vec![
                ("queryType", query_type),
                ("mutationType", QueryValue::Null),
                ("types", QueryValue::List(types)),
                ("directives", self.directives.clone()),
            ],
        );
        proof {
            let wanted = spec_schema_object(self.definitions(), self.type_objects@)->Object_0;
            assert(query_value_views(types@) =~= wanted[2].1->List_0);
            assert(object@->Object_0 =~= wanted);
        }
        object
    }

    /// The object of the type that the arguments of `__type` name. The
    /// arguments are not read yet: the answer is null.
    pub fn type_object(&self, arguments: &HashMap<&String, QueryValue>) -> (object: QueryValue)
        ensures
            object@ == QueryValueView::Null,
    {
        QueryValue::Null
    }

    /// Whether the entities of `field` can be resolved: see
    /// [`entities_resolve`].
    #[verifier::loop_isolation(false)]
    pub fn can_resolve_entities(&self, parent: &Option<QueryValue>, field: &str) -> (can: bool)
        requires
            self.wf(),
        ensures
            can == entities_resolve(self.definitions(), *parent, field@),
    {
        if !same_text(field, "possibleTypes") {
            return true;
        }
        match object_field(parent, field) {
            Some(QueryValue::List(items)) => {
                proof {
                    lemma_list_view(*items);
                }
                let ghost views = query_value_views(items@);
                let mut i: usize = 0;
                while i < items.len()
                    invariant
                        self.wf(),
                        i <= items.len(),
                        views == query_value_views(items@),
                        forall|j: int|
                            0 <= j < i ==> ((#[trigger] views[j]) matches QueryValueView::String(
                                name,
                            ) ==> named_type(self.definitions(), name) is Some),
                    decreases items.len() - i,
                {
                    if let QueryValue::String(name) = &items[i] {
                        if !self.type_objects.contains_key(name.as_str()) {
                            assert(views[i as int] == QueryValueView::String(name@));
                            return false;
                        }
                    }
                    assert(views[i as int] == items@[i as int]@);
                    i += 1;
                }
                true
            },
            _ => true,
        }
    }

    /// Resolves the entities of a field of `parent`.
    pub fn resolve_entities(
        &self,
        parent: &Option<QueryValue>,
        field: &str,
        entity: &str,
        arguments: &HashMap<&String, QueryValue>,
    ) -> (resolved: QueryValue)
        requires
            self.wf(),
            entities_resolve(self.definitions(), *parent, field@),
        ensures
            resolved@ == spec_resolve_entities(self.definitions(), *parent, field@),
    {
        if same_text(field, "possibleTypes") {
            match object_field(parent, "possibleTypes") {
                Some(QueryValue::List(type_names)) => {
                    proof {
                        lemma_list_view(*type_names);
                    }
                    if type_names.len() > 0 {
                        let ghost views = query_value_views(type_names@);
                        let mut objects: Vec<QueryValue> = Vec::new();
                        let mut i: usize = 0;
                        proof {
                            assert(views.take(0) =~= Seq::<QueryValueView>::empty());
                        }
                        while i < type_names.len()
                            invariant
                                self.wf(),
                                i <= type_names.len(),
                                views == query_value_views(type_names@),
                                names_resolve(self.definitions(), views),
                                query_value_views(objects@) == named_objects(
                                    self.definitions(),
                                    views.take(i as int),
                                ),
                            decreases type_names.len() - i,
                        {
                            proof {
                                assert(views.take(i + 1).drop_last() =~= views.take(i as int));
                                assert(views[i as int] == type_names@[i as int]@);
                            }
                            let ghost before = query_value_views(objects@);
                            if let QueryValue::String(named) = &type_names[i] {
                                let object = self.known_type_object(named.as_str());
                                objects.push(object);
                                assert(query_value_views(objects@) =~= before.push(
                                    spec_named_type_object(self.definitions(), named@),
                                ));
                            }
                            i += 1;
                        }
                        proof {
                            assert(views.take(i as int) =~= views);
                            lemma_list_view(objects);
                        }
                        QueryValue::List(objects)
                    } else {
                        QueryValue::Null
                    }
                },
                _ => QueryValue::Null,
            }
        } else {
            match object_field(parent, field) {
                Some(value) => value.clone(),
                None => QueryValue::Null,
            }
        }
    }

    /// Whether the entity of `field` can be resolved: see
    /// [`entity_resolves`].
    pub fn can_resolve_entity(&self, parent: &Option<QueryValue>, field: &str) -> (can: bool)
        requires
            self.wf(),
        ensures
            can == entity_resolves(self.definitions(), *parent, field@),
    {
        if same_text(field, "type") || same_text(field, "ofType") {
            match object_field(parent, field) {
                Some(QueryValue::String(name)) => self.type_objects.contains_key(name.as_str()),
                _ => true,
            }
        } else {
            true
        }
    }

    /// Resolves the entity of a field of `parent`.
    pub fn resolve_entity(
        &self,
        parent: &Option<QueryValue>,
        field: &str,
        entity: &str,
        arguments: &HashMap<&String, QueryValue>,
    ) -> (resolved: QueryValue)
        requires
            self.wf(),
            entity_resolves(self.definitions(), *parent, field@),
        ensures
            resolved@ == spec_resolve_entity(
                self.definitions(),
                self.type_objects@,
                *parent,
                field@,
            ),
    {
        if same_text(field, "__schema") {
            self.schema_object()
        } else if same_text(field, "__type") {
            self.type_object(arguments)
        } else if same_text(field, "type") || same_text(field, "ofType") {
            match object_field(parent, field) {
                Some(QueryValue::String(named)) => self.known_type_object(named.as_str()),
                Some(value) => value.clone(),
                None => QueryValue::Null,
            }
        } else {
            match object_field(parent, field) {
                Some(value) => value.clone(),
                None => QueryValue::Null,
            }
        }
    }

    /// The value where the enum type has it, and null otherwise.
    pub fn resolve_enum_value(&self, enum_type: &EnumType, value: Option<&QueryValue>) -> (resolved:
        QueryValue)
        ensures
            resolved@ == match spec_coerce_enum_value(
                *enum_type,
                match value {
                    Some(given) => Some(given@),
                    None => None,
                },
            ) {
                Some(accepted) => accepted,
                None => QueryValueView::Null,
            },
    {
        match coerce_enum_value(enum_type, &value) {
            Some(accepted) => accepted,
            None => QueryValue::Null,
        }
    }

    /// The value where the scalar type accepts it, and null otherwise.
    pub fn resolve_scalar_value(&self, scalar_type: &ScalarType, value: Option<&QueryValue>) -> (resolved:
        QueryValue)
        ensures
            resolved@ == match spec_coerce_scalar_value(
                *scalar_type,
                match value {
                    Some(given) => Some(given@),
                    None => None,
                },
            ) {
                Some(accepted) => accepted,
                None => QueryValueView::Null,
            },
    {
        match coerce_scalar_value(scalar_type, &value) {
            Some(accepted) => accepted,
            None => QueryValue::Null,
        }
    }

    /// The list where the enum type has every value of it, and null for
    /// any other list and for what is no list.
    #[verifier::loop_isolation(false)]
    pub fn resolve_enum_values(&self, enum_type: &EnumType, value: Option<&QueryValue>) -> (resolved:
        QueryValue)
        ensures
            resolved@ == match value {
                Some(given) => match given@ {
                    QueryValueView::List(items) => if forall|i: int|
                        0 <= i < items.len() ==> spec_coerce_enum_value(
                            *enum_type,
                            Some(#[trigger] items[i]),
                        ) is Some {
                        QueryValueView::List(items)
                    } else {
                        QueryValueView::Null
                    },
                    _ => QueryValueView::Null,
                },
                None => QueryValueView::Null,
            },
    {
        match value {
            Some(QueryValue::List(values)) => {
                proof {
                    lemma_list_view(*values);
                }
                let ghost views = query_value_views(values@);
                let mut coerced_values: Vec<QueryValue> = Vec::new();
                let mut i: usize = 0;
                while i < values.len()
                    invariant
                        i <= values.len(),
                        views == query_value_views(values@),
                        coerced_values@.len() == i,
                        forall|j: int| 0 <= j < i ==> (#[trigger] coerced_values@[j])@ == views[j],
                        forall|j: int|
                            0 <= j < i ==> spec_coerce_enum_value(
                                *enum_type,
                                Some(#[trigger] views[j]),
                            ) is Some,
                    decreases values.len() - i,
                {
                    assert(views[i as int] == values@[i as int]@);
                    match coerce_enum_value(enum_type, &Some(&values[i])) {
                        Some(accepted) => {
                            coerced_values.push(accepted);
                        },
                        None => {
                            return QueryValue::Null;
                        },
                    }
                    i += 1;
                }
                proof {
                    lemma_list_view(coerced_values);
                    assert(query_value_views(coerced_values@) =~= views);
                }
                QueryValue::List(coerced_values)
            },
            _ => QueryValue::Null,
        }
    }

    /// The list where the scalar type accepts every value of it, and null
    /// for any other list and for what is no list.
    #[verifier::loop_isolation(false)]
    pub fn resolve_scalar_values(&self, scalar_type: &ScalarType, value: Option<&QueryValue>) -> (resolved:
        QueryValue)
        ensures
            resolved@ == match value {
                Some(given) => match given@ {
                    QueryValueView::List(items) => if forall|i: int|
                        0 <= i < items.len() ==> spec_coerce_scalar_value(
                            *scalar_type,
                            Some(#[trigger] items[i]),
                        ) is Some {
                        QueryValueView::List(items)
                    } else {
                        QueryValueView::Null
                    },
                    _ => QueryValueView::Null,
                },
                None => QueryValueView::Null,
            },
    {
        match value {
            Some(QueryValue::List(values)) => {
                proof {
                    lemma_list_view(*values);
                }
                let ghost views = query_value_views(values@);
                let mut coerced_values: Vec<QueryValue> = Vec::new();
                let mut i: usize = 0;
                while i < values.len()
                    invariant
                        i <= values.len(),
                        views == query_value_views(values@),
                        coerced_values@.len() == i,
                        forall|j: int| 0 <= j < i ==> (#[trigger] coerced_values@[j])@ == views[j],
                        forall|j: int|
                            0 <= j < i ==> spec_coerce_scalar_value(
                                *scalar_type,
                                Some(#[trigger] views[j]),
                            ) is Some,
                    decreases values.len() - i,
                {
                    assert(views[i as int] == values@[i as int]@);
                    match coerce_scalar_value(scalar_type, &Some(&values[i])) {
                        Some(accepted) => {
                            coerced_values.push(accepted);
                        },
                        None => {
                            return QueryValue::Null;
                        },
                    }
                    i += 1;
                }
                proof {
                    lemma_list_view(coerced_values);
                    assert(query_value_views(coerced_values@) =~= views);
                }
                QueryValue::List(coerced_values)
            },
            _ => QueryValue::Null,
        }
    }

    /// The object type that stands for a value of an interface or a union.
    /// The resolver knows none.
    pub fn resolve_abstract_type<'b>(
        &self,
        schema: &'b Schema,
        abstract_type: &TypeDefinition,
        object_value: &QueryValue,
    ) -> (object_type: Option<&'b ObjectType>)
        ensures
            object_type is None,
    {
        None
    }
}

} // verus!
