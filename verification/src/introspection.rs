//! Introspection: the objects by which a schema describes itself to the
//! queries that ask for `__schema` and `__type`.

use crate::graphql::{
    lemma_list_view, object_value, query_value_views, QueryValue, QueryValueView,
};
use crate::schema::{
    defined_name, defines, definition_depth, get_named_type, get_type_name, interfaces_depth,
    interfaces_resolvable, interfaces_within, lemma_definition_depth, lemma_interfaces_depth,
    lemma_named_type_finds_first, lemma_named_type_is_first, lemma_resolves_with_more,
    name_resolves_within, named_type, resolves, resolves_within, schema_resolves,
    Definition, DirectiveDefinition, EnumType, EnumValue, Field, InputObjectType, InputValue,
    InterfaceType, ObjectType, ScalarType, Schema, Type, TypeDefinition, UnionType,
};
use crate::text::same_text;
use crate::type_objects::TypeObjects;
use vstd::prelude::*;

verus! {

/// A description as a value: its text, or null where there is none.
pub open spec fn description_value(description: Option<String>) -> QueryValueView {
    match description {
        Some(text) => QueryValueView::String(text@),
        None => QueryValueView::Null,
    }
}

/// The object of a type as it stands in a field or an argument.
///
/// A named type is only named; the object of its definition is found by
/// the name when a query asks for it.
pub open spec fn spec_type_object(t: Type) -> QueryValueView
    decreases t,
{
    match t {
        Type::NamedType(name) => QueryValueView::String(name@),
        Type::ListType(inner) => QueryValueView::Object(
            seq![("kind"@, QueryValueView::Enum("LIST"@)), ("ofType"@, spec_type_object(*inner))],
        ),
        Type::NonNullType(inner) => QueryValueView::Object(
            seq![("kind"@, QueryValueView::Enum("NON_NULL"@)), ("ofType"@, spec_type_object(*inner))],
        ),
    }
}

/// The object of an argument or of a field of an input object.
pub open spec fn spec_input_value(input_value: InputValue) -> QueryValueView {
    QueryValueView::Object(
        seq![
            ("name"@, QueryValueView::String(input_value.name@)),
            ("description"@, description_value(input_value.description)),
            ("type"@, spec_type_object(input_value.value_type)),
            (
                "defaultValue"@,
                match input_value.default_value {
                    Some(value) => value@,
                    None => QueryValueView::Null,
                },
            ),
        ],
    )
}

/// The list of the objects of some arguments.
pub open spec fn spec_input_values(arguments: Seq<InputValue>) -> QueryValueView {
    QueryValueView::List(Seq::new(arguments.len(), |i: int| spec_input_value(arguments[i])))
}

/// The object of a field.
pub open spec fn spec_field_object(field: Field) -> QueryValueView {
    QueryValueView::Object(
        seq![
            ("name"@, QueryValueView::String(field.name@)),
            ("description"@, description_value(field.description)),
            ("args"@, spec_input_values(field.arguments@)),
            ("type"@, spec_type_object(field.field_type)),
            ("isDeprecated"@, QueryValueView::Boolean(false)),
            ("deprecationReason"@, QueryValueView::Null),
        ],
    )
}

/// The list of the objects of some fields.
pub open spec fn spec_field_objects(fields: Seq<Field>) -> QueryValueView {
    QueryValueView::List(Seq::new(fields.len(), |i: int| spec_field_object(fields[i])))
}

/// The object of a value of an enum type.
pub open spec fn spec_enum_value(enum_value: EnumValue) -> QueryValueView {
    QueryValueView::Object(
        seq![
            ("name"@, QueryValueView::String(enum_value.name@)),
            ("description"@, description_value(enum_value.description)),
            ("isDeprecated"@, QueryValueView::Boolean(false)),
            ("deprecationReason"@, QueryValueView::Null),
        ],
    )
}

/// The list of the objects of the values of an enum type.
pub open spec fn spec_enum_values(enum_type: EnumType) -> QueryValueView {
    QueryValueView::List(
        Seq::new(enum_type.values@.len(), |i: int| spec_enum_value(enum_type.values@[i])),
    )
}

/// The object of an enum type.
pub open spec fn spec_enum_type_object(enum_type: EnumType) -> QueryValueView {
    QueryValueView::Object(
        seq![
            ("kind"@, QueryValueView::Enum("ENUM"@)),
            ("name"@, QueryValueView::String(enum_type.name@)),
            ("description"@, description_value(enum_type.description)),
            ("enumValues"@, spec_enum_values(enum_type)),
        ],
    )
}

/// The object of a scalar type.
pub open spec fn spec_scalar_type_object(scalar_type: ScalarType) -> QueryValueView {
    QueryValueView::Object(
        seq![
            ("name"@, QueryValueView::String(scalar_type.name@)),
            ("kind"@, QueryValueView::Enum("SCALAR"@)),
            ("description"@, description_value(scalar_type.description)),
            ("isDeprecated"@, QueryValueView::Boolean(false)),
            ("deprecationReason"@, QueryValueView::Null),
        ],
    )
}

/// The object of an input object type.
pub open spec fn spec_input_object_type_object(input_object_type: InputObjectType) -> QueryValueView {
    QueryValueView::Object(
        seq![
            ("name"@, QueryValueView::String(input_object_type.name@)),
            ("kind"@, QueryValueView::Enum("INPUT_OBJECT"@)),
            ("description"@, description_value(input_object_type.description)),
            ("inputFields"@, spec_input_values(input_object_type.fields@)),
        ],
    )
}

/// Whether the object type says that it implements `name`.
pub open spec fn implements(object_type: ObjectType, name: Seq<char>) -> bool {
    exists|k: int|
        0 <= k < object_type.implements_interfaces@.len()
            && (#[trigger] object_type.implements_interfaces@[k])@ == name
}

/// The names of the object types that implement `name`, as values, in the
/// order of their definitions.
pub open spec fn implementors(definitions: Seq<Definition>, name: Seq<char>) -> Seq<
    QueryValueView,
>
    decreases definitions.len(),
{
    if definitions.len() == 0 {
        Seq::empty()
    } else {
        let before = implementors(definitions.drop_last(), name);
        match definitions.last() {
            Definition::TypeDefinition(TypeDefinition::Object(object_type)) => {
                if implements(object_type, name) {
                    before.push(QueryValueView::String(object_type.name@))
                } else {
                    before
                }
            },
            _ => before,
        }
    }
}

/// The object of an interface.
pub open spec fn spec_interface_type_object(
    definitions: Seq<Definition>,
    interface_type: InterfaceType,
) -> QueryValueView {
    QueryValueView::Object(
        seq![
            ("name"@, QueryValueView::String(interface_type.name@)),
            ("kind"@, QueryValueView::Enum("INTERFACE"@)),
            ("description"@, description_value(interface_type.description)),
            ("fields"@, spec_field_objects(interface_type.fields@)),
            (
                "possibleTypes"@,
                QueryValueView::List(implementors(definitions, interface_type.name@)),
            ),
        ],
    )
}

/// The object of a union. Its possible types are the object types that
/// say they implement the name of the union.
pub open spec fn spec_union_type_object(
    definitions: Seq<Definition>,
    union_type: UnionType,
) -> QueryValueView {
    QueryValueView::Object(
        seq![
            ("name"@, QueryValueView::String(union_type.name@)),
            ("kind"@, QueryValueView::Enum("UNION"@)),
            ("description"@, description_value(union_type.description)),
            ("possibleTypes"@, QueryValueView::List(implementors(definitions, union_type.name@))),
        ],
    )
}

/// The list of the names of the places where a directive may stand.
pub open spec fn spec_directive_locations(directive: DirectiveDefinition) -> QueryValueView {
    QueryValueView::List(
        Seq::new(
            directive.locations@.len(),
            |i: int| QueryValueView::String(directive.locations@[i]@),
        ),
    )
}

/// The object of a directive.
pub open spec fn spec_directive_object(directive: DirectiveDefinition) -> QueryValueView {
    QueryValueView::Object(
        seq![
            ("name"@, QueryValueView::String(directive.name@)),
            ("description"@, description_value(directive.description)),
            ("locations"@, spec_directive_locations(directive)),
            ("args"@, spec_input_values(directive.arguments@)),
        ],
    )
}

/// The objects of the directives that a document defines, in the order of
/// their definitions.
pub open spec fn directive_objects(definitions: Seq<Definition>) -> Seq<QueryValueView>
    decreases definitions.len(),
{
    if definitions.len() == 0 {
        Seq::empty()
    } else {
        let before = directive_objects(definitions.drop_last());
        match definitions.last() {
            Definition::DirectiveDefinition(directive) => before.push(spec_directive_object(directive)),
            _ => before,
        }
    }
}

fn describe(description: &Option<String>) -> (value: QueryValue)
    ensures
        value@ == description_value(*description),
{
    match description {
        Some(text) => QueryValue::String(text.clone()),
        None => QueryValue::Null,
    }
}

fn list_value(items: Vec<QueryValue>) -> (list: QueryValue)
    ensures
        list@ == QueryValueView::List(query_value_views(items@)),
{
    proof {
        lemma_list_view(items);
    }
    QueryValue::List(items)
}

/// The object of a type as it stands in a field or an argument.
pub fn type_object(t: &Type) -> (object: QueryValue)
    ensures
        object@ == spec_type_object(*t),
    decreases t, 0int,
{
    match t {
        // The name is kept, so that the type can be found when asked for.
        Type::NamedType(name) => QueryValue::String(name.clone()),
        Type::ListType(inner) => list_type_object(inner),
        Type::NonNullType(inner) => non_null_type_object(inner),
    }
}

fn list_type_object(inner_type: &Type) -> (object: QueryValue)
    ensures
        object@ == QueryValueView::Object(
            seq![("kind"@, QueryValueView::Enum("LIST"@)), ("ofType"@, spec_type_object(*inner_type))],
        ),
    decreases inner_type, 1int,
{
    let object = object_value(
        vec![
            ("kind", QueryValue::Enum("LIST".to_owned())),
            ("ofType", type_object(inner_type)),
        ],
    );
    assert(object@->Object_0 =~= seq![
        ("kind"@, QueryValueView::Enum("LIST"@)),
        ("ofType"@, spec_type_object(*inner_type)),
    ]);
    object
}

fn non_null_type_object(inner_type: &Type) -> (object: QueryValue)
    ensures
        object@ == QueryValueView::Object(
            seq![
                ("kind"@, QueryValueView::Enum("NON_NULL"@)),
                ("ofType"@, spec_type_object(*inner_type)),
            ],
        ),
    decreases inner_type, 1int,
{
    let object = object_value(
        vec![
            ("kind", QueryValue::Enum("NON_NULL".to_owned())),
            ("ofType", type_object(inner_type)),
        ],
    );
    assert(object@->Object_0 =~= seq![
        ("kind"@, QueryValueView::Enum("NON_NULL"@)),
        ("ofType"@, spec_type_object(*inner_type)),
    ]);
    object
}

/// The object of an argument or of a field of an input object.
pub fn input_value(argument: &InputValue) -> (object: QueryValue)
    ensures
        object@ == spec_input_value(*argument),
{
    let default_value = match &argument.default_value {
        Some(value) => value.clone(),
        None => QueryValue::Null,
    };
    let object = object_value(
        vec![
            ("name", QueryValue::String(argument.name.clone())),
            ("description", describe(&argument.description)),
            ("type", type_object(&argument.value_type)),
            ("defaultValue", default_value),
        ],
    );
    assert(object@->Object_0 =~= spec_input_value(*argument)->Object_0);
    object
}

/// The list of the objects of some arguments.
pub fn input_values(arguments: &Vec<InputValue>) -> (list: QueryValue)
    ensures
        list@ == spec_input_values(arguments@),
{
    let mut items: Vec<QueryValue> = Vec::new();
    let mut i: usize = 0;
    while i < arguments.len()
        invariant
            i <= arguments.len(),
            items@.len() == i,
            forall|j: int| 0 <= j < i ==> (#[trigger] items@[j])@ == spec_input_value(arguments@[j]),
        decreases arguments.len() - i,
    {
        items.push(input_value(&arguments[i]));
        i += 1;
    }
    let list = list_value(items);
    assert(list@->List_0 =~= spec_input_values(arguments@)->List_0);
    list
}

/// The object of a field.
pub fn field_object(field: &Field) -> (object: QueryValue)
    ensures
        object@ == spec_field_object(*field),
{
    let object = object_value(
        vec![
            ("name", QueryValue::String(field.name.clone())),
            ("description", describe(&field.description)),
            ("args", input_values(&field.arguments)),
            ("type", type_object(&field.field_type)),
            ("isDeprecated", QueryValue::Boolean(false)),
            ("deprecationReason", QueryValue::Null),
        ],
    );
    assert(object@->Object_0 =~= spec_field_object(*field)->Object_0);
    object
}

/// The list of the objects of some fields.
pub fn field_objects(fields: &Vec<Field>) -> (list: QueryValue)
    ensures
        list@ == spec_field_objects(fields@),
{
    let mut items: Vec<QueryValue> = Vec::new();
    let mut i: usize = 0;
    while i < fields.len()
        invariant
            i <= fields.len(),
            items@.len() == i,
            forall|j: int| 0 <= j < i ==> (#[trigger] items@[j])@ == spec_field_object(fields@[j]),
        decreases fields.len() - i,
    {
        items.push(field_object(&fields[i]));
        i += 1;
    }
    let list = list_value(items);
    assert(list@->List_0 =~= spec_field_objects(fields@)->List_0);
    list
}

/// The object of a value of an enum type.
pub fn enum_value(value: &EnumValue) -> (object: QueryValue)
    ensures
        object@ == spec_enum_value(*value),
{
    let object = object_value(
        vec![
            ("name", QueryValue::String(value.name.clone())),
            ("description", describe(&value.description)),
            ("isDeprecated", QueryValue::Boolean(false)),
            ("deprecationReason", QueryValue::Null),
        ],
    );
    assert(object@->Object_0 =~= spec_enum_value(*value)->Object_0);
    object
}

/// The list of the objects of the values of an enum type.
pub fn enum_values(enum_type: &EnumType) -> (list: QueryValue)
    ensures
        list@ == spec_enum_values(*enum_type),
{
    let mut items: Vec<QueryValue> = Vec::new();
    let mut i: usize = 0;
    while i < enum_type.values.len()
        invariant
            i <= enum_type.values.len(),
            items@.len() == i,
            forall|j: int|
                0 <= j < i ==> (#[trigger] items@[j])@ == spec_enum_value(enum_type.values@[j]),
        decreases enum_type.values.len() - i,
    {
        items.push(enum_value(&enum_type.values[i]));
        i += 1;
    }
    let list = list_value(items);
    assert(list@->List_0 =~= spec_enum_values(*enum_type)->List_0);
    list
}

/// The object of an enum type.
pub fn enum_type_object(enum_type: &EnumType) -> (object: QueryValue)
    ensures
        object@ == spec_enum_type_object(*enum_type),
{
    let object = object_value(
        vec![
            ("kind", QueryValue::Enum("ENUM".to_owned())),
            ("name", QueryValue::String(enum_type.name.clone())),
            ("description", describe(&enum_type.description)),
            ("enumValues", enum_values(enum_type)),
        ],
    );
    assert(object@->Object_0 =~= spec_enum_type_object(*enum_type)->Object_0);
    object
}

/// The object of a scalar type.
pub fn scalar_type_object(scalar_type: &ScalarType) -> (object: QueryValue)
    ensures
        object@ == spec_scalar_type_object(*scalar_type),
{
    let object = object_value(
        vec![
            ("name", QueryValue::String(scalar_type.name.clone())),
            ("kind", QueryValue::Enum("SCALAR".to_owned())),
            ("description", describe(&scalar_type.description)),
            ("isDeprecated", QueryValue::Boolean(false)),
            ("deprecationReason", QueryValue::Null),
        ],
    );
    assert(object@->Object_0 =~= spec_scalar_type_object(*scalar_type)->Object_0);
    object
}

/// The object of an input object type.
pub fn input_object_type_object(input_object_type: &InputObjectType) -> (object: QueryValue)
    ensures
        object@ == spec_input_object_type_object(*input_object_type),
{
    let object = object_value(
        vec![
            ("name", QueryValue::String(input_object_type.name.clone())),
            ("kind", QueryValue::Enum("INPUT_OBJECT".to_owned())),
            ("description", describe(&input_object_type.description)),
            ("inputFields", input_values(&input_object_type.fields)),
        ],
    );
    assert(object@->Object_0 =~= spec_input_object_type_object(*input_object_type)->Object_0);
    object
}

fn implements_interface(object_type: &ObjectType, name: &str) -> (found: bool)
    ensures
        found == implements(*object_type, name@),
{
    let mut k: usize = 0;
    while k < object_type.implements_interfaces.len()
        invariant
            k <= object_type.implements_interfaces.len(),
            forall|j: int| 0 <= j < k ==> (#[trigger] object_type.implements_interfaces@[j])@ != name@,
        decreases object_type.implements_interfaces.len() - k,
    {
        if same_text(object_type.implements_interfaces[k].as_str(), name) {
            return true;
        }
        k += 1;
    }
    false
}

/// The list of the names of the object types that implement `name`.
fn possible_types(definitions: &Vec<Definition>, name: &str) -> (list: QueryValue)
    ensures
        list@ == QueryValueView::List(implementors(definitions@, name@)),
{
    let mut names: Vec<QueryValue> = Vec::new();
    let mut i: usize = 0;
    proof {
        assert(definitions@.take(0) =~= Seq::<Definition>::empty());
    }
    while i < definitions.len()
        invariant
            i <= definitions.len(),
            query_value_views(names@) == implementors(definitions@.take(i as int), name@),
        decreases definitions.len() - i,
    {
        proof {
            assert(definitions@.take(i + 1).drop_last() =~= definitions@.take(i as int));
        }
        let ghost before = query_value_views(names@);
        if let Definition::TypeDefinition(TypeDefinition::Object(object_type)) =
            &definitions[i] {
            if implements_interface(object_type, name) {
                names.push(QueryValue::String(object_type.name.clone()));
                assert(query_value_views(names@) =~= before.push(
                    QueryValueView::String(object_type.name@),
                ));
            }
        }
        i += 1;
    }
    proof {
        assert(definitions@.take(i as int) =~= definitions@);
    }
    list_value(names)
}

/// The object of an interface.
pub fn interface_type_object(definitions: &Vec<Definition>, interface_type: &InterfaceType) -> (object:
    QueryValue)
    ensures
        object@ == spec_interface_type_object(definitions@, *interface_type),
{
    let object = object_value(
        vec![
            ("name", QueryValue::String(interface_type.name.clone())),
            ("kind", QueryValue::Enum("INTERFACE".to_owned())),
            ("description", describe(&interface_type.description)),
            ("fields", field_objects(&interface_type.fields)),
            ("possibleTypes", possible_types(definitions, interface_type.name.as_str())),
        ],
    );
    assert(object@->Object_0 =~= spec_interface_type_object(
        definitions@,
        *interface_type,
    )->Object_0);
    object
}

/// The object of a union.
pub fn union_type_object(definitions: &Vec<Definition>, union_type: &UnionType) -> (object:
    QueryValue)
    ensures
        object@ == spec_union_type_object(definitions@, *union_type),
{
    let object = object_value(
        vec![
            ("name", QueryValue::String(union_type.name.clone())),
            ("kind", QueryValue::Enum("UNION".to_owned())),
            ("description", describe(&union_type.description)),
            ("possibleTypes", possible_types(definitions, union_type.name.as_str())),
        ],
    );
    assert(object@->Object_0 =~= spec_union_type_object(definitions@, *union_type)->Object_0);
    object
}

/// The list of the names of the places where a directive may stand.
pub fn directive_locations(directive: &DirectiveDefinition) -> (list: QueryValue)
    ensures
        list@ == spec_directive_locations(*directive),
{
    let mut items: Vec<QueryValue> = Vec::new();
    let mut i: usize = 0;
    while i < directive.locations.len()
        invariant
            i <= directive.locations.len(),
            items@.len() == i,
            forall|j: int|
                0 <= j < i ==> (#[trigger] items@[j])@ == QueryValueView::String(
                    directive.locations@[j]@,
                ),
        decreases directive.locations.len() - i,
    {
        items.push(QueryValue::String(directive.locations[i].clone()));
        i += 1;
    }
    let list = list_value(items);
    assert(list@->List_0 =~= spec_directive_locations(*directive)->List_0);
    list
}

/// The object of a directive.
pub fn directive_object(directive: &DirectiveDefinition) -> (object: QueryValue)
    ensures
        object@ == spec_directive_object(*directive),
{
    let object = object_value(
        vec![
            ("name", QueryValue::String(directive.name.clone())),
            ("description", describe(&directive.description)),
            ("locations", directive_locations(directive)),
            ("args", input_values(&directive.arguments)),
        ],
    );
    assert(object@->Object_0 =~= spec_directive_object(*directive)->Object_0);
    object
}

/// The list of the objects of the directives that a document defines.
pub fn schema_directive_objects(definitions: &Vec<Definition>) -> (list: QueryValue)
    ensures
        list@ == QueryValueView::List(directive_objects(definitions@)),
{
    let mut objects: Vec<QueryValue> = Vec::new();
    let mut i: usize = 0;
    proof {
        assert(definitions@.take(0) =~= Seq::<Definition>::empty());
    }
    while i < definitions.len()
        invariant
            i <= definitions.len(),
            query_value_views(objects@) == directive_objects(definitions@.take(i as int)),
        decreases definitions.len() - i,
    {
        proof {
            assert(definitions@.take(i + 1).drop_last() =~= definitions@.take(i as int));
        }
        let ghost before = query_value_views(objects@);
        if let Definition::DirectiveDefinition(directive) = &definitions[i] {
            objects.push(directive_object(directive));
            assert(query_value_views(objects@) =~= before.push(spec_directive_object(*directive)));
        }
        i += 1;
    }
    proof {
        assert(definitions@.take(i as int) =~= definitions@);
    }
    list_value(objects)
}

/// The object of a definition that is not an object type; null for one
/// that is.
pub open spec fn spec_plain_type_object(
    definitions: Seq<Definition>,
    typedef: TypeDefinition,
) -> QueryValueView {
    match typedef {
        TypeDefinition::Enum(enum_type) => spec_enum_type_object(enum_type),
        TypeDefinition::InputObject(input_object_type) => spec_input_object_type_object(
            input_object_type,
        ),
        TypeDefinition::Interface(interface_type) => spec_interface_type_object(
            definitions,
            interface_type,
        ),
        TypeDefinition::Scalar(scalar_type) => spec_scalar_type_object(scalar_type),
        TypeDefinition::Union(union_type) => spec_union_type_object(definitions, union_type),
        TypeDefinition::Object(_) => QueryValueView::Null,
    }
}

/// The object of an object type that holds `interfaces` as the objects of
/// its interfaces.
pub open spec fn spec_object_type_with(
    object_type: ObjectType,
    interfaces: Seq<QueryValueView>,
) -> QueryValueView {
    QueryValueView::Object(
        seq![
            ("kind"@, QueryValueView::Enum("OBJECT"@)),
            ("name"@, QueryValueView::String(object_type.name@)),
            ("description"@, description_value(object_type.description)),
            ("fields"@, spec_field_objects(object_type.fields@)),
            ("interfaces"@, QueryValueView::List(interfaces)),
        ],
    )
}

/// The objects of the interfaces that the object of an object type holds.
pub open spec fn interfaces_of(object: QueryValueView) -> Seq<QueryValueView> {
    object->Object_0[4].1->List_0
}

/// The object of a definition, made in `depth` steps: see
/// [`resolves_within`]. Where the steps do not suffice or an interface is
/// not defined, null stands in the place of an interface.
pub open spec fn object_at(
    definitions: Seq<Definition>,
    typedef: TypeDefinition,
    depth: nat,
) -> QueryValueView
    decreases depth,
{
    match typedef {
        TypeDefinition::Object(object_type) => spec_object_type_with(
            object_type,
            Seq::new(
                object_type.implements_interfaces@.len(),
                |k: int|
                    if depth > 0 && 0 <= k < object_type.implements_interfaces@.len() {
                        match named_type(definitions, object_type.implements_interfaces@[k]@) {
                            Some(interface) => object_at(
                                definitions,
                                interface,
                                (depth - 1) as nat,
                            ),
                            None => QueryValueView::Null,
                        }
                    } else {
                        QueryValueView::Null
                    },
            ),
        ),
        _ => spec_plain_type_object(definitions, typedef),
    }
}

/// The object of the definition of a type.
///
/// For an object type it is [`spec_object_type_object`], the object that
/// holds the objects of the interfaces of the type; for every other
/// definition it is [`spec_plain_type_object`].
pub open spec fn spec_type_definition_object(
    definitions: Seq<Definition>,
    typedef: TypeDefinition,
) -> QueryValueView {
    object_at(definitions, typedef, definition_depth(definitions, Set::empty(), typedef))
}

/// The object of the type of the name `name`; null where the document
/// defines no such type.
pub open spec fn spec_named_type_object(
    definitions: Seq<Definition>,
    name: Seq<char>,
) -> QueryValueView {
    match named_type(definitions, name) {
        Some(typedef) => spec_type_definition_object(definitions, typedef),
        None => QueryValueView::Null,
    }
}

/// The list of the objects of the interfaces that an object type says it
/// implements, each found by its name.
pub open spec fn spec_object_interfaces(
    definitions: Seq<Definition>,
    object_type: ObjectType,
) -> QueryValueView {
    QueryValueView::List(
        Seq::new(
            object_type.implements_interfaces@.len(),
            |k: int| spec_named_type_object(definitions, object_type.implements_interfaces@[k]@),
        ),
    )
}

/// The object of an object type.
pub open spec fn spec_object_type_object(
    definitions: Seq<Definition>,
    object_type: ObjectType,
) -> QueryValueView {
    spec_object_type_with(object_type, spec_object_interfaces(definitions, object_type)->List_0)
}

/// The object of a definition is the same in whatever number of steps it
/// is made, if only they suffice.
pub proof fn lemma_object_at_any_depth(
    definitions: Seq<Definition>,
    typedef: TypeDefinition,
    first: nat,
    second: nat,
)
    requires
        resolves_within(definitions, Set::empty(), typedef, first),
        resolves_within(definitions, Set::empty(), typedef, second),
    ensures
        object_at(definitions, typedef, first) == object_at(definitions, typedef, second),
    decreases first,
{
    if let TypeDefinition::Object(object_type) = typedef {
        let names = object_type.implements_interfaces@;
        let one = interfaces_of(object_at(definitions, typedef, first));
        let other = interfaces_of(object_at(definitions, typedef, second));
        assert forall|k: int| 0 <= k < names.len() implies one[k] == other[k] by {
            assert(name_resolves_within(
                definitions,
                Set::empty(),
                names[k]@,
                (first - 1) as nat,
            ));
            assert(name_resolves_within(
                definitions,
                Set::empty(),
                names[k]@,
                (second - 1) as nat,
            ));
            lemma_object_at_any_depth(
                definitions,
                named_type(definitions, names[k]@)->Some_0,
                (first - 1) as nat,
                (second - 1) as nat,
            );
        }
        assert(one =~= other);
    }
}

/// The object of an object type holds, for each interface that the type
/// says it implements, the object of the type of that name; and each of
/// those can be made where the object itself can.
pub proof fn lemma_object_of_object_type(definitions: Seq<Definition>, object_type: ObjectType)
    requires
        resolves(definitions, Set::empty(), TypeDefinition::Object(object_type)),
    ensures
        spec_type_definition_object(definitions, TypeDefinition::Object(object_type))
            == spec_object_type_object(definitions, object_type),
        forall|k: int|
            0 <= k < object_type.implements_interfaces@.len() ==> named_type(
                definitions,
                (#[trigger] object_type.implements_interfaces@[k])@,
            ) is Some && resolves(
                definitions,
                Set::empty(),
                named_type(definitions, object_type.implements_interfaces@[k]@)->Some_0,
            ),
{
    let typedef = TypeDefinition::Object(object_type);
    let known = Set::<Seq<char>>::empty();
    lemma_definition_depth(definitions, known, typedef);
    let depth = definition_depth(definitions, known, typedef);
    let below = (depth - 1) as nat;
    let names = object_type.implements_interfaces@;
    let made = interfaces_of(object_at(definitions, typedef, depth));
    let wanted = spec_object_interfaces(definitions, object_type)->List_0;
    assert forall|k: int| 0 <= k < names.len() implies made[k] == wanted[k] && named_type(
        definitions,
        (#[trigger] names[k])@,
    ) is Some && resolves(
        definitions,
        known,
        named_type(definitions, names[k]@)->Some_0,
    ) by {
        assert(name_resolves_within(definitions, known, names[k]@, below));
        let interface = named_type(definitions, names[k]@)->Some_0;
        assert(resolves_within(definitions, known, interface, below));
        lemma_definition_depth(definitions, known, interface);
        lemma_object_at_any_depth(
            definitions,
            interface,
            below,
            definition_depth(definitions, known, interface),
        );
    }
    assert(made =~= wanted);
}

/// Whether each object of the collection stands under the name of a type
/// that the document defines and is the object of that type.
pub open spec fn describes(
    definitions: Seq<Definition>,
    objects: Map<Seq<char>, QueryValueView>,
) -> bool {
    forall|name: Seq<char>| #[trigger]
        objects.contains_key(name) ==> named_type(definitions, name) is Some && resolves(
            definitions,
            Set::empty(),
            named_type(definitions, name)->Some_0,
        ) && objects[name] == spec_named_type_object(definitions, name)
}

/// The objects that a collection has under the names of the interfaces of
/// an object type, in the order of those names.
pub open spec fn cached_interfaces(
    objects: Map<Seq<char>, QueryValueView>,
    object_type: ObjectType,
) -> Seq<QueryValueView> {
    Seq::new(
        object_type.implements_interfaces@.len(),
        |k: int| objects[object_type.implements_interfaces@[k]@],
    )
}

/// Whether every name under which `after` has an object and `before` had
/// none is the name of a type that the document defines.
pub open spec fn adds_defined(
    definitions: Seq<Definition>,
    before: Map<Seq<char>, QueryValueView>,
    after: Map<Seq<char>, QueryValueView>,
) -> bool {
    forall|other: Seq<char>| #[trigger]
        after.contains_key(other) ==> before.contains_key(other) || named_type(
            definitions,
            other,
        ) is Some
}

/// How a collection stands once it was asked for the object of `typedef`,
/// and what it answered.
///
/// The collection is a cache. It keeps what it had. An object that it had
/// under the name of the definition is the answer, and nothing is added.
/// Otherwise the object is made and added under that name: that of an
/// object type with the objects of its interfaces, which are asked for in
/// their turn and then stand in the collection too; any other straight
/// from its definition. Where the collection described the schema before
/// and the definition is the first of its name, the answer is the object
/// of the definition and the collection describes the schema still.
pub open spec fn asked_for(
    definitions: Seq<Definition>,
    before: Map<Seq<char>, QueryValueView>,
    after: Map<Seq<char>, QueryValueView>,
    typedef: TypeDefinition,
    object: QueryValueView,
) -> bool {
    let name = defined_name(typedef);
    &&& before.submap_of(after)
    &&& after.contains_key(name)
    &&& after[name] == object
    &&& before.contains_key(name) ==> after == before
    &&& adds_defined(definitions, before.insert(name, object), after)
    &&& !before.contains_key(name) ==> match typedef {
        TypeDefinition::Object(object_type) => {
            &&& object == spec_object_type_with(object_type, interfaces_of(object))
            &&& interfaces_of(object).len() == object_type.implements_interfaces@.len()
            &&& !implements(object_type, name) ==> interfaces_of(object) == cached_interfaces(
                after,
                object_type,
            )
        },
        _ => object == spec_plain_type_object(definitions, typedef) && after == before.insert(
            name,
            object,
        ),
    }
    &&& describes(definitions, before) && named_type(definitions, name) == Some(typedef)
        && resolves(definitions, Set::empty(), typedef) ==> object == spec_type_definition_object(
        definitions,
        typedef,
    ) && describes(definitions, after)
}

/// The object of the type of the name `name`, which must be defined. For
/// what is returned and what becomes of the collection see [`asked_for`].
pub fn named_type_object(schema: &Schema, type_objects: &mut TypeObjects, name: &str) -> (object:
    QueryValue)
    requires
        old(type_objects).wf(),
        named_type(schema.document.definitions@, name@) is Some,
        resolves(
            schema.document.definitions@,
            old(type_objects).map().dom(),
            named_type(schema.document.definitions@, name@)->Some_0,
        ),
    ensures
        final(type_objects).wf(),
        asked_for(
            schema.document.definitions@,
            old(type_objects).map(),
            final(type_objects).map(),
            named_type(schema.document.definitions@, name@)->Some_0,
            object@,
        ),
        final(type_objects).map().contains_key(name@),
        final(type_objects).map()[name@] == object@,
        old(type_objects).map().contains_key(name@) ==> final(type_objects)@ == old(
            type_objects,
        )@,
    decreases
            definition_depth(
                schema.document.definitions@,
                old(type_objects).map().dom(),
                named_type(schema.document.definitions@, name@)->Some_0,
            ),
            3int,
{
    match get_named_type(&schema.document, name) {
        Some(typedef) => {
            proof {
                let at = lemma_named_type_is_first(schema.document.definitions@, name@);
            }
            type_definition_object(schema, type_objects, typedef)
        },
        None => unreached(),
    }
}

/// The object of the definition of a type. For what is returned and what
/// becomes of the collection see [`asked_for`].
pub fn type_definition_object(
    schema: &Schema,
    type_objects: &mut TypeObjects,
    typedef: &TypeDefinition,
) -> (object: QueryValue)
    requires
        old(type_objects).wf(),
        resolves(schema.document.definitions@, old(type_objects).map().dom(), *typedef),
    ensures
        final(type_objects).wf(),
        asked_for(
            schema.document.definitions@,
            old(type_objects).map(),
            final(type_objects).map(),
            *typedef,
            object@,
        ),
        old(type_objects).map().contains_key(defined_name(*typedef)) ==> final(type_objects)@
            == old(type_objects)@,
    decreases
            definition_depth(
                schema.document.definitions@,
                old(type_objects).map().dom(),
                *typedef,
            ),
            2int,
{
    let ghost definitions = schema.document.definitions@;
    let ghost before = type_objects.map();
    let name = get_type_name(typedef);
    if let Some(known) = type_objects.get(name.as_str()) {
        return known.clone();
    }
    let object = match typedef {
        TypeDefinition::Enum(enum_type) => enum_type_object(enum_type),
        TypeDefinition::InputObject(input_object_type) => input_object_type_object(
            input_object_type,
        ),
        TypeDefinition::Interface(interface_type) => interface_type_object(
            &schema.document.definitions,
            interface_type,
        ),
        TypeDefinition::Object(object_type) => object_type_object(schema, type_objects, object_type),
        TypeDefinition::Scalar(scalar_type) => scalar_type_object(scalar_type),
        TypeDefinition::Union(union_type) => union_type_object(
            &schema.document.definitions,
            union_type,
        ),
    };
    let ghost made = type_objects.map();
    type_objects.insert(name.clone(), object.clone());
    proof {
        if *typedef is Object {
            assert(type_objects.map() =~= made);
        } else {
            assert(made == before);
        }
    }
    object
}

/// The object of an object type. For what is returned and what becomes of
/// the collection see [`asked_for`].
pub fn object_type_object(
    schema: &Schema,
    type_objects: &mut TypeObjects,
    object_type: &ObjectType,
) -> (object: QueryValue)
    requires
        old(type_objects).wf(),
        resolves(
            schema.document.definitions@,
            old(type_objects).map().dom(),
            TypeDefinition::Object(*object_type),
        ),
    ensures
        final(type_objects).wf(),
        asked_for(
            schema.document.definitions@,
            old(type_objects).map(),
            final(type_objects).map(),
            TypeDefinition::Object(*object_type),
            object@,
        ),
        old(type_objects).map().contains_key(object_type.name@) ==> final(type_objects)@ == old(
            type_objects,
        )@,
    decreases
            definition_depth(
                schema.document.definitions@,
                old(type_objects).map().dom(),
                TypeDefinition::Object(*object_type),
            ),
            1int,
{
    let ghost definitions = schema.document.definitions@;
    let ghost typedef = TypeDefinition::Object(*object_type);
    let ghost before = type_objects.map();
    if let Some(known) = type_objects.get(object_type.name.as_str()) {
        return known.clone();
    }
    proof {
        lemma_definition_depth(definitions, before.dom(), typedef);
        let depth = definition_depth(definitions, before.dom(), typedef);
        assert(interfaces_within(definitions, before.dom(), *object_type, (depth - 1) as nat));
        lemma_interfaces_depth(definitions, before.dom(), *object_type);
        if resolves(definitions, Set::empty(), typedef) {
            lemma_definition_depth(definitions, Set::empty(), typedef);
            let pure = definition_depth(definitions, Set::empty(), typedef);
            assert(interfaces_within(definitions, Set::empty(), *object_type, (pure - 1) as nat));
            lemma_object_of_object_type(definitions, *object_type);
        }
    }
    let interfaces = object_interfaces(schema, type_objects, object_type);
    let ghost made = type_objects.map();
    let object = object_value(
        vec![
            ("kind", QueryValue::Enum("OBJECT".to_owned())),
            ("name", QueryValue::String(object_type.name.clone())),
            ("description", describe(&object_type.description)),
            ("fields", field_objects(&object_type.fields)),
            ("interfaces", interfaces),
        ],
    );
    proof {
        assert(object@->Object_0 =~= spec_object_type_with(
            *object_type,
            cached_interfaces(made, *object_type),
        )->Object_0);
    }
    type_objects.insert(object_type.name.clone(), object.clone());
    proof {
        let after = type_objects.map();
        let name = object_type.name@;
        assert(interfaces_of(object@) == cached_interfaces(made, *object_type));
        if !implements(*object_type, name) {
            assert forall|k: int|
                0 <= k < object_type.implements_interfaces@.len() implies cached_interfaces(
                after,
                *object_type,
            )[k] == cached_interfaces(made, *object_type)[k] by {
                assert(object_type.implements_interfaces@[k]@ != name);
            }
            assert(cached_interfaces(after, *object_type) =~= cached_interfaces(
                made,
                *object_type,
            ));
        }
        assert(before.submap_of(after));
        assert(adds_defined(definitions, before.insert(name, object@), after));
        assert(object@ == spec_object_type_with(*object_type, interfaces_of(object@)));
        if describes(definitions, before) && named_type(definitions, name) == Some(typedef)
            && resolves(definitions, Set::empty(), typedef) {
            assert(interfaces_resolvable(definitions, Set::empty(), *object_type));
            assert(object@ == spec_object_type_object(definitions, *object_type));
            assert(describes(definitions, made));
            assert(describes(definitions, after));
        }
    }
    object
}

/// The list of the objects of the interfaces that an object type says it
/// implements.
///
/// Each is asked for in its turn, in the order of the names, and stands in
/// the collection afterwards; the collection keeps what it had. Where the
/// collection described the schema before, the list holds the object of
/// each interface and the collection describes the schema still.
pub fn object_interfaces(
    schema: &Schema,
    type_objects: &mut TypeObjects,
    object_type: &ObjectType,
) -> (list: QueryValue)
    requires
        old(type_objects).wf(),
        interfaces_resolvable(
            schema.document.definitions@,
            old(type_objects).map().dom(),
            *object_type,
        ),
    ensures
        final(type_objects).wf(),
        old(type_objects).map().submap_of(final(type_objects).map()),
        adds_defined(
            schema.document.definitions@,
            old(type_objects).map(),
            final(type_objects).map(),
        ),
        forall|k: int|
            0 <= k < object_type.implements_interfaces@.len() ==> final(type_objects).map()
                .contains_key((#[trigger] object_type.implements_interfaces@[k])@),
        list@ == QueryValueView::List(cached_interfaces(final(type_objects).map(), *object_type)),
        describes(schema.document.definitions@, old(type_objects).map()) && interfaces_resolvable(
            schema.document.definitions@,
            Set::empty(),
            *object_type,
        ) ==> list@ == spec_object_interfaces(schema.document.definitions@, *object_type)
            && describes(schema.document.definitions@, final(type_objects).map()),
    decreases
            interfaces_depth(
                schema.document.definitions@,
                old(type_objects).map().dom(),
                *object_type,
            ) + 1,
            0int,
{
    let ghost definitions = schema.document.definitions@;
    let ghost before = type_objects.map();
    let ghost names = object_type.implements_interfaces@;
    let ghost depth = interfaces_depth(definitions, before.dom(), *object_type);
    let ghost pure = describes(definitions, before) && interfaces_resolvable(
        definitions,
        Set::empty(),
        *object_type,
    );
    proof {
        lemma_interfaces_depth(definitions, before.dom(), *object_type);
    }
    let mut items: Vec<QueryValue> = Vec::new();
    let mut k: usize = 0;
    while k < object_type.implements_interfaces.len()
        invariant
            definitions == schema.document.definitions@,
            names == object_type.implements_interfaces@,
            depth == interfaces_depth(definitions, before.dom(), *object_type),
            interfaces_within(definitions, before.dom(), *object_type, depth),
            pure == (describes(definitions, before) && interfaces_resolvable(
                definitions,
                Set::empty(),
                *object_type,
            )),
            type_objects.wf(),
            before.submap_of(type_objects.map()),
            adds_defined(definitions, before, type_objects.map()),
            before == old(type_objects).map(),
            k <= names.len(),
            items@.len() == k,
            forall|j: int|
                0 <= j < k ==> type_objects.map().contains_key((#[trigger] names[j])@)
                    && type_objects.map()[names[j]@] == items@[j]@,
            pure ==> describes(definitions, type_objects.map()),
            pure ==> forall|j: int|
                0 <= j < k ==> (#[trigger] items@[j])@ == spec_named_type_object(
                    definitions,
                    names[j]@,
                ),
        decreases names.len() - k,
    {
        let ghost current = type_objects.map();
        let ghost name = names[k as int]@;
        let ghost interface = named_type(definitions, name)->Some_0;
        proof {
            assert(name_resolves_within(definitions, before.dom(), name, depth));
            lemma_resolves_with_more(
                definitions,
                before.dom(),
                current.dom(),
                interface,
                depth,
            );
            lemma_definition_depth(definitions, current.dom(), interface);
            let first = lemma_named_type_is_first(definitions, name);
            if pure {
                let enough = choose|enough: nat|
                    interfaces_within(definitions, Set::empty(), *object_type, enough);
                assert(name_resolves_within(definitions, Set::empty(), name, enough));
                assert(resolves_within(definitions, Set::empty(), interface, enough));
            }
        }
        let item = named_type_object(
            schema,
            type_objects,
            object_type.implements_interfaces[k].as_str(),
        );
        proof {
            let after = type_objects.map();
            assert forall|j: int| 0 <= j < k implies after.contains_key((#[trigger] names[j])@)
                && after[names[j]@] == items@[j]@ by {
                assert(current.contains_key(names[j]@));
            }
            assert forall|other: Seq<char>| #[trigger] after.contains_key(other) implies (
            before.contains_key(other) || named_type(definitions, other) is Some) by {
                if other != name && !current.contains_key(other) {
                    assert(current.insert(name, item@).contains_key(other) || named_type(
                        definitions,
                        other,
                    ) is Some);
                }
            }
            assert forall|key: Seq<char>| #[trigger] before.dom().contains(key) implies (
            #[trigger] after.dom().contains(key)) && before[key] == after[key] by {
                assert(current.dom().contains(key));
                assert(after.dom().contains(key));
            }
            if pure {
                assert(item@ == spec_named_type_object(definitions, name));
            }
        }
        items.push(item);
        k += 1;
    }
    let list = list_value(items);
    proof {
        assert(list@->List_0 =~= cached_interfaces(type_objects.map(), *object_type));
        if pure {
            assert(list@->List_0 =~= spec_object_interfaces(definitions, *object_type)->List_0);
        }
    }
    list
}

/// The objects of all the types that a schema defines: one under each
/// name, made from the first definition of that name.
pub fn schema_type_objects(schema: &Schema) -> (type_objects: TypeObjects)
    requires
        schema_resolves(schema.document.definitions@),
    ensures
        type_objects.wf(),
        describes(schema.document.definitions@, type_objects.map()),
        forall|name: Seq<char>|
            type_objects.map().contains_key(name) <==> named_type(
                schema.document.definitions@,
                name,
            ) is Some,
{
    let ghost definitions = schema.document.definitions@;
    let mut type_objects = TypeObjects::new();
    let mut i: usize = 0;
    while i < schema.document.definitions.len()
        invariant
            definitions == schema.document.definitions@,
            schema_resolves(definitions),
            i <= definitions.len(),
            type_objects.wf(),
            describes(definitions, type_objects.map()),
            forall|j: int|
                0 <= j < i && (#[trigger] definitions[j]) is TypeDefinition
                    ==> type_objects.map().contains_key(
                    defined_name(definitions[j]->TypeDefinition_0),
                ),
        decreases definitions.len() - i,
    {
        if let Definition::TypeDefinition(typedef) = &schema.document.definitions[i] {
            let name = get_type_name(typedef);
            if !type_objects.contains_key(name.as_str()) {
                let ghost current = type_objects.map();
                proof {
                    assert forall|j: int| 0 <= j < i implies !defines(
                        #[trigger] definitions[j],
                        name@,
                    ) by {}
                    lemma_named_type_finds_first(definitions, i as int, name@);
                    assert(definitions[i as int] is TypeDefinition);
                    let enough = choose|enough: nat|
                        resolves_within(definitions, Set::empty(), *typedef, enough);
                    lemma_resolves_with_more(
                        definitions,
                        Set::empty(),
                        current.dom(),
                        *typedef,
                        enough,
                    );
                }
                let object = type_definition_object(schema, &mut type_objects, typedef);
                let ghost made = type_objects.map();
                type_objects.insert(name.clone(), object);
                proof {
                    assert(type_objects.map() =~= made);
                    assert forall|j: int|
                        0 <= j < i && (#[trigger] definitions[j])
                            is TypeDefinition implies type_objects.map().contains_key(
                        defined_name(definitions[j]->TypeDefinition_0),
                    ) by {
                        assert(current.contains_key(
                            defined_name(definitions[j]->TypeDefinition_0),
                        ));
                    }
                }
            }
        }
        i += 1;
    }
    proof {
        assert forall|name: Seq<char>| named_type(definitions, name) is Some implies type_objects.map().contains_key(
            name,
        ) by {
            let at = lemma_named_type_is_first(definitions, name);
        }
    }
    type_objects
}

} // verus!
