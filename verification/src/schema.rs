//! GraphQL schemas: the definitions of a schema document, as far as the
//! library reads them.

use crate::graphql::QueryValue;
use crate::text::same_text;
use vstd::prelude::*;

verus! {

/// The type of a field or of an argument.
#[derive(Debug, PartialEq)]
pub enum Type {
    NamedType(String),
    ListType(Box<Type>),
    NonNullType(Box<Type>),
}

impl Clone for Type {
    fn clone(&self) -> (copy: Type)
        ensures
            copy == *self,
        decreases self,
    {
        match self {
            Type::NamedType(name) => Type::NamedType(name.clone()),
            Type::ListType(inner) => {
                let inner: &Type = inner;
                Type::ListType(Box::new(inner.clone()))
            },
            Type::NonNullType(inner) => {
                let inner: &Type = inner;
                Type::NonNullType(Box::new(inner.clone()))
            },
        }
    }
}

/// An argument of a field or of a directive, or a field of an input object.
#[derive(Clone, Debug, PartialEq)]
pub struct InputValue {
    pub description: Option<String>,
    pub name: String,
    pub value_type: Type,
    pub default_value: Option<QueryValue>,
}

/// A field of an object type or of an interface.
#[derive(Clone, Debug, PartialEq)]
pub struct Field {
    pub description: Option<String>,
    pub name: String,
    pub arguments: Vec<InputValue>,
    pub field_type: Type,
}

#[derive(Clone, Debug, PartialEq)]
pub struct ScalarType {
    pub description: Option<String>,
    pub name: String,
}

#[derive(Clone, Debug, PartialEq)]
pub struct ObjectType {
    pub description: Option<String>,
    pub name: String,
    pub implements_interfaces: Vec<String>,
    pub fields: Vec<Field>,
}

#[derive(Clone, Debug, PartialEq)]
pub struct InterfaceType {
    pub description: Option<String>,
    pub name: String,
    pub fields: Vec<Field>,
}

#[derive(Clone, Debug, PartialEq)]
pub struct UnionType {
    pub description: Option<String>,
    pub name: String,
    pub types: Vec<String>,
}

#[derive(Clone, Debug, PartialEq)]
pub struct EnumValue {
    pub description: Option<String>,
    pub name: String,
}

#[derive(Clone, Debug, PartialEq)]
pub struct EnumType {
    pub description: Option<String>,
    pub name: String,
    pub values: Vec<EnumValue>,
}

#[derive(Clone, Debug, PartialEq)]
pub struct InputObjectType {
    pub description: Option<String>,
    pub name: String,
    pub fields: Vec<InputValue>,
}

/// The definition of a directive; its locations are kept by their names,
/// such as `FIELD_DEFINITION`.
#[derive(Clone, Debug, PartialEq)]
pub struct DirectiveDefinition {
    pub description: Option<String>,
    pub name: String,
    pub arguments: Vec<InputValue>,
    pub locations: Vec<String>,
}

#[derive(Clone, Debug, PartialEq)]
pub enum TypeDefinition {
    Scalar(ScalarType),
    Object(ObjectType),
    Interface(InterfaceType),
    Union(UnionType),
    Enum(EnumType),
    InputObject(InputObjectType),
}

/// One definition of a schema document. Schema definitions and type
/// extensions are kept only as such: the library reads nothing of them.
#[derive(Clone, Debug, PartialEq)]
pub enum Definition {
    SchemaDefinition,
    TypeDefinition(TypeDefinition),
    TypeExtension,
    DirectiveDefinition(DirectiveDefinition),
}

#[derive(Clone, Debug, PartialEq)]
pub struct Document {
    pub definitions: Vec<Definition>,
}

/// A schema document under the name by which the node knows it.
#[derive(Clone, Debug, PartialEq)]
pub struct Schema {
    pub id: String,
    pub document: Document,
}

/// The name of the type that `typedef` defines.
pub open spec fn defined_name(typedef: TypeDefinition) -> Seq<char> {
    match typedef {
        TypeDefinition::Scalar(t) => t.name@,
        TypeDefinition::Object(t) => t.name@,
        TypeDefinition::Interface(t) => t.name@,
        TypeDefinition::Union(t) => t.name@,
        TypeDefinition::Enum(t) => t.name@,
        TypeDefinition::InputObject(t) => t.name@,
    }
}

/// Whether `definition` defines a type of the name `name`.
pub open spec fn defines(definition: Definition, name: Seq<char>) -> bool {
    definition matches Definition::TypeDefinition(typedef) && defined_name(typedef) == name
}

/// The first definition of a type of the name `name`.
pub open spec fn named_type(definitions: Seq<Definition>, name: Seq<char>) -> Option<
    TypeDefinition,
>
    decreases definitions.len(),
{
    if definitions.len() == 0 {
        None
    } else if defines(definitions[0], name) {
        Some(definitions[0]->TypeDefinition_0)
    } else {
        named_type(definitions.drop_first(), name)
    }
}

/// Whether the object of `typedef` can be made in `depth` steps, when
/// objects are at hand under the names in `known`.
///
/// An object that is at hand needs no step, nor does the object of a
/// definition that is no object type. The object of an object type holds
/// the objects of the interfaces that the type says it implements: it
/// needs one step more than they do, and each of them must be defined.
pub open spec fn resolves_within(
    definitions: Seq<Definition>,
    known: Set<Seq<char>>,
    typedef: TypeDefinition,
    depth: nat,
) -> bool
    decreases depth, 0nat,
{
    known.contains(defined_name(typedef)) || match typedef {
        TypeDefinition::Object(object_type) => depth > 0 && interfaces_within(
            definitions,
            known,
            object_type,
            (depth - 1) as nat,
        ),
        _ => true,
    }
}

/// Whether the type of the name `name` is defined and its object can be
/// made in `depth` steps.
pub open spec fn name_resolves_within(
    definitions: Seq<Definition>,
    known: Set<Seq<char>>,
    name: Seq<char>,
    depth: nat,
) -> bool
    decreases depth, 1nat,
{
    match named_type(definitions, name) {
        Some(typedef) => resolves_within(definitions, known, typedef, depth),
        None => false,
    }
}

/// Whether the object of every interface that the object type says it
/// implements can be made in `depth` steps.
pub open spec fn interfaces_within(
    definitions: Seq<Definition>,
    known: Set<Seq<char>>,
    object_type: ObjectType,
    depth: nat,
) -> bool
    decreases depth, 2nat,
{
    forall|k: int|
        0 <= k < object_type.implements_interfaces@.len() ==> name_resolves_within(
            definitions,
            known,
            (#[trigger] object_type.implements_interfaces@[k])@,
            depth,
        )
}

/// Whether the object of `typedef` can be made at all: every interface
/// that is needed for it is defined, and no type that is needed implements
/// itself by way of its interfaces.
pub open spec fn resolves(
    definitions: Seq<Definition>,
    known: Set<Seq<char>>,
    typedef: TypeDefinition,
) -> bool {
    exists|depth: nat| resolves_within(definitions, known, typedef, depth)
}

/// Whether the objects of the interfaces of an object type can be made at
/// all.
pub open spec fn interfaces_resolvable(
    definitions: Seq<Definition>,
    known: Set<Seq<char>>,
    object_type: ObjectType,
) -> bool {
    exists|depth: nat| interfaces_within(definitions, known, object_type, depth)
}

/// Whether the object of every type that the document defines can be made.
pub open spec fn schema_resolves(definitions: Seq<Definition>) -> bool {
    forall|i: int|
        0 <= i < definitions.len() && (#[trigger] definitions[i]) is TypeDefinition ==> resolves(
            definitions,
            Set::empty(),
            definitions[i]->TypeDefinition_0,
        )
}

/// Whether the object of `typedef` can be made in `depth` steps and in no
/// fewer.
pub open spec fn is_definition_depth(
    definitions: Seq<Definition>,
    known: Set<Seq<char>>,
    typedef: TypeDefinition,
    depth: nat,
) -> bool {
    &&& resolves_within(definitions, known, typedef, depth)
    &&& forall|other: nat| #[trigger]
        resolves_within(definitions, known, typedef, other) ==> depth <= other
}

/// The least number of steps in which the object of `typedef` can be made.
pub open spec fn definition_depth(
    definitions: Seq<Definition>,
    known: Set<Seq<char>>,
    typedef: TypeDefinition,
) -> nat {
    choose|depth: nat| is_definition_depth(definitions, known, typedef, depth)
}

/// Whether the objects of the interfaces of an object type can be made in
/// `depth` steps and in no fewer.
pub open spec fn is_interfaces_depth(
    definitions: Seq<Definition>,
    known: Set<Seq<char>>,
    object_type: ObjectType,
    depth: nat,
) -> bool {
    &&& interfaces_within(definitions, known, object_type, depth)
    &&& forall|other: nat| #[trigger]
        interfaces_within(definitions, known, object_type, other) ==> depth <= other
}

/// The least number of steps in which the objects of the interfaces of an
/// object type can be made.
pub open spec fn interfaces_depth(
    definitions: Seq<Definition>,
    known: Set<Seq<char>>,
    object_type: ObjectType,
) -> nat {
    choose|depth: nat| is_interfaces_depth(definitions, known, object_type, depth)
}

proof fn lemma_least_definition_depth(
    definitions: Seq<Definition>,
    known: Set<Seq<char>>,
    typedef: TypeDefinition,
    witness: nat,
)
    requires
        resolves_within(definitions, known, typedef, witness),
    ensures
        exists|depth: nat| is_definition_depth(definitions, known, typedef, depth),
    decreases witness,
{
    if exists|below: nat| below < witness && resolves_within(definitions, known, typedef, below) {
        let below = choose|below: nat|
            below < witness && resolves_within(definitions, known, typedef, below);
        lemma_least_definition_depth(definitions, known, typedef, below);
    } else {
        assert(is_definition_depth(definitions, known, typedef, witness));
    }
}

proof fn lemma_least_interfaces_depth(
    definitions: Seq<Definition>,
    known: Set<Seq<char>>,
    object_type: ObjectType,
    witness: nat,
)
    requires
        interfaces_within(definitions, known, object_type, witness),
    ensures
        exists|depth: nat| is_interfaces_depth(definitions, known, object_type, depth),
    decreases witness,
{
    if exists|below: nat|
        below < witness && interfaces_within(definitions, known, object_type, below) {
        let below = choose|below: nat|
            below < witness && interfaces_within(definitions, known, object_type, below);
        lemma_least_interfaces_depth(definitions, known, object_type, below);
    } else {
        assert(is_interfaces_depth(definitions, known, object_type, witness));
    }
}

/// An object that can be made is made in its least number of steps, and in
/// no fewer.
pub proof fn lemma_definition_depth(
    definitions: Seq<Definition>,
    known: Set<Seq<char>>,
    typedef: TypeDefinition,
)
    requires
        resolves(definitions, known, typedef),
    ensures
        is_definition_depth(
            definitions,
            known,
            typedef,
            definition_depth(definitions, known, typedef),
        ),
{
    let witness = choose|depth: nat| resolves_within(definitions, known, typedef, depth);
    lemma_least_definition_depth(definitions, known, typedef, witness);
}

/// The objects of interfaces that can be made are made in their least
/// number of steps, and in no fewer.
pub proof fn lemma_interfaces_depth(
    definitions: Seq<Definition>,
    known: Set<Seq<char>>,
    object_type: ObjectType,
)
    requires
        interfaces_resolvable(definitions, known, object_type),
    ensures
        is_interfaces_depth(
            definitions,
            known,
            object_type,
            interfaces_depth(definitions, known, object_type),
        ),
{
    let witness = choose|depth: nat| interfaces_within(definitions, known, object_type, depth);
    lemma_least_interfaces_depth(definitions, known, object_type, witness);
}

/// What can be made with some objects at hand can be made in as many steps
/// with more objects at hand.
pub proof fn lemma_resolves_with_more(
    definitions: Seq<Definition>,
    known: Set<Seq<char>>,
    more: Set<Seq<char>>,
    typedef: TypeDefinition,
    depth: nat,
)
    requires
        known.subset_of(more),
        resolves_within(definitions, known, typedef, depth),
    ensures
        resolves_within(definitions, more, typedef, depth),
    decreases depth,
{
    if !more.contains(defined_name(typedef)) {
        if let TypeDefinition::Object(object_type) = typedef {
            let below = (depth - 1) as nat;
            assert forall|k: int|
                0 <= k < object_type.implements_interfaces@.len() implies name_resolves_within(
                definitions,
                more,
                (#[trigger] object_type.implements_interfaces@[k])@,
                below,
            ) by {
                let name = object_type.implements_interfaces@[k]@;
                assert(name_resolves_within(definitions, known, name, below));
                lemma_resolves_with_more(
                    definitions,
                    known,
                    more,
                    named_type(definitions, name)->Some_0,
                    below,
                );
            }
        }
    }
}

/// A definition that comes first under its name is the one that its name
/// finds.
pub proof fn lemma_named_type_finds_first(definitions: Seq<Definition>, i: int, name: Seq<char>)
    requires
        0 <= i < definitions.len(),
        defines(definitions[i], name),
        forall|j: int| 0 <= j < i ==> !defines(#[trigger] definitions[j], name),
    ensures
        named_type(definitions, name) == Some(definitions[i]->TypeDefinition_0),
    decreases i,
{
    if i > 0 {
        let rest = definitions.drop_first();
        assert forall|j: int| 0 <= j < i - 1 implies !defines(#[trigger] rest[j], name) by {
            assert(rest[j] == definitions[j + 1]);
        }
        lemma_named_type_finds_first(rest, i - 1, name);
    }
}

/// What a name finds is in the document and is the first of that name.
pub proof fn lemma_named_type_is_first(definitions: Seq<Definition>, name: Seq<char>) -> (i: int)
    requires
        named_type(definitions, name) is Some,
    ensures
        0 <= i < definitions.len(),
        defines(definitions[i], name),
        named_type(definitions, name) == Some(definitions[i]->TypeDefinition_0),
        forall|j: int| 0 <= j < i ==> !defines(#[trigger] definitions[j], name),
    decreases definitions.len(),
{
    if defines(definitions[0], name) {
        0
    } else {
        let rest = definitions.drop_first();
        let at = lemma_named_type_is_first(rest, name);
        assert forall|j: int| 0 <= j < at + 1 implies !defines(
            #[trigger] definitions[j],
            name,
        ) by {
            if j > 0 {
                assert(definitions[j] == rest[j - 1]);
            }
        }
        at + 1
    }
}

/// The name of the type that `typedef` defines.
pub fn get_type_name(typedef: &TypeDefinition) -> (name: &String)
    ensures
        name@ == defined_name(*typedef),
{
    match typedef {
        TypeDefinition::Scalar(t) => &t.name,
        TypeDefinition::Object(t) => &t.name,
        TypeDefinition::Interface(t) => &t.name,
        TypeDefinition::Union(t) => &t.name,
        TypeDefinition::Enum(t) => &t.name,
        TypeDefinition::InputObject(t) => &t.name,
    }
}

/// The first definition of a type of the name `name`, if there is one.
pub fn get_named_type<'a>(document: &'a Document, name: &str) -> (found: Option<&'a TypeDefinition>)
    ensures
        match found {
            Some(typedef) => named_type(document.definitions@, name@) == Some(*typedef),
            None => named_type(document.definitions@, name@) is None,
        },
{
    let mut i: usize = 0;
    proof {
        assert(document.definitions@.skip(0) =~= document.definitions@);
    }
    while i < document.definitions.len()
        invariant
            i <= document.definitions.len(),
            named_type(document.definitions@, name@) == named_type(
                document.definitions@.skip(i as int),
                name@,
            ),
        decreases document.definitions.len() - i,
    {
        proof {
            let rest = document.definitions@.skip(i as int);
            assert(rest[0] == document.definitions@[i as int]);
            assert(rest.drop_first() =~= document.definitions@.skip(i + 1));
        }
        if let Definition::TypeDefinition(typedef) = &document.definitions[i] {
            if same_text(get_type_name(typedef).as_str(), name) {
                return Some(typedef);
            }
        }
        i += 1;
    }
    None
}

/// Whether the object of `typedef` can be made in `fuel` steps with no
/// object at hand: see [`resolves_within`].
pub fn definition_resolves(document: &Document, typedef: &TypeDefinition, fuel: usize) -> (within:
    bool)
    ensures
        within == resolves_within(
            document.definitions@,
            Set::empty(),
            *typedef,
            fuel as nat,
        ),
    decreases fuel,
{
    let ghost definitions = document.definitions@;
    let ghost known = Set::<Seq<char>>::empty();
    match typedef {
        TypeDefinition::Object(object_type) => {
            if fuel == 0 {
                return false;
            }
            let ghost below = (fuel - 1) as nat;
            let mut k: usize = 0;
            while k < object_type.implements_interfaces.len()
                invariant
                    fuel > 0,
                    below == fuel - 1,
                    definitions == document.definitions@,
                    known == Set::<Seq<char>>::empty(),
                    *typedef == TypeDefinition::Object(*object_type),
                    k <= object_type.implements_interfaces.len(),
                    forall|j: int|
                        0 <= j < k ==> name_resolves_within(
                            definitions,
                            known,
                            (#[trigger] object_type.implements_interfaces@[j])@,
                            below,
                        ),
                decreases object_type.implements_interfaces.len() - k,
            {
                let found = match get_named_type(
                    document,
                    object_type.implements_interfaces[k].as_str(),
                ) {
                    Some(target) => definition_resolves(document, target, fuel - 1),
                    None => false,
                };
                if !found {
                    assert(!name_resolves_within(
                        definitions,
                        known,
                        object_type.implements_interfaces@[k as int]@,
                        below,
                    ));
                    return false;
                }
                k += 1;
            }
            true
        },
        _ => true,
    }
}

/// Whether the object of every type that the document defines can be made
/// in as many steps as the document has definitions. Where that is so, all
/// of them can be made: see [`schema_resolves`]. Where it is not, an
/// interface is not defined, or a type implements itself by way of its
/// interfaces, since a chain of interfaces in which no type comes twice is
/// no longer than the document.
pub fn interfaces_resolve(document: &Document) -> (resolve: bool)
    ensures
        resolve == forall|i: int|
            0 <= i < document.definitions@.len() && (#[trigger] document.definitions@[i])
                is TypeDefinition ==> resolves_within(
                document.definitions@,
                Set::empty(),
                document.definitions@[i]->TypeDefinition_0,
                document.definitions@.len(),
            ),
        resolve ==> schema_resolves(document.definitions@),
{
    let ghost definitions = document.definitions@;
    let fuel = document.definitions.len();
    let mut i: usize = 0;
    while i < document.definitions.len()
        invariant
            i <= document.definitions.len(),
            fuel == document.definitions.len(),
            definitions == document.definitions@,
            forall|a: int|
                0 <= a < i && (#[trigger] definitions[a]) is TypeDefinition ==> resolves_within(
                    definitions,
                    Set::empty(),
                    definitions[a]->TypeDefinition_0,
                    definitions.len(),
                ),
        decreases document.definitions.len() - i,
    {
        if let Definition::TypeDefinition(typedef) = &document.definitions[i] {
            if !definition_resolves(document, typedef, fuel) {
                assert(definitions[i as int] is TypeDefinition);
                return false;
            }
        }
        i += 1;
    }
    true
}

} // verus!
