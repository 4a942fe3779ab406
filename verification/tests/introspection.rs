use graph_node::graphql::{object_value, QueryValue};
use graph_node::introspection::{
    directive_locations, directive_object, enum_type_object, enum_value, enum_values,
    field_object, field_objects, input_object_type_object, input_value, input_values,
    interface_type_object, named_type_object, object_interfaces, object_type_object,
    scalar_type_object, schema_directive_objects, schema_type_objects, type_definition_object,
    type_object, union_type_object,
};
use graph_node::resolver::{
    coerce_enum_value, coerce_scalar_value, object_field, IntrospectionResolver,
};
use graph_node::schema::{
    definition_resolves, get_named_type, get_type_name, interfaces_resolve, Definition,
    DirectiveDefinition, Document, EnumType, EnumValue, Field, InputObjectType, InputValue,
    InterfaceType, ObjectType, ScalarType, Schema, Type, TypeDefinition, UnionType,
};
use graph_node::text::{comes_before, same_text};
use graph_node::type_objects::TypeObjects;
use std::collections::HashMap;

fn s(text: &str) -> QueryValue {
    QueryValue::String(text.to_string())
}

fn e(name: &str) -> QueryValue {
    QueryValue::Enum(name.to_string())
}

fn named(name: &str) -> Type {
    Type::NamedType(name.to_string())
}

fn scalar(name: &str) -> TypeDefinition {
    TypeDefinition::Scalar(ScalarType { description: None, name: name.to_string() })
}

fn name_field() -> Field {
    Field {
        description: Some("The name".to_string()),
        name: "name".to_string(),
        arguments: vec![],
        field_type: Type::NonNullType(Box::new(named("String"))),
    }
}

fn node_interface() -> InterfaceType {
    InterfaceType {
        description: Some("Anything with a name".to_string()),
        name: "Node".to_string(),
        fields: vec![name_field()],
    }
}

fn user_type() -> ObjectType {
    ObjectType {
        description: None,
        name: "User".to_string(),
        implements_interfaces: vec!["Node".to_string()],
        fields: vec![name_field()],
    }
}

fn query_type() -> ObjectType {
    ObjectType {
        description: None,
        name: "Query".to_string(),
        implements_interfaces: vec![],
        fields: vec![Field {
            description: None,
            name: "users".to_string(),
            arguments: vec![InputValue {
                description: None,
                name: "first".to_string(),
                value_type: named("Int"),
                default_value: Some(QueryValue::Int(10)),
            }],
            field_type: Type::ListType(Box::new(named("User"))),
        }],
    }
}

fn schema() -> Schema {
    Schema {
        id: "test-schema".to_string(),
        document: Document {
            definitions: vec![
                Definition::SchemaDefinition,
                Definition::TypeDefinition(TypeDefinition::Object(user_type())),
                Definition::TypeDefinition(scalar("String")),
                Definition::DirectiveDefinition(DirectiveDefinition {
                    description: None,
                    name: "entity".to_string(),
                    arguments: vec![],
                    locations: vec!["OBJECT".to_string()],
                }),
                Definition::TypeDefinition(TypeDefinition::Interface(node_interface())),
                Definition::TypeExtension,
                Definition::TypeDefinition(TypeDefinition::Object(query_type())),
                Definition::TypeDefinition(scalar("Int")),
            ],
        },
    }
}

fn name_field_object() -> QueryValue {
    object_value(vec![
        ("name", s("name")),
        ("description", s("The name")),
        ("args", QueryValue::List(vec![])),
        (
            "type",
            object_value(vec![("kind", e("NON_NULL")), ("ofType", s("String"))]),
        ),
        ("isDeprecated", QueryValue::Boolean(false)),
        ("deprecationReason", QueryValue::Null),
    ])
}

fn node_object() -> QueryValue {
    object_value(vec![
        ("name", s("Node")),
        ("kind", e("INTERFACE")),
        ("description", s("Anything with a name")),
        ("fields", QueryValue::List(vec![name_field_object()])),
        ("possibleTypes", QueryValue::List(vec![s("User")])),
    ])
}

fn user_object() -> QueryValue {
    object_value(vec![
        ("kind", e("OBJECT")),
        ("name", s("User")),
        ("description", QueryValue::Null),
        ("fields", QueryValue::List(vec![name_field_object()])),
        ("interfaces", QueryValue::List(vec![node_object()])),
    ])
}

fn scalar_object(name: &str) -> QueryValue {
    object_value(vec![
        ("name", s(name)),
        ("kind", e("SCALAR")),
        ("description", QueryValue::Null),
        ("isDeprecated", QueryValue::Boolean(false)),
        ("deprecationReason", QueryValue::Null),
    ])
}

fn query_object() -> QueryValue {
    object_value(vec![
        ("kind", e("OBJECT")),
        ("name", s("Query")),
        ("description", QueryValue::Null),
        (
            "fields",
            QueryValue::List(vec![object_value(vec![
                ("name", s("users")),
                ("description", QueryValue::Null),
                (
                    "args",
                    QueryValue::List(vec![object_value(vec![
                        ("name", s("first")),
                        ("description", QueryValue::Null),
                        ("type", s("Int")),
                        ("defaultValue", QueryValue::Int(10)),
                    ])]),
                ),
                (
                    "type",
                    object_value(vec![("kind", e("LIST")), ("ofType", s("User"))]),
                ),
                ("isDeprecated", QueryValue::Boolean(false)),
                ("deprecationReason", QueryValue::Null),
            ])]),
        ),
        ("interfaces", QueryValue::List(vec![])),
    ])
}

fn no_arguments<'a>() -> HashMap<&'a String, QueryValue> {
    HashMap::new()
}

#[test]
fn texts_are_ordered_like_strings() {
    let words = ["", "A", "Node", "Query", "Querz", "Que", "User", "a", "é", "日本", "Z"];
    for a in words {
        for b in words {
            assert_eq!(comes_before(a, b), a < b, "{:?} before {:?}", a, b);
            assert_eq!(same_text(a, b), a == b);
        }
    }
}

#[test]
fn object_value_keeps_the_fields_in_order() {
    let object = object_value(vec![("b", QueryValue::Int(1)), ("a", QueryValue::Null)]);
    assert_eq!(
        object,
        QueryValue::Object(vec![
            ("b".to_string(), QueryValue::Int(1)),
            ("a".to_string(), QueryValue::Null),
        ])
    );
    assert_eq!(object_value(vec![]), QueryValue::Object(vec![]));
}

#[test]
fn get_finds_the_last_field_of_a_name() {
    let object = QueryValue::Object(vec![
        ("a".to_string(), QueryValue::Int(1)),
        ("b".to_string(), QueryValue::Int(2)),
        ("a".to_string(), QueryValue::Int(3)),
    ]);
    assert_eq!(object.get("a"), Some(&QueryValue::Int(3)));
    assert_eq!(object.get("b"), Some(&QueryValue::Int(2)));
    assert_eq!(object.get("c"), None);
    assert_eq!(QueryValue::List(vec![]).get("a"), None);
    assert_eq!(QueryValue::Null.get("a"), None);
}

#[test]
fn query_value_clone_copies_everything() {
    let value = QueryValue::Object(vec![
        ("list".to_string(), QueryValue::List(vec![QueryValue::Variable("v".to_string()), e("E")])),
        ("float".to_string(), QueryValue::Float(1.5f64.to_bits())),
        ("nested".to_string(), QueryValue::Object(vec![("x".to_string(), QueryValue::Boolean(true))])),
    ]);
    assert_eq!(value.clone(), value);
}

#[test]
fn named_types_are_found_by_their_first_definition() {
    let mut schema = schema();
    schema.document.definitions.push(Definition::TypeDefinition(TypeDefinition::Enum(EnumType {
        description: None,
        name: "User".to_string(),
        values: vec![],
    })));
    assert_eq!(
        get_named_type(&schema.document, "User"),
        Some(&TypeDefinition::Object(user_type()))
    );
    assert_eq!(get_named_type(&schema.document, "Int"), Some(&scalar("Int")));
    assert_eq!(get_named_type(&schema.document, "Float"), None);
    assert_eq!(get_named_type(&schema.document, "entity"), None);
    assert_eq!(get_type_name(&scalar("Int")), "Int");
    assert_eq!(get_type_name(&TypeDefinition::Object(user_type())), "User");
}

#[test]
fn interfaces_resolve_when_they_are_defined_and_no_objects() {
    assert!(interfaces_resolve(&schema().document));
    assert!(interfaces_resolve(&Document { definitions: vec![] }));
    let mut missing = schema();
    missing.document.definitions.remove(4);
    assert!(!interfaces_resolve(&missing.document));
    let own = Document {
        definitions: vec![Definition::TypeDefinition(TypeDefinition::Object(ObjectType {
            description: None,
            name: "A".to_string(),
            implements_interfaces: vec!["A".to_string()],
            fields: vec![],
        }))],
    };
    assert!(!interfaces_resolve(&own));
}

#[test]
fn types_of_fields_keep_the_names_of_named_types() {
    assert_eq!(type_object(&named("User")), s("User"));
    assert_eq!(
        type_object(&Type::ListType(Box::new(Type::NonNullType(Box::new(named("User")))))),
        object_value(vec![
            ("kind", e("LIST")),
            (
                "ofType",
                object_value(vec![("kind", e("NON_NULL")), ("ofType", s("User"))]),
            ),
        ])
    );
}

#[test]
fn input_values_have_name_description_type_and_default() {
    let argument = InputValue {
        description: Some("How many".to_string()),
        name: "first".to_string(),
        value_type: named("Int"),
        default_value: None,
    };
    let expected = object_value(vec![
        ("name", s("first")),
        ("description", s("How many")),
        ("type", s("Int")),
        ("defaultValue", QueryValue::Null),
    ]);
    assert_eq!(input_value(&argument), expected);
    assert_eq!(input_values(&vec![]), QueryValue::List(vec![]));
    assert_eq!(input_values(&vec![argument]), QueryValue::List(vec![expected]));
}

#[test]
fn fields_are_never_deprecated() {
    assert_eq!(field_object(&name_field()), name_field_object());
    assert_eq!(
        field_objects(&vec![name_field(), name_field()]),
        QueryValue::List(vec![name_field_object(), name_field_object()])
    );
}

#[test]
fn enum_types_list_their_values() {
    let red = EnumValue { description: Some("Like blood".to_string()), name: "RED".to_string() };
    let green = EnumValue { description: None, name: "GREEN".to_string() };
    let red_object = object_value(vec![
        ("name", s("RED")),
        ("description", s("Like blood")),
        ("isDeprecated", QueryValue::Boolean(false)),
        ("deprecationReason", QueryValue::Null),
    ]);
    let green_object = object_value(vec![
        ("name", s("GREEN")),
        ("description", QueryValue::Null),
        ("isDeprecated", QueryValue::Boolean(false)),
        ("deprecationReason", QueryValue::Null),
    ]);
    assert_eq!(enum_value(&red), red_object);
    let color = EnumType {
        description: None,
        name: "Color".to_string(),
        values: vec![red, green],
    };
    assert_eq!(enum_values(&color), QueryValue::List(vec![red_object.clone(), green_object.clone()]));
    assert_eq!(
        enum_type_object(&color),
        object_value(vec![
            ("kind", e("ENUM")),
            ("name", s("Color")),
            ("description", QueryValue::Null),
            ("enumValues", QueryValue::List(vec![red_object, green_object])),
        ])
    );
}

#[test]
fn scalars_and_input_objects_describe_themselves() {
    assert_eq!(
        scalar_type_object(&ScalarType { description: None, name: "Int".to_string() }),
        scalar_object("Int")
    );
    let filter = InputObjectType {
        description: Some("A filter".to_string()),
        name: "Filter".to_string(),
        fields: vec![],
    };
    assert_eq!(
        input_object_type_object(&filter),
        object_value(vec![
            ("name", s("Filter")),
            ("kind", e("INPUT_OBJECT")),
            ("description", s("A filter")),
            ("inputFields", QueryValue::List(vec![])),
        ])
    );
}

#[test]
fn interfaces_and_unions_name_the_object_types_that_implement_them() {
    let schema = schema();
    assert_eq!(
        interface_type_object(&schema.document.definitions, &node_interface()),
        node_object()
    );
    let union = UnionType {
        description: None,
        name: "Node".to_string(),
        types: vec!["Query".to_string()],
    };
    assert_eq!(
        union_type_object(&schema.document.definitions, &union),
        object_value(vec![
            ("name", s("Node")),
            ("kind", e("UNION")),
            ("description", QueryValue::Null),
            ("possibleTypes", QueryValue::List(vec![s("User")])),
        ])
    );
    let lonely = UnionType { description: None, name: "Lonely".to_string(), types: vec![] };
    assert_eq!(
        union_type_object(&schema.document.definitions, &lonely),
        object_value(vec![
            ("name", s("Lonely")),
            ("kind", e("UNION")),
            ("description", QueryValue::Null),
            ("possibleTypes", QueryValue::List(vec![])),
        ])
    );
}

#[test]
fn directives_describe_their_locations_and_arguments() {
    let directive = DirectiveDefinition {
        description: Some("Skips".to_string()),
        name: "skip".to_string(),
        arguments: vec![],
        locations: vec!["FIELD".to_string(), "FRAGMENT_SPREAD".to_string()],
    };
    assert_eq!(
        directive_locations(&directive),
        QueryValue::List(vec![s("FIELD"), s("FRAGMENT_SPREAD")])
    );
    assert_eq!(
        directive_object(&directive),
        object_value(vec![
            ("name", s("skip")),
            ("description", s("Skips")),
            ("locations", QueryValue::List(vec![s("FIELD"), s("FRAGMENT_SPREAD")])),
            ("args", QueryValue::List(vec![])),
        ])
    );
    assert_eq!(
        schema_directive_objects(&schema().document.definitions),
        QueryValue::List(vec![object_value(vec![
            ("name", s("entity")),
            ("description", QueryValue::Null),
            ("locations", QueryValue::List(vec![s("OBJECT")])),
            ("args", QueryValue::List(vec![])),
        ])])
    );
}

#[test]
fn type_objects_are_kept_in_the_order_of_their_names() {
    let mut objects = TypeObjects::new();
    assert_eq!(objects.len(), 0);
    objects.insert("User".to_string(), QueryValue::Int(1));
    objects.insert("Int".to_string(), QueryValue::Int(2));
    objects.insert("Node".to_string(), QueryValue::Int(3));
    objects.insert("Query".to_string(), QueryValue::Int(4));
    assert_eq!(objects.len(), 4);
    assert_eq!(
        objects.values(),
        vec![QueryValue::Int(2), QueryValue::Int(3), QueryValue::Int(4), QueryValue::Int(1)]
    );
    assert_eq!(objects.get("Node"), Some(&QueryValue::Int(3)));
    assert_eq!(objects.get("Nod"), None);
    assert!(objects.contains_key("User"));
    assert!(!objects.contains_key("Users"));
    objects.insert("Node".to_string(), QueryValue::Null);
    assert_eq!(objects.len(), 4);
    assert_eq!(objects.get("Node"), Some(&QueryValue::Null));
    assert_eq!(
        objects.values(),
        vec![QueryValue::Int(2), QueryValue::Null, QueryValue::Int(4), QueryValue::Int(1)]
    );
}

#[test]
fn object_types_hold_the_objects_of_their_interfaces() {
    let schema = schema();
    let mut objects = TypeObjects::new();
    assert_eq!(
        object_interfaces(&schema, &mut objects, &user_type()),
        QueryValue::List(vec![node_object()])
    );
    assert_eq!(objects.get("Node"), Some(&node_object()));
    assert_eq!(objects.len(), 1);
    assert_eq!(object_type_object(&schema, &mut objects, &user_type()), user_object());
    assert_eq!(objects.get("User"), Some(&user_object()));
    assert_eq!(objects.len(), 2);
}

#[test]
fn type_objects_are_made_once_and_then_kept() {
    let schema = schema();
    let mut objects = TypeObjects::new();
    let user = TypeDefinition::Object(user_type());
    assert_eq!(type_definition_object(&schema, &mut objects, &user), user_object());
    assert_eq!(objects.len(), 2);
    assert_eq!(type_definition_object(&schema, &mut objects, &user), user_object());
    assert_eq!(objects.len(), 2);
    assert_eq!(named_type_object(&schema, &mut objects, "Int"), scalar_object("Int"));
    assert_eq!(named_type_object(&schema, &mut objects, "Node"), node_object());
    assert_eq!(named_type_object(&schema, &mut objects, "User"), user_object());
    assert_eq!(objects.len(), 3);
    assert_eq!(objects.values(), vec![scalar_object("Int"), node_object(), user_object()]);
}

#[test]
fn a_schema_has_the_objects_of_all_its_types() {
    let objects = schema_type_objects(&schema());
    assert_eq!(objects.len(), 5);
    assert_eq!(
        objects.values(),
        vec![
            scalar_object("Int"),
            node_object(),
            query_object(),
            scalar_object("String"),
            user_object(),
        ]
    );
    let empty = Schema { id: "empty".to_string(), document: Document { definitions: vec![] } };
    assert_eq!(schema_type_objects(&empty).len(), 0);
}

#[test]
fn the_schema_object_lists_types_and_directives() {
    let schema = schema();
    let resolver = IntrospectionResolver::new(&schema);
    let object = resolver.schema_object();
    assert_eq!(object.get("queryType"), Some(&query_object()));
    assert_eq!(object.get("mutationType"), Some(&QueryValue::Null));
    assert_eq!(
        object.get("types"),
        Some(&QueryValue::List(vec![
            scalar_object("Int"),
            node_object(),
            query_object(),
            scalar_object("String"),
            user_object(),
        ]))
    );
    assert_eq!(
        object.get("directives"),
        Some(&schema_directive_objects(&schema.document.definitions))
    );
    let arguments = no_arguments();
    assert_eq!(resolver.resolve_entity(&None, "__schema", "__Schema", &arguments), object);
}

#[test]
fn a_schema_without_a_query_type_has_a_null_query_type() {
    let schema = Schema {
        id: "small".to_string(),
        document: Document { definitions: vec![Definition::TypeDefinition(scalar("Int"))] },
    };
    let resolver = IntrospectionResolver::new(&schema);
    assert_eq!(
        resolver.schema_object(),
        object_value(vec![
            ("queryType", QueryValue::Null),
            ("mutationType", QueryValue::Null),
            ("types", QueryValue::List(vec![scalar_object("Int")])),
            ("directives", QueryValue::List(vec![])),
        ])
    );
}

#[test]
fn possible_types_are_resolved_to_their_objects() {
    let schema = schema();
    let resolver = IntrospectionResolver::new(&schema);
    let arguments = no_arguments();
    let parent = Some(object_value(vec![(
        "possibleTypes",
        QueryValue::List(vec![s("User"), QueryValue::Int(1), s("Query")]),
    )]));
    assert!(resolver.can_resolve_entities(&parent, "possibleTypes"));
    assert_eq!(
        resolver.resolve_entities(&parent, "possibleTypes", "__Type", &arguments),
        QueryValue::List(vec![user_object(), query_object()])
    );
    let none = Some(object_value(vec![("possibleTypes", QueryValue::List(vec![]))]));
    assert_eq!(
        resolver.resolve_entities(&none, "possibleTypes", "__Type", &arguments),
        QueryValue::Null
    );
    let no_list = Some(object_value(vec![("possibleTypes", s("User"))]));
    assert_eq!(
        resolver.resolve_entities(&no_list, "possibleTypes", "__Type", &arguments),
        QueryValue::Null
    );
    assert_eq!(
        resolver.resolve_entities(&None, "possibleTypes", "__Type", &arguments),
        QueryValue::Null
    );
    let unknown = Some(object_value(vec![(
        "possibleTypes",
        QueryValue::List(vec![s("User"), s("Nobody")]),
    )]));
    assert!(!resolver.can_resolve_entities(&unknown, "possibleTypes"));
    assert!(resolver.can_resolve_entities(&unknown, "fields"));
}

#[test]
fn other_entities_are_the_fields_of_the_parent() {
    let schema = schema();
    let resolver = IntrospectionResolver::new(&schema);
    let arguments = no_arguments();
    let parent = Some(user_object());
    assert_eq!(
        resolver.resolve_entities(&parent, "fields", "__Field", &arguments),
        QueryValue::List(vec![name_field_object()])
    );
    assert_eq!(
        resolver.resolve_entities(&parent, "missing", "__Field", &arguments),
        QueryValue::Null
    );
    assert_eq!(resolver.resolve_entities(&None, "fields", "__Field", &arguments), QueryValue::Null);
    assert_eq!(
        resolver.resolve_entities(&Some(s("no object")), "fields", "__Field", &arguments),
        QueryValue::Null
    );
    assert_eq!(resolver.resolve_entity(&parent, "name", "__Type", &arguments), s("User"));
    assert_eq!(resolver.resolve_entity(&parent, "missing", "__Type", &arguments), QueryValue::Null);
    assert_eq!(resolver.resolve_entity(&None, "name", "__Type", &arguments), QueryValue::Null);
}

#[test]
fn named_types_of_fields_are_resolved_to_their_objects() {
    let schema = schema();
    let resolver = IntrospectionResolver::new(&schema);
    let arguments = no_arguments();
    let field = Some(object_value(vec![("name", s("friend")), ("type", s("User"))]));
    assert!(resolver.can_resolve_entity(&field, "type"));
    assert_eq!(resolver.resolve_entity(&field, "type", "__Type", &arguments), user_object());
    let wrapper = object_value(vec![("kind", e("LIST")), ("ofType", s("Node"))]);
    let list_field = Some(object_value(vec![("type", wrapper.clone())]));
    assert_eq!(resolver.resolve_entity(&list_field, "type", "__Type", &arguments), wrapper);
    assert_eq!(
        resolver.resolve_entity(&Some(wrapper), "ofType", "__Type", &arguments),
        node_object()
    );
    assert_eq!(resolver.resolve_entity(&field, "ofType", "__Type", &arguments), QueryValue::Null);
    assert_eq!(resolver.resolve_entity(&None, "type", "__Type", &arguments), QueryValue::Null);
    let unknown = Some(object_value(vec![("type", s("Nobody"))]));
    assert!(!resolver.can_resolve_entity(&unknown, "type"));
    assert!(resolver.can_resolve_entity(&unknown, "ofType"));
    assert!(resolver.can_resolve_entity(&unknown, "name"));
}

#[test]
fn the_type_query_is_answered_with_null() {
    let schema = schema();
    let resolver = IntrospectionResolver::new(&schema);
    let name = "name".to_string();
    let mut arguments = HashMap::new();
    arguments.insert(&name, s("User"));
    assert_eq!(resolver.type_object(&arguments), QueryValue::Null);
    assert_eq!(resolver.resolve_entity(&None, "__type", "__Type", &arguments), QueryValue::Null);
    assert_eq!(
        resolver.resolve_abstract_type(&schema, &TypeDefinition::Interface(node_interface()), &user_object()),
        None
    );
}

#[test]
fn scalars_accept_values_of_their_kind() {
    let of = |name: &str| ScalarType { description: None, name: name.to_string() };
    let values = [
        ("Boolean", QueryValue::Boolean(true)),
        ("Float", QueryValue::Float(2.5f64.to_bits())),
        ("Int", QueryValue::Int(3)),
        ("String", s("x")),
    ];
    for (name, value) in &values {
        for (other, _) in &values {
            let coerced = coerce_scalar_value(&of(other), &Some(value));
            if name == other {
                assert_eq!(coerced, Some(value.clone()));
            } else {
                assert_eq!(coerced, None);
            }
        }
        assert_eq!(coerce_scalar_value(&of("Date"), &Some(value)), None);
        assert_eq!(coerce_scalar_value(&of(name), &None), None);
    }
    assert_eq!(coerce_scalar_value(&of("String"), &Some(&e("x"))), None);
    assert_eq!(coerce_scalar_value(&of("Int"), &Some(&QueryValue::Null)), None);
}

#[test]
fn enums_accept_the_names_of_their_values() {
    let color = EnumType {
        description: None,
        name: "Color".to_string(),
        values: vec![
            EnumValue { description: None, name: "RED".to_string() },
            EnumValue { description: None, name: "GREEN".to_string() },
        ],
    };
    assert_eq!(coerce_enum_value(&color, &Some(&e("GREEN"))), Some(e("GREEN")));
    assert_eq!(coerce_enum_value(&color, &Some(&e("BLUE"))), None);
    assert_eq!(coerce_enum_value(&color, &Some(&s("RED"))), None);
    assert_eq!(coerce_enum_value(&color, &None), None);
}

#[test]
fn resolved_values_are_null_when_they_are_refused() {
    let schema = schema();
    let resolver = IntrospectionResolver::new(&schema);
    let color = EnumType {
        description: None,
        name: "Color".to_string(),
        values: vec![EnumValue { description: None, name: "RED".to_string() }],
    };
    let int = ScalarType { description: None, name: "Int".to_string() };
    assert_eq!(resolver.resolve_enum_value(&color, Some(&e("RED"))), e("RED"));
    assert_eq!(resolver.resolve_enum_value(&color, Some(&e("BLUE"))), QueryValue::Null);
    assert_eq!(resolver.resolve_enum_value(&color, None), QueryValue::Null);
    assert_eq!(resolver.resolve_scalar_value(&int, Some(&QueryValue::Int(1))), QueryValue::Int(1));
    assert_eq!(resolver.resolve_scalar_value(&int, Some(&s("1"))), QueryValue::Null);
    assert_eq!(resolver.resolve_scalar_value(&int, None), QueryValue::Null);
}

#[test]
fn lists_are_resolved_when_every_item_is_accepted() {
    let schema = schema();
    let resolver = IntrospectionResolver::new(&schema);
    let color = EnumType {
        description: None,
        name: "Color".to_string(),
        values: vec![
            EnumValue { description: None, name: "RED".to_string() },
            EnumValue { description: None, name: "GREEN".to_string() },
        ],
    };
    let int = ScalarType { description: None, name: "Int".to_string() };
    let colors = QueryValue::List(vec![e("GREEN"), e("RED"), e("GREEN")]);
    assert_eq!(resolver.resolve_enum_values(&color, Some(&colors)), colors);
    let mixed = QueryValue::List(vec![e("GREEN"), e("BLUE")]);
    assert_eq!(resolver.resolve_enum_values(&color, Some(&mixed)), QueryValue::Null);
    assert_eq!(resolver.resolve_enum_values(&color, Some(&e("RED"))), QueryValue::Null);
    assert_eq!(resolver.resolve_enum_values(&color, None), QueryValue::Null);
    assert_eq!(
        resolver.resolve_enum_values(&color, Some(&QueryValue::List(vec![]))),
        QueryValue::List(vec![])
    );
    let numbers = QueryValue::List(vec![QueryValue::Int(1), QueryValue::Int(2)]);
    assert_eq!(resolver.resolve_scalar_values(&int, Some(&numbers)), numbers);
    let not_all = QueryValue::List(vec![QueryValue::Int(1), s("2")]);
    assert_eq!(resolver.resolve_scalar_values(&int, Some(&not_all)), QueryValue::Null);
    assert_eq!(resolver.resolve_scalar_values(&int, Some(&QueryValue::Int(1))), QueryValue::Null);
    assert_eq!(resolver.resolve_scalar_values(&int, None), QueryValue::Null);
}

#[test]
fn object_field_reads_objects_only() {
    let object = Some(object_value(vec![("a", QueryValue::Int(1))]));
    assert_eq!(object_field(&object, "a"), Some(&QueryValue::Int(1)));
    assert_eq!(object_field(&object, "b"), None);
    assert_eq!(object_field(&Some(QueryValue::Int(1)), "a"), None);
    assert_eq!(object_field(&None, "a"), None);
}

fn object_named(name: &str, interfaces: &[&str]) -> ObjectType {
    ObjectType {
        description: None,
        name: name.to_string(),
        implements_interfaces: interfaces.iter().map(|name| name.to_string()).collect(),
        fields: vec![],
    }
}

fn object_of(name: &str, interfaces: Vec<QueryValue>) -> QueryValue {
    object_value(vec![
        ("kind", e("OBJECT")),
        ("name", s(name)),
        ("description", QueryValue::Null),
        ("fields", QueryValue::List(vec![])),
        ("interfaces", QueryValue::List(interfaces)),
    ])
}

fn chain() -> Schema {
    Schema {
        id: "chain".to_string(),
        document: Document {
            definitions: vec![
                Definition::TypeDefinition(TypeDefinition::Object(object_named("Pet", &["Animal"]))),
                Definition::TypeDefinition(TypeDefinition::Object(object_named(
                    "Animal",
                    &["Being", "Being"],
                ))),
                Definition::TypeDefinition(TypeDefinition::Object(object_named("Being", &[]))),
            ],
        },
    }
}

#[test]
fn an_object_type_may_implement_an_object_type() {
    let schema = chain();
    assert!(interfaces_resolve(&schema.document));
    let being = object_of("Being", vec![]);
    let animal = object_of("Animal", vec![being.clone(), being.clone()]);
    let pet = object_of("Pet", vec![animal.clone()]);
    let mut objects = TypeObjects::new();
    assert_eq!(named_type_object(&schema, &mut objects, "Pet"), pet);
    assert_eq!(objects.values(), vec![animal.clone(), being.clone(), pet.clone()]);
    assert_eq!(schema_type_objects(&schema), objects);
    let resolver = IntrospectionResolver::new(&schema);
    assert_eq!(resolver.type_objects, objects);
}

#[test]
fn types_that_implement_themselves_do_not_resolve() {
    let cycle = |definitions: Vec<ObjectType>| Document {
        definitions: definitions
            .into_iter()
            .map(|object_type| Definition::TypeDefinition(TypeDefinition::Object(object_type)))
            .collect(),
    };
    assert!(!interfaces_resolve(&cycle(vec![
        object_named("A", &["B"]),
        object_named("B", &["A"]),
    ])));
    assert!(!interfaces_resolve(&cycle(vec![
        object_named("A", &["B"]),
        object_named("B", &["C"]),
        object_named("C", &["B"]),
    ])));
    assert!(interfaces_resolve(&cycle(vec![
        object_named("A", &["B", "C"]),
        object_named("B", &["C"]),
        object_named("C", &[]),
    ])));
    // Each object type on the way takes a step: Pet, Animal, Being.
    assert!(!definition_resolves(
        &chain().document,
        &TypeDefinition::Object(object_named("Pet", &["Animal"])),
        2
    ));
    assert!(definition_resolves(
        &chain().document,
        &TypeDefinition::Object(object_named("Pet", &["Animal"])),
        3
    ));
    assert!(!definition_resolves(
        &chain().document,
        &TypeDefinition::Object(object_named("Being", &[])),
        0
    ));
    assert!(definition_resolves(&chain().document, &scalar("Int"), 0));
}

#[test]
fn a_cached_object_is_handed_out_as_it_is() {
    let schema = schema();
    let mut objects = TypeObjects::new();
    objects.insert("User".to_string(), QueryValue::Int(1));
    objects.insert("Node".to_string(), QueryValue::Int(2));
    let before = objects.clone();
    let user = TypeDefinition::Object(user_type());
    assert_eq!(type_definition_object(&schema, &mut objects, &user), QueryValue::Int(1));
    assert_eq!(object_type_object(&schema, &mut objects, &user_type()), QueryValue::Int(1));
    assert_eq!(named_type_object(&schema, &mut objects, "Node"), QueryValue::Int(2));
    assert_eq!(objects, before);
    // An object that is made holds what the collection has for its interfaces.
    let mut objects = TypeObjects::new();
    objects.insert("Node".to_string(), QueryValue::Int(2));
    let made = object_type_object(&schema, &mut objects, &user_type());
    assert_eq!(made.get("interfaces"), Some(&QueryValue::List(vec![QueryValue::Int(2)])));
    assert_eq!(made.get("kind"), Some(&e("OBJECT")));
    assert_eq!(made.get("name"), Some(&s("User")));
    assert_eq!(made.get("fields"), Some(&QueryValue::List(vec![name_field_object()])));
    assert_eq!(objects.get("User"), Some(&made));
    assert_eq!(objects.get("Node"), Some(&QueryValue::Int(2)));
    assert_eq!(objects.len(), 2);
}

#[test]
fn a_definition_that_is_not_the_first_of_its_name_is_built_when_asked_for() {
    let mut schema = schema();
    let second = ScalarType { description: Some("Again".to_string()), name: "User".to_string() };
    schema.document.definitions.push(Definition::TypeDefinition(TypeDefinition::Scalar(
        ScalarType { description: Some("Again".to_string()), name: "User".to_string() },
    )));
    let mut objects = TypeObjects::new();
    let built = type_definition_object(&schema, &mut objects, &TypeDefinition::Scalar(second));
    assert_eq!(
        built,
        object_value(vec![
            ("name", s("User")),
            ("kind", e("SCALAR")),
            ("description", s("Again")),
            ("isDeprecated", QueryValue::Boolean(false)),
            ("deprecationReason", QueryValue::Null),
        ])
    );
    assert_eq!(objects.get("User"), Some(&built));
    // The objects of a schema are made from the first definitions.
    let all = schema_type_objects(&schema);
    assert_eq!(all.get("User"), Some(&user_object()));
    assert_eq!(all.len(), 5);
}
