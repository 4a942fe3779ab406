use bigdecimal::BigDecimal;
use graph_node::compiler::{add_filter, store_filter, store_filter_by_mode, UnsupportedFilter};
use graph_node::filter::StoreFilter;
use graph_node::query::{Clause, FilterMode, Param, Predicate, Query};
use graph_node::scalar::{BigInt, Bytes, Float};
use graph_node::value::Value;
use std::str::FromStr;

fn text(s: &str) -> Value {
    Value::String(s.to_string())
}

fn big(s: &str) -> Value {
    Value::BigInt(BigInt::parse(s).expect("a canonical decimal"))
}

fn bytes(b: &[u8]) -> Value {
    Value::Bytes(Bytes::new(b.to_vec()))
}

fn float(f: f32) -> Value {
    Value::Float(Float::from_bits(f.to_bits()))
}

fn only_predicate(filter: StoreFilter) -> Predicate {
    let query = match store_filter(Query::new(), filter) {
        Ok(query) => query,
        Err(e) => panic!("unsupported: {:?}", e),
    };
    let mut clauses = query.clauses;
    assert_eq!(clauses.len(), 1);
    let Clause { mode, predicate } = clauses.remove(0);
    assert_eq!(mode, FilterMode::And);
    predicate
}

fn refusal(filter: StoreFilter) -> UnsupportedFilter {
    match store_filter(Query::new(), filter) {
        Ok(query) => panic!("compiled to {:?}", query),
        Err(e) => e,
    }
}

fn predicate(prefix: &str, attribute: &str, infix: &str, value: Option<Param>) -> Predicate {
    Predicate {
        negated: false,
        prefix: prefix.to_string(),
        attribute: attribute.to_string(),
        infix: infix.to_string(),
        value,
    }
}

#[test]
fn equal_on_text_compares_the_field_as_text() {
    let compiled = only_predicate(StoreFilter::Equal("name".to_string(), text("Jordi")));
    assert_eq!(
        compiled,
        predicate("(data ->> ", "name", ")=", Some(Param::Text("Jordi".to_string())))
    );
}

#[test]
fn not_on_text_uses_the_inequality_operator() {
    let compiled = only_predicate(StoreFilter::Not("name".to_string(), text("Jordi")));
    assert_eq!(
        compiled,
        predicate("(data ->> ", "name", ")!=", Some(Param::Text("Jordi".to_string())))
    );
}

#[test]
fn equal_on_int_casts_the_field_to_int() {
    let compiled = only_predicate(StoreFilter::Equal("age".to_string(), Value::Int(-7)));
    assert_eq!(compiled, predicate("(data ->> ", "age", ")::int=", Some(Param::Integer(-7))));
}

#[test]
fn equal_on_float_casts_the_field_to_float() {
    let compiled = only_predicate(StoreFilter::Equal("weight".to_string(), float(1.5)));
    assert_eq!(
        compiled,
        predicate(
            "(data ->> ",
            "weight",
            ")::float=",
            Some(Param::Float(Float::from_bits(1.5f32.to_bits())))
        )
    );
    match compiled.value {
        Some(Param::Float(f)) => assert_eq!(f32::from_bits(f.to_bits()), 1.5f32),
        other => panic!("not a float parameter: {:?}", other),
    }
}

#[test]
fn equal_on_bool_casts_the_field_to_boolean() {
    let compiled = only_predicate(StoreFilter::Not("flag".to_string(), Value::Bool(true)));
    assert_eq!(
        compiled,
        predicate("(data ->> ", "flag", ")::boolean!=", Some(Param::Boolean(true)))
    );
}

#[test]
fn equal_on_big_int_casts_the_field_to_numeric() {
    let compiled = only_predicate(StoreFilter::Equal("balance".to_string(), big("-42")));
    assert_eq!(
        compiled,
        predicate(
            "(data ->> ",
            "balance",
            ")::numeric=",
            Some(Param::Numeric(BigDecimal::from_str("-42").unwrap()))
        )
    );
}

#[test]
fn equal_on_bytes_compares_with_the_json_of_the_bytes() {
    let compiled = only_predicate(StoreFilter::Equal("hash".to_string(), bytes(&[0xde, 0xad])));
    assert_eq!(
        compiled,
        predicate("(data ->> ", "hash", ")=", Some(Param::Json(bytes(&[0xde, 0xad]))))
    );
}

#[test]
fn equal_on_list_compares_with_the_json_of_the_list() {
    let list = || Value::List(vec![text("x"), text("y")]);
    let compiled = only_predicate(StoreFilter::Equal("tags".to_string(), list()));
    assert_eq!(compiled, predicate("data ->> ", "tags", "=", Some(Param::Json(list()))));
    let compiled = only_predicate(StoreFilter::Not("tags".to_string(), list()));
    assert_eq!(compiled, predicate("data ->> ", "tags", "!=", Some(Param::Json(list()))));
}

#[test]
fn list_equality_is_order_sensitive() {
    let xy = only_predicate(StoreFilter::Equal(
        "tags".to_string(),
        Value::List(vec![text("x"), text("y")]),
    ));
    let yx = only_predicate(StoreFilter::Equal(
        "tags".to_string(),
        Value::List(vec![text("y"), text("x")]),
    ));
    assert_ne!(xy.value, yx.value);
    assert_ne!(xy, yx);
    assert_eq!(xy.value, Some(Param::Json(Value::List(vec![text("x"), text("y")]))));
    assert_ne!(
        Value::List(vec![text("x"), text("y")]),
        Value::List(vec![text("y"), text("x")])
    );
}

#[test]
fn null_equality_tests_the_raw_field_for_json_null() {
    let compiled = only_predicate(StoreFilter::Equal("optionalField".to_string(), Value::Null));
    assert_eq!(compiled, predicate("data -> ", "optionalField", " = 'null' ", None));
    // The field itself is read (`->`), not its text (`->>`): a field that is
    // absent gives SQL NULL there, and a field with any other value gives
    // another JSON document, so only an explicit JSON null is equal.
    assert_eq!(compiled.prefix, "data -> ");
    assert_eq!(compiled.value, None);
    assert!(!compiled.negated);
}

#[test]
fn not_null_is_refused() {
    let error = refusal(StoreFilter::Not("optionalField".to_string(), Value::Null));
    assert_eq!(error, UnsupportedFilter { filter: "!=".to_string(), value: Value::Null });
    let nested = StoreFilter::And(vec![
        StoreFilter::Equal("a".to_string(), Value::Null),
        StoreFilter::Not("b".to_string(), Value::Null),
    ]);
    assert_eq!(
        refusal(nested),
        UnsupportedFilter { filter: "!=".to_string(), value: Value::Null }
    );
}

#[test]
fn ordering_on_text_compares_without_a_cast() {
    let cases = [
        (StoreFilter::GreaterThan("name".to_string(), text("m")), ">"),
        (StoreFilter::LessThan("name".to_string(), text("m")), "<"),
        (StoreFilter::GreaterOrEqual("name".to_string(), text("m")), ">="),
        (StoreFilter::LessOrEqual("name".to_string(), text("m")), "<="),
    ];
    for (filter, operator) in cases {
        assert_eq!(
            only_predicate(filter),
            predicate("data ->> ", "name", operator, Some(Param::Text("m".to_string())))
        );
    }
}

#[test]
fn ordering_on_numbers_casts_the_field() {
    assert_eq!(
        only_predicate(StoreFilter::GreaterThan("age".to_string(), Value::Int(18))),
        predicate("(data ->> ", "age", ")::int>", Some(Param::Integer(18)))
    );
    assert_eq!(
        only_predicate(StoreFilter::LessThan("age".to_string(), Value::Int(18))),
        predicate("(data ->> ", "age", ")::int<", Some(Param::Integer(18)))
    );
    assert_eq!(
        only_predicate(StoreFilter::GreaterOrEqual("weight".to_string(), float(0.25))),
        predicate(
            "(data ->> ",
            "weight",
            ")::float>=",
            Some(Param::Float(Float::from_bits(0.25f32.to_bits())))
        )
    );
    assert_eq!(
        only_predicate(StoreFilter::LessOrEqual("balance".to_string(), big("10"))),
        predicate(
            "(data ->> ",
            "balance",
            ")::numeric<=",
            Some(Param::Numeric(BigDecimal::from_str("10").unwrap()))
        )
    );
}

#[test]
fn big_int_reaches_the_parameter_digit_for_digit() {
    let digits = "123456789012345678901234567890";
    let compiled = only_predicate(StoreFilter::GreaterThan("balance".to_string(), big(digits)));
    assert_eq!(compiled.prefix, "(data ->> ");
    assert_eq!(compiled.infix, ")::numeric>");
    let bound = match compiled.value {
        Some(Param::Numeric(decimal)) => decimal,
        other => panic!("not a numeric parameter: {:?}", other),
    };
    assert_eq!(bound.to_string(), digits);
    let (unscaled, scale) = bound.as_bigint_and_exponent();
    assert_eq!(unscaled.to_string(), digits);
    assert_eq!(scale, 0);
    // What the database compares is exact: the same balance is not greater,
    // one more is, one less is not.
    let same = BigDecimal::from_str("123456789012345678901234567890").unwrap();
    let above = BigDecimal::from_str("123456789012345678901234567891").unwrap();
    let below = BigDecimal::from_str("123456789012345678901234567889").unwrap();
    assert!(same == bound);
    assert!(above > bound);
    assert!(below < bound);
    assert!(!(same > bound));
}

#[test]
fn big_int_of_any_size_is_bound_exactly() {
    let mut digits = String::from("9");
    for i in 0..200 {
        digits.push(char::from(b'0' + (i % 10) as u8));
    }
    let negative = format!("-{}", digits);
    for spelling in [digits.as_str(), negative.as_str(), "0", "-1"] {
        let compiled = only_predicate(StoreFilter::Equal("n".to_string(), big(spelling)));
        match compiled.value {
            Some(Param::Numeric(decimal)) => assert_eq!(decimal.to_string(), spelling),
            other => panic!("not a numeric parameter: {:?}", other),
        }
    }
}

#[test]
fn ordering_is_refused_for_values_without_an_order() {
    let error = refusal(StoreFilter::GreaterThan("flag".to_string(), Value::Bool(true)));
    assert_eq!(
        error,
        UnsupportedFilter { filter: ">".to_string(), value: Value::Bool(true) }
    );
    let error = refusal(StoreFilter::LessThan("tags".to_string(), Value::List(vec![])));
    assert_eq!(error, UnsupportedFilter { filter: "<".to_string(), value: Value::List(vec![]) });
    let error = refusal(StoreFilter::GreaterOrEqual("hash".to_string(), bytes(&[1])));
    assert_eq!(error, UnsupportedFilter { filter: ">=".to_string(), value: bytes(&[1]) });
    let error = refusal(StoreFilter::LessOrEqual("gone".to_string(), Value::Null));
    assert_eq!(error, UnsupportedFilter { filter: "<=".to_string(), value: Value::Null });
}

#[test]
fn containment_is_refused_for_values_that_contain_nothing() {
    let error = refusal(StoreFilter::Contains("count".to_string(), Value::Int(5)));
    assert_eq!(
        error,
        UnsupportedFilter { filter: "contains".to_string(), value: Value::Int(5) }
    );
    for value in [Value::Null, float(2.0), Value::Int(1), Value::Bool(false), big("77")] {
        let error = refusal(StoreFilter::NotContains("count".to_string(), value.clone()));
        assert_eq!(error, UnsupportedFilter { filter: "not_contains".to_string(), value });
    }
}

#[test]
fn contains_on_text_is_a_substring_match() {
    assert_eq!(
        only_predicate(StoreFilter::Contains("name".to_string(), text("%ord%"))),
        predicate("data ->> ", "name", " LIKE ", Some(Param::Text("%ord%".to_string())))
    );
    assert_eq!(
        only_predicate(StoreFilter::NotContains("name".to_string(), text("%ord%"))),
        predicate("data ->> ", "name", " NOT LIKE ", Some(Param::Text("%ord%".to_string())))
    );
}

#[test]
fn contains_on_bytes_matches_their_text_form() {
    assert_eq!(
        only_predicate(StoreFilter::Contains("hash".to_string(), bytes(&[0x00, 0xff, 0x1a]))),
        predicate("data ->> ", "hash", " LIKE ", Some(Param::Text("0x00ff1a".to_string())))
    );
    assert_eq!(
        only_predicate(StoreFilter::NotContains("hash".to_string(), bytes(&[]))),
        predicate("data ->> ", "hash", " NOT LIKE ", Some(Param::Text("0x".to_string())))
    );
}

#[test]
fn contains_on_lists_is_array_containment() {
    let list = || Value::List(vec![text("x")]);
    let contains = only_predicate(StoreFilter::Contains("tags".to_string(), list()));
    assert_eq!(contains, predicate("data ->> ", "tags", " @> ", Some(Param::Json(list()))));
    assert!(!contains.negated);
}

#[test]
fn not_contains_on_lists_negates_contains() {
    for items in [vec![], vec![text("x")], vec![text("x"), Value::Int(2)]] {
        let contains =
            only_predicate(StoreFilter::Contains("tags".to_string(), Value::List(items.clone())));
        let not_contains = only_predicate(StoreFilter::NotContains(
            "tags".to_string(),
            Value::List(items.clone()),
        ));
        assert!(!contains.negated);
        assert!(not_contains.negated);
        assert_eq!(not_contains, Predicate { negated: true, ..contains });
    }
}

#[test]
fn every_operator_and_kind_has_an_outcome() {
    let kinds: Vec<(&str, Value)> = vec![
        ("string", text("s")),
        ("int", Value::Int(1)),
        ("float", float(1.0)),
        ("bool", Value::Bool(true)),
        ("bigint", big("1")),
        ("bytes", bytes(&[1])),
        ("list", Value::List(vec![Value::Int(1)])),
        ("null", Value::Null),
    ];
    let attribute = || "field".to_string();
    for (kind, value) in kinds {
        let v = || value.clone();
        let filters = vec![
            ("=", StoreFilter::Equal(attribute(), v())),
            ("!=", StoreFilter::Not(attribute(), v())),
            (">", StoreFilter::GreaterThan(attribute(), v())),
            ("<", StoreFilter::LessThan(attribute(), v())),
            (">=", StoreFilter::GreaterOrEqual(attribute(), v())),
            ("<=", StoreFilter::LessOrEqual(attribute(), v())),
            ("contains", StoreFilter::Contains(attribute(), v())),
            ("not_contains", StoreFilter::NotContains(attribute(), v())),
        ];
        for (operator, filter) in filters {
            let equality = operator == "=" || operator == "!=";
            let containment = operator == "contains" || operator == "not_contains";
            let supported = match kind {
                "string" => true,
                "int" | "float" | "bigint" => !containment,
                "bool" => equality,
                "null" => operator == "=",
                _ => equality || containment,
            };
            match store_filter(Query::new(), filter) {
                Ok(query) => {
                    assert!(supported, "{} on {} compiled", operator, kind);
                    assert_eq!(query.clauses.len(), 1);
                    assert_eq!(query.clauses[0].predicate.attribute, "field");
                    assert_eq!(query.clauses[0].predicate.value.is_none(), kind == "null");
                }
                Err(error) => {
                    assert!(!supported, "{} on {} was refused", operator, kind);
                    assert_eq!(error.filter, operator);
                    assert_eq!(error.value, v());
                }
            }
        }
    }
}

#[test]
fn a_leaf_takes_the_mode_it_is_attached_by() {
    let filter = || StoreFilter::Equal("a".to_string(), Value::Int(1));
    let and = store_filter_by_mode(Query::new(), filter(), FilterMode::And).unwrap();
    let or = store_filter_by_mode(Query::new(), filter(), FilterMode::Or).unwrap();
    assert_eq!(and.clauses[0].mode, FilterMode::And);
    assert_eq!(or.clauses[0].mode, FilterMode::Or);
    assert_eq!(and.clauses[0].predicate, or.clauses[0].predicate);
}

#[test]
fn add_filter_appends_one_clause() {
    let first = predicate("data ->> ", "a", "=", Some(Param::Text("x".to_string())));
    let second = predicate("data -> ", "b", " = 'null' ", None);
    let query = add_filter(Query::new(), FilterMode::And, first);
    let query = add_filter(query, FilterMode::Or, second);
    assert_eq!(
        query,
        Query {
            clauses: vec![
                Clause {
                    mode: FilterMode::And,
                    predicate: predicate("data ->> ", "a", "=", Some(Param::Text("x".to_string()))),
                },
                Clause {
                    mode: FilterMode::Or,
                    predicate: predicate("data -> ", "b", " = 'null' ", None),
                },
            ],
        }
    );
}

#[test]
fn user_text_never_enters_the_sql_text() {
    let hostile = "x'; DROP TABLE entities; --";
    let compiled = only_predicate(StoreFilter::Equal(hostile.to_string(), text(hostile)));
    assert_eq!(compiled.prefix, "(data ->> ");
    assert_eq!(compiled.infix, ")=");
    assert_eq!(compiled.attribute, hostile);
    assert_eq!(compiled.value, Some(Param::Text(hostile.to_string())));
}
