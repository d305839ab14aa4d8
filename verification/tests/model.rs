use json_schema::schema::put_entry;
use json_schema::{
    Diagnostic, JsonEnum, JsonEnumVariant, JsonObject, JsonObjectFieldInfo, JsonSchema, PropType,
    ResolveError, ResolveOptions,
};

fn node() -> JsonSchema {
    JsonSchema {
        id: None,
        schema_ref: None,
        description: None,
        ty: None,
        properties: None,
        required: None,
        definitions: None,
        items: None,
        pattern_properties: None,
        additional_properties: false,
        definition_ref: None,
        one_of: None,
    }
}

fn named(name: &str) -> (String, JsonSchema) {
    (name.to_string(), JsonSchema { ty: Some("string".to_string()), ..node() })
}

fn sample_schema() -> JsonSchema {
    JsonSchema {
        id: Some("pet".to_string()),
        schema_ref: Some("http://json-schema.org/draft-04/schema#".to_string()),
        description: Some("a pet".to_string()),
        ty: Some("object".to_string()),
        properties: Some(vec![
            named("name"),
            ("toys".to_string(), JsonSchema {
                ty: Some("array".to_string()),
                items: Some(Box::new(named("toy").1)),
                ..node()
            }),
        ]),
        required: Some(vec!["name".to_string()]),
        definitions: Some(vec![named("owner")]),
        items: None,
        pattern_properties: Some(vec![named("^x-")]),
        additional_properties: true,
        definition_ref: Some("#/definitions/owner".to_string()),
        one_of: Some(vec![JsonSchema { id: Some("cat".to_string()), ..named("cat").1 }]),
    }
}

fn sample_type() -> PropType {
    PropType::Obj(JsonObject {
        name: "Pet".to_string(),
        fields: vec![
            JsonObjectFieldInfo {
                name: "ty".to_string(),
                ty: PropType::Optional(Box::new(PropType::Arr(Box::new(PropType::Num)))),
                rename: Some("type".to_string()),
            },
            JsonObjectFieldInfo {
                name: "kind".to_string(),
                ty: PropType::Enum(JsonEnum {
                    name: "PetKind".to_string(),
                    variants: vec![JsonEnumVariant {
                        name: "PetKindCat".to_string(),
                        inner: PropType::Dict(Box::new(PropType::Ref("Cat".to_string()))),
                    }],
                }),
                rename: None,
            },
        ],
    })
}

#[test]
fn a_cloned_schema_equals_its_source() {
    let schema = sample_schema();
    assert_eq!(schema.clone(), schema);
}

#[test]
fn a_cloned_type_equals_its_source() {
    let ty = sample_type();
    assert_eq!(ty.clone(), ty);
    match &ty {
        PropType::Obj(o) => {
            assert_eq!(o.clone(), *o);
            assert_eq!(o.fields[0].clone(), o.fields[0]);
            match &o.fields[1].ty {
                PropType::Enum(e) => {
                    assert_eq!(e.clone(), *e);
                    assert_eq!(e.variants[0].clone(), e.variants[0]);
                }
                other => panic!("not a union: {:?}", other),
            }
        }
        other => panic!("not an object: {:?}", other),
    }
}

#[test]
fn cloned_failures_diagnostics_and_options_equal_their_sources() {
    let failure = ResolveError::Unresolvable {
        context: "Pet".to_string(),
        declared: Some("animal".to_string()),
    };
    assert_eq!(failure.clone(), failure);
    let diagnostic = Diagnostic::EmptyObject { context: "Pet".to_string() };
    assert_eq!(diagnostic.clone(), diagnostic);
    let options = ResolveOptions {
        depth_limit: 7,
        reserved_words: vec![("class".to_string(), "klass".to_string())],
    };
    assert_eq!(options.clone(), options);
}

#[test]
fn a_field_stands_for_the_name_it_records_or_else_its_own() {
    match sample_type() {
        PropType::Obj(o) => {
            assert_eq!(o.fields[0].property_name(), "type");
            assert_eq!(o.fields[1].property_name(), "kind");
        }
        other => panic!("not an object: {:?}", other),
    }
}

#[test]
fn sample_schema_is_well_formed() {
    assert!(sample_schema().is_well_formed());
    assert!(node().is_well_formed());
}

#[test]
fn a_name_declared_twice_is_not_well_formed() {
    let twice = Some(vec![named("a"), named("b"), named("a")]);
    assert!(!JsonSchema { properties: twice.clone(), ..node() }.is_well_formed());
    assert!(!JsonSchema { definitions: twice.clone(), ..node() }.is_well_formed());
    assert!(!JsonSchema { pattern_properties: twice, ..node() }.is_well_formed());
}

#[test]
fn a_flaw_below_the_top_is_found() {
    let flawed = JsonSchema { properties: Some(vec![named("a"), named("a")]), ..node() };
    let in_items = JsonSchema { items: Some(Box::new(flawed.clone())), ..node() };
    let in_branch = JsonSchema { one_of: Some(vec![node(), flawed.clone()]), ..node() };
    let in_property =
        JsonSchema { properties: Some(vec![named("a"), ("b".to_string(), flawed)]), ..node() };
    assert!(!in_items.is_well_formed());
    assert!(!in_branch.is_well_formed());
    assert!(!in_property.is_well_formed());
}

#[test]
fn each_failure_names_its_context_and_says_what_failed() {
    let context = "PetToys".to_string();
    let cases = vec![
        (
            ResolveError::TooDeep { context: context.clone() },
            "PetToys lies deeper than the depth limit allows",
        ),
        (
            ResolveError::MissingBranchId { context: context.clone() },
            "PetToys has a branch without an id",
        ),
        (
            ResolveError::MissingItems { context: context.clone() },
            "PetToys is an array but no schema is set for items",
        ),
        (
            ResolveError::NoPatternProperty { context: context.clone() },
            "PetToys is an object with an empty set of pattern properties",
        ),
        (
            ResolveError::MissingProperties { context: context.clone() },
            "PetToys is an object without properties",
        ),
        (
            ResolveError::Unresolvable { context: context.clone(), declared: None },
            "unresolvable schema node at PetToys",
        ),
    ];
    for (failure, message) in cases {
        assert_eq!(failure.context(), "PetToys");
        assert_eq!(failure.message(), message);
    }
}

#[test]
fn a_diagnostic_names_its_context_and_says_what_was_met() {
    let diagnostic = Diagnostic::EmptyObject { context: "Pet".to_string() };
    assert_eq!(diagnostic.context(), "Pet");
    assert_eq!(diagnostic.message(), "Pet is an object but has no properties. Likely an error.");
}

#[test]
fn putting_a_new_name_appends_it() {
    let mut map = vec![named("a"), named("b")];
    put_entry(&mut map, "c".to_string(), node());
    assert_eq!(map, vec![named("a"), named("b"), ("c".to_string(), node())]);
}

#[test]
fn putting_a_known_name_replaces_its_schema_in_place() {
    let mut map = vec![named("a"), named("b"), named("c")];
    put_entry(&mut map, "b".to_string(), node());
    assert_eq!(map, vec![named("a"), ("b".to_string(), node()), named("c")]);
}

#[test]
fn putting_keeps_a_map_well_formed() {
    let mut map = Vec::new();
    for name in ["a", "b", "a", "c", "b"] {
        put_entry(&mut map, name.to_string(), named(name).1);
    }
    let order: Vec<&str> = map.iter().map(|entry| entry.0.as_str()).collect();
    assert_eq!(order, vec!["a", "b", "c"]);
    assert!(JsonSchema { properties: Some(map), ..node() }.is_well_formed());
}
