use json_schema::{
    Diagnostic, JsonEnum, JsonEnumVariant, JsonObject, JsonObjectFieldInfo, JsonSchema, PropType,
    ResolveError, ResolveOptions, DEPTH_LIMIT,
};

fn node() -> JsonSchema {
    JsonSchema {
        id: None,
        schema_ref: None,
        description: None,
        ty: None,
        properties: None,
        required: None,
        definitions: None,
        items: None,
        pattern_properties: None,
        additional_properties: false,
        definition_ref: None,
        one_of: None,
    }
}

fn typed(ty: &str) -> JsonSchema {
    JsonSchema { ty: Some(ty.to_string()), ..node() }
}

fn reference(target: &str) -> JsonSchema {
    JsonSchema { definition_ref: Some(target.to_string()), ..node() }
}

fn object(properties: Vec<(&str, JsonSchema)>) -> JsonSchema {
    JsonSchema {
        properties: Some(properties.into_iter().map(|(n, s)| (n.to_string(), s)).collect()),
        ..typed("object")
    }
}

fn array(items: JsonSchema) -> JsonSchema {
    JsonSchema { items: Some(Box::new(items)), ..typed("array") }
}

fn branch(id: &str, schema: JsonSchema) -> JsonSchema {
    JsonSchema { id: Some(id.to_string()), ..schema }
}

fn names(list: &[&str]) -> Option<Vec<String>> {
    Some(list.iter().map(|n| n.to_string()).collect())
}

fn field(name: &str, ty: PropType) -> JsonObjectFieldInfo {
    JsonObjectFieldInfo { name: name.to_string(), ty, rename: None }
}

fn optional(ty: PropType) -> PropType {
    PropType::Optional(Box::new(ty))
}

fn structure(name: &str, fields: Vec<JsonObjectFieldInfo>) -> PropType {
    PropType::Obj(JsonObject { name: name.to_string(), fields })
}

fn resolve(schema: &JsonSchema, name: &str) -> (Result<PropType, ResolveError>, Vec<Diagnostic>) {
    let mut log = Vec::new();
    let resolved = PropType::from_schema(schema, name, &mut log);
    (resolved, log)
}

fn empty_object_at(context: &str) -> Diagnostic {
    Diagnostic::EmptyObject { context: context.to_string() }
}

#[test]
fn reference_takes_last_segment_in_pascal_case() {
    let (resolved, log) = resolve(&reference("#/definitions/house_pet"), "Pet");
    assert_eq!(resolved, Ok(PropType::Ref("HousePet".to_string())));
    assert!(log.is_empty());
}

#[test]
fn reference_drops_what_follows_the_first_dot() {
    let (resolved, _) = resolve(&reference("schemas/house_pet.v2.json"), "Pet");
    assert_eq!(resolved, Ok(PropType::Ref("HousePet".to_string())));
}

#[test]
fn reference_wins_over_one_of_and_type() {
    let schema = JsonSchema {
        definition_ref: Some("#/definitions/owner".to_string()),
        one_of: Some(vec![branch("cat", typed("string"))]),
        ..typed("array")
    };
    let (resolved, log) = resolve(&schema, "Pet");
    assert_eq!(resolved, Ok(PropType::Ref("Owner".to_string())));
    assert!(log.is_empty());
}

#[test]
fn reference_is_not_looked_up() {
    let schema = JsonSchema {
        definitions: Some(vec![("owner".to_string(), typed("string"))]),
        ..reference("#/definitions/nobody")
    };
    let (resolved, _) = resolve(&schema, "Pet");
    assert_eq!(resolved, Ok(PropType::Ref("Nobody".to_string())));
}

#[test]
fn primitives_resolve_to_their_nodes() {
    assert_eq!(resolve(&typed("boolean"), "X").0, Ok(PropType::Bool));
    assert_eq!(resolve(&typed("string"), "X").0, Ok(PropType::Str));
    assert_eq!(resolve(&typed("integer"), "X").0, Ok(PropType::Int));
    assert_eq!(resolve(&typed("number"), "X").0, Ok(PropType::Num));
    assert_eq!(resolve(&typed("null"), "X").0, Ok(PropType::Null));
}

#[test]
fn reserved_property_name_is_replaced_and_recorded() {
    let schema = JsonSchema {
        required: names(&["type"]),
        ..object(vec![("type", typed("string"))])
    };
    let (resolved, log) = resolve(&schema, "Thing");
    let resolved = resolved.unwrap();
    let expected = structure(
        "Thing",
        vec![JsonObjectFieldInfo {
            name: "ty".to_string(),
            ty: PropType::Str,
            rename: Some("type".to_string()),
        }],
    );
    assert_eq!(resolved, expected);
    match resolved {
        PropType::Obj(o) => {
            assert_ne!(o.fields[0].name, "type");
            assert!(!matches!(o.fields[0].ty, PropType::Optional(_)));
            assert_eq!(o.fields[0].rename.as_deref(), Some("type"));
            assert_eq!(o.fields[0].property_name(), "type");
        }
        other => panic!("not an object: {:?}", other),
    }
    assert!(log.is_empty());
}

#[test]
fn self_is_reserved_too() {
    let schema = object(vec![("self", typed("integer")), ("selfish", typed("integer"))]);
    let (resolved, _) = resolve(&schema, "Thing");
    let expected = structure(
        "Thing",
        vec![
            JsonObjectFieldInfo {
                name: "slf".to_string(),
                ty: optional(PropType::Int),
                rename: Some("self".to_string()),
            },
            field("selfish", optional(PropType::Int)),
        ],
    );
    assert_eq!(resolved, Ok(expected));
}

#[test]
fn object_without_properties_is_empty_and_noted_once() {
    let (resolved, log) = resolve(&object(vec![]), "Thing");
    assert_eq!(resolved, Ok(structure("Thing", vec![])));
    assert_eq!(log, vec![empty_object_at("Thing")]);
    assert_eq!(log.len(), 1);
}

#[test]
fn array_without_items_fails() {
    let (resolved, log) = resolve(&typed("array"), "Things");
    assert_eq!(resolved, Err(ResolveError::MissingItems { context: "Things".to_string() }));
    assert!(log.is_empty());
}

#[test]
fn required_properties_are_plain_and_the_others_optional() {
    let schema = JsonSchema {
        required: names(&["id", "tags"]),
        ..object(vec![
            ("id", typed("integer")),
            ("nick_name", typed("string")),
            ("tags", array(typed("string"))),
            ("owner", reference("#/definitions/owner")),
        ])
    };
    let (resolved, log) = resolve(&schema, "Pet");
    let expected = structure(
        "Pet",
        vec![
            field("id", PropType::Int),
            field("nick_name", optional(PropType::Str)),
            field("tags", PropType::Arr(Box::new(PropType::Str))),
            field("owner", optional(PropType::Ref("Owner".to_string()))),
        ],
    );
    assert_eq!(resolved, Ok(expected));
    assert!(log.is_empty());
}

#[test]
fn required_list_that_names_nothing_declared_leaves_all_optional() {
    let schema = JsonSchema {
        required: names(&["elsewhere"]),
        ..object(vec![("id", typed("integer"))])
    };
    let (resolved, _) = resolve(&schema, "Pet");
    assert_eq!(resolved, Ok(structure("Pet", vec![field("id", optional(PropType::Int))])));
}

#[test]
fn without_required_list_every_property_is_optional() {
    let schema = object(vec![("id", typed("integer")), ("required", typed("boolean"))]);
    let (resolved, _) = resolve(&schema, "Pet");
    let expected = structure(
        "Pet",
        vec![field("id", optional(PropType::Int)), field("required", optional(PropType::Bool))],
    );
    assert_eq!(resolved, Ok(expected));
}

#[test]
fn fields_keep_the_declared_order() {
    let schema =
        object(vec![("zeta", typed("null")), ("alpha", typed("null")), ("mid", typed("null"))]);
    let (resolved, _) = resolve(&schema, "Pet");
    match resolved {
        Ok(PropType::Obj(o)) => {
            let order: Vec<&str> = o.fields.iter().map(|f| f.name.as_str()).collect();
            assert_eq!(order, vec!["zeta", "alpha", "mid"]);
        }
        other => panic!("not an object: {:?}", other),
    }
}

#[test]
fn nested_object_is_named_by_context_and_property() {
    let schema = JsonSchema {
        required: names(&["house_pet"]),
        ..object(vec![("house_pet", object(vec![("name", typed("string"))]))])
    };
    let (resolved, _) = resolve(&schema, "Owner");
    let inner = structure("OwnerHousePet", vec![field("name", optional(PropType::Str))]);
    assert_eq!(resolved, Ok(structure("Owner", vec![field("house_pet", inner)])));
}

#[test]
fn array_wraps_items_under_the_singular_name() {
    let (resolved, log) = resolve(&array(object(vec![])), "Pets");
    assert_eq!(resolved, Ok(PropType::Arr(Box::new(structure("Pet", vec![])))));
    assert_eq!(log, vec![empty_object_at("Pet")]);
}

#[test]
fn array_is_what_its_items_are_under_the_singular_name() {
    let items = object(vec![("id", typed("integer"))]);
    let (whole, _) = resolve(&array(items.clone()), "Boxes");
    let (inner, _) = resolve(&items, "Box");
    assert_eq!(whole, Ok(PropType::Arr(Box::new(inner.unwrap()))));
}

#[test]
fn array_of_arrays_nests() {
    let (resolved, _) = resolve(&array(array(typed("number"))), "Rows");
    let expected = PropType::Arr(Box::new(PropType::Arr(Box::new(PropType::Num))));
    assert_eq!(resolved, Ok(expected));
}

#[test]
fn one_of_gives_a_variant_for_each_branch() {
    let schema = JsonSchema {
        one_of: Some(vec![
            branch("cat", typed("string")),
            branch("guard_dog", object(vec![])),
            branch("bird", reference("#/definitions/bird")),
        ]),
        ..node()
    };
    let (resolved, log) = resolve(&schema, "Pet");
    let expected = PropType::Enum(JsonEnum {
        name: "Pet".to_string(),
        variants: vec![
            JsonEnumVariant { name: "PetCat".to_string(), inner: PropType::Str },
            JsonEnumVariant {
                name: "PetGuardDog".to_string(),
                inner: structure("PetGuardDog", vec![]),
            },
            JsonEnumVariant {
                name: "PetBird".to_string(),
                inner: PropType::Ref("Bird".to_string()),
            },
        ],
    });
    assert_eq!(resolved, Ok(expected));
    assert_eq!(log, vec![empty_object_at("PetGuardDog")]);
}

#[test]
fn one_of_without_branches_is_an_empty_union() {
    let schema = JsonSchema { one_of: Some(vec![]), ..node() };
    let (resolved, _) = resolve(&schema, "Pet");
    let expected = PropType::Enum(JsonEnum { name: "Pet".to_string(), variants: vec![] });
    assert_eq!(resolved, Ok(expected));
}

#[test]
fn one_of_wins_over_type() {
    let schema = JsonSchema { one_of: Some(vec![branch("cat", typed("null"))]), ..typed("string") };
    let (resolved, _) = resolve(&schema, "Pet");
    let expected = PropType::Enum(JsonEnum {
        name: "Pet".to_string(),
        variants: vec![JsonEnumVariant { name: "PetCat".to_string(), inner: PropType::Null }],
    });
    assert_eq!(resolved, Ok(expected));
}

#[test]
fn branch_without_id_fails() {
    let schema = JsonSchema {
        one_of: Some(vec![branch("cat", typed("string")), typed("string")]),
        ..node()
    };
    let (resolved, _) = resolve(&schema, "Pet");
    assert_eq!(resolved, Err(ResolveError::MissingBranchId { context: "Pet".to_string() }));
}

#[test]
fn pattern_properties_give_a_map_under_the_same_name() {
    let schema = JsonSchema {
        pattern_properties: Some(vec![("^x-".to_string(), object(vec![]))]),
        ..typed("object")
    };
    let (resolved, log) = resolve(&schema, "Extras");
    assert_eq!(resolved, Ok(PropType::Dict(Box::new(structure("Extras", vec![])))));
    assert_eq!(log, vec![empty_object_at("Extras")]);
}

#[test]
fn pattern_properties_win_over_properties_and_use_the_first_entry() {
    let schema = JsonSchema {
        pattern_properties: Some(vec![
            ("^a".to_string(), typed("integer")),
            ("^b".to_string(), typed("string")),
        ]),
        ..object(vec![("id", typed("boolean"))])
    };
    let (resolved, _) = resolve(&schema, "Extras");
    assert_eq!(resolved, Ok(PropType::Dict(Box::new(PropType::Int))));
}

#[test]
fn pattern_properties_without_entry_fail() {
    let schema = JsonSchema { pattern_properties: Some(vec![]), ..typed("object") };
    let (resolved, _) = resolve(&schema, "Extras");
    assert_eq!(resolved, Err(ResolveError::NoPatternProperty { context: "Extras".to_string() }));
}

#[test]
fn object_without_properties_keyword_fails() {
    let (resolved, log) = resolve(&typed("object"), "Thing");
    assert_eq!(resolved, Err(ResolveError::MissingProperties { context: "Thing".to_string() }));
    assert!(log.is_empty());
}

#[test]
fn node_without_type_is_unresolvable() {
    let (resolved, _) = resolve(&node(), "Thing");
    assert_eq!(
        resolved,
        Err(ResolveError::Unresolvable { context: "Thing".to_string(), declared: None })
    );
}

#[test]
fn unknown_type_is_unresolvable() {
    let (resolved, _) = resolve(&typed("integr"), "Thing");
    assert_eq!(
        resolved,
        Err(ResolveError::Unresolvable {
            context: "Thing".to_string(),
            declared: Some("integr".to_string()),
        })
    );
}

#[test]
fn failure_names_the_nested_context() {
    let schema = object(vec![("ok", typed("string")), ("bad_ones", typed("array"))]);
    let (resolved, _) = resolve(&schema, "Thing");
    assert_eq!(resolved, Err(ResolveError::MissingItems { context: "ThingBadOnes".to_string() }));
}

#[test]
fn first_failure_in_declared_order_decides() {
    let schema = object(vec![("first", node()), ("second", typed("array"))]);
    let (resolved, _) = resolve(&schema, "Thing");
    assert_eq!(
        resolved,
        Err(ResolveError::Unresolvable { context: "ThingFirst".to_string(), declared: None })
    );
}

#[test]
fn diagnostics_before_a_failure_are_kept_and_later_ones_never_come() {
    let schema = object(vec![
        ("early", object(vec![])),
        ("broken", typed("array")),
        ("late", object(vec![])),
    ]);
    let (resolved, log) = resolve(&schema, "Thing");
    assert_eq!(resolved, Err(ResolveError::MissingItems { context: "ThingBroken".to_string() }));
    assert_eq!(log, vec![empty_object_at("ThingEarly")]);
}

#[test]
fn diagnostics_come_in_the_order_of_the_walk_behind_what_the_log_held() {
    let schema = object(vec![
        ("b", object(vec![])),
        ("a", array(object(vec![]))),
    ]);
    let mut log = vec![empty_object_at("Before")];
    let resolved = PropType::from_schema(&schema, "Top", &mut log);
    assert!(resolved.is_ok());
    assert_eq!(
        log,
        vec![empty_object_at("Before"), empty_object_at("TopB"), empty_object_at("TopA")]
    );
}

fn nested_arrays(levels: usize) -> JsonSchema {
    let mut schema = typed("string");
    for _ in 1..levels {
        schema = array(schema);
    }
    schema
}

#[test]
fn depth_limit_counts_the_top_node() {
    let options = ResolveOptions { depth_limit: 3, ..ResolveOptions::default() };
    let mut log = Vec::new();
    let fits = PropType::from_schema_with(&nested_arrays(3), "Rows", &options, &mut log);
    let expected = PropType::Arr(Box::new(PropType::Arr(Box::new(PropType::Str))));
    assert_eq!(fits, Ok(expected));
    let too_deep = PropType::from_schema_with(&nested_arrays(4), "Rows", &options, &mut log);
    assert_eq!(too_deep, Err(ResolveError::TooDeep { context: "Row".to_string() }));
}

#[test]
fn depth_limit_of_zero_resolves_nothing() {
    let options = ResolveOptions { depth_limit: 0, ..ResolveOptions::default() };
    let mut log = Vec::new();
    let resolved = PropType::from_schema_with(&typed("string"), "Name", &options, &mut log);
    assert_eq!(resolved, Err(ResolveError::TooDeep { context: "Name".to_string() }));
}

#[test]
fn standard_depth_limit_is_kept() {
    assert_eq!(DEPTH_LIMIT, 128);
    assert_eq!(ResolveOptions::default().depth_limit, DEPTH_LIMIT);
    assert!(resolve(&nested_arrays(DEPTH_LIMIT), "X").0.is_ok());
    assert!(matches!(
        resolve(&nested_arrays(DEPTH_LIMIT + 1), "X").0,
        Err(ResolveError::TooDeep { .. })
    ));
}

#[test]
fn a_higher_limit_changes_nothing_where_the_lower_one_sufficed() {
    let schema = object(vec![("rows", array(array(object(vec![])))), ("bad", typed("array"))]);
    let low = ResolveOptions { depth_limit: 4, ..ResolveOptions::default() };
    let high = ResolveOptions { depth_limit: 5, ..ResolveOptions::default() };
    let mut low_log = Vec::new();
    let mut high_log = Vec::new();
    let with_low = PropType::from_schema_with(&schema, "T", &low, &mut low_log);
    let with_high = PropType::from_schema_with(&schema, "T", &high, &mut high_log);
    assert_eq!(with_low, Err(ResolveError::MissingItems { context: "TBad".to_string() }));
    assert_eq!(with_low, with_high);
    assert_eq!(low_log, high_log);
}

#[test]
fn standard_reserved_words_are_type_and_self() {
    let words = ResolveOptions::default().reserved_words;
    assert_eq!(
        words,
        vec![("type".to_string(), "ty".to_string()), ("self".to_string(), "slf".to_string())]
    );
}

#[test]
fn reserved_words_can_be_chosen() {
    let options = ResolveOptions {
        depth_limit: 8,
        reserved_words: vec![
            ("class".to_string(), "klass".to_string()),
            ("class".to_string(), "never".to_string()),
            ("same".to_string(), "same".to_string()),
        ],
    };
    let schema = object(vec![
        ("class", typed("string")),
        ("type", typed("string")),
        ("same", typed("string")),
    ]);
    let mut log = Vec::new();
    let resolved = PropType::from_schema_with(&schema, "Thing", &options, &mut log);
    let expected = structure(
        "Thing",
        vec![
            JsonObjectFieldInfo {
                name: "klass".to_string(),
                ty: optional(PropType::Str),
                rename: Some("class".to_string()),
            },
            field("type", optional(PropType::Str)),
            field("same", optional(PropType::Str)),
        ],
    );
    assert_eq!(resolved, Ok(expected));
}

#[test]
fn with_standard_options_is_the_plain_resolution() {
    let schema = object(vec![("type", array(object(vec![])))]);
    let mut log = Vec::new();
    let with = PropType::from_schema_with(&schema, "Thing", &ResolveOptions::default(), &mut log);
    let (plain, plain_log) = resolve(&schema, "Thing");
    assert_eq!(with, plain);
    assert_eq!(log, plain_log);
}
