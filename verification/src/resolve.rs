//! The resolver: from a schema node and a context name to a node of the type model.

use vstd::prelude::*;
use vstd::string::*;
use inflector::cases::pascalcase::to_pascal_case;
use inflector::string::singularize::to_singular;
use crate::naming::{
    field_identifier, field_rename, pascal_case, reference_name, reference_target, replacement,
    singular,
};
use crate::report::{Diagnostic, Failure, Notice, ResolveError};
use crate::schema::{branches_model, entries_model, required_model, JsonSchema, SchemaModel};
use crate::text::{holds_name, same_text, text_model};
use crate::types::{
    fields_model, variants_model, EnumModel, FieldModel, JsonEnum, JsonEnumVariant, JsonObject,
    JsonObjectFieldInfo, ObjectModel, PropType, TypeModel, VariantModel,
};

verus! {

/// The notices that a log of diagnostics holds, in its order.
pub open spec fn log_model(log: Seq<Diagnostic>) -> Seq<Notice> {
    Seq::new(log.len(), |i: int| log[i]@)
}

/// The pairs of reserved word and identifier that a table holds, in its order.
pub open spec fn words_model(reserved: Seq<(String, String)>) -> Seq<(Seq<char>, Seq<char>)> {
    Seq::new(reserved.len(), |i: int| (reserved[i].0@, reserved[i].1@))
}

/// The model of what the resolver returns.
pub open spec fn outcome_model(r: Result<PropType, ResolveError>) -> Result<TypeModel, Failure> {
    match r {
        Ok(t) => Ok(t@),
        Err(e) => Err(e@),
    }
}

/// The primitive type that a `type` keyword names, if it names one.
pub open spec fn primitive(ty: Seq<char>) -> Option<TypeModel> {
    if ty == "boolean"@ {
        Some(TypeModel::Bool)
    } else if ty == "string"@ {
        Some(TypeModel::Str)
    } else if ty == "integer"@ {
        Some(TypeModel::Int)
    } else if ty == "number"@ {
        Some(TypeModel::Num)
    } else if ty == "null"@ {
        Some(TypeModel::Null)
    } else {
        None
    }
}

/// Whether a property is required: the node has a `required` list, and the
/// list holds the property's name.
pub open spec fn is_required(required: Option<Seq<Seq<char>>>, property: Seq<char>) -> bool {
    match required {
        Some(names) => names.contains(property),
        None => false,
    }
}

/// What a schema node resolves to under the context name `name`, with
/// `depth` levels of nesting left, the node's own level counted, and with
/// `reserved` as the table of reserved words.
///
/// The first of these that applies decides:
/// - no level is left: the resolution fails;
/// - the node has a reference: a reference node, named after the reference
///   string alone;
/// - the node has `oneOf`: a tagged union named `name`, with a variant for
///   each branch;
/// - the node has no `type`: the resolution fails;
/// - the `type` is primitive: that primitive;
/// - the `type` is "array": an array of what `items` resolves to under the
///   singular of `name`; without `items` the resolution fails;
/// - the `type` is "object": with `patternProperties`, a map to what the
///   first pattern's schema resolves to under `name`; else with `properties`,
///   a structure named `name`, with a field for each property; with neither,
///   or with `patternProperties` that holds no entry, the resolution fails;
/// - any other `type`: the resolution fails.
///
/// What is resolved below the node has one level less left, and a failure
/// down there is the failure of the node.
pub open spec fn resolve(
    schema: SchemaModel,
    name: Seq<char>,
    reserved: Seq<(Seq<char>, Seq<char>)>,
    depth: nat,
) -> Result<TypeModel, Failure>
    decreases depth, 0nat, 0nat,
{
    if depth == 0 {
        Err(Failure::TooDeep { context: name })
    } else if schema.definition_ref is Some {
        Ok(TypeModel::Ref(reference_name(schema.definition_ref->0)))
    } else if schema.one_of is Some {
        match resolve_variants(schema.one_of->0, name, reserved, (depth - 1) as nat) {
            Ok(variants) => Ok(TypeModel::Enum(EnumModel { name, variants })),
            Err(e) => Err(e),
        }
    } else if schema.ty is None {
        Err(Failure::Unresolvable { context: name, declared: None })
    } else if primitive(schema.ty->0) is Some {
        Ok(primitive(schema.ty->0)->0)
    } else if schema.ty->0 == "array"@ {
        match schema.items {
            None => Err(Failure::MissingItems { context: name }),
            Some(item) => match resolve(*item, singular(name), reserved, (depth - 1) as nat) {
                Ok(t) => Ok(TypeModel::Arr(Box::new(t))),
                Err(e) => Err(e),
            },
        }
    } else if schema.ty->0 == "object"@ {
        if schema.pattern_properties is Some {
            let entries = schema.pattern_properties->0;
            if entries.len() == 0 {
                Err(Failure::NoPatternProperty { context: name })
            } else {
                match resolve(entries[0].1, name, reserved, (depth - 1) as nat) {
                    Ok(t) => Ok(TypeModel::Dict(Box::new(t))),
                    Err(e) => Err(e),
                }
            }
        } else if schema.properties is Some {
            match resolve_fields(
                schema.properties->0,
                schema.required,
                name,
                reserved,
                (depth - 1) as nat,
            ) {
                Ok(fields) => Ok(TypeModel::Obj(ObjectModel { name, fields })),
                Err(e) => Err(e),
            }
        } else {
            Err(Failure::MissingProperties { context: name })
        }
    } else {
        Err(Failure::Unresolvable { context: name, declared: schema.ty })
    }
}

/// The variant that one `oneOf` branch gives: named by the context name
/// followed by the branch's `id` in type-name casing, and holding what the
/// branch resolves to under that name.
pub open spec fn resolve_variant(
    branch: SchemaModel,
    name: Seq<char>,
    reserved: Seq<(Seq<char>, Seq<char>)>,
    depth: nat,
) -> Result<VariantModel, Failure>
    decreases depth, 1nat, 0nat,
{
    match branch.id {
        None => Err(Failure::MissingBranchId { context: name }),
        Some(id) => {
            let variant_name = name + pascal_case(id);
            match resolve(branch, variant_name, reserved, depth) {
                Ok(t) => Ok(VariantModel { name: variant_name, inner: t }),
                Err(e) => Err(e),
            }
        },
    }
}

/// The variants of the branches, in their order; the first branch that
/// fails decides the failure.
pub open spec fn resolve_variants(
    branches: Seq<SchemaModel>,
    name: Seq<char>,
    reserved: Seq<(Seq<char>, Seq<char>)>,
    depth: nat,
) -> Result<Seq<VariantModel>, Failure>
    decreases depth, 2nat, branches.len(),
{
    if branches.len() == 0 {
        Ok(Seq::empty())
    } else {
        match resolve_variants(branches.drop_last(), name, reserved, depth) {
            Err(e) => Err(e),
            Ok(variants) => match resolve_variant(branches.last(), name, reserved, depth) {
                Ok(v) => Ok(variants.push(v)),
                Err(e) => Err(e),
            },
        }
    }
}

/// The field that one property gives: its type is what the property's schema
/// resolves to under the context name followed by the property's name in
/// type-name casing, wrapped as optional unless the property is required.
pub open spec fn resolve_field(
    property: (Seq<char>, SchemaModel),
    required: Option<Seq<Seq<char>>>,
    name: Seq<char>,
    reserved: Seq<(Seq<char>, Seq<char>)>,
    depth: nat,
) -> Result<FieldModel, Failure>
    decreases depth, 1nat, 0nat,
{
    match resolve(property.1, name + pascal_case(property.0), reserved, depth) {
        Ok(t) => Ok(
            FieldModel {
                name: field_identifier(reserved, property.0),
                ty: if is_required(required, property.0) {
                    t
                } else {
                    TypeModel::Optional(Box::new(t))
                },
                rename: field_rename(reserved, property.0),
            },
        ),
        Err(e) => Err(e),
    }
}

/// The fields of the properties, in their order; the first property that
/// fails decides the failure.
pub open spec fn resolve_fields(
    properties: Seq<(Seq<char>, SchemaModel)>,
    required: Option<Seq<Seq<char>>>,
    name: Seq<char>,
    reserved: Seq<(Seq<char>, Seq<char>)>,
    depth: nat,
) -> Result<Seq<FieldModel>, Failure>
    decreases depth, 2nat, properties.len(),
{
    if properties.len() == 0 {
        Ok(Seq::empty())
    } else {
        match resolve_fields(properties.drop_last(), required, name, reserved, depth) {
            Err(e) => Err(e),
            Ok(fields) => match resolve_field(properties.last(), required, name, reserved, depth) {
                Ok(f) => Ok(fields.push(f)),
                Err(e) => Err(e),
            },
        }
    }
}

/// The notices that resolving a schema node gives rise to, in the order of
/// the walk and up to its first failure: one for each node that is resolved
/// as a structure and whose `properties` holds no entry.
pub open spec fn notices(
    schema: SchemaModel,
    name: Seq<char>,
    reserved: Seq<(Seq<char>, Seq<char>)>,
    depth: nat,
) -> Seq<Notice>
    decreases depth, 0nat, 0nat,
{
    if depth == 0 || schema.definition_ref is Some {
        Seq::empty()
    } else if schema.one_of is Some {
        variants_notices(schema.one_of->0, name, reserved, (depth - 1) as nat)
    } else if schema.ty is None || primitive(schema.ty->0) is Some {
        Seq::empty()
    } else if schema.ty->0 == "array"@ {
        match schema.items {
            None => Seq::empty(),
            Some(item) => notices(*item, singular(name), reserved, (depth - 1) as nat),
        }
    } else if schema.ty->0 == "object"@ {
        if schema.pattern_properties is Some {
            let entries = schema.pattern_properties->0;
            if entries.len() == 0 {
                Seq::empty()
            } else {
                notices(entries[0].1, name, reserved, (depth - 1) as nat)
            }
        } else if schema.properties is Some {
            let properties = schema.properties->0;
            if properties.len() == 0 {
                seq![Notice::EmptyObject { context: name }]
            } else {
                fields_notices(properties, schema.required, name, reserved, (depth - 1) as nat)
            }
        } else {
            Seq::empty()
        }
    } else {
        Seq::empty()
    }
}

/// The notices that one `oneOf` branch gives rise to.
pub open spec fn variant_notices(
    branch: SchemaModel,
    name: Seq<char>,
    reserved: Seq<(Seq<char>, Seq<char>)>,
    depth: nat,
) -> Seq<Notice>
    decreases depth, 1nat, 0nat,
{
    match branch.id {
        None => Seq::empty(),
        Some(id) => notices(branch, name + pascal_case(id), reserved, depth),
    }
}

/// The notices of the branches up to the first that fails, that one included.
pub open spec fn variants_notices(
    branches: Seq<SchemaModel>,
    name: Seq<char>,
    reserved: Seq<(Seq<char>, Seq<char>)>,
    depth: nat,
) -> Seq<Notice>
    decreases depth, 2nat, branches.len(),
{
    if branches.len() == 0 {
        Seq::empty()
    } else {
        let earlier = variants_notices(branches.drop_last(), name, reserved, depth);
        if resolve_variants(branches.drop_last(), name, reserved, depth) is Ok {
            earlier + variant_notices(branches.last(), name, reserved, depth)
        } else {
            earlier
        }
    }
}

/// The notices of the properties up to the first that fails, that one included.
pub open spec fn fields_notices(
    properties: Seq<(Seq<char>, SchemaModel)>,
    required: Option<Seq<Seq<char>>>,
    name: Seq<char>,
    reserved: Seq<(Seq<char>, Seq<char>)>,
    depth: nat,
) -> Seq<Notice>
    decreases depth, 2nat, properties.len(),
{
    if properties.len() == 0 {
        Seq::empty()
    } else {
        let earlier = fields_notices(properties.drop_last(), required, name, reserved, depth);
        if resolve_fields(properties.drop_last(), required, name, reserved, depth) is Ok {
            earlier + notices(
                properties.last().1,
                name + pascal_case(properties.last().0),
                reserved,
                depth,
            )
        } else {
            earlier
        }
    }
}

/// The primitive type node that a `type` keyword names, if it names one.
fn primitive_type(ty: &String) -> (r: Option<PropType>)
    ensures
        match r {
            Some(t) => primitive(ty@) == Some(t@),
            None => primitive(ty@) is None,
        },
{
    if same_text(ty, "boolean") {
        Some(PropType::Bool)
    } else if same_text(ty, "string") {
        Some(PropType::Str)
    } else if same_text(ty, "integer") {
        Some(PropType::Int)
    } else if same_text(ty, "number") {
        Some(PropType::Num)
    } else if same_text(ty, "null") {
        Some(PropType::Null)
    } else {
        None
    }
}

/// The identifier that the first entry of the table for `property` gives, if
/// there is one.
fn replacement_for(reserved: &Vec<(String, String)>, property: &String) -> (r: Option<String>)
    ensures
        text_model(r) == replacement(words_model(reserved@), property@),
{
    let ghost words = words_model(reserved@);
    let mut i: usize = 0;
    assert(words.subrange(0, words.len() as int) == words);
    while i < reserved.len()
        invariant
            i <= reserved.len(),
            words == words_model(reserved@),
            replacement(words, property@) == replacement(
                words.subrange(i as int, words.len() as int),
                property@,
            ),
        decreases reserved.len() - i,
    {
        proof {
            let rest = words.subrange(i as int, words.len() as int);
            assert(rest.drop_first() == words.subrange(i as int + 1, words.len() as int));
        }
        if reserved[i].0 == *property {
            return Some(reserved[i].1.clone());
        }
        i = i + 1;
    }
    None
}

/// The identifier of the field that stands for `property`, and the name
/// that the field records beside it.
fn name_field(reserved: &Vec<(String, String)>, property: &String) -> (r: (String, Option<String>))
    ensures
        r.0@ == field_identifier(words_model(reserved@), property@),
        text_model(r.1) == field_rename(words_model(reserved@), property@),
{
    let identifier = match replacement_for(reserved, property) {
        Some(identifier) => identifier,
        None => property.clone(),
    };
    let rename = if identifier == *property {
        None
    } else {
        Some(property.clone())
    };
    (identifier, rename)
}

/// Once a prefix of the branches has failed, the whole list fails in the
/// same way and gives rise to the same notices.
proof fn lemma_variants_failure_decides(
    branches: Seq<SchemaModel>,
    name: Seq<char>,
    reserved: Seq<(Seq<char>, Seq<char>)>,
    depth: nat,
    k: int,
)
    requires
        0 <= k <= branches.len(),
        resolve_variants(branches.take(k), name, reserved, depth) is Err,
    ensures
        resolve_variants(branches, name, reserved, depth) == resolve_variants(
            branches.take(k),
            name,
            reserved,
            depth,
        ),
        variants_notices(branches, name, reserved, depth) == variants_notices(
            branches.take(k),
            name,
            reserved,
            depth,
        ),
    decreases branches.len(),
{
    if k == branches.len() {
        assert(branches.take(k) == branches);
    } else {
        assert(branches.drop_last().take(k) == branches.take(k));
        lemma_variants_failure_decides(branches.drop_last(), name, reserved, depth, k);
    }
}

/// Once a prefix of the properties has failed, the whole list fails in the
/// same way and gives rise to the same notices.
proof fn lemma_fields_failure_decides(
    properties: Seq<(Seq<char>, SchemaModel)>,
    required: Option<Seq<Seq<char>>>,
    name: Seq<char>,
    reserved: Seq<(Seq<char>, Seq<char>)>,
    depth: nat,
    k: int,
)
    requires
        0 <= k <= properties.len(),
        resolve_fields(properties.take(k), required, name, reserved, depth) is Err,
    ensures
        resolve_fields(properties, required, name, reserved, depth) == resolve_fields(
            properties.take(k),
            required,
            name,
            reserved,
            depth,
        ),
        fields_notices(properties, required, name, reserved, depth) == fields_notices(
            properties.take(k),
            required,
            name,
            reserved,
            depth,
        ),
    decreases properties.len(),
{
    if k == properties.len() {
        assert(properties.take(k) == properties);
    } else {
        assert(properties.drop_last().take(k) == properties.take(k));
        lemma_fields_failure_decides(properties.drop_last(), required, name, reserved, depth, k);
    }
}

/// Resolves one schema node under the context name `name`, with `depth`
/// levels of nesting left, and appends to `log` the diagnostics met on the way.
fn resolve_node(
    schema: &JsonSchema,
    name: &str,
    reserved: &Vec<(String, String)>,
    depth: usize,
    log: &mut Vec<Diagnostic>,
) -> (r: Result<PropType, ResolveError>)
    ensures
        outcome_model(r) == resolve(schema@, name@, words_model(reserved@), depth as nat),
        log_model(final(log)@) == log_model(old(log)@) + notices(
            schema@,
            name@,
            words_model(reserved@),
            depth as nat,
        ),
    decreases depth, 0nat,
{
    if depth == 0 {
        return Err(ResolveError::TooDeep { context: String::from_str(name) });
    }
    match &schema.definition_ref {
        Some(reference) => {
            return Ok(PropType::Ref(reference_target(reference.as_str())));
        },
        None => {},
    }
    match &schema.one_of {
        Some(branches) => {
            return match resolve_branches(branches, name, reserved, depth - 1, log) {
                Ok(variants) => {
                    let union = JsonEnum { name: String::from_str(name), variants };
                    assert(union@ == EnumModel {
                        name: name@,
                        variants: variants_model(variants@),
                    });
                    Ok(PropType::Enum(union))
                },
                Err(e) => Err(e),
            };
        },
        None => {},
    }
    let ty = match &schema.ty {
        Some(ty) => ty,
        None => {
            return Err(
                ResolveError::Unresolvable { context: String::from_str(name), declared: None },
            );
        },
    };
    match primitive_type(ty) {
        Some(t) => {
            return Ok(t);
        },
        None => {},
    }
    if same_text(ty, "array") {
        match &schema.items {
            None => Err(ResolveError::MissingItems { context: String::from_str(name) }),
            Some(item) => {
                let item_name = to_singular(name);
                match resolve_node(item, item_name.as_str(), reserved, depth - 1, log) {
                    Ok(t) => Ok(PropType::Arr(Box::new(t))),
                    Err(e) => Err(e),
                }
            },
        }
    } else if same_text(ty, "object") {
        match &schema.pattern_properties {
            Some(entries) => {
                assert(entries_model(entries@).len() == entries.len());
                if entries.len() == 0 {
                    Err(ResolveError::NoPatternProperty { context: String::from_str(name) })
                } else {
                    match resolve_node(&entries[0].1, name, reserved, depth - 1, log) {
                        Ok(t) => Ok(PropType::Dict(Box::new(t))),
                        Err(e) => Err(e),
                    }
                }
            },
            None => match &schema.properties {
                Some(properties) => {
                    if properties.len() == 0 {
                        log.push(Diagnostic::EmptyObject { context: String::from_str(name) });
                    }
                    match resolve_properties(
                        properties,
                        &schema.required,
                        name,
                        reserved,
                        depth - 1,
                        log,
                    ) {
                        Ok(fields) => {
                            let object = JsonObject { name: String::from_str(name), fields };
                            assert(object@ == ObjectModel {
                                name: name@,
                                fields: fields_model(fields@),
                            });
                            Ok(PropType::Obj(object))
                        },
                        Err(e) => Err(e),
                    }
                },
                None => Err(ResolveError::MissingProperties { context: String::from_str(name) }),
            },
        }
    } else {
        Err(
            ResolveError::Unresolvable {
                context: String::from_str(name),
                declared: Some(ty.clone()),
            },
        )
    }
}

/// Resolves the branches of a `oneOf` into variants, in their order.
fn resolve_branches(
    branches: &Vec<JsonSchema>,
    name: &str,
    reserved: &Vec<(String, String)>,
    depth: usize,
    log: &mut Vec<Diagnostic>,
) -> (r: Result<Vec<JsonEnumVariant>, ResolveError>)
    ensures
        match r {
            Ok(variants) => resolve_variants(
                branches_model(branches@),
                name@,
                words_model(reserved@),
                depth as nat,
            ) == Ok::<Seq<VariantModel>, Failure>(variants_model(variants@)),
            Err(e) => resolve_variants(
                branches_model(branches@),
                name@,
                words_model(reserved@),
                depth as nat,
            ) == Err::<Seq<VariantModel>, Failure>(e@),
        },
        log_model(final(log)@) == log_model(old(log)@) + variants_notices(
            branches_model(branches@),
            name@,
            words_model(reserved@),
            depth as nat,
        ),
    decreases depth, 1nat,
{
    let ghost models = branches_model(branches@);
    let ghost words = words_model(reserved@);
    let ghost before = log_model(log@);
    let mut variants: Vec<JsonEnumVariant> = Vec::new();
    let mut i: usize = 0;
    assert(variants_model(variants@) == Seq::<VariantModel>::empty());
    while i < branches.len()
        invariant
            i <= branches.len(),
            models == branches_model(branches@),
            words == words_model(reserved@),
            before == log_model(old(log)@),
            resolve_variants(models.take(i as int), name@, words, depth as nat) == Ok::<
                Seq<VariantModel>,
                Failure,
            >(variants_model(variants@)),
            log_model(log@) == before + variants_notices(
                models.take(i as int),
                name@,
                words,
                depth as nat,
            ),
        decreases branches.len() - i,
    {
        let branch = &branches[i];
        assert(models.take(i as int + 1).drop_last() == models.take(i as int));
        let id = match &branch.id {
            Some(id) => id,
            None => {
                proof {
                    assert(variant_notices(branch@, name@, words, depth as nat)
                        == Seq::<Notice>::empty());
                    lemma_variants_failure_decides(
                        models,
                        name@,
                        words,
                        depth as nat,
                        i as int + 1,
                    );
                }
                return Err(ResolveError::MissingBranchId { context: String::from_str(name) });
            },
        };
        let variant_name = String::from_str(name).concat(to_pascal_case(id.as_str()).as_str());
        assert(variant_notices(branch@, name@, words, depth as nat) == notices(
            branch@,
            variant_name@,
            words,
            depth as nat,
        ));
        match resolve_node(branch, variant_name.as_str(), reserved, depth, log) {
            Ok(inner) => {
                let ghost listed = variants@;
                variants.push(JsonEnumVariant { name: variant_name, inner });
                assert(variants_model(variants@) == variants_model(listed).push(
                    variants@.last()@,
                ));
            },
            Err(e) => {
                proof {
                    assert(resolve_variant(branch@, name@, words, depth as nat) is Err);
                    lemma_variants_failure_decides(
                        models,
                        name@,
                        words,
                        depth as nat,
                        i as int + 1,
                    );
                }
                return Err(e);
            },
        }
        i = i + 1;
    }
    assert(models.take(i as int) == models);
    Ok(variants)
}

/// Resolves the properties of an object into fields, in their order.
fn resolve_properties(
    properties: &Vec<(String, JsonSchema)>,
    required: &Option<Vec<String>>,
    name: &str,
    reserved: &Vec<(String, String)>,
    depth: usize,
    log: &mut Vec<Diagnostic>,
) -> (r: Result<Vec<JsonObjectFieldInfo>, ResolveError>)
    ensures
        match r {
            Ok(fields) => resolve_fields(
                entries_model(properties@),
                required_model(*required),
                name@,
                words_model(reserved@),
                depth as nat,
            ) == Ok::<Seq<FieldModel>, Failure>(fields_model(fields@)),
            Err(e) => resolve_fields(
                entries_model(properties@),
                required_model(*required),
                name@,
                words_model(reserved@),
                depth as nat,
            ) == Err::<Seq<FieldModel>, Failure>(e@),
        },
        log_model(final(log)@) == log_model(old(log)@) + fields_notices(
            entries_model(properties@),
            required_model(*required),
            name@,
            words_model(reserved@),
            depth as nat,
        ),
    decreases depth, 1nat,
{
    let ghost models = entries_model(properties@);
    let ghost needed = required_model(*required);
    let ghost words = words_model(reserved@);
    let ghost before = log_model(log@);
    let mut fields: Vec<JsonObjectFieldInfo> = Vec::new();
    let mut i: usize = 0;
    assert(fields_model(fields@) == Seq::<FieldModel>::empty());
    while i < properties.len()
        invariant
            i <= properties.len(),
            models == entries_model(properties@),
            needed == required_model(*required),
            words == words_model(reserved@),
            before == log_model(old(log)@),
            resolve_fields(models.take(i as int), needed, name@, words, depth as nat) == Ok::<
                Seq<FieldModel>,
                Failure,
            >(fields_model(fields@)),
            log_model(log@) == before + fields_notices(
                models.take(i as int),
                needed,
                name@,
                words,
                depth as nat,
            ),
        decreases properties.len() - i,
    {
        let property = &properties[i];
        let ghost seen = models.take(i as int + 1);
        assert(seen.drop_last() == models.take(i as int));
        let field_context = String::from_str(name).concat(
            to_pascal_case(property.0.as_str()).as_str(),
        );
        match resolve_node(&property.1, field_context.as_str(), reserved, depth, log) {
            Ok(t) => {
                let named = name_field(reserved, &property.0);
                let wanted = match required {
                    Some(names) => holds_name(names, &property.0),
                    None => false,
                };
                let ty = if wanted {
                    t
                } else {
                    PropType::Optional(Box::new(t))
                };
                let ghost listed = fields@;
                fields.push(JsonObjectFieldInfo { name: named.0, ty, rename: named.1 });
                assert(fields_model(fields@) == fields_model(listed).push(fields@.last()@));
            },
            Err(e) => {
                proof {
                    assert(resolve_field(seen.last(), needed, name@, words, depth as nat) is Err);
                    lemma_fields_failure_decides(
                        models,
                        needed,
                        name@,
                        words,
                        depth as nat,
                        i as int + 1,
                    );
                }
                return Err(e);
            },
        }
        i = i + 1;
    }
    assert(models.take(i as int) == models);
    Ok(fields)
}

/// How many levels of nested schema nodes are resolved where nothing else
/// is asked for, the top node counted.
pub const DEPTH_LIMIT: usize = 128;

/// What a caller may choose about the resolution of a document.
#[derive(Debug, PartialEq, Eq)]
pub struct ResolveOptions {
    /// How many levels of nested schema nodes are resolved, the top node
    /// counted; a node below them fails the resolution.
    pub depth_limit: usize,
    /// The property names that cannot serve as field identifiers, each with
    /// the identifier that takes its place. The first entry for a name counts.
    pub reserved_words: Vec<(String, String)>,
}

/// The reserved words where nothing else is asked for: `type` becomes `ty`,
/// and `self` becomes `slf`.
pub open spec fn standard_words() -> Seq<(Seq<char>, Seq<char>)> {
    seq![("type"@, "ty"@), ("self"@, "slf"@)]
}

impl Clone for ResolveOptions {
    fn clone(&self) -> (r: Self)
        ensures
            r.depth_limit == self.depth_limit,
            words_model(r.reserved_words@) == words_model(self.reserved_words@),
    {
        let mut reserved_words: Vec<(String, String)> = Vec::new();
        let mut i: usize = 0;
        while i < self.reserved_words.len()
            invariant
                i <= self.reserved_words.len(),
                reserved_words.len() == i,
                forall|j: int|
                    0 <= j < i ==> (#[trigger] reserved_words[j]).0@ == self.reserved_words[j].0@
                        && reserved_words[j].1@ == self.reserved_words[j].1@,
            decreases self.reserved_words.len() - i,
        {
            let entry = &self.reserved_words[i];
            reserved_words.push((entry.0.clone(), entry.1.clone()));
            i = i + 1;
        }
        ResolveOptions { depth_limit: self.depth_limit, reserved_words }
    }
}

impl Default for ResolveOptions {
    fn default() -> (r: Self)
        ensures
            r.depth_limit == DEPTH_LIMIT,
            words_model(r.reserved_words@) == standard_words(),
    {
        let mut reserved_words: Vec<(String, String)> = Vec::new();
        reserved_words.push((String::from_str("type"), String::from_str("ty")));
        reserved_words.push((String::from_str("self"), String::from_str("slf")));
        ResolveOptions { depth_limit: DEPTH_LIMIT, reserved_words }
    }
}

impl PropType {
    /// Resolves a schema document under the context name `name`, with the
    /// standard reserved words and depth limit, and appends to `log` the
    /// diagnostics met on the way. Where the document cannot be resolved, the
    /// failure of the first node that stops the walk is returned, and `log`
    /// has the diagnostics met before it.
    pub fn from_schema(schema: &JsonSchema, name: &str, log: &mut Vec<Diagnostic>) -> (r: Result<
        PropType,
        ResolveError,
    >)
        ensures
            outcome_model(r) == resolve(schema@, name@, standard_words(), DEPTH_LIMIT as nat),
            log_model(final(log)@) == log_model(old(log)@) + notices(
                schema@,
                name@,
                standard_words(),
                DEPTH_LIMIT as nat,
            ),
    {
        let options = ResolveOptions::default();
        resolve_node(schema, name, &options.reserved_words, options.depth_limit, log)
    }

    /// Resolves a schema document under the context name `name` as `options`
    /// say, and appends to `log` the diagnostics met on the way.
    pub fn from_schema_with(
        schema: &JsonSchema,
        name: &str,
        options: &ResolveOptions,
        log: &mut Vec<Diagnostic>,
    ) -> (r: Result<PropType, ResolveError>)
        ensures
            outcome_model(r) == resolve(
                schema@,
                name@,
                words_model(options.reserved_words@),
                options.depth_limit as nat,
            ),
            log_model(final(log)@) == log_model(old(log)@) + notices(
                schema@,
                name@,
                words_model(options.reserved_words@),
                options.depth_limit as nat,
            ),
    {
        resolve_node(schema, name, &options.reserved_words, options.depth_limit, log)
    }
}

} // verus!
