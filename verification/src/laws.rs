//! What holds of every resolution, proved from the definitions of the resolver.

use vstd::prelude::*;
use crate::naming::{
    field_identifier, field_rename, first_dot, last_segment, pascal_case, reference_name,
    replacement, segment_start, singular, stem,
};
use crate::report::{Failure, Notice};
use crate::resolve::{
    fields_notices, is_required, notices, primitive, resolve, resolve_field, resolve_fields,
    resolve_variant, resolve_variants, standard_words, variant_notices, variants_notices,
};
use crate::schema::{entries_well_formed, position_of, with_entry, SchemaModel};
use crate::types::{FieldModel, ObjectModel, TypeModel, VariantModel};

verus! {

/// Whether a node is resolved as an object with fields: it has no reference,
/// no `oneOf` and no `patternProperties`, its `type` is "object", and it has
/// `properties`.
pub open spec fn declares_object(schema: SchemaModel) -> bool {
    &&& schema.definition_ref is None
    &&& schema.one_of is None
    &&& schema.ty == Some("object"@)
    &&& schema.pattern_properties is None
    &&& schema.properties is Some
}

/// Whether a node is resolved as an array: it has no reference and no
/// `oneOf`, and its `type` is "array".
pub open spec fn declares_array(schema: SchemaModel) -> bool {
    &&& schema.definition_ref is None
    &&& schema.one_of is None
    &&& schema.ty == Some("array"@)
}

/// Whether a node is resolved as a tagged union: it has no reference, and it
/// has `oneOf`.
pub open spec fn declares_union(schema: SchemaModel) -> bool {
    &&& schema.definition_ref is None
    &&& schema.one_of is Some
}

/// Neither "array" nor "object" names a primitive type.
pub proof fn lemma_containers_are_not_primitive()
    ensures
        primitive("array"@) is None,
        primitive("object"@) is None,
        "array"@ != "object"@,
{
    reveal_strlit("array");
    reveal_strlit("object");
    reveal_strlit("boolean");
    reveal_strlit("string");
    reveal_strlit("integer");
    reveal_strlit("number");
    reveal_strlit("null");
    assert("array"@.len() == 5 && "object"@.len() == 6);
    assert("boolean"@.len() == 7 && "integer"@.len() == 7 && "null"@.len() == 4);
    assert("object"@[0] == 'o' && "string"@[0] == 's' && "number"@[0] == 'n');
}

/// A list of properties resolves exactly when each property does, and then
/// gives one field for each property, in their order.
pub proof fn lemma_fields_one_by_one(
    properties: Seq<(Seq<char>, SchemaModel)>,
    required: Option<Seq<Seq<char>>>,
    name: Seq<char>,
    reserved: Seq<(Seq<char>, Seq<char>)>,
    depth: nat,
)
    ensures
        resolve_fields(properties, required, name, reserved, depth) is Ok <==> forall|i: int|
            0 <= i < properties.len() ==> #[trigger] resolve_field(
                properties[i],
                required,
                name,
                reserved,
                depth,
            ) is Ok,
        resolve_fields(properties, required, name, reserved, depth) matches Ok(fields) ==> {
            &&& fields.len() == properties.len()
            &&& forall|i: int|
                0 <= i < properties.len() ==> #[trigger] resolve_field(
                    properties[i],
                    required,
                    name,
                    reserved,
                    depth,
                ) == Ok::<FieldModel, Failure>(fields[i])
        },
    decreases properties.len(),
{
    if properties.len() > 0 {
        let earlier = properties.drop_last();
        lemma_fields_one_by_one(earlier, required, name, reserved, depth);
        assert(forall|i: int| 0 <= i < earlier.len() ==> earlier[i] == properties[i]);
        if forall|i: int|
            0 <= i < properties.len() ==> #[trigger] resolve_field(
                properties[i],
                required,
                name,
                reserved,
                depth,
            ) is Ok {
            assert forall|i: int| 0 <= i < earlier.len() implies #[trigger] resolve_field(
                earlier[i],
                required,
                name,
                reserved,
                depth,
            ) is Ok by {
                assert(resolve_field(properties[i], required, name, reserved, depth) is Ok);
            }
            assert(resolve_field(properties[properties.len() - 1], required, name, reserved, depth)
                is Ok);
        }
    }
}

/// A list of branches resolves exactly when each branch does, and then gives
/// one variant for each branch, in their order.
pub proof fn lemma_variants_one_by_one(
    branches: Seq<SchemaModel>,
    name: Seq<char>,
    reserved: Seq<(Seq<char>, Seq<char>)>,
    depth: nat,
)
    ensures
        resolve_variants(branches, name, reserved, depth) is Ok <==> forall|i: int|
            0 <= i < branches.len() ==> #[trigger] resolve_variant(
                branches[i],
                name,
                reserved,
                depth,
            ) is Ok,
        resolve_variants(branches, name, reserved, depth) matches Ok(variants) ==> {
            &&& variants.len() == branches.len()
            &&& forall|i: int|
                0 <= i < branches.len() ==> #[trigger] resolve_variant(
                    branches[i],
                    name,
                    reserved,
                    depth,
                ) == Ok::<VariantModel, Failure>(variants[i])
        },
    decreases branches.len(),
{
    if branches.len() > 0 {
        let earlier = branches.drop_last();
        lemma_variants_one_by_one(earlier, name, reserved, depth);
        assert(forall|i: int| 0 <= i < earlier.len() ==> earlier[i] == branches[i]);
        if forall|i: int|
            0 <= i < branches.len() ==> #[trigger] resolve_variant(
                branches[i],
                name,
                reserved,
                depth,
            ) is Ok {
            assert forall|i: int| 0 <= i < earlier.len() implies #[trigger] resolve_variant(
                earlier[i],
                name,
                reserved,
                depth,
            ) is Ok by {
                assert(resolve_variant(branches[i], name, reserved, depth) is Ok);
            }
            assert(resolve_variant(branches[branches.len() - 1], name, reserved, depth) is Ok);
        }
    }
}

/// No schema node resolves to an optional type: only a field wraps its type
/// as optional.
pub proof fn lemma_resolved_type_is_not_optional(
    schema: SchemaModel,
    name: Seq<char>,
    reserved: Seq<(Seq<char>, Seq<char>)>,
    depth: nat,
)
    ensures
        resolve(schema, name, reserved, depth) matches Ok(t) ==> !(t is Optional),
{
}

/// A reference resolves to a reference node named after the reference
/// string alone, whatever else the node holds.
pub proof fn law_reference_is_lexical(
    schema: SchemaModel,
    name: Seq<char>,
    reserved: Seq<(Seq<char>, Seq<char>)>,
    depth: nat,
)
    requires
        schema.definition_ref is Some,
        depth > 0,
    ensures
        resolve(schema, name, reserved, depth) == Ok::<TypeModel, Failure>(
            TypeModel::Ref(reference_name(schema.definition_ref->0)),
        ),
        notices(schema, name, reserved, depth) == Seq::<Notice>::empty(),
{
}

/// The name of a reference is the type-name casing of a stretch of the
/// reference string that holds neither `/` nor `.`, that begins at the start
/// of the string or just behind its last `/`, and that ends at the end of the
/// string or just before the first `.` behind that `/`.
pub proof fn law_reference_name_is_last_segment(reference: Seq<char>) -> (bounds: (int, int))
    ensures
        0 <= bounds.0 <= bounds.1 <= reference.len(),
        reference_name(reference) == pascal_case(reference.subrange(bounds.0, bounds.1)),
        bounds.0 == 0 || reference[bounds.0 - 1] == '/',
        bounds.1 == reference.len() || reference[bounds.1] == '.',
        forall|i: int| bounds.0 <= i < reference.len() ==> reference[i] != '/',
        forall|i: int| bounds.0 <= i < bounds.1 ==> reference[i] != '.',
{
    lemma_segment_start(reference);
    let start = segment_start(reference);
    let segment = last_segment(reference);
    lemma_first_dot(segment);
    let end = start + first_dot(segment);
    assert(stem(segment) == reference.subrange(start, end));
    assert forall|i: int| start <= i < end implies reference[i] != '.' by {
        assert(segment[i - start] == reference[i]);
    }
    (start, end)
}

/// The last segment of a text begins at its start or just behind a `/`, and
/// holds no `/`.
pub proof fn lemma_segment_start(s: Seq<char>)
    ensures
        0 <= segment_start(s) <= s.len(),
        segment_start(s) == 0 || s[segment_start(s) - 1] == '/',
        forall|i: int| segment_start(s) <= i < s.len() ==> s[i] != '/',
    decreases s.len(),
{
    if s.len() > 0 {
        lemma_segment_start(s.drop_last());
        if s.last() != '/' {
            assert forall|i: int| segment_start(s) <= i < s.len() implies s[i] != '/' by {
                if i < s.len() - 1 {
                    assert(s.drop_last()[i] == s[i]);
                }
            }
        }
    }
}

/// The first `.` of a text stands where `first_dot` says, with none before it.
pub proof fn lemma_first_dot(s: Seq<char>)
    ensures
        0 <= first_dot(s) <= s.len(),
        first_dot(s) == s.len() || s[first_dot(s)] == '.',
        forall|i: int| 0 <= i < first_dot(s) ==> s[i] != '.',
    decreases s.len(),
{
    if s.len() > 0 {
        lemma_first_dot(s.drop_last());
        assert forall|i: int| 0 <= i < first_dot(s) implies s[i] != '.' by {
            if i < s.len() - 1 {
                assert(s.drop_last()[i] == s[i]);
            }
        }
    }
}

/// An array resolves to an array node around what its `items` resolves to
/// under the singular of the context name, one level further down; without
/// `items` it fails.
pub proof fn law_array_wraps_items(
    schema: SchemaModel,
    name: Seq<char>,
    reserved: Seq<(Seq<char>, Seq<char>)>,
    depth: nat,
)
    requires
        declares_array(schema),
        depth > 0,
    ensures
        resolve(schema, name, reserved, depth) == match schema.items {
            None => Err::<TypeModel, Failure>(Failure::MissingItems { context: name }),
            Some(item) => match resolve(*item, singular(name), reserved, (depth - 1) as nat) {
                Ok(t) => Ok(TypeModel::Arr(Box::new(t))),
                Err(e) => Err(e),
            },
        },
{
    lemma_containers_are_not_primitive();
}

/// An object with a `required` list resolves to a structure named by the
/// context name, with one field for each property, in their order: the field
/// of a property that the list names has a type that is not optional, and the
/// field of any other property has an optional type.
pub proof fn law_required_decides_optional(
    schema: SchemaModel,
    name: Seq<char>,
    reserved: Seq<(Seq<char>, Seq<char>)>,
    depth: nat,
)
    requires
        declares_object(schema),
        schema.required is Some,
    ensures
        resolve(schema, name, reserved, depth) matches Ok(t) ==> {
            &&& t matches TypeModel::Obj(o)
            &&& o.name == name
            &&& o.fields.len() == schema.properties->0.len()
            &&& forall|i: int|
                0 <= i < o.fields.len() ==> ((#[trigger] o.fields[i]).ty is Optional
                    <==> !schema.required->0.contains(schema.properties->0[i].0))
        },
{
    lemma_containers_are_not_primitive();
    if resolve(schema, name, reserved, depth) is Ok {
        let properties = schema.properties->0;
        let below = (depth - 1) as nat;
        lemma_fields_one_by_one(properties, schema.required, name, reserved, below);
        let fields = resolve_fields(properties, schema.required, name, reserved, below)->Ok_0;
        assert forall|i: int| 0 <= i < fields.len() implies ((#[trigger] fields[i]).ty is Optional
            <==> !schema.required->0.contains(properties[i].0)) by {
            assert(resolve_field(properties[i], schema.required, name, reserved, below) == Ok::<
                FieldModel,
                Failure,
            >(fields[i]));
            lemma_resolved_type_is_not_optional(
                properties[i].1,
                name + pascal_case(properties[i].0),
                reserved,
                below,
            );
        }
    }
}

/// An object without a `required` list resolves to a structure in which
/// every field has an optional type.
pub proof fn law_no_required_list_means_all_optional(
    schema: SchemaModel,
    name: Seq<char>,
    reserved: Seq<(Seq<char>, Seq<char>)>,
    depth: nat,
)
    requires
        declares_object(schema),
        schema.required is None,
    ensures
        resolve(schema, name, reserved, depth) matches Ok(t) ==> {
            &&& t matches TypeModel::Obj(o)
            &&& o.name == name
            &&& o.fields.len() == schema.properties->0.len()
            &&& forall|i: int| 0 <= i < o.fields.len() ==> (#[trigger] o.fields[i]).ty is Optional
        },
{
    lemma_containers_are_not_primitive();
    if resolve(schema, name, reserved, depth) is Ok {
        let properties = schema.properties->0;
        let below = (depth - 1) as nat;
        lemma_fields_one_by_one(properties, schema.required, name, reserved, below);
        let fields = resolve_fields(properties, schema.required, name, reserved, below)->Ok_0;
        assert forall|i: int| 0 <= i < fields.len() implies (#[trigger] fields[i]).ty
            is Optional by {
            assert(resolve_field(properties[i], schema.required, name, reserved, below) == Ok::<
                FieldModel,
                Failure,
            >(fields[i]));
        }
    }
}

/// A `oneOf` resolves to a tagged union named by the context name, with one
/// variant for each branch, in their order: each variant is named by the
/// context name followed by its branch's `id` in type-name casing, and holds
/// what the branch resolves to under that name, one level further down.
pub proof fn law_one_variant_for_each_branch(
    schema: SchemaModel,
    name: Seq<char>,
    reserved: Seq<(Seq<char>, Seq<char>)>,
    depth: nat,
)
    requires
        declares_union(schema),
    ensures
        resolve(schema, name, reserved, depth) matches Ok(t) ==> {
            &&& t matches TypeModel::Enum(e)
            &&& e.name == name
            &&& e.variants.len() == schema.one_of->0.len()
            &&& forall|i: int|
                0 <= i < e.variants.len() ==> {
                    &&& (#[trigger] schema.one_of->0[i]).id is Some
                    &&& e.variants[i].name == name + pascal_case(schema.one_of->0[i].id->0)
                    &&& resolve(
                        schema.one_of->0[i],
                        e.variants[i].name,
                        reserved,
                        (depth - 1) as nat,
                    ) == Ok::<TypeModel, Failure>(e.variants[i].inner)
                }
        },
{
    if resolve(schema, name, reserved, depth) is Ok {
        let branches = schema.one_of->0;
        let below = (depth - 1) as nat;
        lemma_variants_one_by_one(branches, name, reserved, below);
        let variants = resolve_variants(branches, name, reserved, below)->Ok_0;
        assert forall|i: int| 0 <= i < variants.len() implies {
            &&& (#[trigger] branches[i]).id is Some
            &&& variants[i].name == name + pascal_case(branches[i].id->0)
            &&& resolve(branches[i], variants[i].name, reserved, below) == Ok::<
                TypeModel,
                Failure,
            >(variants[i].inner)
        } by {
            assert(resolve_variant(branches[i], name, reserved, below) == Ok::<
                VariantModel,
                Failure,
            >(variants[i]));
        }
    }
}

/// An object resolves to a structure whose fields follow its properties one
/// by one: a field is identified as the reserved words say of the property's
/// name, records that name where its identifier differs from it, and has the
/// type that the property's schema resolves to under the context name
/// followed by the property's name in type-name casing, one level further
/// down, wrapped as optional unless the property is required.
pub proof fn law_fields_follow_properties(
    schema: SchemaModel,
    name: Seq<char>,
    reserved: Seq<(Seq<char>, Seq<char>)>,
    depth: nat,
)
    requires
        declares_object(schema),
    ensures
        resolve(schema, name, reserved, depth) matches Ok(t) ==> {
            &&& t matches TypeModel::Obj(o)
            &&& o.name == name
            &&& o.fields.len() == schema.properties->0.len()
            &&& forall|i: int|
                0 <= i < o.fields.len() ==> {
                    let property = #[trigger] schema.properties->0[i];
                    &&& o.fields[i].name == field_identifier(reserved, property.0)
                    &&& o.fields[i].rename == field_rename(reserved, property.0)
                    &&& resolve(
                        property.1,
                        name + pascal_case(property.0),
                        reserved,
                        (depth - 1) as nat,
                    ) matches Ok(inner) && o.fields[i].ty == if is_required(
                        schema.required,
                        property.0,
                    ) {
                        inner
                    } else {
                        TypeModel::Optional(Box::new(inner))
                    }
                }
        },
{
    lemma_containers_are_not_primitive();
    if resolve(schema, name, reserved, depth) is Ok {
        let properties = schema.properties->0;
        let below = (depth - 1) as nat;
        lemma_fields_one_by_one(properties, schema.required, name, reserved, below);
        let fields = resolve_fields(properties, schema.required, name, reserved, below)->Ok_0;
        assert forall|i: int| 0 <= i < fields.len() implies {
            let property = #[trigger] properties[i];
            &&& fields[i].name == field_identifier(reserved, property.0)
            &&& fields[i].rename == field_rename(reserved, property.0)
            &&& resolve(property.1, name + pascal_case(property.0), reserved, below) matches Ok(
                inner,
            ) && fields[i].ty == if is_required(schema.required, property.0) {
                inner
            } else {
                TypeModel::Optional(Box::new(inner))
            }
        } by {
            assert(resolve_field(properties[i], schema.required, name, reserved, below) == Ok::<
                FieldModel,
                Failure,
            >(fields[i]));
        }
    }
}

/// The fields of a well-formed object stand for its properties one by one,
/// and so no two of them stand for the same property name.
pub proof fn law_fields_stand_for_distinct_properties(
    schema: SchemaModel,
    name: Seq<char>,
    reserved: Seq<(Seq<char>, Seq<char>)>,
    depth: nat,
)
    requires
        declares_object(schema),
        schema.well_formed(),
    ensures
        resolve(schema, name, reserved, depth) matches Ok(t) ==> {
            &&& t matches TypeModel::Obj(o)
            &&& o.fields.len() == schema.properties->0.len()
            &&& forall|i: int|
                0 <= i < o.fields.len() ==> (#[trigger] o.fields[i]).property_name()
                    == schema.properties->0[i].0
            &&& forall|i: int, j: int|
                0 <= i < j < o.fields.len() ==> (#[trigger] o.fields[i]).property_name() != (
                #[trigger] o.fields[j]).property_name()
        },
{
    law_fields_follow_properties(schema, name, reserved, depth);
    if resolve(schema, name, reserved, depth) is Ok {
        let properties = schema.properties->0;
        let fields = resolve(schema, name, reserved, depth)->Ok_0->Obj_0.fields;
        assert forall|i: int| 0 <= i < fields.len() implies (#[trigger] fields[i]).property_name()
            == properties[i].0 by {
            let property = properties[i];
            law_field_keeps_property_name(reserved, property.0);
        }
        assert(entries_well_formed(properties));
        assert forall|i: int, j: int| 0 <= i < j < fields.len() implies (
        #[trigger] fields[i]).property_name() != (#[trigger] fields[j]).property_name() by {
            assert(properties[i].0 != properties[j].0);
        }
    }
}

/// A field records the property's name exactly where its own identifier
/// differs from it, so that the two together always give the name back.
pub proof fn law_field_keeps_property_name(
    reserved: Seq<(Seq<char>, Seq<char>)>,
    property: Seq<char>,
)
    ensures
        match field_rename(reserved, property) {
            Some(recorded) => recorded == property && field_identifier(reserved, property)
                != property,
            None => field_identifier(reserved, property) == property,
        },
{
}

/// Under the standard reserved words the property `type` is identified as
/// `ty` and the property `self` as `slf`, each recording its own name, and
/// every other property keeps its name as its identifier.
pub proof fn law_standard_words_replace_type_and_self(property: Seq<char>)
    ensures
        property == "type"@ ==> {
            &&& field_identifier(standard_words(), property) == "ty"@
            &&& field_identifier(standard_words(), property) != property
            &&& field_rename(standard_words(), property) == Some(property)
        },
        property == "self"@ ==> {
            &&& field_identifier(standard_words(), property) == "slf"@
            &&& field_identifier(standard_words(), property) != property
            &&& field_rename(standard_words(), property) == Some(property)
        },
        property != "type"@ && property != "self"@ ==> {
            &&& field_identifier(standard_words(), property) == property
            &&& field_rename(standard_words(), property) is None
        },
{
    reveal_strlit("type");
    reveal_strlit("ty");
    reveal_strlit("self");
    reveal_strlit("slf");
    let words = standard_words();
    assert(words[0] == ("type"@, "ty"@));
    assert(words.drop_first()[0] == ("self"@, "slf"@));
    assert(words.drop_first().drop_first().len() == 0);
    assert("type"@.len() == 4 && "ty"@.len() == 2 && "self"@.len() == 4 && "slf"@.len() == 3);
    assert("type"@[0] == 't' && "self"@[0] == 's');
    if property == "self"@ {
        assert(replacement(words.drop_first(), property) == Some("slf"@));
    } else if property != "type"@ {
        assert(replacement(words.drop_first().drop_first(), property) is None);
        assert(replacement(words.drop_first(), property) is None);
    }
}

/// An object whose `properties` is there and empty resolves to a structure
/// without fields, and gives rise to one notice, which names it.
pub proof fn law_empty_object_is_noted_once(
    schema: SchemaModel,
    name: Seq<char>,
    reserved: Seq<(Seq<char>, Seq<char>)>,
    depth: nat,
)
    requires
        declares_object(schema),
        schema.properties->0.len() == 0,
        depth > 0,
    ensures
        resolve(schema, name, reserved, depth) == Ok::<TypeModel, Failure>(
            TypeModel::Obj(ObjectModel { name, fields: Seq::empty() }),
        ),
        notices(schema, name, reserved, depth) == seq![Notice::EmptyObject { context: name }],
{
    lemma_containers_are_not_primitive();
    assert(resolve_fields(schema.properties->0, schema.required, name, reserved, (depth - 1) as nat)
        == Ok::<Seq<FieldModel>, Failure>(Seq::empty()));
}

/// The depth limit shows in nothing but the failure that it names: a
/// resolution that does not fail for want of depth gives the same result and
/// the same notices under a limit one higher.
pub proof fn law_depth_limit_only_cuts(
    schema: SchemaModel,
    name: Seq<char>,
    reserved: Seq<(Seq<char>, Seq<char>)>,
    depth: nat,
)
    requires
        !(resolve(schema, name, reserved, depth) matches Err(e) && e is TooDeep),
    ensures
        resolve(schema, name, reserved, depth + 1) == resolve(schema, name, reserved, depth),
        notices(schema, name, reserved, depth + 1) == notices(schema, name, reserved, depth),
    decreases depth, 0nat, 0nat,
{
    if depth > 0 && schema.definition_ref is None {
        let below = (depth - 1) as nat;
        if schema.one_of is Some {
            lemma_variants_depth(schema.one_of->0, name, reserved, below);
        } else if schema.ty is Some && primitive(schema.ty->0) is None {
            if schema.ty->0 == "array"@ {
                if schema.items is Some {
                    law_depth_limit_only_cuts(*schema.items->0, singular(name), reserved, below);
                }
            } else if schema.ty->0 == "object"@ {
                if schema.pattern_properties is Some {
                    if schema.pattern_properties->0.len() > 0 {
                        law_depth_limit_only_cuts(
                            schema.pattern_properties->0[0].1,
                            name,
                            reserved,
                            below,
                        );
                    }
                } else if schema.properties is Some {
                    lemma_fields_depth(
                        schema.properties->0,
                        schema.required,
                        name,
                        reserved,
                        below,
                    );
                }
            }
        }
    }
}

/// Whether the nodes that a resolution can reach lie within `depth` levels,
/// the schema's own level counted: the branches of a `oneOf`, the `items`,
/// and the schemas of the pattern properties and of the properties.
pub open spec fn within_depth(schema: SchemaModel, depth: nat) -> bool
    decreases depth,
{
    &&& depth > 0
    &&& schema.items matches Some(item) ==> within_depth(*item, (depth - 1) as nat)
    &&& schema.one_of matches Some(branches) ==> forall|i: int|
        0 <= i < branches.len() ==> within_depth(#[trigger] branches[i], (depth - 1) as nat)
    &&& schema.pattern_properties matches Some(entries) ==> forall|i: int|
        0 <= i < entries.len() ==> within_depth((#[trigger] entries[i]).1, (depth - 1) as nat)
    &&& schema.properties matches Some(entries) ==> forall|i: int|
        0 <= i < entries.len() ==> within_depth((#[trigger] entries[i]).1, (depth - 1) as nat)
}

/// A schema whose nodes lie within the depth limit does not fail for want of
/// depth.
pub proof fn law_depth_limit_suffices(
    schema: SchemaModel,
    name: Seq<char>,
    reserved: Seq<(Seq<char>, Seq<char>)>,
    depth: nat,
)
    requires
        within_depth(schema, depth),
    ensures
        !(resolve(schema, name, reserved, depth) matches Err(e) && e is TooDeep),
    decreases depth, 0nat, 0nat,
{
    let below = (depth - 1) as nat;
    if schema.definition_ref is None {
        if schema.one_of is Some {
            lemma_variants_within_depth(schema.one_of->0, name, reserved, below);
        } else if schema.ty is Some && primitive(schema.ty->0) is None {
            if schema.ty->0 == "array"@ {
                if schema.items is Some {
                    law_depth_limit_suffices(*schema.items->0, singular(name), reserved, below);
                }
            } else if schema.ty->0 == "object"@ {
                if schema.pattern_properties is Some {
                    let entries = schema.pattern_properties->0;
                    if entries.len() > 0 {
                        assert(within_depth(entries[0].1, below));
                        law_depth_limit_suffices(entries[0].1, name, reserved, below);
                    }
                } else if schema.properties is Some {
                    lemma_fields_within_depth(
                        schema.properties->0,
                        schema.required,
                        name,
                        reserved,
                        below,
                    );
                }
            }
        }
    }
}

/// [`law_depth_limit_suffices`], of the branches of a `oneOf`.
proof fn lemma_variants_within_depth(
    branches: Seq<SchemaModel>,
    name: Seq<char>,
    reserved: Seq<(Seq<char>, Seq<char>)>,
    depth: nat,
)
    requires
        forall|i: int| 0 <= i < branches.len() ==> within_depth(#[trigger] branches[i], depth),
    ensures
        !(resolve_variants(branches, name, reserved, depth) matches Err(e) && e is TooDeep),
    decreases depth, 2nat, branches.len(),
{
    if branches.len() > 0 {
        let earlier = branches.drop_last();
        assert(forall|i: int| 0 <= i < earlier.len() ==> earlier[i] == branches[i]);
        lemma_variants_within_depth(earlier, name, reserved, depth);
        let branch = branches.last();
        assert(branch == branches[branches.len() - 1]);
        let here = resolve_variant(branch, name, reserved, depth);
        if branch.id is Some {
            let variant_name = name + pascal_case(branch.id->0);
            assert(here is Err ==> here->Err_0 == resolve(
                branch,
                variant_name,
                reserved,
                depth,
            )->Err_0);
            law_depth_limit_suffices(branch, variant_name, reserved, depth);
        }
        assert(!(here matches Err(e) && e is TooDeep));
    }
}

/// [`law_depth_limit_suffices`], of the properties of an object.
proof fn lemma_fields_within_depth(
    properties: Seq<(Seq<char>, SchemaModel)>,
    required: Option<Seq<Seq<char>>>,
    name: Seq<char>,
    reserved: Seq<(Seq<char>, Seq<char>)>,
    depth: nat,
)
    requires
        forall|i: int|
            0 <= i < properties.len() ==> within_depth((#[trigger] properties[i]).1, depth),
    ensures
        !(resolve_fields(properties, required, name, reserved, depth) matches Err(e)
            && e is TooDeep),
    decreases depth, 2nat, properties.len(),
{
    if properties.len() > 0 {
        let earlier = properties.drop_last();
        assert(forall|i: int| 0 <= i < earlier.len() ==> earlier[i] == properties[i]);
        lemma_fields_within_depth(earlier, required, name, reserved, depth);
        let property = properties.last();
        assert(property == properties[properties.len() - 1]);
        let here = resolve_field(property, required, name, reserved, depth);
        let field_context = name + pascal_case(property.0);
        assert(here is Err ==> here->Err_0 == resolve(
            property.1,
            field_context,
            reserved,
            depth,
        )->Err_0);
        law_depth_limit_suffices(property.1, field_context, reserved, depth);
    }
}

/// [`law_depth_limit_only_cuts`], of the branches of a `oneOf`.
proof fn lemma_variants_depth(
    branches: Seq<SchemaModel>,
    name: Seq<char>,
    reserved: Seq<(Seq<char>, Seq<char>)>,
    depth: nat,
)
    requires
        !(resolve_variants(branches, name, reserved, depth) matches Err(e) && e is TooDeep),
    ensures
        resolve_variants(branches, name, reserved, depth + 1) == resolve_variants(
            branches,
            name,
            reserved,
            depth,
        ),
        variants_notices(branches, name, reserved, depth + 1) == variants_notices(
            branches,
            name,
            reserved,
            depth,
        ),
    decreases depth, 2nat, branches.len(),
{
    if branches.len() > 0 {
        lemma_variants_depth(branches.drop_last(), name, reserved, depth);
        if resolve_variants(branches.drop_last(), name, reserved, depth) is Ok {
            let branch = branches.last();
            let here = resolve_variant(branch, name, reserved, depth);
            let above = resolve_variant(branch, name, reserved, depth + 1);
            let noted_here = variant_notices(branch, name, reserved, depth);
            let noted_above = variant_notices(branch, name, reserved, depth + 1);
            if branch.id is Some {
                let variant_name = name + pascal_case(branch.id->0);
                assert(here is Err ==> here->Err_0 == resolve(
                    branch,
                    variant_name,
                    reserved,
                    depth,
                )->Err_0);
                law_depth_limit_only_cuts(branch, variant_name, reserved, depth);
            }
            assert(above == here);
            assert(noted_above == noted_here);
        }
    }
}

/// [`law_depth_limit_only_cuts`], of the properties of an object.
proof fn lemma_fields_depth(
    properties: Seq<(Seq<char>, SchemaModel)>,
    required: Option<Seq<Seq<char>>>,
    name: Seq<char>,
    reserved: Seq<(Seq<char>, Seq<char>)>,
    depth: nat,
)
    requires
        !(resolve_fields(properties, required, name, reserved, depth) matches Err(e)
            && e is TooDeep),
    ensures
        resolve_fields(properties, required, name, reserved, depth + 1) == resolve_fields(
            properties,
            required,
            name,
            reserved,
            depth,
        ),
        fields_notices(properties, required, name, reserved, depth + 1) == fields_notices(
            properties,
            required,
            name,
            reserved,
            depth,
        ),
    decreases depth, 2nat, properties.len(),
{
    if properties.len() > 0 {
        lemma_fields_depth(properties.drop_last(), required, name, reserved, depth);
        if resolve_fields(properties.drop_last(), required, name, reserved, depth) is Ok {
            let property = properties.last();
            let here = resolve_field(property, required, name, reserved, depth);
            let above = resolve_field(property, required, name, reserved, depth + 1);
            let field_context = name + pascal_case(property.0);
            assert(here is Err ==> here->Err_0 == resolve(
                property.1,
                field_context,
                reserved,
                depth,
            )->Err_0);
            law_depth_limit_only_cuts(property.1, field_context, reserved, depth);
            assert(above == here);
        }
    }
}

/// `position_of` gives the first place at which a name stands, and none
/// exactly where the name stands nowhere.
pub proof fn lemma_position_is_first(entries: Seq<(Seq<char>, SchemaModel)>, name: Seq<char>)
    ensures
        match position_of(entries, name) {
            Some(i) => {
                &&& 0 <= i < entries.len()
                &&& entries[i].0 == name
                &&& forall|j: int| 0 <= j < i ==> (#[trigger] entries[j]).0 != name
            },
            None => forall|j: int| 0 <= j < entries.len() ==> (#[trigger] entries[j]).0 != name,
        },
    decreases entries.len(),
{
    if entries.len() > 0 {
        let earlier = entries.drop_last();
        lemma_position_is_first(earlier, name);
        assert(forall|j: int| 0 <= j < earlier.len() ==> earlier[j] == entries[j]);
    }
}

/// A keyword map stays well-formed when a well-formed schema is put into
/// it, and then holds that schema under the name, and every other entry as
/// it was.
pub proof fn law_put_keeps_map_well_formed(
    entries: Seq<(Seq<char>, SchemaModel)>,
    name: Seq<char>,
    schema: SchemaModel,
)
    requires
        entries_well_formed(entries),
        schema.well_formed(),
    ensures
        entries_well_formed(with_entry(entries, name, schema)),
        position_of(with_entry(entries, name, schema), name) matches Some(i) && with_entry(
            entries,
            name,
            schema,
        )[i] == (name, schema),
        forall|j: int|
            0 <= j < entries.len() && (#[trigger] entries[j]).0 != name ==> with_entry(
                entries,
                name,
                schema,
            )[j] == entries[j],
{
    let after = with_entry(entries, name, schema);
    lemma_position_is_first(entries, name);
    lemma_position_is_first(after, name);
    match position_of(entries, name) {
        Some(i) => {
            assert(after[i] == (name, schema));
            assert forall|a: int, b: int| 0 <= a < b < after.len() implies after[a].0
                != after[b].0 by {
                assert(entries[a].0 != entries[b].0);
            }
            assert forall|j: int| 0 <= j < after.len() implies (
            #[trigger] after[j]).1.well_formed() by {
                if j != i {
                    assert(entries[j].1.well_formed());
                }
            }
        },
        None => {
            assert(after[entries.len() as int] == (name, schema));
            assert forall|a: int, b: int| 0 <= a < b < after.len() implies after[a].0
                != after[b].0 by {
                if b < entries.len() {
                    assert(entries[a].0 != entries[b].0);
                } else {
                    assert(entries[a].0 != name);
                }
            }
            assert forall|j: int| 0 <= j < after.len() implies (
            #[trigger] after[j]).1.well_formed() by {
                if j < entries.len() {
                    assert(entries[j].1.well_formed());
                }
            }
        },
    }
}

} // verus!
