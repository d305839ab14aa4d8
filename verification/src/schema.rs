//! The schema document model: the recognised keywords of one schema node.

use vstd::prelude::*;
use crate::text::{copy_names, copy_text, names_model, text_model};

verus! {

/// One node of a schema document, with the keywords that are read from it.
///
/// A keyword map (`properties`, `definitions`, `patternProperties`) is a list
/// of name and schema, in the order in which the document declares them. A
/// document names each entry of a map once: see [`SchemaModel::well_formed`].
#[derive(Debug, PartialEq, Eq)]
pub struct JsonSchema {
    /// `id`: what identifies the node; names the variant of a `oneOf` branch.
    pub id: Option<String>,
    /// `$schema`: the dialect that the document is written in.
    pub schema_ref: Option<String>,
    /// `description`: what the node is for, in words.
    pub description: Option<String>,
    /// `type`: the declared type of the node.
    pub ty: Option<String>,
    /// `properties`: the properties of an object, each with its schema.
    pub properties: Option<Vec<(String, JsonSchema)>>,
    /// `required`: the names of the properties that an object must have.
    pub required: Option<Vec<String>>,
    /// `definitions`: the named structures that references point to.
    pub definitions: Option<Vec<(String, JsonSchema)>>,
    /// `items`: the schema of the elements of an array.
    pub items: Option<Box<JsonSchema>>,
    /// `patternProperties`: patterns of property names, each with the schema
    /// of the properties whose names match it.
    pub pattern_properties: Option<Vec<(String, JsonSchema)>>,
    /// `additionalProperties`: whether an object may hold properties that
    /// the node does not declare; absent counts as no.
    pub additional_properties: bool,
    /// `$ref`: a reference to a named structure.
    pub definition_ref: Option<String>,
    /// `oneOf`: the branches of which a value matches exactly one.
    pub one_of: Option<Vec<JsonSchema>>,
}

/// The mathematical value of a [`JsonSchema`].
pub struct SchemaModel {
    pub id: Option<Seq<char>>,
    pub schema_ref: Option<Seq<char>>,
    pub description: Option<Seq<char>>,
    pub ty: Option<Seq<char>>,
    pub properties: Option<Seq<(Seq<char>, SchemaModel)>>,
    pub required: Option<Seq<Seq<char>>>,
    pub definitions: Option<Seq<(Seq<char>, SchemaModel)>>,
    pub items: Option<Box<SchemaModel>>,
    pub pattern_properties: Option<Seq<(Seq<char>, SchemaModel)>>,
    pub additional_properties: bool,
    pub definition_ref: Option<Seq<char>>,
    pub one_of: Option<Seq<SchemaModel>>,
}

/// Whether no name occurs twice in a list of named schemas.
pub open spec fn distinct_names(entries: Seq<(Seq<char>, SchemaModel)>) -> bool {
    forall|i: int, j: int| 0 <= i < j < entries.len() ==> entries[i].0 != entries[j].0
}

/// Where the first entry with the name `name` stands in a list of named
/// schemas, if there is one.
pub open spec fn position_of(
    entries: Seq<(Seq<char>, SchemaModel)>,
    name: Seq<char>,
) -> Option<int>
    decreases entries.len(),
{
    if entries.len() == 0 {
        None
    } else {
        match position_of(entries.drop_last(), name) {
            Some(i) => Some(i),
            None => if entries.last().0 == name {
                Some(entries.len() - 1)
            } else {
                None
            },
        }
    }
}

/// A keyword map with `schema` under the name `name`: in the place of the
/// first entry that has the name, or else behind the last entry.
pub open spec fn with_entry(
    entries: Seq<(Seq<char>, SchemaModel)>,
    name: Seq<char>,
    schema: SchemaModel,
) -> Seq<(Seq<char>, SchemaModel)> {
    match position_of(entries, name) {
        Some(i) => entries.update(i, (name, schema)),
        None => entries.push((name, schema)),
    }
}

/// Whether a keyword map names each of its entries once and holds only
/// well-formed schemas.
pub open spec fn entries_well_formed(entries: Seq<(Seq<char>, SchemaModel)>) -> bool
    decreases entries,
{
    &&& distinct_names(entries)
    &&& forall|i: int| 0 <= i < entries.len() ==> (#[trigger] entries[i]).1.well_formed()
}

/// Whether a list holds only well-formed schemas.
pub open spec fn branches_well_formed(branches: Seq<SchemaModel>) -> bool
    decreases branches,
{
    forall|i: int| 0 <= i < branches.len() ==> (#[trigger] branches[i]).well_formed()
}

impl SchemaModel {
    /// Whether the node is one that a document can hold: each keyword map of
    /// the node, and of every node below it, names each of its entries once.
    pub open spec fn well_formed(self) -> bool
        decreases self,
    {
        &&& self.properties matches Some(entries) ==> entries_well_formed(entries)
        &&& self.definitions matches Some(entries) ==> entries_well_formed(entries)
        &&& self.pattern_properties matches Some(entries) ==> entries_well_formed(entries)
        &&& self.items matches Some(item) ==> item.well_formed()
        &&& self.one_of matches Some(branches) ==> branches_well_formed(branches)
    }
}

/// The names of an optional list of required properties.
pub open spec fn required_model(required: Option<Vec<String>>) -> Option<Seq<Seq<char>>> {
    match required {
        Some(names) => Some(names_model(names@)),
        None => None,
    }
}

/// The model of a schema node.
pub open spec fn schema_model(s: JsonSchema) -> SchemaModel
    decreases s,
{
    SchemaModel {
        id: text_model(s.id),
        schema_ref: text_model(s.schema_ref),
        description: text_model(s.description),
        ty: text_model(s.ty),
        properties: match s.properties {
            Some(entries) => Some(entries_model(entries@)),
            None => None,
        },
        required: required_model(s.required),
        definitions: match s.definitions {
            Some(entries) => Some(entries_model(entries@)),
            None => None,
        },
        items: match s.items {
            Some(item) => Some(Box::new(schema_model(*item))),
            None => None,
        },
        pattern_properties: match s.pattern_properties {
            Some(entries) => Some(entries_model(entries@)),
            None => None,
        },
        additional_properties: s.additional_properties,
        definition_ref: text_model(s.definition_ref),
        one_of: match s.one_of {
            Some(branches) => Some(branches_model(branches@)),
            None => None,
        },
    }
}

/// The model of a list of named schemas.
pub open spec fn entries_model(entries: Seq<(String, JsonSchema)>) -> Seq<(Seq<char>, SchemaModel)>
    decreases entries,
{
    Seq::new(
        entries.len(),
        |i: int|
            if 0 <= i < entries.len() {
                (entries[i].0@, schema_model(entries[i].1))
            } else {
                arbitrary()
            },
    )
}

/// The model of a list of schemas.
pub open spec fn branches_model(branches: Seq<JsonSchema>) -> Seq<SchemaModel>
    decreases branches,
{
    Seq::new(
        branches.len(),
        |i: int|
            if 0 <= i < branches.len() {
                schema_model(branches[i])
            } else {
                arbitrary()
            },
    )
}

impl View for JsonSchema {
    type V = SchemaModel;

    open spec fn view(&self) -> SchemaModel {
        schema_model(*self)
    }
}

/// Where the first entry with the name `name` stands, if there is one.
fn find_entry(entries: &Vec<(String, JsonSchema)>, name: &String) -> (r: Option<usize>)
    ensures
        match r {
            Some(i) => position_of(entries_model(entries@), name@) == Some(i as int) && i
                < entries.len(),
            None => position_of(entries_model(entries@), name@) is None,
        },
{
    let ghost models = entries_model(entries@);
    let mut i: usize = 0;
    while i < entries.len()
        invariant
            i <= entries.len(),
            models == entries_model(entries@),
            position_of(models.take(i as int), name@) is None,
        decreases entries.len() - i,
    {
        assert(models.take(i as int + 1).drop_last() == models.take(i as int));
        if entries[i].0 == *name {
            proof {
                lemma_position_stays(models, name@, i as int + 1);
            }
            return Some(i);
        }
        i = i + 1;
    }
    assert(models.take(i as int) == models);
    None
}

/// The first entry with a name is still the first in any longer list.
proof fn lemma_position_stays(entries: Seq<(Seq<char>, SchemaModel)>, name: Seq<char>, k: int)
    requires
        0 <= k <= entries.len(),
        position_of(entries.take(k), name) is Some,
    ensures
        position_of(entries, name) == position_of(entries.take(k), name),
    decreases entries.len(),
{
    if k == entries.len() {
        assert(entries.take(k) == entries);
    } else {
        assert(entries.drop_last().take(k) == entries.take(k));
        lemma_position_stays(entries.drop_last(), name, k);
    }
}

/// Puts `schema` into a keyword map under the name `name`: in the place of
/// the first entry that has the name, or else behind the last entry.
pub fn put_entry(entries: &mut Vec<(String, JsonSchema)>, name: String, schema: JsonSchema)
    ensures
        entries_model(final(entries)@) == with_entry(entries_model(old(entries)@), name@, schema@),
{
    match find_entry(entries, &name) {
        Some(i) => {
            entries.set(i, (name, schema));
        },
        None => {
            entries.push((name, schema));
        },
    }
}

/// Whether no name occurs twice in a list of named schemas.
fn names_are_distinct(entries: &Vec<(String, JsonSchema)>) -> (r: bool)
    ensures
        r == distinct_names(entries_model(entries@)),
{
    let ghost models = entries_model(entries@);
    let mut j: usize = 0;
    while j < entries.len()
        invariant
            j <= entries.len(),
            models == entries_model(entries@),
            forall|a: int, b: int| 0 <= a < b < j ==> models[a].0 != models[b].0,
        decreases entries.len() - j,
    {
        let mut i: usize = 0;
        while i < j
            invariant
                i <= j < entries.len(),
                models == entries_model(entries@),
                forall|a: int| 0 <= a < i ==> models[a].0 != models[j as int].0,
            decreases j - i,
        {
            if entries[i].0 == entries[j].0 {
                assert(models[i as int].0 == models[j as int].0);
                return false;
            }
            i = i + 1;
        }
        j = j + 1;
    }
    true
}

/// Whether a keyword map names each of its entries once and holds only
/// well-formed schemas.
fn entries_are_well_formed(entries: &Vec<(String, JsonSchema)>) -> (r: bool)
    ensures
        r == entries_well_formed(entries_model(entries@)),
    decreases entries,
{
    if !names_are_distinct(entries) {
        return false;
    }
    let ghost models = entries_model(entries@);
    let mut i: usize = 0;
    while i < entries.len()
        invariant
            i <= entries.len(),
            models == entries_model(entries@),
            forall|j: int| 0 <= j < i ==> (#[trigger] models[j]).1.well_formed(),
        decreases entries.len() - i,
    {
        if !schema_is_well_formed(&entries[i].1) {
            assert(!models[i as int].1.well_formed());
            return false;
        }
        i = i + 1;
    }
    true
}

/// Whether a keyword map that may be absent is well-formed where it is there.
fn map_is_well_formed(map: &Option<Vec<(String, JsonSchema)>>) -> (r: bool)
    ensures
        r == match map {
            Some(entries) => entries_well_formed(entries_model(entries@)),
            None => true,
        },
    decreases map,
{
    match map {
        Some(entries) => entries_are_well_formed(entries),
        None => true,
    }
}

/// Whether a schema node is well-formed.
fn schema_is_well_formed(schema: &JsonSchema) -> (r: bool)
    ensures
        r == schema@.well_formed(),
    decreases schema,
{
    if !map_is_well_formed(&schema.properties) || !map_is_well_formed(&schema.definitions)
        || !map_is_well_formed(&schema.pattern_properties) {
        return false;
    }
    match &schema.items {
        Some(item) => {
            if !schema_is_well_formed(item) {
                return false;
            }
        },
        None => {},
    }
    match &schema.one_of {
        Some(branches) => branches_are_well_formed(branches),
        None => true,
    }
}

/// Whether a list holds only well-formed schemas.
fn branches_are_well_formed(branches: &Vec<JsonSchema>) -> (r: bool)
    ensures
        r == branches_well_formed(branches_model(branches@)),
    decreases branches,
{
    let ghost models = branches_model(branches@);
    let mut i: usize = 0;
    while i < branches.len()
        invariant
            i <= branches.len(),
            models == branches_model(branches@),
            forall|j: int| 0 <= j < i ==> (#[trigger] models[j]).well_formed(),
        decreases branches.len() - i,
    {
        if !schema_is_well_formed(&branches[i]) {
            assert(!models[i as int].well_formed());
            return false;
        }
        i = i + 1;
    }
    true
}

impl JsonSchema {
    /// Whether the node is one that a document can hold: each keyword map of
    /// the node, and of every node below it, names each of its entries once.
    pub fn is_well_formed(&self) -> (r: bool)
        ensures
            r == self@.well_formed(),
    {
        schema_is_well_formed(self)
    }
}

/// A copy of a schema node, with the same model.
fn copy_schema(schema: &JsonSchema) -> (r: JsonSchema)
    ensures
        r@ == schema@,
    decreases schema,
{
    JsonSchema {
        id: copy_text(&schema.id),
        schema_ref: copy_text(&schema.schema_ref),
        description: copy_text(&schema.description),
        ty: copy_text(&schema.ty),
        properties: match &schema.properties {
            Some(entries) => Some(copy_entries(entries)),
            None => None,
        },
        required: match &schema.required {
            Some(names) => Some(copy_names(names)),
            None => None,
        },
        definitions: match &schema.definitions {
            Some(entries) => Some(copy_entries(entries)),
            None => None,
        },
        items: match &schema.items {
            Some(item) => Some(Box::new(copy_schema(item))),
            None => None,
        },
        pattern_properties: match &schema.pattern_properties {
            Some(entries) => Some(copy_entries(entries)),
            None => None,
        },
        additional_properties: schema.additional_properties,
        definition_ref: copy_text(&schema.definition_ref),
        one_of: match &schema.one_of {
            Some(branches) => Some(copy_branches(branches)),
            None => None,
        },
    }
}

/// A copy of a list of named schemas, with the same models.
fn copy_entries(entries: &Vec<(String, JsonSchema)>) -> (r: Vec<(String, JsonSchema)>)
    ensures
        entries_model(r@) == entries_model(entries@),
    decreases entries,
{
    let mut copies: Vec<(String, JsonSchema)> = Vec::new();
    let mut i: usize = 0;
    while i < entries.len()
        invariant
            i <= entries.len(),
            copies.len() == i,
            forall|j: int|
                0 <= j < i ==> (#[trigger] copies[j]).0@ == entries[j].0@ && copies[j].1@
                    == entries[j].1@,
        decreases entries.len() - i,
    {
        let entry = &entries[i];
        copies.push((entry.0.clone(), copy_schema(&entry.1)));
        i = i + 1;
    }
    copies
}

/// A copy of a list of schemas, with the same models.
fn copy_branches(branches: &Vec<JsonSchema>) -> (r: Vec<JsonSchema>)
    ensures
        branches_model(r@) == branches_model(branches@),
    decreases branches,
{
    let mut copies: Vec<JsonSchema> = Vec::new();
    let mut i: usize = 0;
    while i < branches.len()
        invariant
            i <= branches.len(),
            copies.len() == i,
            forall|j: int| 0 <= j < i ==> (#[trigger] copies[j])@ == branches[j]@,
        decreases branches.len() - i,
    {
        copies.push(copy_schema(&branches[i]));
        i = i + 1;
    }
    copies
}

impl Clone for JsonSchema {
    fn clone(&self) -> (r: Self)
        ensures
            r@ == self@,
    {
        copy_schema(self)
    }
}

} // verus!
