//! The type model: the tree of native type constructs that a schema resolves to.

use vstd::prelude::*;
use crate::text::copy_text;

verus! {

/// A named structure with an ordered list of fields.
#[derive(Debug, PartialEq, Eq)]
pub struct JsonObject {
    /// The name of the structure: the context name under which it was met.
    pub name: String,
    /// The fields, in the order of the properties that they stand for.
    pub fields: Vec<JsonObjectFieldInfo>,
}

/// One field of a [`JsonObject`].
#[derive(Debug, PartialEq, Eq)]
pub struct JsonObjectFieldInfo {
    /// The identifier of the field.
    pub name: String,
    /// The type of the field.
    pub ty: PropType,
    /// The name of the property, where the identifier differs from it.
    pub rename: Option<String>,
}

/// A tagged union with an ordered list of variants.
#[derive(Debug, PartialEq, Eq)]
pub struct JsonEnum {
    /// The name of the union: the context name under which it was met.
    pub name: String,
    /// The variants, in the order of the branches that they stand for.
    pub variants: Vec<JsonEnumVariant>,
}

/// One alternative of a [`JsonEnum`].
#[derive(Debug, PartialEq, Eq)]
pub struct JsonEnumVariant {
    /// The name of the variant.
    pub name: String,
    /// The one type that the variant holds.
    pub inner: PropType,
}

/// A node of the type model.
#[derive(Debug, PartialEq, Eq)]
pub enum PropType {
    /// A string.
    Str,
    /// An integer.
    Int,
    /// A number that may have a fraction.
    Num,
    /// A truth value.
    Bool,
    /// A named structure that is defined elsewhere; whether it is defined
    /// there is not looked into.
    Ref(String),
    /// A named structure with fields.
    Obj(JsonObject),
    /// A list of elements of one type.
    Arr(Box<PropType>),
    /// A map from strings to values of one type.
    Dict(Box<PropType>),
    /// A value of one type that may be absent.
    Optional(Box<PropType>),
    /// A tagged union.
    Enum(JsonEnum),
    /// The null value.
    Null,
}

/// The mathematical value of a [`JsonObject`].
pub struct ObjectModel {
    pub name: Seq<char>,
    pub fields: Seq<FieldModel>,
}

/// The mathematical value of a [`JsonObjectFieldInfo`].
pub struct FieldModel {
    pub name: Seq<char>,
    pub ty: TypeModel,
    pub rename: Option<Seq<char>>,
}

/// The mathematical value of a [`JsonEnum`].
pub struct EnumModel {
    pub name: Seq<char>,
    pub variants: Seq<VariantModel>,
}

/// The mathematical value of a [`JsonEnumVariant`].
pub struct VariantModel {
    pub name: Seq<char>,
    pub inner: TypeModel,
}

/// The mathematical value of a [`PropType`].
pub enum TypeModel {
    Str,
    Int,
    Num,
    Bool,
    Ref(Seq<char>),
    Obj(ObjectModel),
    Arr(Box<TypeModel>),
    Dict(Box<TypeModel>),
    Optional(Box<TypeModel>),
    Enum(EnumModel),
    Null,
}

impl FieldModel {
    /// The name of the property that the field stands for: the name that it
    /// records, or else its identifier.
    pub open spec fn property_name(self) -> Seq<char> {
        match self.rename {
            Some(recorded) => recorded,
            None => self.name,
        }
    }
}

impl JsonObjectFieldInfo {
    /// The name of the property that the field stands for: the name that it
    /// records, or else its identifier.
    pub fn property_name(&self) -> (r: &String)
        ensures
            r@ == self@.property_name(),
    {
        match &self.rename {
            Some(recorded) => recorded,
            None => &self.name,
        }
    }
}

/// The model of a type node.
pub open spec fn type_model(t: PropType) -> TypeModel
    decreases t,
{
    match t {
        PropType::Str => TypeModel::Str,
        PropType::Int => TypeModel::Int,
        PropType::Num => TypeModel::Num,
        PropType::Bool => TypeModel::Bool,
        PropType::Null => TypeModel::Null,
        PropType::Ref(name) => TypeModel::Ref(name@),
        PropType::Obj(o) => TypeModel::Obj(object_model(o)),
        PropType::Arr(t) => TypeModel::Arr(Box::new(type_model(*t))),
        PropType::Dict(t) => TypeModel::Dict(Box::new(type_model(*t))),
        PropType::Optional(t) => TypeModel::Optional(Box::new(type_model(*t))),
        PropType::Enum(e) => TypeModel::Enum(enum_model(e)),
    }
}

/// The model of a named structure.
pub open spec fn object_model(o: JsonObject) -> ObjectModel
    decreases o,
{
    ObjectModel { name: o.name@, fields: fields_model(o.fields@) }
}

/// The models of the fields of a list, in their order.
pub open spec fn fields_model(fields: Seq<JsonObjectFieldInfo>) -> Seq<FieldModel>
    decreases fields,
{
    Seq::new(
        fields.len(),
        |i: int|
            if 0 <= i < fields.len() {
                field_model(fields[i])
            } else {
                arbitrary()
            },
    )
}

/// The model of one field.
pub open spec fn field_model(f: JsonObjectFieldInfo) -> FieldModel
    decreases f,
{
    FieldModel {
        name: f.name@,
        ty: type_model(f.ty),
        rename: match f.rename {
            Some(r) => Some(r@),
            None => None,
        },
    }
}

/// The model of a tagged union.
pub open spec fn enum_model(e: JsonEnum) -> EnumModel
    decreases e,
{
    EnumModel { name: e.name@, variants: variants_model(e.variants@) }
}

/// The models of the variants of a list, in their order.
pub open spec fn variants_model(variants: Seq<JsonEnumVariant>) -> Seq<VariantModel>
    decreases variants,
{
    Seq::new(
        variants.len(),
        |i: int|
            if 0 <= i < variants.len() {
                variant_model(variants[i])
            } else {
                arbitrary()
            },
    )
}

/// The model of one variant.
pub open spec fn variant_model(v: JsonEnumVariant) -> VariantModel
    decreases v,
{
    VariantModel { name: v.name@, inner: type_model(v.inner) }
}

impl View for PropType {
    type V = TypeModel;

    open spec fn view(&self) -> TypeModel {
        type_model(*self)
    }
}

impl View for JsonObject {
    type V = ObjectModel;

    open spec fn view(&self) -> ObjectModel {
        object_model(*self)
    }
}

impl View for JsonObjectFieldInfo {
    type V = FieldModel;

    open spec fn view(&self) -> FieldModel {
        field_model(*self)
    }
}

impl View for JsonEnum {
    type V = EnumModel;

    open spec fn view(&self) -> EnumModel {
        enum_model(*self)
    }
}

impl View for JsonEnumVariant {
    type V = VariantModel;

    open spec fn view(&self) -> VariantModel {
        variant_model(*self)
    }
}

/// A copy of a type node, with the same model.
fn copy_type(t: &PropType) -> (r: PropType)
    ensures
        r@ == t@,
    decreases t,
{
    match t {
        PropType::Str => PropType::Str,
        PropType::Int => PropType::Int,
        PropType::Num => PropType::Num,
        PropType::Bool => PropType::Bool,
        PropType::Null => PropType::Null,
        PropType::Ref(name) => PropType::Ref(name.clone()),
        PropType::Obj(o) => {
            let object = JsonObject { name: o.name.clone(), fields: copy_fields(&o.fields) };
            assert(object@ == o@);
            PropType::Obj(object)
        },
        PropType::Arr(inner) => PropType::Arr(Box::new(copy_type(inner))),
        PropType::Dict(inner) => PropType::Dict(Box::new(copy_type(inner))),
        PropType::Optional(inner) => PropType::Optional(Box::new(copy_type(inner))),
        PropType::Enum(e) => {
            let union = JsonEnum { name: e.name.clone(), variants: copy_variants(&e.variants) };
            assert(union@ == e@);
            PropType::Enum(union)
        },
    }
}

/// A copy of a list of fields, with the same models.
fn copy_fields(fields: &Vec<JsonObjectFieldInfo>) -> (r: Vec<JsonObjectFieldInfo>)
    ensures
        fields_model(r@) == fields_model(fields@),
    decreases fields,
{
    let mut copies: Vec<JsonObjectFieldInfo> = Vec::new();
    let mut i: usize = 0;
    while i < fields.len()
        invariant
            i <= fields.len(),
            copies.len() == i,
            forall|j: int| 0 <= j < i ==> (#[trigger] copies[j])@ == fields[j]@,
        decreases fields.len() - i,
    {
        let field = &fields[i];
        let copy = JsonObjectFieldInfo {
            name: field.name.clone(),
            ty: copy_type(&field.ty),
            rename: copy_text(&field.rename),
        };
        copies.push(copy);
        i = i + 1;
    }
    copies
}

/// A copy of a list of variants, with the same models.
fn copy_variants(variants: &Vec<JsonEnumVariant>) -> (r: Vec<JsonEnumVariant>)
    ensures
        variants_model(r@) == variants_model(variants@),
    decreases variants,
{
    let mut copies: Vec<JsonEnumVariant> = Vec::new();
    let mut i: usize = 0;
    while i < variants.len()
        invariant
            i <= variants.len(),
            copies.len() == i,
            forall|j: int| 0 <= j < i ==> (#[trigger] copies[j])@ == variants[j]@,
        decreases variants.len() - i,
    {
        let variant = &variants[i];
        let copy = JsonEnumVariant { name: variant.name.clone(), inner: copy_type(&variant.inner) };
        copies.push(copy);
        i = i + 1;
    }
    copies
}

impl Clone for PropType {
    fn clone(&self) -> (r: Self)
        ensures
            r@ == self@,
    {
        copy_type(self)
    }
}

impl Clone for JsonObject {
    fn clone(&self) -> (r: Self)
        ensures
            r@ == self@,
    {
        JsonObject { name: self.name.clone(), fields: copy_fields(&self.fields) }
    }
}

impl Clone for JsonObjectFieldInfo {
    fn clone(&self) -> (r: Self)
        ensures
            r@ == self@,
    {
        JsonObjectFieldInfo {
            name: self.name.clone(),
            ty: copy_type(&self.ty),
            rename: copy_text(&self.rename),
        }
    }
}

impl Clone for JsonEnum {
    fn clone(&self) -> (r: Self)
        ensures
            r@ == self@,
    {
        JsonEnum { name: self.name.clone(), variants: copy_variants(&self.variants) }
    }
}

impl Clone for JsonEnumVariant {
    fn clone(&self) -> (r: Self)
        ensures
            r@ == self@,
    {
        JsonEnumVariant { name: self.name.clone(), inner: copy_type(&self.inner) }
    }
}

} // verus!
