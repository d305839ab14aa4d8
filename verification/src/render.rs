//! Type references in Rust syntax for the nodes of the type model.

use vstd::prelude::*;
use vstd::string::*;
use crate::types::{PropType, TypeModel};

verus! {

/// The Rust type that refers to a node of the type model: a primitive by its
/// Rust name, a named structure by its own name, a reference by the name it
/// points to behind `::`, and each wrapper around the type of what it wraps.
pub open spec fn rs_type(t: TypeModel) -> Seq<char>
    decreases t,
{
    match t {
        TypeModel::Str => "String"@,
        TypeModel::Int => "i32"@,
        TypeModel::Num => "f32"@,
        TypeModel::Bool => "bool"@,
        TypeModel::Null => "()"@,
        TypeModel::Obj(o) => o.name,
        TypeModel::Enum(e) => e.name,
        TypeModel::Ref(name) => "::"@ + name,
        TypeModel::Arr(inner) => "Vec<"@ + rs_type(*inner) + ">"@,
        TypeModel::Dict(inner) => "HashMap<String, "@ + rs_type(*inner) + ">"@,
        TypeModel::Optional(inner) => "Option<"@ + rs_type(*inner) + ">"@,
    }
}

impl PropType {
    /// The Rust type that refers to this node.
    pub fn to_rs_type(&self) -> (r: String)
        ensures
            r@ == rs_type(self@),
        decreases self,
    {
        match self {
            PropType::Str => String::from_str("String"),
            PropType::Int => String::from_str("i32"),
            PropType::Num => String::from_str("f32"),
            PropType::Bool => String::from_str("bool"),
            PropType::Null => String::from_str("()"),
            PropType::Obj(o) => {
                assert(o@.name == o.name@);
                o.name.clone()
            },
            PropType::Enum(e) => {
                assert(e@.name == e.name@);
                e.name.clone()
            },
            PropType::Ref(name) => String::from_str("::").concat(name.as_str()),
            PropType::Arr(inner) => String::from_str("Vec<").concat(
                inner.to_rs_type().as_str(),
            ).concat(">"),
            PropType::Dict(inner) => String::from_str("HashMap<String, ").concat(
                inner.to_rs_type().as_str(),
            ).concat(">"),
            PropType::Optional(inner) => String::from_str("Option<").concat(
                inner.to_rs_type().as_str(),
            ).concat(">"),
        }
    }
}

} // verus!
