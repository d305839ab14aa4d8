//! What the resolver reports: the failures that stop a resolution, and the
//! diagnostics that do not.

use vstd::prelude::*;
use vstd::string::*;
use crate::text::{copy_text, text_model};

verus! {

/// Why a schema node cannot be resolved. Each failure names the context of the
/// offending node.
#[derive(Debug, PartialEq, Eq)]
pub enum ResolveError {
    /// The node lies deeper than the depth limit allows.
    TooDeep { context: String },
    /// A `oneOf` branch has no `id` to name its variant after.
    MissingBranchId { context: String },
    /// The node is an array and has no `items`.
    MissingItems { context: String },
    /// The node is an object whose `patternProperties` holds no entry.
    NoPatternProperty { context: String },
    /// The node is an object and has neither `patternProperties` nor `properties`.
    MissingProperties { context: String },
    /// The node has no reference and no `oneOf`, and its `type` is absent or
    /// not one that the resolver knows.
    Unresolvable { context: String, declared: Option<String> },
}

/// The mathematical value of a [`ResolveError`].
pub enum Failure {
    TooDeep { context: Seq<char> },
    MissingBranchId { context: Seq<char> },
    MissingItems { context: Seq<char> },
    NoPatternProperty { context: Seq<char> },
    MissingProperties { context: Seq<char> },
    Unresolvable { context: Seq<char>, declared: Option<Seq<char>> },
}

impl View for ResolveError {
    type V = Failure;

    open spec fn view(&self) -> Failure {
        match self {
            ResolveError::TooDeep { context } => Failure::TooDeep { context: context@ },
            ResolveError::MissingBranchId { context } => Failure::MissingBranchId {
                context: context@,
            },
            ResolveError::MissingItems { context } => Failure::MissingItems { context: context@ },
            ResolveError::NoPatternProperty { context } => Failure::NoPatternProperty {
                context: context@,
            },
            ResolveError::MissingProperties { context } => Failure::MissingProperties {
                context: context@,
            },
            ResolveError::Unresolvable { context, declared } => Failure::Unresolvable {
                context: context@,
                declared: text_model(*declared),
            },
        }
    }
}

impl Failure {
    /// The context name of the node that could not be resolved.
    pub open spec fn context(self) -> Seq<char> {
        match self {
            Failure::TooDeep { context } => context,
            Failure::MissingBranchId { context } => context,
            Failure::MissingItems { context } => context,
            Failure::NoPatternProperty { context } => context,
            Failure::MissingProperties { context } => context,
            Failure::Unresolvable { context, .. } => context,
        }
    }

    /// The failure in words.
    pub open spec fn message(self) -> Seq<char> {
        match self {
            Failure::TooDeep { context } => context + " lies deeper than the depth limit allows"@,
            Failure::MissingBranchId { context } => context + " has a branch without an id"@,
            Failure::MissingItems { context } => context
                + " is an array but no schema is set for items"@,
            Failure::NoPatternProperty { context } => context
                + " is an object with an empty set of pattern properties"@,
            Failure::MissingProperties { context } => context
                + " is an object without properties"@,
            Failure::Unresolvable { context, .. } => "unresolvable schema node at "@ + context,
        }
    }
}

impl ResolveError {
    /// The context name of the node that could not be resolved.
    pub fn context(&self) -> (r: &String)
        ensures
            r@ == self@.context(),
    {
        match self {
            ResolveError::TooDeep { context } => context,
            ResolveError::MissingBranchId { context } => context,
            ResolveError::MissingItems { context } => context,
            ResolveError::NoPatternProperty { context } => context,
            ResolveError::MissingProperties { context } => context,
            ResolveError::Unresolvable { context, .. } => context,
        }
    }

    /// The failure in words, for the author of the schema.
    pub fn message(&self) -> (r: String)
        ensures
            r@ == self@.message(),
    {
        match self {
            ResolveError::TooDeep { context } => context.clone().concat(
                " lies deeper than the depth limit allows",
            ),
            ResolveError::MissingBranchId { context } => context.clone().concat(
                " has a branch without an id",
            ),
            ResolveError::MissingItems { context } => context.clone().concat(
                " is an array but no schema is set for items",
            ),
            ResolveError::NoPatternProperty { context } => context.clone().concat(
                " is an object with an empty set of pattern properties",
            ),
            ResolveError::MissingProperties { context } => context.clone().concat(
                " is an object without properties",
            ),
            ResolveError::Unresolvable { context, .. } => String::from_str(
                "unresolvable schema node at ",
            ).concat(context.as_str()),
        }
    }
}

impl Clone for ResolveError {
    fn clone(&self) -> (r: Self)
        ensures
            r == *self,
    {
        match self {
            ResolveError::TooDeep { context } => ResolveError::TooDeep { context: context.clone() },
            ResolveError::MissingBranchId { context } => ResolveError::MissingBranchId {
                context: context.clone(),
            },
            ResolveError::MissingItems { context } => ResolveError::MissingItems {
                context: context.clone(),
            },
            ResolveError::NoPatternProperty { context } => ResolveError::NoPatternProperty {
                context: context.clone(),
            },
            ResolveError::MissingProperties { context } => ResolveError::MissingProperties {
                context: context.clone(),
            },
            ResolveError::Unresolvable { context, declared } => ResolveError::Unresolvable {
                context: context.clone(),
                declared: copy_text(declared),
            },
        }
    }
}

/// A remark on a schema that does not stop its resolution.
#[derive(Debug, PartialEq, Eq)]
pub enum Diagnostic {
    /// The object schema at `context` declares no property.
    EmptyObject { context: String },
}

/// The mathematical value of a [`Diagnostic`].
pub enum Notice {
    EmptyObject { context: Seq<char> },
}

impl View for Diagnostic {
    type V = Notice;

    open spec fn view(&self) -> Notice {
        match self {
            Diagnostic::EmptyObject { context } => Notice::EmptyObject { context: context@ },
        }
    }
}

impl Notice {
    /// The context name of the node that the notice is about.
    pub open spec fn context(self) -> Seq<char> {
        match self {
            Notice::EmptyObject { context } => context,
        }
    }

    /// The notice in words.
    pub open spec fn message(self) -> Seq<char> {
        match self {
            Notice::EmptyObject { context } => context
                + " is an object but has no properties. Likely an error."@,
        }
    }
}

impl Diagnostic {
    /// The context name of the node that the diagnostic is about.
    pub fn context(&self) -> (r: &String)
        ensures
            r@ == self@.context(),
    {
        match self {
            Diagnostic::EmptyObject { context } => context,
        }
    }

    /// The diagnostic in words, for the author of the schema.
    pub fn message(&self) -> (r: String)
        ensures
            r@ == self@.message(),
    {
        match self {
            Diagnostic::EmptyObject { context } => context.clone().concat(
                " is an object but has no properties. Likely an error.",
            ),
        }
    }
}

impl Clone for Diagnostic {
    fn clone(&self) -> (r: Self)
        ensures
            r == *self,
    {
        match self {
            Diagnostic::EmptyObject { context } => Diagnostic::EmptyObject {
                context: context.clone(),
            },
        }
    }
}

} // verus!
