//! What the code generators read of a parsed item, as plain values.
//!
//! A caller fills these types from the syntax tree of the item. Types carry
//! a number of the caller's choosing, by which it finds the source that a
//! result refers to.

use vstd::prelude::*;

verus! {

/// The value of `name = value` in an attribute.
pub enum Value {
    /// A string literal, with the text that it stands for.
    Str(String),
    /// Any other literal.
    Literal,
    /// An expression that is no literal.
    Other,
}

/// `name = value`. The name is there where the path is a single name.
pub struct MetaNameValue {
    pub path: Option<String>,
    pub value: Value,
}

/// `name(..)`. The arguments are there where they read as `name = value`.
pub struct MetaList {
    pub path: Option<String>,
    pub args: Option<MetaNameValue>,
}

/// The content of an attribute.
pub enum Meta {
    /// A path alone, with its name where it is a single name.
    Path(Option<String>),
    List(MetaList),
    NameValue(MetaNameValue),
}

/// An attribute.
pub struct Attribute {
    pub meta: Meta,
}

impl Meta {
    /// The name of the attribute, where its path is a single name.
    pub open spec fn name(self) -> Option<String> {
        match self {
            Meta::Path(path) => path,
            Meta::List(list) => list.path,
            Meta::NameValue(pair) => pair.path,
        }
    }

    /// The name of the attribute, where its path is a single name.
    pub fn path(&self) -> (path: &Option<String>)
        ensures
            *path == self.name(),
    {
        match self {
            Meta::Path(path) => path,
            Meta::List(list) => &list.path,
            Meta::NameValue(pair) => &pair.path,
        }
    }
}

/// A type.
pub struct Type {
    /// The caller's number for this type.
    pub id: usize,
    pub kind: TypeKind,
}

/// The shape of a type.
pub enum TypeKind {
    /// A path, with its segments.
    Path(Vec<PathSegment>),
    /// Anything else.
    Other,
}

/// A segment of a path.
pub struct PathSegment {
    pub ident: String,
    pub arguments: PathArguments,
}

/// What follows the name of a segment.
pub enum PathArguments {
    /// Nothing.
    Empty,
    /// Arguments in angle brackets.
    AngleBracketed(Vec<GenericArgument>),
    /// Arguments in round brackets.
    Parenthesized,
}

/// An argument in angle brackets.
pub enum GenericArgument {
    /// A type.
    Type(Type),
    /// A lifetime, a constant or a constraint.
    Other,
}

/// A parameter of a generic item.
pub enum GenericParam {
    /// A type parameter, with its name.
    Type(String),
    /// A lifetime or a constant.
    Other,
}

/// A field of a struct.
pub struct Field {
    pub attrs: Vec<Attribute>,
    /// The name, where the field has one.
    pub ident: Option<String>,
    pub ty: Type,
}

/// The body of a derive input.
pub enum Data {
    /// A struct, with its fields.
    Struct(Vec<Field>),
    /// An enum, with the names of its variants.
    Enum(Vec<String>),
    Union,
}

/// The item that a derive is applied to.
pub struct DeriveInput {
    pub attrs: Vec<Attribute>,
    pub ident: String,
    pub generics: Vec<GenericParam>,
    pub data: Data,
}

impl Type {
    /// The segments of the path, where the type is one.
    pub open spec fn segments(self) -> Option<Seq<PathSegment>> {
        match self.kind {
            TypeKind::Path(segments) => Some(segments@),
            TypeKind::Other => None,
        }
    }
}

/// The places of the named fields among the first `n` fields.
pub open spec fn named_fields(fields: Seq<Field>, n: int) -> Seq<int>
    decreases n,
{
    if n <= 0 {
        Seq::empty()
    } else if fields[n - 1].ident is Some {
        named_fields(fields, n - 1).push(n - 1)
    } else {
        named_fields(fields, n - 1)
    }
}

} // verus!
