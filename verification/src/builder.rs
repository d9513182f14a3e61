//! The decisions behind a derived builder: how each field is stored, which
//! setter it gets and what `build` asks of it.

use crate::syntax::{
    named_fields, Attribute, Data, DeriveInput, Field, GenericArgument, Meta, MetaNameValue,
    PathArguments, Type, TypeKind, Value,
};
use crate::text::{concat2, is_word};
use vstd::prelude::*;
use vstd::string::StringExecFns;

verus! {

/// Whether a type is a path whose first segment is `Option`.
pub open spec fn option_type(ty: Type) -> bool {
    match ty.segments() {
        Some(segments) => segments.len() > 0 && segments[0].ident@ == "Option"@,
        None => false,
    }
}

/// Whether a type is a path whose first segment is `Option`.
pub fn is_option(ty: &Type) -> (r: bool)
    ensures
        r == option_type(*ty),
{
    match &ty.kind {
        TypeKind::Path(segments) => {
            if segments.len() > 0 {
                is_word(&segments[0].ident, "Option")
            } else {
                false
            }
        },
        TypeKind::Other => false,
    }
}

/// The first argument in the angle brackets of a path's first segment,
/// where it is a type.
pub open spec fn inner_type(ty: Type) -> Option<Type> {
    match ty.segments() {
        Some(segments) => if segments.len() > 0 {
            match segments[0].arguments {
                PathArguments::AngleBracketed(args) => if args.len() > 0 {
                    match args[0] {
                        GenericArgument::Type(inner) => Some(inner),
                        GenericArgument::Other => None,
                    }
                } else {
                    None
                },
                _ => None,
            }
        } else {
            None
        },
        None => None,
    }
}

/// The first argument in the angle brackets of a path's first segment,
/// where it is a type.
pub fn get_type_in_generics(ty: &Type) -> (inner: Option<&Type>)
    ensures
        match inner {
            Some(t) => inner_type(*ty) == Some(*t),
            None => inner_type(*ty) is None,
        },
{
    match &ty.kind {
        TypeKind::Path(segments) => {
            if segments.len() == 0 {
                return None;
            }
            match &segments[0].arguments {
                PathArguments::AngleBracketed(args) => {
                    if args.len() == 0 {
                        return None;
                    }
                    match &args[0] {
                        GenericArgument::Type(inner) => Some(inner),
                        GenericArgument::Other => None,
                    }
                },
                _ => None,
            }
        },
        TypeKind::Other => None,
    }
}

/// The `name = value` that the first attribute holds in its brackets.
pub open spec fn first_pair(attrs: Seq<Attribute>) -> Option<MetaNameValue> {
    if attrs.len() == 0 {
        None
    } else {
        match attrs[0].meta {
            Meta::List(list) => list.args,
            _ => None,
        }
    }
}

/// The text of `each = "..."` in the first attribute.
pub open spec fn each_value(attrs: Seq<Attribute>) -> Option<Seq<char>> {
    match first_pair(attrs) {
        Some(pair) => match (pair.path, pair.value) {
            (Some(name), Value::Str(text)) => if name@ == "each"@ {
                Some(text@)
            } else {
                None
            },
            _ => None,
        },
        None => None,
    }
}

/// Whether the first attribute holds a `name = value` whose name is not
/// `each`.
pub open spec fn unexpected(attrs: Seq<Attribute>) -> bool {
    match first_pair(attrs) {
        Some(pair) => match pair.path {
            Some(name) => name@ != "each"@,
            None => true,
        },
        None => false,
    }
}

fn first_name_value(attrs: &Vec<Attribute>) -> (pair: Option<&MetaNameValue>)
    ensures
        match pair {
            Some(p) => first_pair(attrs@) == Some(*p),
            None => first_pair(attrs@) is None,
        },
{
    if attrs.len() == 0 {
        return None;
    }
    match &attrs[0].meta {
        Meta::List(list) => match &list.args {
            Some(pair) => Some(pair),
            None => None,
        },
        _ => None,
    }
}

fn named_each(path: &Option<String>) -> (r: bool)
    ensures
        r == match *path {
            Some(name) => name@ == "each"@,
            None => false,
        },
{
    match path {
        Some(name) => is_word(name, "each"),
        None => false,
    }
}

/// The text of `each = "..."` in the first attribute.
pub fn get_value_of_each(attrs: &Vec<Attribute>) -> (each: Option<String>)
    ensures
        match each {
            Some(text) => each_value(attrs@) == Some(text@),
            None => each_value(attrs@) is None,
        },
{
    match first_name_value(attrs) {
        Some(pair) => {
            if !named_each(&pair.path) {
                return None;
            }
            match &pair.value {
                Value::Str(text) => Some(text.clone()),
                _ => None,
            }
        },
        None => None,
    }
}

/// The complaint about an attribute that is not `builder(each = "...")`.
pub open spec fn unexpected_message() -> Seq<char> {
    "expected `builder(each = \"...\")`"@
}

/// The complaint about the first attribute, where it holds a
/// `name = value` whose name is not `each`. It points at that attribute.
pub fn get_unexpected_attributes(attrs: &Vec<Attribute>) -> (message: Option<String>)
    ensures
        match message {
            Some(text) => unexpected(attrs@) && text@ == unexpected_message(),
            None => !unexpected(attrs@),
        },
{
    match first_name_value(attrs) {
        Some(pair) => {
            if named_each(&pair.path) {
                None
            } else {
                Some(String::from_str("expected `builder(each = \"...\")`"))
            }
        },
        None => None,
    }
}

/// How the builder stores a field.
#[derive(Clone, Copy, Debug, PartialEq, Eq, Structural)]
pub enum Storage {
    /// In an `Option` of the field's type.
    Optional,
    /// In the field's own type.
    Plain,
}

/// What a fresh builder holds for a field.
#[derive(Clone, Copy, Debug, PartialEq, Eq, Structural)]
pub enum Initial {
    /// `None`.
    Nothing,
    /// An empty `Vec`.
    Empty,
}

/// The type of a setter's argument.
#[derive(Clone, Copy, Debug, PartialEq, Eq, Structural)]
pub enum Argument {
    /// The field's type.
    Whole,
    /// The type in the angle brackets of the field's type, by its number;
    /// nothing where the field's type has no such type.
    Inner(Option<usize>),
}

/// What a setter does with its argument.
#[derive(Clone, Copy, Debug, PartialEq, Eq, Structural)]
pub enum Action {
    /// Stores it, wrapped in `Some`.
    Assign,
    /// Appends it to what the field holds.
    Push,
}

/// What `build` does with a field.
#[derive(Clone, Copy, Debug, PartialEq, Eq, Structural)]
pub enum Guard {
    /// Takes a copy of what the builder holds.
    Clone,
    /// Takes a copy of the value, and fails where none was set.
    Require,
}

/// The setter of a field.
pub struct Setter {
    pub name: String,
    pub argument: Argument,
    pub action: Action,
}

/// What the builder does for one named field.
pub struct FieldPlan {
    /// The place of the field among the fields of the struct.
    pub field: usize,
    pub storage: Storage,
    pub initial: Initial,
    pub setter: Setter,
    pub guard: Guard,
}

/// A complaint about the first attribute of a field.
pub struct Complaint {
    /// The place of the field among the fields of the struct.
    pub field: usize,
    pub message: String,
}

/// What is generated for a struct.
pub struct BuilderPlan {
    /// The name of the builder.
    pub builder_name: String,
    /// The complaint that is given out before everything else.
    pub unexpected: Option<Complaint>,
    /// The named fields, in their order.
    pub fields: Vec<FieldPlan>,
}

/// Whether a field is kept as it is in the builder: an `Option`, or a list
/// that is filled item by item.
pub open spec fn kept_plain(field: Field) -> bool {
    option_type(field.ty) || each_value(field.attrs@) is Some
}

/// How the builder stores a field: in its own type where it is kept plain.
pub open spec fn storage_of(field: Field) -> Storage {
    if kept_plain(field) {
        Storage::Plain
    } else {
        Storage::Optional
    }
}

/// What a fresh builder holds for a field: an empty list where the field
/// is filled item by item.
pub open spec fn initial_of(field: Field) -> Initial {
    if each_value(field.attrs@) is Some {
        Initial::Empty
    } else {
        Initial::Nothing
    }
}

/// What `build` does with a field: it asks for a value unless the field is
/// kept plain.
pub open spec fn guard_of(field: Field) -> Guard {
    if kept_plain(field) {
        Guard::Clone
    } else {
        Guard::Require
    }
}

/// The name of a field's setter: that of the field, or for a list that is
/// filled item by item the name given with `each`.
pub open spec fn setter_name(field: Field) -> Seq<char> {
    if !option_type(field.ty) && each_value(field.attrs@) is Some {
        each_value(field.attrs@).unwrap()
    } else {
        field.ident.unwrap()@
    }
}

/// The number of the type in the angle brackets of a type.
pub open spec fn inner_id(ty: Type) -> Option<usize> {
    match inner_type(ty) {
        Some(inner) => Some(inner.id),
        None => None,
    }
}

/// The type of the argument of a field's setter: for a field that is kept
/// plain the type in its angle brackets, else the type of the field.
pub open spec fn argument_of(field: Field) -> Argument {
    if kept_plain(field) {
        Argument::Inner(inner_id(field.ty))
    } else {
        Argument::Whole
    }
}

/// What the setter of a field does: it appends where the field is a list
/// that is filled item by item, and stores otherwise.
pub open spec fn action_of(field: Field) -> Action {
    if !option_type(field.ty) && each_value(field.attrs@) is Some {
        Action::Push
    } else {
        Action::Assign
    }
}

/// Whether `plan` is what the builder does for the named field at `index`.
pub open spec fn planned(field: Field, index: int, plan: FieldPlan) -> bool {
    &&& plan.field == index
    &&& plan.storage == storage_of(field)
    &&& plan.initial == initial_of(field)
    &&& plan.guard == guard_of(field)
    &&& plan.setter.name@ == setter_name(field)
    &&& plan.setter.argument == argument_of(field)
    &&& plan.setter.action == action_of(field)
}

/// Whether `i` is the first named field with an attribute to complain of.
pub open spec fn first_unexpected(fields: Seq<Field>, i: int) -> bool {
    &&& 0 <= i < fields.len()
    &&& fields[i].ident is Some
    &&& unexpected(fields[i].attrs@)
    &&& forall|j: int|
        0 <= j < i && (#[trigger] fields[j]).ident is Some ==> !unexpected(fields[j].attrs@)
}

fn plan_field(field: &Field, index: usize) -> (plan: FieldPlan)
    requires
        field.ident is Some,
    ensures
        planned(*field, index as int, plan),
{
    let optional = is_option(&field.ty);
    let each = get_value_of_each(&field.attrs);
    let listed = each.is_some();
    let plain = optional || listed;
    let inner = match get_type_in_generics(&field.ty) {
        Some(ty) => Some(ty.id),
        None => None,
    };
    let ident = match &field.ident {
        Some(ident) => ident.clone(),
        None => String::new(),
    };
    let setter = if optional {
        Setter { name: ident, argument: Argument::Inner(inner), action: Action::Assign }
    } else {
        match each {
            Some(name) => Setter { name, argument: Argument::Inner(inner), action: Action::Push },
            None => Setter { name: ident, argument: Argument::Whole, action: Action::Assign },
        }
    };
    FieldPlan {
        field: index,
        storage: if plain {
            Storage::Plain
        } else {
            Storage::Optional
        },
        initial: if listed {
            Initial::Empty
        } else {
            Initial::Nothing
        },
        setter,
        guard: if plain {
            Guard::Clone
        } else {
            Guard::Require
        },
    }
}

/// Plans the builder of a struct.
///
/// Fields without a name are passed over. The builder is named after the
/// struct, with `Builder` behind the name.
pub fn derive(input: &DeriveInput) -> (plan: BuilderPlan)
    requires
        input.data is Struct,
    ensures
        plan.builder_name@ == input.ident@ + "Builder"@,
        ({
            let fields = input.data->Struct_0@;
            let named = named_fields(fields, fields.len() as int);
            &&& plan.fields.len() == named.len()
            &&& forall|i: int|
                0 <= i < named.len() ==> planned(
                    fields[named[i]],
                    named[i],
                    #[trigger] plan.fields[i],
                )
            &&& match plan.unexpected {
                Some(complaint) => first_unexpected(fields, complaint.field as int)
                    && complaint.message@ == unexpected_message(),
                None => forall|i: int|
                    0 <= i < fields.len() && (#[trigger] fields[i]).ident is Some ==> !unexpected(
                        fields[i].attrs@,
                    ),
            }
        }),
{
    let builder_name = concat2(input.ident.as_str(), "Builder");
    let mut plans: Vec<FieldPlan> = Vec::new();
    let mut complaint: Option<Complaint> = None;
    match &input.data {
        Data::Struct(fields) => {
            let mut i: usize = 0;
            while i < fields.len()
                invariant
                    i <= fields.len(),
                    plans.len() == named_fields(fields@, i as int).len(),
                    forall|k: int|
                        0 <= k < plans.len() ==> planned(
                            fields[named_fields(fields@, i as int)[k]],
                            named_fields(fields@, i as int)[k],
                            #[trigger] plans[k],
                        ),
                    match complaint {
                        Some(c) => first_unexpected(fields@, c.field as int) && c.message@
                            == unexpected_message(),
                        None => forall|j: int|
                            0 <= j < i && (#[trigger] fields[j]).ident is Some ==> !unexpected(
                                fields[j].attrs@,
                            ),
                    },
                decreases fields.len() - i,
            {
                let field = &fields[i];
                if field.ident.is_some() {
                    if complaint.is_none() {
                        match get_unexpected_attributes(&field.attrs) {
                            Some(message) => {
                                complaint = Some(Complaint { field: i, message });
                            },
                            None => {},
                        }
                    }
                    plans.push(plan_field(field, i));
                }
                i += 1;
            }
        },
        _ => {},
    }
    BuilderPlan { builder_name, unexpected: complaint, fields: plans }
}

} // verus!
