//! The decisions behind a derived `Debug`: how each field is shown and which
//! types must be `Debug` themselves.

use crate::syntax::{
    named_fields, Attribute, Data, DeriveInput, Field, GenericArgument, GenericParam, Meta,
    MetaNameValue, PathArguments, Type, TypeKind, Value,
};
use crate::text::is_word;
use vstd::prelude::*;
use vstd::string::StringExecFns;

verus! {

/// The part of `name = value` that a complaint points at.
#[derive(Clone, Copy, Debug, PartialEq, Eq, Structural)]
pub enum Part {
    /// The whole of `name = value`.
    Pair,
    /// The literal.
    Literal,
}

/// A value that is no string where one is asked for.
pub struct Mistake {
    /// The place of the attribute among the attributes.
    pub attr: usize,
    pub part: Part,
    pub message: String,
}

/// The complaint about a value that is no string.
pub open spec fn not_string() -> Seq<char> {
    "value of debug is not string"@
}

/// Whether an attribute is `name = value` with the given name.
pub open spec fn pair_named(attr: Attribute, word: Seq<char>) -> bool {
    match attr.meta {
        Meta::NameValue(pair) => match pair.path {
            Some(name) => name@ == word,
            None => false,
        },
        _ => false,
    }
}

/// Whether an attribute is `name(..)` with the given name.
pub open spec fn list_named(attr: Attribute, word: Seq<char>) -> bool {
    match attr.meta {
        Meta::List(list) => match list.path {
            Some(name) => name@ == word,
            None => false,
        },
        _ => false,
    }
}

/// Whether `i` is the first attribute of the form `debug = value`.
pub open spec fn first_debug_pair(attrs: Seq<Attribute>, i: int) -> bool {
    &&& 0 <= i < attrs.len()
    &&& pair_named(attrs[i], "debug"@)
    &&& forall|j: int| 0 <= j < i ==> !pair_named(#[trigger] attrs[j], "debug"@)
}

/// Whether `i` is the first attribute of the form `debug(..)`.
pub open spec fn first_debug_list(attrs: Seq<Attribute>, i: int) -> bool {
    &&& 0 <= i < attrs.len()
    &&& list_named(attrs[i], "debug"@)
    &&& forall|j: int| 0 <= j < i ==> !list_named(#[trigger] attrs[j], "debug"@)
}

fn is_named(path: &Option<String>, word: &str) -> (r: bool)
    ensures
        r == match *path {
            Some(name) => name@ == word@,
            None => false,
        },
{
    match path {
        Some(name) => is_word(name, word),
        None => false,
    }
}

/// Whether `found` is what a value read as a format string gives: the text
/// of a string, or a complaint that points at what stands in its place.
pub open spec fn format_read(value: Value, attr: int, found: Result<String, Mistake>) -> bool {
    match value {
        Value::Str(text) => found matches Ok(format) && format@ == text@,
        Value::Literal => found matches Err(mistake) && mistake.attr == attr && mistake.part
            == Part::Literal && mistake.message@ == not_string(),
        Value::Other => found matches Err(mistake) && mistake.attr == attr && mistake.part
            == Part::Pair && mistake.message@ == not_string(),
    }
}

/// Whether `found` is the format that the attributes give: what the value
/// of the first attribute `debug = value` reads as, or nothing where there
/// is no such attribute.
pub open spec fn debug_format(attrs: Seq<Attribute>, found: Option<Result<String, Mistake>>) -> bool {
    match found {
        Some(read) => exists|i: int| #[trigger]
            first_debug_pair(attrs, i) && format_read(attrs[i].meta->NameValue_0.value, i, read),
        None => forall|i: int| 0 <= i < attrs.len() ==> !pair_named(#[trigger] attrs[i], "debug"@),
    }
}

/// The format of a field: the value of the first attribute `debug = value`.
pub fn get_debug_attr(attrs: &Vec<Attribute>) -> (found: Option<Result<String, Mistake>>)
    ensures
        debug_format(attrs@, found),
{
    let mut i: usize = 0;
    while i < attrs.len()
        invariant
            i <= attrs.len(),
            forall|j: int| 0 <= j < i ==> !pair_named(#[trigger] attrs[j], "debug"@),
        decreases attrs.len() - i,
    {
        match &attrs[i].meta {
            Meta::NameValue(pair) => {
                if is_named(&pair.path, "debug") {
                    assert(first_debug_pair(attrs@, i as int));
                    return Some(
                        match &pair.value {
                            Value::Str(text) => Ok(text.clone()),
                            Value::Literal => Err(
                                Mistake {
                                    attr: i,
                                    part: Part::Literal,
                                    message: String::from_str("value of debug is not string"),
                                },
                            ),
                            Value::Other => Err(
                                Mistake {
                                    attr: i,
                                    part: Part::Pair,
                                    message: String::from_str("value of debug is not string"),
                                },
                            ),
                        },
                    );
                }
            },
            _ => {},
        }
        i += 1;
    }
    None
}

/// Whether `found` is what a value read as a bound gives: the text of a
/// string, or a complaint that points at the whole of `bound = value`.
pub open spec fn bound_read(value: Value, attr: int, found: Result<String, Mistake>) -> bool {
    match value {
        Value::Str(text) => found matches Ok(bound) && bound@ == text@,
        _ => found matches Err(mistake) && mistake.attr == attr && mistake.part == Part::Pair
            && mistake.message@ == not_string(),
    }
}

/// The `bound = value` in the brackets of an attribute `debug(..)`.
pub open spec fn bound_pair(attr: Attribute) -> Option<MetaNameValue> {
    match attr.meta {
        Meta::List(list) => match list.args {
            Some(pair) => match pair.path {
                Some(name) => if name@ == "bound"@ {
                    Some(pair)
                } else {
                    None
                },
                None => None,
            },
            None => None,
        },
        _ => None,
    }
}

/// Whether `found` is the bound that the attributes give: what the value
/// of `bound = value` in the first attribute `debug(..)` reads as, or
/// nothing where that attribute is not there or holds no such pair.
pub open spec fn debug_bound(attrs: Seq<Attribute>, found: Option<Result<String, Mistake>>) -> bool {
    match found {
        Some(read) => exists|i: int| #[trigger]
            first_debug_list(attrs, i) && bound_pair(attrs[i]) is Some && bound_read(
                bound_pair(attrs[i]).unwrap().value,
                i,
                read,
            ),
        None => forall|i: int| #[trigger]
            first_debug_list(attrs, i) ==> bound_pair(attrs[i]) is None,
    }
}

/// The bound that the item asks for: the value of `bound = value` in the
/// first attribute `debug(..)`. Later attributes are not looked at.
pub fn get_bound_in_debug_attr(attrs: &Vec<Attribute>) -> (found: Option<Result<String, Mistake>>)
    ensures
        debug_bound(attrs@, found),
{
    let mut i: usize = 0;
    while i < attrs.len()
        invariant
            i <= attrs.len(),
            forall|j: int| 0 <= j < i ==> !list_named(#[trigger] attrs[j], "debug"@),
        decreases attrs.len() - i,
    {
        match &attrs[i].meta {
            Meta::List(list) => {
                if is_named(&list.path, "debug") {
                    assert(first_debug_list(attrs@, i as int));
                    assert forall|k: int| #[trigger] first_debug_list(attrs@, k) implies k == i by {
                        if k < i {
                            assert(!list_named(attrs[k], "debug"@));
                        } else if k > i {
                            assert(list_named(attrs[i as int], "debug"@));
                        }
                    }
                    return match &list.args {
                        Some(pair) => {
                            if is_named(&pair.path, "bound") {
                                Some(
                                    match &pair.value {
                                        Value::Str(text) => Ok(text.clone()),
                                        _ => Err(
                                            Mistake {
                                                attr: i,
                                                part: Part::Pair,
                                                message: String::from_str(
                                                    "value of debug is not string",
                                                ),
                                            },
                                        ),
                                    },
                                )
                            } else {
                                None
                            }
                        },
                        None => None,
                    };
                }
            },
            _ => {},
        }
        i += 1;
    }
    assert forall|k: int| #[trigger] first_debug_list(attrs@, k) implies bound_pair(attrs[k])
        is None by {
        assert(!list_named(attrs[k], "debug"@));
    }
    None
}

/// Whether a type is a path whose last segment is `PhantomData`.
pub open spec fn phantom_type(ty: Type) -> bool {
    match ty.segments() {
        Some(segments) => segments.len() > 0 && segments.last().ident@ == "PhantomData"@,
        None => false,
    }
}

fn is_phantom(ty: &Type) -> (r: bool)
    ensures
        r == phantom_type(*ty),
{
    match &ty.kind {
        TypeKind::Path(segments) => {
            if segments.len() > 0 {
                is_word(&segments[segments.len() - 1].ident, "PhantomData")
            } else {
                false
            }
        },
        TypeKind::Other => false,
    }
}

/// The numbers of the types among the first `n` fields that are
/// `PhantomData`.
pub open spec fn phantom_ids(fields: Seq<Field>, n: int) -> Seq<usize>
    decreases n,
{
    if n <= 0 {
        Seq::empty()
    } else if phantom_type(fields[n - 1].ty) {
        phantom_ids(fields, n - 1).push(fields[n - 1].ty.id)
    } else {
        phantom_ids(fields, n - 1)
    }
}

/// The types of the fields that are `PhantomData`, in the order of the
/// fields.
pub fn get_type_phantom_data_in_fields(fields: &Vec<Field>) -> (types: Vec<&Type>)
    ensures
        types.len() == phantom_ids(fields@, fields.len() as int).len(),
        forall|k: int|
            0 <= k < types.len() ==> (#[trigger] types[k]).id == phantom_ids(
                fields@,
                fields.len() as int,
            )[k] && phantom_type(*types[k]),
{
    let mut types: Vec<&Type> = Vec::new();
    let mut i: usize = 0;
    while i < fields.len()
        invariant
            i <= fields.len(),
            types.len() == phantom_ids(fields@, i as int).len(),
            forall|k: int|
                0 <= k < types.len() ==> (#[trigger] types[k]).id == phantom_ids(
                    fields@,
                    i as int,
                )[k] && phantom_type(*types[k]),
        decreases fields.len() - i,
    {
        if is_phantom(&fields[i].ty) {
            types.push(&fields[i].ty);
        }
        i += 1;
    }
    types
}

/// The places of the type parameters among the first `n` parameters.
pub open spec fn type_params(generics: Seq<GenericParam>, n: int) -> Seq<usize>
    decreases n,
{
    if n <= 0 {
        Seq::empty()
    } else if generics[n - 1] is Type {
        type_params(generics, n - 1).push((n - 1) as usize)
    } else {
        type_params(generics, n - 1)
    }
}

/// The places of the parameters that get the bound `Debug`: every type
/// parameter.
pub fn add_trait_bounds(generics: &Vec<GenericParam>) -> (bounded: Vec<usize>)
    ensures
        bounded@ == type_params(generics@, generics.len() as int),
{
    let mut bounded: Vec<usize> = Vec::new();
    let mut i: usize = 0;
    while i < generics.len()
        invariant
            i <= generics.len(),
            bounded@ == type_params(generics@, i as int),
        decreases generics.len() - i,
    {
        match &generics[i] {
            GenericParam::Type(_) => {
                bounded.push(i);
            },
            GenericParam::Other => {},
        }
        i += 1;
    }
    bounded
}

/// Whether a parameter is a type parameter of the given name.
pub open spec fn param_named(param: GenericParam, name: Seq<char>) -> bool {
    match param {
        GenericParam::Type(ident) => ident@ == name,
        GenericParam::Other => false,
    }
}

/// Whether a name is that of a type parameter.
pub open spec fn is_param(generics: Seq<GenericParam>, name: Seq<char>) -> bool {
    exists|i: int| 0 <= i < generics.len() && param_named(#[trigger] generics[i], name)
}

fn names_param(generics: &Vec<GenericParam>, name: &String) -> (r: bool)
    ensures
        r == is_param(generics@, name@),
{
    let mut i: usize = 0;
    while i < generics.len()
        invariant
            i <= generics.len(),
            forall|j: int| 0 <= j < i ==> !param_named(#[trigger] generics[j], name@),
        decreases generics.len() - i,
    {
        match &generics[i] {
            GenericParam::Type(param) => {
                if *param == *name {
                    return true;
                }
            },
            GenericParam::Other => {},
        }
        i += 1;
    }
    false
}

/// Whether a type is a path that starts with a type parameter.
pub open spec fn starts_with_param(ty: Type, generics: Seq<GenericParam>) -> bool {
    match ty.segments() {
        Some(segments) => segments.len() > 0 && is_param(generics, segments[0].ident@),
        None => false,
    }
}

fn is_associated(ty: &Type, generics: &Vec<GenericParam>) -> (r: bool)
    ensures
        r == starts_with_param(*ty, generics@),
{
    match &ty.kind {
        TypeKind::Path(segments) => {
            if segments.len() > 0 {
                names_param(generics, &segments[0].ident)
            } else {
                false
            }
        },
        TypeKind::Other => false,
    }
}

/// Whether an argument is a type that starts with a type parameter.
pub open spec fn param_argument(arg: GenericArgument, generics: Seq<GenericParam>) -> bool {
    match arg {
        GenericArgument::Type(ty) => starts_with_param(ty, generics),
        GenericArgument::Other => false,
    }
}

/// Whether `i` is the first argument that is a type which starts with a
/// type parameter.
pub open spec fn first_param_argument(
    args: Seq<GenericArgument>,
    generics: Seq<GenericParam>,
    i: int,
) -> bool {
    &&& 0 <= i < args.len()
    &&& param_argument(args[i], generics)
    &&& forall|j: int| 0 <= j < i ==> !param_argument(#[trigger] args[j], generics)
}

/// The arguments in the angle brackets of a path's last segment.
pub open spec fn last_arguments(ty: Type) -> Option<Seq<GenericArgument>> {
    match ty.segments() {
        Some(segments) => if segments.len() > 0 {
            match segments.last().arguments {
                PathArguments::AngleBracketed(args) => Some(args@),
                _ => None,
            }
        } else {
            None
        },
        None => None,
    }
}

/// Whether a type starts with `PhantomData`.
pub open spec fn starts_phantom(ty: Type) -> bool {
    match ty.segments() {
        Some(segments) => segments.len() > 0 && segments[0].ident@ == "PhantomData"@,
        None => false,
    }
}

/// Whether `bound` is the type that the type of a field asks to be `Debug`.
///
/// A type that starts with a type parameter asks for itself. Any other
/// path but `PhantomData` asks for the first argument of its last segment
/// that starts with a type parameter.
pub open spec fn binds(ty: Type, generics: Seq<GenericParam>, bound: Option<Type>) -> bool {
    if starts_with_param(ty, generics) {
        bound == Some(ty)
    } else if ty.segments() is None || starts_phantom(ty) || last_arguments(ty) is None {
        bound is None
    } else {
        let args = last_arguments(ty).unwrap();
        match bound {
            Some(found) => exists|i: int| #[trigger]
                first_param_argument(args, generics, i) && args[i] == GenericArgument::Type(found),
            None => forall|i: int|
                0 <= i < args.len() ==> !param_argument(#[trigger] args[i], generics),
        }
    }
}

fn type_to_bind<'a>(ty: &'a Type, generics: &Vec<GenericParam>) -> (bound: Option<&'a Type>)
    ensures
        binds(
            *ty,
            generics@,
            match bound {
                Some(found) => Some(*found),
                None => None,
            },
        ),
{
    if is_associated(ty, generics) {
        return Some(ty);
    }
    match &ty.kind {
        TypeKind::Path(segments) => {
            if segments.len() == 0 {
                return None;
            }
            if is_word(&segments[0].ident, "PhantomData") {
                return None;
            }
            match &segments[segments.len() - 1].arguments {
                PathArguments::AngleBracketed(args) => {
                    let mut i: usize = 0;
                    while i < args.len()
                        invariant
                            i <= args.len(),
                            !starts_with_param(*ty, generics@),
                            !starts_phantom(*ty),
                            last_arguments(*ty) == Some(args@),
                            forall|j: int|
                                0 <= j < i ==> !param_argument(#[trigger] args[j], generics@),
                        decreases args.len() - i,
                    {
                        match &args[i] {
                            GenericArgument::Type(arg) => {
                                if is_associated(arg, generics) {
                                    assert(first_param_argument(args@, generics@, i as int)
                                        && args@[i as int] == GenericArgument::Type(*arg));
                                    return Some(arg);
                                }
                            },
                            GenericArgument::Other => {},
                        }
                        i += 1;
                    }
                    None
                },
                _ => None,
            }
        },
        TypeKind::Other => None,
    }
}

/// Whether `types` are the types that the first `n` fields ask to be
/// `Debug`, in the order of the fields.
pub open spec fn bound_types(
    fields: Seq<Field>,
    generics: Seq<GenericParam>,
    n: int,
    types: Seq<Type>,
) -> bool
    decreases n,
{
    if n <= 0 {
        types.len() == 0
    } else {
        ||| binds(fields[n - 1].ty, generics, None) && bound_types(fields, generics, n - 1, types)
        ||| types.len() > 0 && binds(fields[n - 1].ty, generics, Some(types.last()))
            && bound_types(fields, generics, n - 1, types.drop_last())
    }
}

/// The types that the fields ask to be `Debug`.
pub fn get_types_to_bind_debug<'a>(fields: &'a Vec<Field>, generics: &Vec<GenericParam>) -> (types:
    Vec<&'a Type>)
    ensures
        bound_types(
            fields@,
            generics@,
            fields.len() as int,
            types@.map_values(|ty: &Type| *ty),
        ),
{
    let mut types: Vec<&Type> = Vec::new();
    let mut i: usize = 0;
    while i < fields.len()
        invariant
            i <= fields.len(),
            bound_types(fields@, generics@, i as int, types@.map_values(|ty: &Type| *ty)),
        decreases fields.len() - i,
    {
        let ghost before = types@.map_values(|ty: &Type| *ty);
        match type_to_bind(&fields[i].ty, generics) {
            Some(found) => {
                types.push(found);
                proof {
                    let after = types@.map_values(|ty: &Type| *ty);
                    assert(after.drop_last() =~= before);
                    assert(after.last() == *found);
                }
            },
            None => {},
        }
        i += 1;
    }
    types
}

/// The numbers of a list of types.
pub open spec fn ids_of(types: Seq<Type>) -> Seq<usize> {
    types.map_values(|ty: Type| ty.id)
}

/// Whether `ids` are the numbers of the types that must be `Debug`: first
/// the types of the fields that are `PhantomData`, then the types that the
/// fields ask for.
pub open spec fn inferred(fields: Seq<Field>, generics: Seq<GenericParam>, ids: Seq<usize>) -> bool {
    exists|types: Seq<Type>| #[trigger]
        bound_types(fields, generics, fields.len() as int, types) && ids == phantom_ids(
            fields,
            fields.len() as int,
        ) + ids_of(types)
}

/// The numbers of the types that must be `Debug`.
pub fn infer_bound_type_from_fields(fields: &Vec<Field>, generics: &Vec<GenericParam>) -> (ids: Vec<
    usize,
>)
    ensures
        inferred(fields@, generics@, ids@),
{
    let phantom = get_type_phantom_data_in_fields(fields);
    let mut ids: Vec<usize> = Vec::new();
    let mut i: usize = 0;
    while i < phantom.len()
        invariant
            i <= phantom.len(),
            phantom.len() == phantom_ids(fields@, fields.len() as int).len(),
            forall|k: int|
                0 <= k < phantom.len() ==> (#[trigger] phantom[k]).id == phantom_ids(
                    fields@,
                    fields.len() as int,
                )[k],
            ids@ == phantom_ids(fields@, fields.len() as int).take(i as int),
        decreases phantom.len() - i,
    {
        ids.push(phantom[i].id);
        assert(ids@ =~= phantom_ids(fields@, fields.len() as int).take(i + 1));
        i += 1;
    }
    assert(ids@ =~= phantom_ids(fields@, fields.len() as int));
    let bound = get_types_to_bind_debug(fields, generics);
    let ghost types = bound@.map_values(|ty: &Type| *ty);
    let mut k: usize = 0;
    while k < bound.len()
        invariant
            k <= bound.len(),
            types == bound@.map_values(|ty: &Type| *ty),
            ids@ == phantom_ids(fields@, fields.len() as int) + ids_of(types).take(k as int),
        decreases bound.len() - k,
    {
        ids.push(bound[k].id);
        assert(ids@ =~= phantom_ids(fields@, fields.len() as int) + ids_of(types).take(k + 1));
        k += 1;
    }
    assert(ids_of(types).take(bound.len() as int) =~= ids_of(types));
    ids
}

/// A type or a condition that stands behind `where` in the impl.
pub enum Bound {
    /// The condition that the item names, as text.
    Given(String),
    /// A complaint in place of a condition.
    Mistaken(Mistake),
    /// The type of the given number, which must be `Debug`.
    Type(usize),
}

/// How a field is shown.
pub enum Shown {
    /// With its own `Debug`.
    Plain,
    /// Through the given format.
    Formatted(String),
    /// A complaint in place of the field.
    Mistaken(Mistake),
}

/// A named field and how it is shown.
pub struct FieldShown {
    /// The place of the field among the fields of the struct.
    pub field: usize,
    pub shown: Shown,
}

/// What is generated for a struct.
pub struct DebugPlan {
    /// The name under which the struct is shown.
    pub name: String,
    /// What stands behind `where`. Where this is empty, the impl keeps the
    /// conditions of the struct.
    pub bounds: Vec<Bound>,
    /// The places of the parameters that get the bound `Debug`.
    pub bounded_params: Vec<usize>,
    /// The named fields, in their order.
    pub fields: Vec<FieldShown>,
}

/// Why nothing is generated.
pub struct Refusal {
    pub message: String,
}

/// What a way of showing a field stands for as the result of reading its
/// attributes.
pub open spec fn found_of(shown: Shown) -> Option<Result<String, Mistake>> {
    match shown {
        Shown::Plain => None,
        Shown::Formatted(format) => Some(Ok(format)),
        Shown::Mistaken(mistake) => Some(Err(mistake)),
    }
}

/// Whether `bounds` is what stands behind `where`: the one condition that
/// the item names, or else the types that must be `Debug`.
pub open spec fn bounds_of(input: DeriveInput, bounds: Seq<Bound>) -> bool {
    let fields = input.data->Struct_0@;
    if bounds.len() == 1 && bounds[0] is Given {
        debug_bound(input.attrs@, Some(Ok(bounds[0]->Given_0)))
    } else if bounds.len() == 1 && bounds[0] is Mistaken {
        debug_bound(input.attrs@, Some(Err(bounds[0]->Mistaken_0)))
    } else {
        &&& debug_bound(input.attrs@, None)
        &&& forall|k: int| 0 <= k < bounds.len() ==> (#[trigger] bounds[k]) is Type
        &&& inferred(fields, input.generics@, Seq::new(bounds.len(), |k: int| bounds[k]->Type_0))
    }
}

/// Plans the impl of `Debug` for a struct.
///
/// Anything but a struct is refused. Fields without a name are passed
/// over. Where nothing stands behind `where`, every type parameter gets the
/// bound `Debug`.
pub fn derive(input: &DeriveInput) -> (result: Result<DebugPlan, Refusal>)
    ensures
        match result {
            Ok(plan) => {
                let fields = input.data->Struct_0@;
                let named = named_fields(fields, fields.len() as int);
                &&& input.data is Struct
                &&& plan.name@ == input.ident@
                &&& bounds_of(*input, plan.bounds@)
                &&& plan.bounded_params@ == if plan.bounds.len() == 0 {
                    type_params(input.generics@, input.generics.len() as int)
                } else {
                    Seq::empty()
                }
                &&& plan.fields.len() == named.len()
                &&& forall|k: int|
                    0 <= k < named.len() ==> (#[trigger] plan.fields[k]).field == named[k]
                        && debug_format(fields[named[k]].attrs@, found_of(plan.fields[k].shown))
            },
            Err(refusal) => !(input.data is Struct) && refusal.message@
                == "CustomDebug is not used for struct"@,
        },
{
    match &input.data {
        Data::Struct(fields) => {
            let mut bounds: Vec<Bound> = Vec::new();
            match get_bound_in_debug_attr(&input.attrs) {
                Some(Ok(text)) => {
                    bounds.push(Bound::Given(text));
                },
                Some(Err(mistake)) => {
                    bounds.push(Bound::Mistaken(mistake));
                },
                None => {
                    let ids = infer_bound_type_from_fields(fields, &input.generics);
                    let mut k: usize = 0;
                    while k < ids.len()
                        invariant
                            k <= ids.len(),
                            bounds.len() == k,
                            forall|j: int|
                                0 <= j < k ==> (#[trigger] bounds[j]) is Type && bounds[j]->Type_0
                                    == ids[j],
                        decreases ids.len() - k,
                    {
                        bounds.push(Bound::Type(ids[k]));
                        k += 1;
                    }
                    assert(Seq::new(bounds.len() as nat, |k: int| bounds[k]->Type_0) =~= ids@);
                },
            }
            let bounded_params = if bounds.len() == 0 {
                add_trait_bounds(&input.generics)
            } else {
                Vec::new()
            };
            let mut shown: Vec<FieldShown> = Vec::new();
            let mut i: usize = 0;
            while i < fields.len()
                invariant
                    i <= fields.len(),
                    shown.len() == named_fields(fields@, i as int).len(),
                    forall|k: int|
                        0 <= k < shown.len() ==> (#[trigger] shown[k]).field == named_fields(
                            fields@,
                            i as int,
                        )[k] && debug_format(
                            fields[named_fields(fields@, i as int)[k]].attrs@,
                            found_of(shown[k].shown),
                        ),
                decreases fields.len() - i,
            {
                if fields[i].ident.is_some() {
                    let how = match get_debug_attr(&fields[i].attrs) {
                        Some(Ok(format)) => Shown::Formatted(format),
                        Some(Err(mistake)) => Shown::Mistaken(mistake),
                        None => Shown::Plain,
                    };
                    shown.push(FieldShown { field: i, shown: how });
                }
                i += 1;
            }
            Ok(DebugPlan { name: input.ident.clone(), bounds, bounded_params, fields: shown })
        },
        _ => Err(Refusal { message: String::from_str("CustomDebug is not used for struct") }),
    }
}

} // verus!
