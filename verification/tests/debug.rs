use macro_workshop::debug::{
    add_trait_bounds, get_bound_in_debug_attr, get_debug_attr,
    get_type_phantom_data_in_fields, get_types_to_bind_debug, infer_bound_type_from_fields, Bound,
    Part, Shown,
};
use macro_workshop::syntax::{
    Attribute, Data, DeriveInput, Field, GenericArgument, GenericParam, Meta, MetaList,
    MetaNameValue, PathArguments, PathSegment, Type, TypeKind, Value,
};

fn segment(ident: &str, arguments: PathArguments) -> PathSegment {
    PathSegment {
        ident: ident.to_string(),
        arguments,
    }
}

fn path(id: usize, idents: &[&str]) -> Type {
    Type {
        id,
        kind: TypeKind::Path(
            idents
                .iter()
                .map(|ident| segment(ident, PathArguments::Empty))
                .collect(),
        ),
    }
}

fn generic(id: usize, ident: &str, args: Vec<GenericArgument>) -> Type {
    Type {
        id,
        kind: TypeKind::Path(vec![segment(ident, PathArguments::AngleBracketed(args))]),
    }
}

fn other(id: usize) -> Type {
    Type {
        id,
        kind: TypeKind::Other,
    }
}

fn field(ident: &str, ty: Type, attrs: Vec<Attribute>) -> Field {
    Field {
        attrs,
        ident: Some(ident.to_string()),
        ty,
    }
}

fn debug_pair(value: Value) -> Attribute {
    Attribute {
        meta: Meta::NameValue(MetaNameValue {
            path: Some("debug".to_string()),
            value,
        }),
    }
}

fn debug_list(name: &str, value: Value) -> Attribute {
    Attribute {
        meta: Meta::List(MetaList {
            path: Some("debug".to_string()),
            args: Some(MetaNameValue {
                path: Some(name.to_string()),
                value,
            }),
        }),
    }
}

fn doc() -> Attribute {
    Attribute {
        meta: Meta::NameValue(MetaNameValue {
            path: Some("doc".to_string()),
            value: Value::Str("text".to_string()),
        }),
    }
}

fn params(names: &[&str]) -> Vec<GenericParam> {
    names
        .iter()
        .map(|name| GenericParam::Type(name.to_string()))
        .collect()
}

fn ids(types: Vec<&Type>) -> Vec<usize> {
    types.into_iter().map(|ty| ty.id).collect()
}

#[test]
fn format_is_the_first_debug_pair() {
    let found = get_debug_attr(&vec![doc(), debug_pair(Value::Str("0b{:08b}".to_string()))]);
    assert_eq!(found.unwrap().ok(), Some("0b{:08b}".to_string()));
    assert!(get_debug_attr(&vec![doc()]).is_none());
    assert!(get_debug_attr(&vec![]).is_none());
    assert!(get_debug_attr(&vec![debug_list("bound", Value::Str("T: X".to_string()))]).is_none());
    let found = get_debug_attr(&vec![
        debug_pair(Value::Str("a".to_string())),
        debug_pair(Value::Str("b".to_string())),
    ]);
    assert_eq!(found.unwrap().ok(), Some("a".to_string()));
}

#[test]
fn a_format_that_is_no_string_is_a_mistake() {
    let mistake = get_debug_attr(&vec![doc(), debug_pair(Value::Literal)])
        .unwrap()
        .unwrap_err();
    assert_eq!(mistake.attr, 1);
    assert_eq!(mistake.part, Part::Literal);
    assert_eq!(mistake.message, "value of debug is not string");
    let mistake = get_debug_attr(&vec![debug_pair(Value::Other)])
        .unwrap()
        .unwrap_err();
    assert_eq!(mistake.attr, 0);
    assert_eq!(mistake.part, Part::Pair);
    assert_eq!(mistake.message, "value of debug is not string");
}

#[test]
fn bound_is_read_from_the_first_debug_list() {
    let found = get_bound_in_debug_attr(&vec![
        doc(),
        debug_list("bound", Value::Str("T::Value: Debug".to_string())),
    ]);
    assert_eq!(found.unwrap().ok(), Some("T::Value: Debug".to_string()));
    assert!(get_bound_in_debug_attr(&vec![]).is_none());
    assert!(get_bound_in_debug_attr(&vec![debug_pair(Value::Str("x".to_string()))]).is_none());
    assert!(get_bound_in_debug_attr(&vec![
        debug_list("other", Value::Str("x".to_string())),
        debug_list("bound", Value::Str("T: Debug".to_string())),
    ])
    .is_none());
    let unparsed = Attribute {
        meta: Meta::List(MetaList {
            path: Some("debug".to_string()),
            args: None,
        }),
    };
    assert!(get_bound_in_debug_attr(&vec![unparsed]).is_none());
    let mistake = get_bound_in_debug_attr(&vec![debug_list("bound", Value::Literal)])
        .unwrap()
        .unwrap_err();
    assert_eq!(mistake.attr, 0);
    assert_eq!(mistake.part, Part::Pair);
    assert_eq!(mistake.message, "value of debug is not string");
}

#[test]
fn phantom_data_is_known_by_its_last_segment() {
    let fields = vec![
        field("a", path(1, &["T"]), vec![]),
        field(
            "b",
            generic(2, "PhantomData", vec![GenericArgument::Type(path(3, &["T"]))]),
            vec![],
        ),
        field("c", path(4, &["std", "marker", "PhantomData"]), vec![]),
        field("d", other(5), vec![]),
        field("e", path(6, &["PhantomData", "Inner"]), vec![]),
    ];
    assert_eq!(ids(get_type_phantom_data_in_fields(&fields)), vec![2, 4]);
}

#[test]
fn every_type_parameter_gets_the_bound() {
    let generics = vec![
        GenericParam::Other,
        GenericParam::Type("T".to_string()),
        GenericParam::Other,
        GenericParam::Type("U".to_string()),
    ];
    assert_eq!(add_trait_bounds(&generics), vec![1, 3]);
    assert!(add_trait_bounds(&vec![]).is_empty());
}

#[test]
fn types_that_rest_on_a_parameter_are_bound() {
    let generics = params(&["T", "U"]);
    let fields = vec![
        field("a", path(1, &["T"]), vec![]),
        field("b", path(2, &["T", "Value"]), vec![]),
        field("c", path(3, &["String"]), vec![]),
        field(
            "d",
            generic(4, "Vec", vec![GenericArgument::Type(path(5, &["U", "Item"]))]),
            vec![],
        ),
        field(
            "e",
            generic(
                6,
                "Map",
                vec![
                    GenericArgument::Other,
                    GenericArgument::Type(path(7, &["String"])),
                    GenericArgument::Type(other(8)),
                    GenericArgument::Type(path(9, &["U"])),
                    GenericArgument::Type(path(10, &["T"])),
                ],
            ),
            vec![],
        ),
        field(
            "f",
            generic(11, "PhantomData", vec![GenericArgument::Type(path(12, &["T"]))]),
            vec![],
        ),
        field("g", other(13), vec![]),
        field(
            "h",
            generic(14, "Box", vec![GenericArgument::Type(path(15, &["V"]))]),
            vec![],
        ),
    ];
    assert_eq!(ids(get_types_to_bind_debug(&fields, &generics)), vec![1, 2, 5, 9]);
    assert_eq!(
        infer_bound_type_from_fields(&fields, &generics),
        vec![11, 1, 2, 5, 9]
    );
    assert!(get_types_to_bind_debug(&fields, &vec![]).is_empty());
}

#[test]
fn debug_of_a_plain_struct() {
    let input = DeriveInput {
        attrs: vec![],
        ident: "Field".to_string(),
        generics: vec![],
        data: Data::Struct(vec![
            field("name", path(1, &["String"]), vec![]),
            field(
                "bitmask",
                path(2, &["u8"]),
                vec![debug_pair(Value::Str("0b{:08b}".to_string()))],
            ),
            Field {
                attrs: vec![],
                ident: None,
                ty: path(3, &["u8"]),
            },
            field("broken", path(4, &["u8"]), vec![debug_pair(Value::Literal)]),
        ]),
    };
    let plan = macro_workshop::debug::derive(&input).ok().unwrap();
    assert_eq!(plan.name, "Field");
    assert!(plan.bounds.is_empty());
    assert!(plan.bounded_params.is_empty());
    assert_eq!(plan.fields.len(), 3);
    assert_eq!(plan.fields[0].field, 0);
    assert!(matches!(plan.fields[0].shown, Shown::Plain));
    assert_eq!(plan.fields[1].field, 1);
    match &plan.fields[1].shown {
        Shown::Formatted(format) => assert_eq!(format, "0b{:08b}"),
        _ => panic!("no format"),
    }
    assert_eq!(plan.fields[2].field, 3);
    match &plan.fields[2].shown {
        Shown::Mistaken(mistake) => {
            assert_eq!(mistake.attr, 0);
            assert_eq!(mistake.part, Part::Literal);
        }
        _ => panic!("no mistake"),
    }
}

#[test]
fn parameters_are_bound_where_nothing_is_inferred() {
    let input = DeriveInput {
        attrs: vec![],
        ident: "Wrapper".to_string(),
        generics: vec![GenericParam::Other, GenericParam::Type("T".to_string())],
        data: Data::Struct(vec![field("value", other(1), vec![])]),
    };
    let plan = macro_workshop::debug::derive(&input).ok().unwrap();
    assert!(plan.bounds.is_empty());
    assert_eq!(plan.bounded_params, vec![1]);
}

#[test]
fn inferred_bounds_replace_the_bounds_of_the_parameters() {
    let input = DeriveInput {
        attrs: vec![],
        ident: "Field".to_string(),
        generics: params(&["T"]),
        data: Data::Struct(vec![
            field(
                "marker",
                generic(1, "PhantomData", vec![GenericArgument::Type(path(2, &["T"]))]),
                vec![],
            ),
            field("value", path(3, &["T", "Value"]), vec![]),
        ]),
    };
    let plan = macro_workshop::debug::derive(&input).ok().unwrap();
    assert!(plan.bounded_params.is_empty());
    assert_eq!(plan.bounds.len(), 2);
    assert!(matches!(plan.bounds[0], Bound::Type(1)));
    assert!(matches!(plan.bounds[1], Bound::Type(3)));
}

#[test]
fn a_given_bound_stands_alone() {
    let input = DeriveInput {
        attrs: vec![debug_list("bound", Value::Str("T::Value: Debug".to_string()))],
        ident: "Wrapper".to_string(),
        generics: params(&["T"]),
        data: Data::Struct(vec![field("value", path(1, &["T"]), vec![])]),
    };
    let plan = macro_workshop::debug::derive(&input).ok().unwrap();
    assert!(plan.bounded_params.is_empty());
    assert_eq!(plan.bounds.len(), 1);
    match &plan.bounds[0] {
        Bound::Given(text) => assert_eq!(text, "T::Value: Debug"),
        _ => panic!("no bound"),
    }
    let input = DeriveInput {
        attrs: vec![debug_list("bound", Value::Other)],
        ident: "Wrapper".to_string(),
        generics: params(&["T"]),
        data: Data::Struct(vec![field("value", path(1, &["T"]), vec![])]),
    };
    let plan = macro_workshop::debug::derive(&input).ok().unwrap();
    assert_eq!(plan.bounds.len(), 1);
    assert!(matches!(plan.bounds[0], Bound::Mistaken(_)));
}

#[test]
fn only_structs_are_shown() {
    let input = DeriveInput {
        attrs: vec![],
        ident: "E".to_string(),
        generics: vec![],
        data: Data::Enum(vec!["A".to_string()]),
    };
    let refusal = macro_workshop::debug::derive(&input).err().unwrap();
    assert_eq!(refusal.message, "CustomDebug is not used for struct");
    let input = DeriveInput {
        attrs: vec![],
        ident: "U".to_string(),
        generics: vec![],
        data: Data::Union,
    };
    assert!(macro_workshop::debug::derive(&input).is_err());
}
