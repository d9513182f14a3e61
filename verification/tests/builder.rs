use macro_workshop::builder::{
    get_type_in_generics, get_unexpected_attributes, get_value_of_each, is_option, Action,
    Argument, Guard, Initial, Storage,
};
use macro_workshop::syntax::{
    Attribute, Data, DeriveInput, Field, GenericArgument, Meta, MetaList, MetaNameValue,
    PathArguments, PathSegment, Type, TypeKind,
};
use macro_workshop::syntax::Value;

fn segment(ident: &str, arguments: PathArguments) -> PathSegment {
    PathSegment {
        ident: ident.to_string(),
        arguments,
    }
}

fn plain(id: usize, ident: &str) -> Type {
    Type {
        id,
        kind: TypeKind::Path(vec![segment(ident, PathArguments::Empty)]),
    }
}

fn generic(id: usize, ident: &str, inner: Type) -> Type {
    Type {
        id,
        kind: TypeKind::Path(vec![segment(
            ident,
            PathArguments::AngleBracketed(vec![GenericArgument::Type(inner)]),
        )]),
    }
}

fn builder_attr(name: Option<&str>, value: Value) -> Attribute {
    Attribute {
        meta: Meta::List(MetaList {
            path: Some("builder".to_string()),
            args: Some(MetaNameValue {
                path: name.map(|name| name.to_string()),
                value,
            }),
        }),
    }
}

fn each(name: &str) -> Attribute {
    builder_attr(Some("each"), Value::Str(name.to_string()))
}

fn field(ident: &str, ty: Type, attrs: Vec<Attribute>) -> Field {
    Field {
        attrs,
        ident: Some(ident.to_string()),
        ty,
    }
}

#[test]
fn option_is_known_by_its_first_segment() {
    assert!(is_option(&generic(1, "Option", plain(2, "String"))));
    assert!(is_option(&plain(1, "Option")));
    assert!(!is_option(&generic(1, "Vec", plain(2, "String"))));
    assert!(!is_option(&Type {
        id: 1,
        kind: TypeKind::Other
    }));
    assert!(!is_option(&Type {
        id: 1,
        kind: TypeKind::Path(vec![])
    }));
    let qualified = Type {
        id: 1,
        kind: TypeKind::Path(vec![
            segment("std", PathArguments::Empty),
            segment("option", PathArguments::Empty),
            segment("Option", PathArguments::Empty),
        ]),
    };
    assert!(!is_option(&qualified));
}

#[test]
fn inner_type_is_the_first_argument() {
    let ty = generic(1, "Option", plain(2, "String"));
    assert_eq!(get_type_in_generics(&ty).map(|inner| inner.id), Some(2));
    assert!(get_type_in_generics(&plain(1, "String")).is_none());
    let lifetime = Type {
        id: 1,
        kind: TypeKind::Path(vec![segment(
            "Cow",
            PathArguments::AngleBracketed(vec![
                GenericArgument::Other,
                GenericArgument::Type(plain(2, "str")),
            ]),
        )]),
    };
    assert!(get_type_in_generics(&lifetime).is_none());
    let called = Type {
        id: 1,
        kind: TypeKind::Path(vec![segment("Fn", PathArguments::Parenthesized)]),
    };
    assert!(get_type_in_generics(&called).is_none());
    let empty = Type {
        id: 1,
        kind: TypeKind::Path(vec![segment("Vec", PathArguments::AngleBracketed(vec![]))]),
    };
    assert!(get_type_in_generics(&empty).is_none());
    assert!(get_type_in_generics(&Type {
        id: 1,
        kind: TypeKind::Other
    })
    .is_none());
}

#[test]
fn each_is_read_from_the_first_attribute() {
    assert_eq!(get_value_of_each(&vec![each("arg")]), Some("arg".to_string()));
    assert_eq!(get_value_of_each(&vec![]), None);
    assert_eq!(
        get_value_of_each(&vec![
            Attribute {
                meta: Meta::Path(Some("doc".to_string()))
            },
            each("arg")
        ]),
        None
    );
    assert_eq!(
        get_value_of_each(&vec![builder_attr(Some("eac"), Value::Str("arg".to_string()))]),
        None
    );
    assert_eq!(
        get_value_of_each(&vec![builder_attr(Some("each"), Value::Literal)]),
        None
    );
    assert_eq!(
        get_value_of_each(&vec![builder_attr(Some("each"), Value::Other)]),
        None
    );
    assert_eq!(
        get_value_of_each(&vec![builder_attr(None, Value::Str("arg".to_string()))]),
        None
    );
}

#[test]
fn other_names_than_each_are_complained_of() {
    assert_eq!(
        get_unexpected_attributes(&vec![builder_attr(
            Some("eac"),
            Value::Str("arg".to_string())
        )]),
        Some("expected `builder(each = \"...\")`".to_string())
    );
    assert_eq!(
        get_unexpected_attributes(&vec![builder_attr(None, Value::Str("arg".to_string()))]),
        Some("expected `builder(each = \"...\")`".to_string())
    );
    assert_eq!(get_unexpected_attributes(&vec![each("arg")]), None);
    assert_eq!(
        get_unexpected_attributes(&vec![builder_attr(Some("each"), Value::Literal)]),
        None
    );
    assert_eq!(get_unexpected_attributes(&vec![]), None);
    assert_eq!(
        get_unexpected_attributes(&vec![Attribute {
            meta: Meta::List(MetaList {
                path: Some("builder".to_string()),
                args: None
            })
        }]),
        None
    );
}

#[test]
fn builder_of_a_command() {
    let input = DeriveInput {
        attrs: vec![],
        ident: "Command".to_string(),
        generics: vec![],
        data: Data::Struct(vec![
            field("executable", plain(1, "String"), vec![]),
            field(
                "args",
                generic(2, "Vec", plain(3, "String")),
                vec![each("arg")],
            ),
            field(
                "env",
                generic(4, "Vec", plain(5, "String")),
                vec![each("env")],
            ),
            field(
                "current_dir",
                generic(6, "Option", plain(7, "String")),
                vec![],
            ),
        ]),
    };
    let plan = macro_workshop::builder::derive(&input);
    assert_eq!(plan.builder_name, "CommandBuilder");
    assert!(plan.unexpected.is_none());
    assert_eq!(plan.fields.len(), 4);

    let executable = &plan.fields[0];
    assert_eq!(executable.field, 0);
    assert_eq!(executable.storage, Storage::Optional);
    assert_eq!(executable.initial, Initial::Nothing);
    assert_eq!(executable.guard, Guard::Require);
    assert_eq!(executable.setter.name, "executable");
    assert_eq!(executable.setter.argument, Argument::Whole);
    assert_eq!(executable.setter.action, Action::Assign);

    let args = &plan.fields[1];
    assert_eq!(args.field, 1);
    assert_eq!(args.storage, Storage::Plain);
    assert_eq!(args.initial, Initial::Empty);
    assert_eq!(args.guard, Guard::Clone);
    assert_eq!(args.setter.name, "arg");
    assert_eq!(args.setter.argument, Argument::Inner(Some(3)));
    assert_eq!(args.setter.action, Action::Push);

    let env = &plan.fields[2];
    assert_eq!(env.setter.name, "env");
    assert_eq!(env.setter.argument, Argument::Inner(Some(5)));
    assert_eq!(env.setter.action, Action::Push);

    let current_dir = &plan.fields[3];
    assert_eq!(current_dir.field, 3);
    assert_eq!(current_dir.storage, Storage::Plain);
    assert_eq!(current_dir.initial, Initial::Nothing);
    assert_eq!(current_dir.guard, Guard::Clone);
    assert_eq!(current_dir.setter.name, "current_dir");
    assert_eq!(current_dir.setter.argument, Argument::Inner(Some(7)));
    assert_eq!(current_dir.setter.action, Action::Assign);
}

#[test]
fn an_optional_list_is_set_as_an_option() {
    let input = DeriveInput {
        attrs: vec![],
        ident: "S".to_string(),
        generics: vec![],
        data: Data::Struct(vec![field(
            "items",
            generic(1, "Option", generic(2, "Vec", plain(3, "u8"))),
            vec![each("item")],
        )]),
    };
    let plan = macro_workshop::builder::derive(&input);
    let items = &plan.fields[0];
    assert_eq!(items.storage, Storage::Plain);
    assert_eq!(items.initial, Initial::Empty);
    assert_eq!(items.setter.name, "items");
    assert_eq!(items.setter.argument, Argument::Inner(Some(2)));
    assert_eq!(items.setter.action, Action::Assign);
    assert_eq!(items.guard, Guard::Clone);
}

#[test]
fn fields_without_a_name_are_passed_over() {
    let input = DeriveInput {
        attrs: vec![],
        ident: "Pair".to_string(),
        generics: vec![],
        data: Data::Struct(vec![
            Field {
                attrs: vec![builder_attr(Some("eac"), Value::Str("x".to_string()))],
                ident: None,
                ty: plain(1, "u8"),
            },
            field("second", plain(2, "u8"), vec![]),
        ]),
    };
    let plan = macro_workshop::builder::derive(&input);
    assert_eq!(plan.builder_name, "PairBuilder");
    assert!(plan.unexpected.is_none());
    assert_eq!(plan.fields.len(), 1);
    assert_eq!(plan.fields[0].field, 1);
}

#[test]
fn the_first_misspelt_attribute_is_complained_of() {
    let input = DeriveInput {
        attrs: vec![],
        ident: "Command".to_string(),
        generics: vec![],
        data: Data::Struct(vec![
            field("a", plain(1, "String"), vec![]),
            field(
                "b",
                generic(2, "Vec", plain(3, "String")),
                vec![builder_attr(Some("eac"), Value::Str("x".to_string()))],
            ),
            field(
                "c",
                generic(4, "Vec", plain(5, "String")),
                vec![builder_attr(Some("ech"), Value::Str("y".to_string()))],
            ),
        ]),
    };
    let plan = macro_workshop::builder::derive(&input);
    let complaint = plan.unexpected.unwrap();
    assert_eq!(complaint.field, 1);
    assert_eq!(complaint.message, "expected `builder(each = \"...\")`");
    assert_eq!(plan.fields.len(), 3);
    assert_eq!(plan.fields[1].storage, Storage::Optional);
    assert_eq!(plan.fields[1].setter.name, "b");
}
