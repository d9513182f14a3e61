use macro_workshop::bitfield::{
    bitfield, bits_attribute, data_len, derive_bitfield_specifier, discriminants_fit, exact_log2,
    field_offset, LayoutError,
};
use macro_workshop::syntax::{
    Attribute, Data, DeriveInput, Field, Meta, MetaList, MetaNameValue, Type, TypeKind, Value,
};

fn bits_attr() -> Attribute {
    Attribute {
        meta: Meta::NameValue(MetaNameValue {
            path: Some("bits".to_string()),
            value: Value::Literal,
        }),
    }
}

fn doc() -> Attribute {
    Attribute {
        meta: Meta::NameValue(MetaNameValue {
            path: Some("doc".to_string()),
            value: Value::Str("text".to_string()),
        }),
    }
}

fn field(ident: Option<&str>, attrs: Vec<Attribute>) -> Field {
    Field {
        attrs,
        ident: ident.map(|ident| ident.to_string()),
        ty: Type {
            id: 0,
            kind: TypeKind::Other,
        },
    }
}

fn enumeration(variants: usize) -> DeriveInput {
    DeriveInput {
        attrs: vec![],
        ident: "Mode".to_string(),
        generics: vec![],
        data: Data::Enum((0..variants).map(|i| format!("V{}", i)).collect()),
    }
}

#[test]
fn bits_attribute_is_the_first_pair_named_bits() {
    assert_eq!(bits_attribute(&vec![]), None);
    assert_eq!(bits_attribute(&vec![doc()]), None);
    assert_eq!(bits_attribute(&vec![doc(), bits_attr(), bits_attr()]), Some(1));
    let list = Attribute {
        meta: Meta::List(MetaList {
            path: Some("bits".to_string()),
            args: None,
        }),
    };
    assert_eq!(bits_attribute(&vec![list]), None);
    let path = Attribute {
        meta: Meta::Path(Some("bits".to_string())),
    };
    assert_eq!(bits_attribute(&vec![path]), None);
}

#[test]
fn named_fields_get_accessors() {
    let fields = vec![
        field(Some("a"), vec![]),
        field(None, vec![bits_attr()]),
        field(Some("flag"), vec![doc(), bits_attr()]),
    ];
    let plan = bitfield(&fields);
    assert_eq!(plan.accessors.len(), 2);
    assert_eq!(plan.accessors[0].field, 0);
    assert_eq!(plan.accessors[0].getter, "get_a");
    assert_eq!(plan.accessors[0].setter, "set_a");
    assert_eq!(plan.accessors[1].field, 2);
    assert_eq!(plan.accessors[1].getter, "get_flag");
    assert_eq!(plan.accessors[1].setter, "set_flag");
    assert_eq!(plan.checks.len(), 2);
    assert_eq!((plan.checks[0].field, plan.checks[0].attr), (1, 0));
    assert_eq!((plan.checks[1].field, plan.checks[1].attr), (2, 1));
    let plan = bitfield(&vec![]);
    assert!(plan.accessors.is_empty());
    assert!(plan.checks.is_empty());
}

#[test]
fn the_first_field_lies_highest() {
    let widths = vec![1, 3, 4, 24];
    assert_eq!(field_offset(&widths, 0), 31);
    assert_eq!(field_offset(&widths, 1), 28);
    assert_eq!(field_offset(&widths, 2), 24);
    assert_eq!(field_offset(&widths, 3), 0);
    assert_eq!(data_len(&widths), Ok(4));
}

#[test]
fn widths_must_fill_whole_bytes() {
    assert_eq!(data_len(&vec![]), Ok(0));
    assert_eq!(data_len(&vec![8, 8]), Ok(2));
    assert_eq!(data_len(&vec![1, 3, 4, 23]), Err(LayoutError::NotMultipleOfEight(7)));
    assert_eq!(data_len(&vec![9]), Err(LayoutError::NotMultipleOfEight(1)));
    assert_eq!(data_len(&vec![usize::MAX, 1]), Err(LayoutError::TooWide));
    assert_eq!(
        data_len(&vec![usize::MAX]),
        Err(LayoutError::NotMultipleOfEight(7))
    );
}

#[test]
fn exact_log2_knows_the_powers_of_two() {
    assert_eq!(exact_log2(0), None);
    assert_eq!(exact_log2(1), Some(0));
    assert_eq!(exact_log2(2), Some(1));
    assert_eq!(exact_log2(3), None);
    assert_eq!(exact_log2(4), Some(2));
    assert_eq!(exact_log2(6), None);
    assert_eq!(exact_log2(1024), Some(10));
    assert_eq!(exact_log2(1 << (usize::BITS - 1)), Some(usize::BITS - 1));
    assert_eq!(exact_log2(usize::MAX), None);
    for n in 1..200usize {
        let expected = if n.is_power_of_two() {
            Some(n.ilog2())
        } else {
            None
        };
        assert_eq!(exact_log2(n), expected);
    }
}

#[test]
fn specifier_of_an_enum() {
    let plan = derive_bitfield_specifier(&enumeration(4)).ok().unwrap();
    assert_eq!(plan.bits, 2);
    assert_eq!(plan.width_name, "B2");
    let plan = derive_bitfield_specifier(&enumeration(1)).ok().unwrap();
    assert_eq!(plan.bits, 0);
    assert_eq!(plan.width_name, "B0");
    let plan = derive_bitfield_specifier(&enumeration(1024)).ok().unwrap();
    assert_eq!(plan.width_name, "B10");
}

#[test]
fn specifier_needs_a_power_of_two() {
    let refusal = derive_bitfield_specifier(&enumeration(3)).err().unwrap();
    assert_eq!(
        refusal.message,
        "BitfieldSpecifier expected a number of variants which is a power of 2"
    );
    let refusal = derive_bitfield_specifier(&enumeration(0)).err().unwrap();
    assert_eq!(
        refusal.message,
        "BitfieldSpecifier expected a number of variants which is a power of 2"
    );
}

#[test]
fn specifier_needs_an_enum() {
    let input = DeriveInput {
        attrs: vec![],
        ident: "S".to_string(),
        generics: vec![],
        data: Data::Struct(vec![]),
    };
    let refusal = derive_bitfield_specifier(&input).err().unwrap();
    assert_eq!(refusal.message, "BitfieldSpecifier can only use for enum");
}

#[test]
fn discriminants_must_fit_the_width() {
    assert!(discriminants_fit(&vec![0, 1, 2, 3], 2));
    assert!(!discriminants_fit(&vec![0, 1, 2, 4], 2));
    assert!(discriminants_fit(&vec![], 0));
    assert!(discriminants_fit(&vec![0], 0));
    assert!(!discriminants_fit(&vec![1], 0));
    assert!(discriminants_fit(&vec![255, 0], 8));
    assert!(!discriminants_fit(&vec![256], 8));
}
