use macro_workshop::sorted::{
    arm_name, check, check_arms, get_unsorted_items, path_to_str, sorted, sorted_attribute,
    ArmPattern, ExprMatch, Item, Place, SortedInFn, WrongLocations,
};
use macro_workshop::syntax::{Attribute, Meta, MetaList, MetaNameValue, Value};

fn names(list: &[&str]) -> Vec<String> {
    list.iter().map(|name| name.to_string()).collect()
}

fn found(list: &[&str]) -> Vec<(String, String, usize)> {
    get_unsorted_items(&names(list))
        .into_iter()
        .map(|wrong| (wrong.target, wrong.expected, wrong.position))
        .collect()
}

fn finding(target: &str, expected: &str, position: usize) -> (String, String, usize) {
    (target.to_string(), expected.to_string(), position)
}

fn attribute(name: &str) -> Attribute {
    Attribute {
        meta: Meta::Path(Some(name.to_string())),
    }
}

#[test]
fn sorted_names_have_no_findings() {
    assert!(found(&[]).is_empty());
    assert!(found(&["A"]).is_empty());
    assert!(found(&["A", "B", "C"]).is_empty());
    assert!(found(&["A", "A", "B"]).is_empty());
}

#[test]
fn an_item_is_told_the_least_name_that_stands_before_it() {
    assert_eq!(found(&["B", "A"]), vec![finding("A", "B", 1)]);
    assert_eq!(found(&["C", "B", "A"]), vec![finding("A", "B", 2), finding("B", "C", 1)]);
    assert_eq!(found(&["B", "C", "A"]), vec![finding("A", "B", 2)]);
    assert_eq!(found(&["D", "B", "A", "C"]), vec![
        finding("A", "B", 2),
        finding("B", "D", 1),
        finding("C", "D", 3),
    ]);
}

#[test]
fn findings_come_in_the_order_of_the_names() {
    assert_eq!(
        found(&["Io", "Fmt", "Dyn", "Error"]),
        vec![
            finding("Dyn", "Fmt", 2),
            finding("Error", "Fmt", 3),
            finding("Fmt", "Io", 1),
        ]
    );
}

#[test]
fn equal_names_keep_their_places() {
    assert_eq!(
        found(&["B", "A", "A"]),
        vec![finding("A", "B", 1), finding("A", "B", 2)]
    );
    assert!(found(&["A", "B", "B"]).is_empty());
}

#[test]
fn names_are_ordered_by_their_bytes() {
    assert_eq!(found(&["a", "B"]), vec![finding("B", "a", 1)]);
    assert_eq!(found(&["ab", "a"]), vec![finding("a", "ab", 1)]);
    assert_eq!(found(&["é", "z"]), vec![finding("z", "é", 1)]);
    assert!(found(&["", "a"]).is_empty());
    assert!(found(&["Error::Fmt", "Error::Io", "_"]).is_empty());
}

#[test]
fn message_names_both_items() {
    let wrong = WrongLocations {
        target: "Fmt".to_string(),
        expected: "Io".to_string(),
        position: 3,
    };
    assert_eq!(wrong.message(), "Fmt should sort before Io");
}

#[test]
fn paths_are_joined_with_colons() {
    assert_eq!(path_to_str(&names(&[])), "");
    assert_eq!(path_to_str(&names(&["Error"])), "Error");
    assert_eq!(path_to_str(&names(&["Error", "Io"])), "Error::Io");
    assert_eq!(path_to_str(&names(&["a", "b", "c"])), "a::b::c");
}

#[test]
fn arms_have_names() {
    assert_eq!(
        arm_name(&ArmPattern::TupleStruct(names(&["Error", "Io"]))),
        Some("Error::Io".to_string())
    );
    assert_eq!(
        arm_name(&ArmPattern::Ident("Fmt".to_string())),
        Some("Fmt".to_string())
    );
    assert_eq!(arm_name(&ArmPattern::Wild), Some("_".to_string()));
    assert_eq!(arm_name(&ArmPattern::Other), None);
}

#[test]
fn arms_out_of_order_are_reported() {
    let arms = vec![
        ArmPattern::TupleStruct(names(&["Error", "Io"])),
        ArmPattern::TupleStruct(names(&["Error", "Fmt"])),
        ArmPattern::Wild,
    ];
    let diagnostics = check_arms(&arms, 4);
    assert_eq!(diagnostics.len(), 1);
    assert_eq!(diagnostics[0].message, "Error::Fmt should sort before Error::Io");
    assert_eq!(diagnostics[0].at, Place::Arm(4, 1));
}

#[test]
fn the_first_unsupported_arm_is_the_only_complaint() {
    let arms = vec![
        ArmPattern::Ident("B".to_string()),
        ArmPattern::Other,
        ArmPattern::Ident("A".to_string()),
        ArmPattern::Other,
    ];
    let diagnostics = check_arms(&arms, 0);
    assert_eq!(diagnostics.len(), 1);
    assert_eq!(diagnostics[0].message, "unsupported by #[sorted]");
    assert_eq!(diagnostics[0].at, Place::Arm(0, 1));
}

#[test]
fn enum_variants_are_checked() {
    let checked = sorted(&Item::Enum(names(&["B", "A", "C"])));
    assert!(checked.keep_item);
    assert_eq!(checked.diagnostics.len(), 1);
    assert_eq!(checked.diagnostics[0].message, "A should sort before B");
    assert_eq!(checked.diagnostics[0].at, Place::Variant(1));
    let checked = sorted(&Item::Enum(names(&["A", "B"])));
    assert!(checked.keep_item);
    assert!(checked.diagnostics.is_empty());
}

#[test]
fn other_items_are_refused() {
    let checked = sorted(&Item::Other);
    assert!(!checked.keep_item);
    assert_eq!(checked.diagnostics.len(), 1);
    assert_eq!(
        checked.diagnostics[0].message,
        "expected enum or match expression"
    );
    assert_eq!(checked.diagnostics[0].at, Place::CallSite);
}

#[test]
fn the_first_mark_is_found() {
    assert_eq!(sorted_attribute(&vec![]), None);
    assert_eq!(sorted_attribute(&vec![attribute("inline")]), None);
    assert_eq!(
        sorted_attribute(&vec![attribute("inline"), attribute("sorted"), attribute("sorted")]),
        Some(1)
    );
    let list = Attribute {
        meta: Meta::List(MetaList {
            path: Some("sorted".to_string()),
            args: None,
        }),
    };
    assert_eq!(sorted_attribute(&vec![list]), Some(0));
    let pair = Attribute {
        meta: Meta::NameValue(MetaNameValue {
            path: Some("sorted".to_string()),
            value: Value::Other,
        }),
    };
    assert_eq!(sorted_attribute(&vec![pair]), Some(0));
    let long = Attribute {
        meta: Meta::Path(None),
    };
    assert_eq!(sorted_attribute(&vec![long]), None);
}

#[test]
fn visiting_takes_the_mark_off() {
    let mut visitor = SortedInFn(Vec::new());
    let mut marked = ExprMatch {
        attrs: vec![attribute("a"), attribute("sorted"), attribute("b")],
        arms: vec![
            ArmPattern::Ident("B".to_string()),
            ArmPattern::Ident("A".to_string()),
        ],
    };
    assert_eq!(visitor.visit_expr_match_mut(2, &mut marked), Some(1));
    assert_eq!(marked.attrs.len(), 2);
    assert_eq!(sorted_attribute(&marked.attrs), None);
    assert_eq!(visitor.0.len(), 1);
    assert_eq!(visitor.0[0].message, "A should sort before B");
    assert_eq!(visitor.0[0].at, Place::Arm(2, 1));
    let mut plain = ExprMatch {
        attrs: vec![attribute("a")],
        arms: vec![
            ArmPattern::Ident("B".to_string()),
            ArmPattern::Ident("A".to_string()),
        ],
    };
    assert_eq!(visitor.visit_expr_match_mut(3, &mut plain), None);
    assert_eq!(plain.attrs.len(), 1);
    assert_eq!(visitor.0.len(), 1);
}

#[test]
fn check_visits_every_match() {
    let mut matches = vec![
        ExprMatch {
            attrs: vec![attribute("sorted")],
            arms: vec![
                ArmPattern::Ident("B".to_string()),
                ArmPattern::Ident("A".to_string()),
            ],
        },
        ExprMatch {
            attrs: vec![],
            arms: vec![
                ArmPattern::Ident("B".to_string()),
                ArmPattern::Ident("A".to_string()),
            ],
        },
        ExprMatch {
            attrs: vec![attribute("sorted")],
            arms: vec![ArmPattern::Ident("A".to_string()), ArmPattern::Other],
        },
        ExprMatch {
            attrs: vec![attribute("sorted"), attribute("sorted")],
            arms: vec![
                ArmPattern::Ident("D".to_string()),
                ArmPattern::Ident("C".to_string()),
                ArmPattern::Wild,
            ],
        },
    ];
    let diagnostics = check(&mut matches);
    let got: Vec<(String, Place)> = diagnostics
        .into_iter()
        .map(|diagnostic| (diagnostic.message, diagnostic.at))
        .collect();
    assert_eq!(
        got,
        vec![
            ("A should sort before B".to_string(), Place::Arm(0, 1)),
            ("unsupported by #[sorted]".to_string(), Place::Arm(2, 1)),
            ("C should sort before D".to_string(), Place::Arm(3, 1)),
        ]
    );
    assert!(matches[0].attrs.is_empty());
    assert!(matches[2].attrs.is_empty());
    assert_eq!(matches[3].attrs.len(), 1);
}

fn by_sorting(list: &[String]) -> Vec<(String, String, usize)> {
    let mut order = list.iter().enumerate().collect::<Vec<_>>();
    order.sort_by_key(|item| item.1);
    order
        .iter()
        .enumerate()
        .filter_map(|(i, item)| {
            order
                .iter()
                .skip(i + 1)
                .find(|other| other.0 < item.0)
                .map(|other| (item.1.clone(), other.1.clone(), item.0))
        })
        .collect()
}

#[test]
fn findings_agree_with_a_stable_sort() {
    let alphabet = ["A", "B", "C", "AB"];
    for length in 0..=5usize {
        let mut digits = vec![0usize; length];
        loop {
            let list: Vec<String> = digits.iter().map(|d| alphabet[*d].to_string()).collect();
            let got: Vec<(String, String, usize)> = get_unsorted_items(&list)
                .into_iter()
                .map(|wrong| (wrong.target, wrong.expected, wrong.position))
                .collect();
            assert_eq!(got, by_sorting(&list), "{:?}", list);
            let mut place = 0;
            while place < length {
                digits[place] += 1;
                if digits[place] < alphabet.len() {
                    break;
                }
                digits[place] = 0;
                place += 1;
            }
            if place == length {
                break;
            }
        }
    }
}
