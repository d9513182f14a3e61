use macro_workshop::text::{bytes_less, concat2, is_word, less, to_decimal};

#[test]
fn bytes_are_compared_in_order() {
    assert!(bytes_less(&[1, 2], &[1, 3]));
    assert!(!bytes_less(&[1, 3], &[1, 2]));
    assert!(bytes_less(&[1], &[1, 0]));
    assert!(!bytes_less(&[1, 0], &[1]));
    assert!(!bytes_less(&[], &[]));
    assert!(bytes_less(&[], &[0]));
    assert!(!bytes_less(&[7, 7], &[7, 7]));
    assert!(bytes_less(&[0, 255], &[1]));
}

#[test]
fn names_are_compared_like_strings() {
    let words = ["", "A", "B", "a", "ab", "b", "é", "z", "_", "Error::Io", "Error::Fmt"];
    for left in words {
        for right in words {
            assert_eq!(less(left, right), left < right, "{} < {}", left, right);
        }
    }
}

#[test]
fn words_are_recognised() {
    assert!(is_word(&"Option".to_string(), "Option"));
    assert!(!is_word(&"Options".to_string(), "Option"));
    assert!(!is_word(&"option".to_string(), "Option"));
    assert!(is_word(&String::new(), ""));
}

#[test]
fn texts_are_joined() {
    assert_eq!(concat2("get_", "a"), "get_a");
    assert_eq!(concat2("", ""), "");
    assert_eq!(concat2("é", "ü"), "éü");
}

#[test]
fn numbers_are_written_in_base_ten() {
    assert_eq!(to_decimal(0), "0");
    assert_eq!(to_decimal(7), "7");
    assert_eq!(to_decimal(10), "10");
    assert_eq!(to_decimal(1234567890), "1234567890");
    assert_eq!(to_decimal(usize::MAX), usize::MAX.to_string());
}
