use scap::support::lex_ge_bytes;
use scap::support::version_meets_minimum;

#[test]
fn version_equal_to_minimum_is_supported() {
    assert!(version_meets_minimum(&b"12.3".to_vec()));
    // A reported version with trailing bytes after "12.3" also sorts at or
    // above the minimum.
    assert!(version_meets_minimum(&b"12.3\n".to_vec()));
}

#[test]
fn version_above_minimum_is_supported() {
    assert!(version_meets_minimum(&b"13.0".to_vec()));
    assert!(version_meets_minimum(&b"12.4".to_vec()));
}

#[test]
fn version_below_minimum_is_not_supported() {
    assert!(!version_meets_minimum(&b"11.6".to_vec()));
    assert!(!version_meets_minimum(&b"12.2".to_vec()));
}

#[test]
fn version_comparison_is_textual_not_numeric() {
    // Byte-wise lexicographic order misranks multi-digit minor versions:
    // "12.10" sorts below "12.3" even though 10 > 3.
    assert!(!version_meets_minimum(&b"12.10".to_vec()));
}

#[test]
fn version_prefix_sorts_below() {
    // A strict prefix of the minimum sorts below it.
    assert!(!version_meets_minimum(&b"12.".to_vec()));
    assert!(!version_meets_minimum(&b"12".to_vec()));
    assert!(!version_meets_minimum(&b"".to_vec()));
}

#[test]
fn lex_ge_bytes_orders_lexicographically() {
    assert!(lex_ge_bytes(&vec![1, 2, 3], &vec![1, 2, 3]));
    assert!(lex_ge_bytes(&vec![1, 2, 3], &vec![1, 2]));
    assert!(!lex_ge_bytes(&vec![1, 2], &vec![1, 2, 3]));
    assert!(lex_ge_bytes(&vec![2], &vec![1, 99, 99]));
    assert!(!lex_ge_bytes(&vec![1, 99, 99], &vec![2]));
    assert!(lex_ge_bytes(&vec![1], &Vec::new()));
    assert!(lex_ge_bytes(&Vec::new(), &Vec::new()));
    assert!(!lex_ge_bytes(&Vec::new(), &vec![0]));
}
