use single_ion::text::{glue, glue3, join_with, replace_all, same, to_decimal};

#[test]
fn compares_and_glues() {
    assert!(same("ion", "ion"));
    assert!(!same("ion", "ions"));
    assert!(!same("", "x"));
    assert_eq!(glue("a", "b"), "ab");
    assert_eq!(glue3("a", "", "c"), "ac");
}

#[test]
fn numbers_are_written_in_decimal() {
    assert_eq!(to_decimal(0), "0");
    assert_eq!(to_decimal(7), "7");
    assert_eq!(to_decimal(10), "10");
    assert_eq!(to_decimal(4749), "4749");
    assert_eq!(to_decimal(65535), "65535");
    assert_eq!(to_decimal(u64::MAX), u64::MAX.to_string());
}

#[test]
fn decimal_notation_reads_back() {
    for n in [0u64, 9, 10, 99, 100, 8080, 65535] {
        assert_eq!(to_decimal(n).parse::<u64>().unwrap(), n);
    }
}

#[test]
fn replaces_every_occurrence_from_the_left() {
    assert_eq!(replace_all("aaa", "aa", "b"), "ba");
    assert_eq!(replace_all("x-dev y-dev", "-dev", "-devel"), "x-devel y-devel");
    assert_eq!(replace_all("", "a", "b"), "");
    assert_eq!(replace_all("ab", "abc", "x"), "ab");
    assert_eq!(replace_all("größe", "ö", "oe"), "groeße");
}

#[test]
fn replacement_agrees_with_the_standard_library() {
    for s in ["0.0.0.0:1", "10.0.0.0.0", "0.0.0.00.0.0.0", "localhost:9", "0.0.0"] {
        assert_eq!(
            replace_all(s, "0.0.0.0", "127.0.0.1"),
            s.replace("0.0.0.0", "127.0.0.1")
        );
    }
}

#[test]
fn text_without_the_pattern_is_kept() {
    assert_eq!(replace_all("[::1]:80", "0.0.0.0", "127.0.0.1"), "[::1]:80");
}

#[test]
fn parts_are_joined() {
    let none: Vec<String> = Vec::new();
    assert_eq!(join_with(&none, " "), "");
    assert_eq!(join_with(&vec!["a".to_string()], " "), "a");
    let three = vec!["a".to_string(), "b".to_string(), "c".to_string()];
    assert_eq!(join_with(&three, ", "), "a, b, c");
}
