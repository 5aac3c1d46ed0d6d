use algebra_kernels::text::{join_sections, replace, to_decimal};

#[test]
fn decimal_of_zero_and_of_the_largest_word() {
    assert_eq!(to_decimal(0), "0");
    assert_eq!(to_decimal(7), "7");
    assert_eq!(to_decimal(10), "10");
    assert_eq!(to_decimal(4294967295), "4294967295");
    assert_eq!(to_decimal(u64::MAX), "18446744073709551615");
}

#[test]
fn replace_scans_from_the_left_without_overlap() {
    assert_eq!(replace("FIELD_add(FIELD a)", "FIELD", "Fr"), "Fr_add(Fr a)");
    assert_eq!(replace("aaa", "aa", "b"), "ba");
    assert_eq!(replace("abc", "abcd", "x"), "abc");
    assert_eq!(replace("", "a", "x"), "");
    assert_eq!(replace("FIFIELDELD", "FIELD", ""), "FIELD");
}

#[test]
fn replace_with_an_empty_pattern_matches_between_characters() {
    assert_eq!(replace("ab", "", "-"), "ab".replace("", "-"));
    assert_eq!(replace("", "", "x"), "x");
}

#[test]
fn replace_agrees_with_the_standard_library() {
    let texts = ["", "FIELD", "xFIELD2yFIELD", "POINT_bellman_multiexp(EXPONENT)", "é FIELD ü"];
    let pats = ["FIELD", "FIELD2", "POINT", "EXPONENT", "E", "é"];
    let reps = ["", "Fr", "Fq2", "G1", "FIELD", "ü"];
    for t in texts.iter() {
        for p in pats.iter() {
            for r in reps.iter() {
                assert_eq!(replace(t, p, r), t.replace(p, r));
            }
        }
    }
}

#[test]
fn join_sections_puts_the_separator_between_neighbours() {
    let none: Vec<String> = Vec::new();
    assert_eq!(join_sections(&none, "\n\n"), "");
    assert_eq!(join_sections(&vec!["a".to_string()], "\n\n"), "a");
    assert_eq!(
        join_sections(&vec!["a".to_string(), "".to_string(), "c".to_string()], "\n\n"),
        "a\n\n\n\nc"
    );
}
