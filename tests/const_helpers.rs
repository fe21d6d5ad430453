use named_generics_bundle::const_helpers::{constcat, eq_modulo_whitespace, find_subslice};

#[test]
fn spaces_around_separators_are_ignored() {
    assert!(eq_modulo_whitespace("crate::a::b", "crate :: a :: b"));
    assert!(eq_modulo_whitespace("  crate::a", "crate::a   "));
    assert!(eq_modulo_whitespace("ab", "a b"));
}

#[test]
fn empty_and_blank_strings_compare_equal() {
    assert!(eq_modulo_whitespace("", ""));
    assert!(eq_modulo_whitespace("", "    "));
    assert!(!eq_modulo_whitespace("a", ""));
    assert!(!eq_modulo_whitespace("", " a "));
}

#[test]
fn a_changed_character_is_seen() {
    assert!(!eq_modulo_whitespace("crate::a", "crate::b"));
    assert!(!eq_modulo_whitespace("crate::a", "crate:;a"));
    assert!(!eq_modulo_whitespace("a b", "ba"));
    assert!(!eq_modulo_whitespace("crate::a", "crate::ab"));
}

#[test]
fn find_subslice_starts_at_first_occurrence() {
    assert_eq!(find_subslice("my_crate::a::b", b':'), "::a::b");
    assert_eq!(find_subslice("x:y", b':'), ":y");
}

#[test]
fn find_subslice_without_occurrence_is_empty() {
    assert_eq!(find_subslice("my_crate", b':'), "");
    assert_eq!(find_subslice("", b':'), "");
}

#[test]
fn find_subslice_handles_multibyte_text() {
    assert_eq!(find_subslice("é:ü", b':'), ":ü");
    assert_eq!(find_subslice("aéb", "é".as_bytes()[0]), "éb");
}

#[test]
fn constcat_joins_inputs_in_order() {
    let out: [u8; 11] = constcat::<11, 2>(["crate", "::a::b"]);
    assert_eq!(&out, b"crate::a::b");
    let out: [u8; 3] = constcat::<3, 3>(["a", "", "bc"]);
    assert_eq!(&out, b"abc");
}

#[test]
fn constcat_of_nothing_is_empty() {
    let out: [u8; 0] = constcat::<0, 0>([]);
    assert_eq!(out.len(), 0);
    let out: [u8; 0] = constcat::<0, 2>(["", ""]);
    assert_eq!(out.len(), 0);
}

#[test]
fn constcat_output_is_text() {
    let out: [u8; 6] = constcat::<6, 2>(["é", "ü:x"]);
    assert_eq!(std::str::from_utf8(&out).unwrap(), "éü:x");
}
