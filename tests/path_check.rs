use named_generics_bundle::path_check::{check_module_path, expected_path};

#[test]
fn expected_path_replaces_the_crate_name() {
    assert_eq!(expected_path("my_crate::a::b"), "crate::a::b");
    assert_eq!(expected_path("my_crate"), "crate");
}

#[test]
fn matching_declared_path_is_accepted() {
    assert_eq!(
        check_module_path(
            "crate::tests::doctest_module_path",
            "named_generics_bundle::tests::doctest_module_path",
        ),
        Ok(())
    );
    assert_eq!(check_module_path("crate", "my_crate"), Ok(()));
}

#[test]
fn declared_path_with_spaces_is_accepted() {
    assert_eq!(
        check_module_path("crate :: some_module", "my_crate::some_module"),
        Ok(())
    );
}

#[test]
fn wrong_declared_path_names_the_expected_one() {
    assert_eq!(
        check_module_path("crate::other", "my_crate::some_module"),
        Err("expected `crate::some_module`".to_string())
    );
    assert_eq!(
        check_module_path("crate::a", "my_crate"),
        Err("expected `crate`".to_string())
    );
}
