use named_generics_bundle::shape::{check_trait_shape, ShapeError, TraitItemKind, TraitShape};

fn shape(items: Vec<TraitItemKind>) -> TraitShape {
    TraitShape { is_unsafe: false, is_auto: false, has_generics: false, has_where_clause: false, items }
}

#[test]
fn trait_of_associated_types_is_accepted() {
    let s = shape(vec![TraitItemKind::Type { has_default: false }]);
    assert_eq!(check_trait_shape(&s), Ok(()));
    assert_eq!(check_trait_shape(&shape(vec![])), Ok(()));
}

#[test]
fn generic_parameter_is_refused() {
    let mut s = shape(vec![TraitItemKind::Type { has_default: false }]);
    s.has_generics = true;
    assert_eq!(check_trait_shape(&s), Err(ShapeError::GenericParameters));
}

#[test]
fn where_clause_unsafe_and_auto_are_refused() {
    let mut s = shape(vec![]);
    s.has_where_clause = true;
    assert_eq!(check_trait_shape(&s), Err(ShapeError::WhereClause));
    s.is_auto = true;
    assert_eq!(check_trait_shape(&s), Err(ShapeError::AutoTrait));
    s.is_unsafe = true;
    assert_eq!(check_trait_shape(&s), Err(ShapeError::UnsafeTrait));
}

#[test]
fn first_item_that_is_not_a_type_is_named() {
    let s = shape(vec![
        TraitItemKind::Type { has_default: false },
        TraitItemKind::Other,
        TraitItemKind::Type { has_default: true },
    ]);
    assert_eq!(check_trait_shape(&s), Err(ShapeError::ItemNotAType(1)));
}

#[test]
fn type_with_default_is_refused() {
    let s = shape(vec![
        TraitItemKind::Type { has_default: false },
        TraitItemKind::Type { has_default: true },
    ]);
    assert_eq!(check_trait_shape(&s), Err(ShapeError::TypeWithDefault(1)));
}
