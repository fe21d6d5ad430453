//! The restriction on the annotated trait: no generic parameters, no `where`
//! clause, not `unsafe` or `auto`, and a body of associated types only, none
//! of them with a default.
use vstd::prelude::*;

verus! {

/// One item of the trait's body, as far as the restriction cares.
#[derive(Clone, Copy, Debug, PartialEq, Eq, Structural)]
pub enum TraitItemKind {
    /// `type Name: Bounds;`, or `type Name = Default;` when `has_default`.
    Type { has_default: bool },
    /// A method, a constant, a macro invocation or anything else.
    Other,
}

/// The outline of an annotated trait declaration.
#[derive(Clone, Debug, PartialEq, Eq)]
pub struct TraitShape {
    pub is_unsafe: bool,
    pub is_auto: bool,
    pub has_generics: bool,
    pub has_where_clause: bool,
    pub items: Vec<TraitItemKind>,
}

/// Which construct of the declaration is refused; item errors hold the
/// item's index in the body.
#[derive(Clone, Copy, Debug, PartialEq, Eq, Structural)]
pub enum ShapeError {
    UnsafeTrait,
    AutoTrait,
    GenericParameters,
    WhereClause,
    ItemNotAType(usize),
    TypeWithDefault(usize),
}

/// What is wrong with the item at index `k`, if anything.
pub open spec fn item_problem(it: TraitItemKind, k: int) -> Option<ShapeError> {
    match it {
        TraitItemKind::Type { has_default } => if has_default {
            Some(ShapeError::TypeWithDefault(k as usize))
        } else {
            None
        },
        TraitItemKind::Other => Some(ShapeError::ItemNotAType(k as usize)),
    }
}

/// The first problem among the items from index `k` on.
pub open spec fn first_item_problem(items: Seq<TraitItemKind>, k: int) -> Option<ShapeError>
    decreases items.len() - k,
{
    if k < 0 || k >= items.len() {
        None
    } else {
        match item_problem(items[k], k) {
            Some(e) => Some(e),
            None => first_item_problem(items, k + 1),
        }
    }
}

/// What the restriction says of a declaration: the first refused construct,
/// in the order the declaration is written, or none.
pub open spec fn shape_problem(s: TraitShape) -> Option<ShapeError> {
    if s.is_unsafe {
        Some(ShapeError::UnsafeTrait)
    } else if s.is_auto {
        Some(ShapeError::AutoTrait)
    } else if s.has_generics {
        Some(ShapeError::GenericParameters)
    } else if s.has_where_clause {
        Some(ShapeError::WhereClause)
    } else {
        first_item_problem(s.items@, 0)
    }
}

/// Checks that a trait declaration keeps to the restriction, naming the first
/// construct that does not.
pub fn check_trait_shape(shape: &TraitShape) -> (r: Result<(), ShapeError>)
    ensures
        match shape_problem(*shape) {
            None => r is Ok,
            Some(e) => r == Err::<(), ShapeError>(e),
        },
{
    if shape.is_unsafe {
        return Err(ShapeError::UnsafeTrait);
    }
    if shape.is_auto {
        return Err(ShapeError::AutoTrait);
    }
    if shape.has_generics {
        return Err(ShapeError::GenericParameters);
    }
    if shape.has_where_clause {
        return Err(ShapeError::WhereClause);
    }
    let mut k: usize = 0;
    while k < shape.items.len()
        invariant
            k <= shape.items.len(),
            first_item_problem(shape.items@, k as int) == first_item_problem(shape.items@, 0),
            shape_problem(*shape) == first_item_problem(shape.items@, 0),
        decreases shape.items.len() - k,
    {
        match shape.items[k] {
            TraitItemKind::Type { has_default } => {
                if has_default {
                    return Err(ShapeError::TypeWithDefault(k));
                }
            },
            TraitItemKind::Other => {
                return Err(ShapeError::ItemNotAType(k));
            },
        }
        k += 1;
    }
    Ok(())
}

} // verus!
