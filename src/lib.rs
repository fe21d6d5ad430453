//! The logic behind the `named_generics_bundle` attribute: the grammar of its
//! arguments, the restriction on the annotated trait, how the generated macro
//! names module paths, and the whitespace-insensitive check of a declared
//! module path against the one the compiler reports.
pub mod args;
pub mod const_helpers;
pub mod emit;
pub mod path_check;
pub mod shape;
