//! How the generated macro names paths: a module path given as `crate::a`
//! must read `$crate::a::` inside the macro's definition, so that it keeps
//! naming the same module when the macro is used from another crate.
use crate::args::{ModPath, PathView};
use vstd::prelude::*;
use vstd::string::StringExecFns;

verus! {

/// One token of a path prefix inside a macro definition.
#[derive(Clone, Debug, PartialEq, Eq)]
pub enum PrefixToken {
    /// `$`, glued to the `crate` that follows it.
    Dollar,
    /// One path segment.
    Word(String),
    /// `::`.
    PathSep,
}

/// The token is `w` as a path segment.
pub open spec fn word_is(t: PrefixToken, w: Seq<char>) -> bool {
    match t {
        PrefixToken::Word(s) => s@ == w,
        _ => false,
    }
}

/// `p` starts with the segment `crate` and no leading `::`.
pub open spec fn crate_relative(p: PathView) -> bool {
    !p.0 && p.1.len() > 0 && p.1[0] == "crate"@
}

/// `$`, then each segment of `p` followed by `::`.
pub open spec fn is_macro_prefix(r: Seq<PrefixToken>, p: PathView) -> bool {
    &&& r.len() == 1 + 2 * p.1.len()
    &&& r[0] is Dollar
    &&& forall|k: int|
        0 <= k < p.1.len() ==> #[trigger] word_is(r[1 + 2 * k], p.1[k]) && r[2 + 2 * k] is PathSep
}

/// The tokens that name the module of `module` inside the generated macro:
/// `$crate :: a :: b ::` for `crate::a::b`.
pub fn macro_module_prefix(module: &ModPath) -> (r: Vec<PrefixToken>)
    requires
        crate_relative(module@),
    ensures
        is_macro_prefix(r@, module@),
{
    let mut r: Vec<PrefixToken> = Vec::new();
    r.push(PrefixToken::Dollar);
    let mut k: usize = 0;
    while k < module.segments.len()
        invariant
            k <= module.segments.len(),
            r.len() == 1 + 2 * k,
            r@[0] is Dollar,
            forall|j: int|
                0 <= j < k ==> #[trigger] word_is(r@[1 + 2 * j], module@.1[j]) && r@[2 + 2
                    * j] is PathSep,
        decreases module.segments.len() - k,
    {
        r.push(PrefixToken::Word(module.segments[k].clone()));
        r.push(PrefixToken::PathSep);
        proof {
            assert forall|j: int| 0 <= j < k + 1 implies #[trigger] word_is(
                r@[1 + 2 * j],
                module@.1[j],
            ) && r@[2 + 2 * j] is PathSep by {
                if j < k {
                    assert(word_is(r@[1 + 2 * j], module@.1[j]));
                }
            }
        }
        k += 1;
    }
    r
}

/// Whether the crate path must be written `$crate...` inside the generated
/// macro: it was given, and starts with `crate`.
pub fn krate_needs_dollar(krate: &Option<ModPath>) -> (r: bool)
    ensures
        r == match krate {
            Some(p) => p@.1.len() > 0 && p@.1[0] == "crate"@,
            None => false,
        },
{
    match krate {
        Some(p) => p.segments.len() > 0 && p.segments[0] == String::from_str("crate"),
        None => false,
    }
}

} // verus!
