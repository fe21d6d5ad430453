//! The check that a module path declared by the caller names the module the
//! compiler reports for the same place, and the message shown when it does not.
use crate::const_helpers::{
    eq_modulo_spaces, eq_modulo_whitespace, find_subslice, from_first,
};
use vstd::prelude::*;
use vstd::string::{StringExecFns, StringSliceAdditionalSpecFns};
use vstd::utf8::encode_utf8;

verus! {

/// The `:` byte, where the compiler's module path leaves the crate's name.
pub const COLON: u8 = 58;

/// The path that a declared module path must match: `crate`, then what the
/// compiler's module path holds after the crate's own name.
pub open spec fn expected_module_path(reported: Seq<u8>) -> Seq<u8> {
    "crate".spec_bytes() + from_first(reported, COLON)
}

/// The message shown on a mismatch: the expected path between backquotes.
pub open spec fn mismatch_message(reported: Seq<u8>) -> Seq<u8> {
    "expected `".spec_bytes() + expected_module_path(reported) + "`".spec_bytes()
}

/// Encoding a concatenation encodes each part.
pub proof fn lemma_encode_utf8_append(a: Seq<char>, b: Seq<char>)
    ensures
        encode_utf8(a + b) == encode_utf8(a) + encode_utf8(b),
    decreases a.len(),
{
    if a.len() == 0 {
        assert(a + b =~= b);
        assert(encode_utf8(a) + encode_utf8(b) =~= encode_utf8(b));
    } else {
        assert((a + b).drop_first() =~= a.drop_first() + b);
        lemma_encode_utf8_append(a.drop_first(), b);
        let head = vstd::utf8::encode_scalar(a[0] as u32);
        assert(head + (encode_utf8(a.drop_first()) + encode_utf8(b)) =~= (head + encode_utf8(
            a.drop_first(),
        )) + encode_utf8(b));
    }
}

/// Builds the path that `reported`, a path as the compiler reports it
/// (`my_crate::a::b`), stands for when written from inside the crate
/// (`crate::a::b`).
pub fn expected_path(reported: &str) -> (r: String)
    ensures
        encode_utf8(r@) == expected_module_path(reported.spec_bytes()),
{
    let rest = find_subslice(reported, COLON);
    let mut r = String::new();
    r.append("crate");
    r.append(rest);
    proof {
        assert(r@ =~= "crate"@ + rest@);
        lemma_encode_utf8_append("crate"@, rest@);
    }
    r
}

/// Checks a declared module path against the one the compiler reports for the
/// same place, ignoring spaces. On a mismatch the error names the path that
/// should have been written.
pub fn check_module_path(declared: &str, reported: &str) -> (r: Result<(), String>)
    ensures
        r is Ok <==> eq_modulo_spaces(
            declared.spec_bytes(),
            expected_module_path(reported.spec_bytes()),
        ),
        r matches Err(msg) ==> encode_utf8(msg@) == mismatch_message(reported.spec_bytes()),
{
    let expected = expected_path(reported);
    if eq_modulo_whitespace(declared, expected.as_str()) {
        Ok(())
    } else {
        let mut msg = String::new();
        msg.append("expected `");
        msg.append(expected.as_str());
        msg.append("`");
        proof {
            assert(msg@ =~= "expected `"@ + expected@ + "`"@);
            lemma_encode_utf8_append("expected `"@, expected@);
            lemma_encode_utf8_append("expected `"@ + expected@, "`"@);
        }
        Err(msg)
    }
}

} // verus!
