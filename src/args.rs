//! The arguments of the attribute: an optional path to the annotated trait's
//! own module and an optional path to this crate, each given at most once as
//! `name = path`, in any order, separated by optional commas.
use vstd::prelude::*;
use vstd::string::StringExecFns;

verus! {

/// One token of the attribute's arguments.
#[derive(Clone, Debug, PartialEq, Eq)]
pub enum ArgToken {
    /// An identifier; `reserved` when it is one of the language's keywords.
    Ident { name: String, reserved: bool },
    /// One punctuation character; `joint` when the next character is glued to it.
    Punct { ch: char, joint: bool },
    /// A literal, a lifetime or a delimited group.
    Other,
}

/// A path written in module style: `crate::a::b`, `::some_crate`, `self`.
#[derive(Clone, Debug, PartialEq, Eq)]
pub struct ModPath {
    pub leading_colon: bool,
    pub segments: Vec<String>,
}

/// What was given for each of the two arguments.
#[derive(Clone, Debug, PartialEq, Eq)]
pub struct Args {
    /// `path_to_this_very_module = crate::...`, the module of the trait.
    pub module: Option<ModPath>,
    /// `path_to_named_generics_bundle_crate = ...`, how to name this crate.
    pub krate: Option<ModPath>,
}

/// Why the arguments were refused; each holds the index of the offending
/// token (the number of tokens where the input ended too early).
#[derive(Clone, Copy, Debug, PartialEq, Eq, Structural)]
pub enum ArgsError {
    /// Neither argument name stands where one was expected.
    UnknownArgument(usize),
    /// An argument was given a second time.
    DuplicateEntry(usize),
    /// No `=` after an argument name.
    ExpectedEquals(usize),
    /// The module path does not start with `crate`.
    NotCrateRelative(usize),
    /// No path segment where one is needed: at the start, or after `::`.
    ExpectedPathSegment(usize),
}

/// A path as the contracts see it: the leading `::`, and each segment's text.
pub type PathView = (bool, Seq<Seq<char>>);

/// The two arguments as the contracts see them.
pub type ArgsView = (Option<PathView>, Option<PathView>);

/// The text of each segment.
pub open spec fn names_view(v: Seq<String>) -> Seq<Seq<char>> {
    v.map_values(|s: String| s@)
}

impl View for ModPath {
    type V = PathView;

    open spec fn view(&self) -> PathView {
        (self.leading_colon, names_view(self.segments@))
    }
}

pub open spec fn opt_path_view(p: Option<ModPath>) -> Option<PathView> {
    match p {
        Some(p) => Some(p@),
        None => None,
    }
}

impl View for Args {
    type V = ArgsView;

    open spec fn view(&self) -> ArgsView {
        (opt_path_view(self.module), opt_path_view(self.krate))
    }
}

/// The token at `i` is the identifier `w`.
pub open spec fn ident_at(t: Seq<ArgToken>, i: int, w: Seq<char>) -> bool {
    0 <= i < t.len() && match t[i] {
        ArgToken::Ident { name, .. } => name@ == w,
        _ => false,
    }
}

/// The token at `i` is the punctuation character `c`.
pub open spec fn punct_at(t: Seq<ArgToken>, i: int, c: char) -> bool {
    0 <= i < t.len() && match t[i] {
        ArgToken::Punct { ch, .. } => ch == c,
        _ => false,
    }
}

/// The tokens at `i` and `i + 1` form `::`.
pub open spec fn path_sep_at(t: Seq<ArgToken>, i: int) -> bool {
    0 <= i && i + 1 < t.len() && match t[i] {
        ArgToken::Punct { ch, joint } => ch == ':' && joint,
        _ => false,
    } && punct_at(t, i + 1, ':')
}

/// The token at `i` can be a segment of a module-style path: an identifier
/// that is not reserved, or one of the path keywords.
pub open spec fn segment_at(t: Seq<ArgToken>, i: int) -> bool {
    0 <= i < t.len() && match t[i] {
        ArgToken::Ident { name, reserved } => !reserved || name@ == "crate"@ || name@ == "self"@
            || name@ == "super"@ || name@ == "Self"@,
        _ => false,
    }
}

/// The text of the identifier at `i`.
pub open spec fn name_at(t: Seq<ArgToken>, i: int) -> Seq<char> {
    match t[i] {
        ArgToken::Ident { name, .. } => name@,
        _ => Seq::empty(),
    }
}

/// Reads `a::b::c` from `i`: the segments, where reading stopped, and
/// whether the last thing read was a `::` with no segment after it.
pub open spec fn scan_segments(t: Seq<ArgToken>, i: int) -> (Seq<Seq<char>>, int, bool)
    decreases t.len() - i,
{
    if !segment_at(t, i) {
        (Seq::empty(), i, false)
    } else if !path_sep_at(t, i + 1) {
        (seq![name_at(t, i)], i + 1, false)
    } else {
        let rest = scan_segments(t, i + 3);
        if rest.0.len() == 0 {
            (seq![name_at(t, i)], i + 3, true)
        } else {
            (seq![name_at(t, i)] + rest.0, rest.1, rest.2)
        }
    }
}

/// Reads a module-style path from `i`: the path and where it ends.
pub open spec fn parse_path(t: Seq<ArgToken>, i: int) -> Result<(PathView, int), ArgsError> {
    let lead = path_sep_at(t, i);
    let s = if lead {
        i + 2
    } else {
        i
    };
    let r = scan_segments(t, s);
    if r.0.len() == 0 {
        Err(ArgsError::ExpectedPathSegment(s as usize))
    } else if r.2 {
        Err(ArgsError::ExpectedPathSegment(r.1 as usize))
    } else {
        Ok(((lead, r.0), r.1))
    }
}

/// Past an optional comma at `i`.
pub open spec fn skip_comma(t: Seq<ArgToken>, i: int) -> int {
    if punct_at(t, i, ',') {
        i + 1
    } else {
        i
    }
}

/// Reads the arguments from `i` on, given what was read before `i`.
pub open spec fn parse_entries(
    t: Seq<ArgToken>,
    i: int,
    module: Option<PathView>,
    krate: Option<PathView>,
) -> Result<ArgsView, ArgsError>
    decreases t.len() - i via parse_entries_decreases
{
    if i < 0 || i >= t.len() {
        Ok((module, krate))
    } else if ident_at(t, i, "path_to_this_very_module"@) {
        if module is Some {
            Err(ArgsError::DuplicateEntry(i as usize))
        } else if !punct_at(t, i + 1, '=') {
            Err(ArgsError::ExpectedEquals((i + 1) as usize))
        } else if !ident_at(t, i + 2, "crate"@) {
            Err(ArgsError::NotCrateRelative((i + 2) as usize))
        } else {
            match parse_path(t, i + 2) {
                Err(e) => Err(e),
                Ok((p, e)) => parse_entries(t, skip_comma(t, e), Some(p), krate),
            }
        }
    } else if ident_at(t, i, "path_to_named_generics_bundle_crate"@) {
        if krate is Some {
            Err(ArgsError::DuplicateEntry(i as usize))
        } else if !punct_at(t, i + 1, '=') {
            Err(ArgsError::ExpectedEquals((i + 1) as usize))
        } else {
            match parse_path(t, i + 2) {
                Err(e) => Err(e),
                Ok((p, e)) => parse_entries(t, skip_comma(t, e), module, Some(p)),
            }
        }
    } else {
        Err(ArgsError::UnknownArgument(i as usize))
    }
}

/// Reading segments never goes back, and goes forward when one was read.
proof fn lemma_scan_advances(t: Seq<ArgToken>, i: int)
    ensures
        scan_segments(t, i).1 >= i,
        scan_segments(t, i).0.len() > 0 ==> scan_segments(t, i).1 > i,
        scan_segments(t, i).0.len() > 0 ==> scan_segments(t, i).1 <= t.len(),
    decreases t.len() - i,
{
    if segment_at(t, i) && path_sep_at(t, i + 1) {
        lemma_scan_advances(t, i + 3);
    }
}

#[via_fn]
proof fn parse_entries_decreases(
    t: Seq<ArgToken>,
    i: int,
    module: Option<PathView>,
    krate: Option<PathView>,
) {
    if 0 <= i < t.len() {
        lemma_scan_advances(t, i + 2);
        lemma_scan_advances(t, i + 4);
        if let Ok((_, e)) = parse_path(t, i + 2) {
            assert(e > i);
            assert(skip_comma(t, e) > i);
            assert(skip_comma(t, e) <= t.len());
        }
    }
}

/// The arguments that `t` holds, or why they are refused.
pub open spec fn parse_args_spec(t: Seq<ArgToken>) -> Result<ArgsView, ArgsError> {
    parse_entries(t, 0, None, None)
}

/// Whether the token at `i` is the identifier `w`.
fn ident_is(toks: &Vec<ArgToken>, i: usize, w: &str) -> (r: bool)
    ensures
        r == ident_at(toks@, i as int, w@),
{
    if i >= toks.len() {
        return false;
    }
    match &toks[i] {
        ArgToken::Ident { name, .. } => *name == String::from_str(w),
        _ => false,
    }
}

/// Whether the token at `i` is the punctuation character `c`.
fn punct_is(toks: &Vec<ArgToken>, i: usize, c: char) -> (r: bool)
    ensures
        r == punct_at(toks@, i as int, c),
{
    if i >= toks.len() {
        return false;
    }
    match &toks[i] {
        ArgToken::Punct { ch, .. } => *ch == c,
        _ => false,
    }
}

/// Whether the tokens at `i` and `i + 1` form `::`.
fn path_sep_is(toks: &Vec<ArgToken>, i: usize) -> (r: bool)
    ensures
        r == path_sep_at(toks@, i as int),
{
    if i >= toks.len() || toks.len() - i < 2 {
        return false;
    }
    match &toks[i] {
        ArgToken::Punct { ch, joint } => *ch == ':' && *joint && punct_is(toks, i + 1, ':'),
        _ => false,
    }
}

/// Whether the token at `i` can be a segment of a module-style path.
fn segment_is(toks: &Vec<ArgToken>, i: usize) -> (r: bool)
    ensures
        r == segment_at(toks@, i as int),
{
    if i >= toks.len() {
        return false;
    }
    match &toks[i] {
        ArgToken::Ident { name, reserved } => !*reserved || *name == String::from_str("crate")
            || *name == String::from_str("self") || *name == String::from_str("super")
            || *name == String::from_str("Self"),
        _ => false,
    }
}

/// Reads `a::b::c` from `i`, as [`scan_segments`] says.
fn read_segments(toks: &Vec<ArgToken>, i: usize) -> (r: (Vec<String>, usize, bool))
    requires
        i <= toks.len(),
    ensures
        names_view(r.0@) == scan_segments(toks@, i as int).0,
        r.1 as int == scan_segments(toks@, i as int).1,
        r.2 == scan_segments(toks@, i as int).2,
        r.1 <= toks.len(),
    decreases toks.len() - i,
{
    if !segment_is(toks, i) {
        return (Vec::new(), i, false);
    }
    let name = match &toks[i] {
        ArgToken::Ident { name, .. } => name.clone(),
        _ => String::new(),
    };
    let mut first: Vec<String> = Vec::new();
    first.push(name.clone());
    proof {
        assert(names_view(first@) =~= seq![name_at(toks@, i as int)]);
    }
    if !path_sep_is(toks, i + 1) {
        return (first, i + 1, false);
    }
    let (mut rest, end, trailing) = read_segments(toks, i + 3);
    if rest.len() == 0 {
        return (first, i + 3, true);
    }
    let ghost old_rest = rest@;
    rest.insert(0, name);
    proof {
        assert(names_view(rest@) =~= seq![name_at(toks@, i as int)] + names_view(old_rest));
    }
    (rest, end, trailing)
}

/// Reads a module-style path from `i`, as [`parse_path`] says.
fn read_path(toks: &Vec<ArgToken>, i: usize) -> (r: Result<(ModPath, usize), ArgsError>)
    requires
        i <= toks.len(),
    ensures
        match r {
            Ok((p, e)) => parse_path(toks@, i as int) == Ok::<(PathView, int), ArgsError>(
                (p@, e as int),
            ) && e <= toks.len(),
            Err(err) => parse_path(toks@, i as int) == Err::<(PathView, int), ArgsError>(err),
        },
{
    let lead = path_sep_is(toks, i);
    let s = if lead {
        i + 2
    } else {
        i
    };
    let (segments, end, trailing) = read_segments(toks, s);
    if segments.len() == 0 {
        return Err(ArgsError::ExpectedPathSegment(s));
    }
    if trailing {
        return Err(ArgsError::ExpectedPathSegment(end));
    }
    Ok((ModPath { leading_colon: lead, segments }, end))
}

/// Reads the attribute's arguments: each of `path_to_this_very_module = crate::...`
/// and `path_to_named_generics_bundle_crate = ...` at most once, in any order,
/// each followed by an optional comma. Fails on a repeated or unknown name, a
/// missing `=`, a module path that does not start with `crate`, or a malformed
/// path.
pub fn parse_args(toks: &Vec<ArgToken>) -> (r: Result<Args, ArgsError>)
    ensures
        match r {
            Ok(a) => parse_args_spec(toks@) == Ok::<ArgsView, ArgsError>(a@),
            Err(e) => parse_args_spec(toks@) == Err::<ArgsView, ArgsError>(e),
        },
{
    let mut module: Option<ModPath> = None;
    let mut krate: Option<ModPath> = None;
    let mut i: usize = 0;
    while i < toks.len()
        invariant
            i <= toks.len(),
            parse_entries(toks@, i as int, opt_path_view(module), opt_path_view(krate))
                == parse_args_spec(toks@),
        decreases toks.len() - i,
    {
        if ident_is(toks, i, "path_to_this_very_module") {
            if module.is_some() {
                return Err(ArgsError::DuplicateEntry(i));
            }
            if !punct_is(toks, i + 1, '=') {
                return Err(ArgsError::ExpectedEquals(i + 1));
            }
            if !ident_is(toks, i + 2, "crate") {
                return Err(ArgsError::NotCrateRelative(i + 2));
            }
            proof {
                lemma_scan_advances(toks@, i + 2);
                lemma_scan_advances(toks@, i + 4);
            }
            match read_path(toks, i + 2) {
                Err(e) => {
                    return Err(e);
                },
                Ok((p, e)) => {
                    module = Some(p);
                    i = if punct_is(toks, e, ',') {
                        e + 1
                    } else {
                        e
                    };
                },
            }
        } else if ident_is(toks, i, "path_to_named_generics_bundle_crate") {
            if krate.is_some() {
                return Err(ArgsError::DuplicateEntry(i));
            }
            if !punct_is(toks, i + 1, '=') {
                return Err(ArgsError::ExpectedEquals(i + 1));
            }
            proof {
                lemma_scan_advances(toks@, i + 2);
                lemma_scan_advances(toks@, i + 4);
            }
            match read_path(toks, i + 2) {
                Err(e) => {
                    return Err(e);
                },
                Ok((p, e)) => {
                    krate = Some(p);
                    i = if punct_is(toks, e, ',') {
                        e + 1
                    } else {
                        e
                    };
                },
            }
        } else {
            return Err(ArgsError::UnknownArgument(i));
        }
    }
    Ok(Args { module, krate })
}

} // verus!
