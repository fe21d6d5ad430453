use named_generics_bundle::args::{parse_args, ArgToken, Args, ArgsError, ModPath};

fn word(s: &str) -> ArgToken {
    ArgToken::Ident { name: s.to_string(), reserved: false }
}

fn keyword(s: &str) -> ArgToken {
    ArgToken::Ident { name: s.to_string(), reserved: true }
}

fn punct(ch: char) -> ArgToken {
    ArgToken::Punct { ch, joint: false }
}

fn sep() -> Vec<ArgToken> {
    vec![ArgToken::Punct { ch: ':', joint: true }, punct(':')]
}

fn path(leading_colon: bool, segments: &[&str]) -> ModPath {
    ModPath { leading_colon, segments: segments.iter().map(|s| s.to_string()).collect() }
}

/// `crate::a::b` as tokens.
fn crate_a_b() -> Vec<ArgToken> {
    let mut t = vec![keyword("crate")];
    t.extend(sep());
    t.push(word("a"));
    t.extend(sep());
    t.push(word("b"));
    t
}

#[test]
fn no_arguments_give_no_paths() {
    assert_eq!(parse_args(&vec![]), Ok(Args { module: None, krate: None }));
}

#[test]
fn module_path_is_read() {
    let mut t = vec![word("path_to_this_very_module"), punct('=')];
    t.extend(crate_a_b());
    t.push(punct(','));
    assert_eq!(
        parse_args(&t),
        Ok(Args { module: Some(path(false, &["crate", "a", "b"])), krate: None })
    );
}

#[test]
fn both_arguments_in_either_order() {
    let mut t = vec![word("path_to_named_generics_bundle_crate"), punct('=')];
    t.extend(sep());
    t.push(word("renamed"));
    t.push(word("path_to_this_very_module"));
    t.push(punct('='));
    t.push(keyword("crate"));
    assert_eq!(
        parse_args(&t),
        Ok(Args {
            module: Some(path(false, &["crate"])),
            krate: Some(path(true, &["renamed"])),
        })
    );
}

#[test]
fn repeated_argument_is_refused() {
    let mut t = vec![word("path_to_this_very_module"), punct('='), keyword("crate"), punct(',')];
    t.push(word("path_to_this_very_module"));
    t.push(punct('='));
    t.push(keyword("crate"));
    assert_eq!(parse_args(&t), Err(ArgsError::DuplicateEntry(4)));
}

#[test]
fn unknown_argument_is_refused() {
    let t = vec![word("foo"), punct('='), word("x")];
    assert_eq!(parse_args(&t), Err(ArgsError::UnknownArgument(0)));
    let t = vec![ArgToken::Other];
    assert_eq!(parse_args(&t), Err(ArgsError::UnknownArgument(0)));
}

#[test]
fn missing_equals_is_refused() {
    let t = vec![word("path_to_this_very_module"), keyword("crate")];
    assert_eq!(parse_args(&t), Err(ArgsError::ExpectedEquals(1)));
    let t = vec![word("path_to_named_generics_bundle_crate")];
    assert_eq!(parse_args(&t), Err(ArgsError::ExpectedEquals(1)));
}

#[test]
fn module_path_must_start_with_crate() {
    let mut t = vec![word("path_to_this_very_module"), punct('='), word("my_crate")];
    t.extend(sep());
    t.push(word("a"));
    assert_eq!(parse_args(&t), Err(ArgsError::NotCrateRelative(2)));
}

#[test]
fn path_ending_in_separator_is_refused() {
    let mut t = vec![word("path_to_this_very_module"), punct('='), keyword("crate")];
    t.extend(sep());
    assert_eq!(parse_args(&t), Err(ArgsError::ExpectedPathSegment(5)));
}

#[test]
fn reserved_word_is_no_path_segment() {
    let t = vec![word("path_to_named_generics_bundle_crate"), punct('='), keyword("fn")];
    assert_eq!(parse_args(&t), Err(ArgsError::ExpectedPathSegment(2)));
    let t = vec![word("path_to_named_generics_bundle_crate"), punct('='), keyword("self")];
    assert_eq!(
        parse_args(&t),
        Ok(Args { module: None, krate: Some(path(false, &["self"])) })
    );
}

#[test]
fn spaced_colons_do_not_separate_segments() {
    let t = vec![
        word("path_to_this_very_module"),
        punct('='),
        keyword("crate"),
        punct(':'),
        punct(':'),
        word("a"),
    ];
    assert_eq!(parse_args(&t), Err(ArgsError::UnknownArgument(3)));
}
