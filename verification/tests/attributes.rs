use retour_utils::attr::{AttrError, Expected, HookAttr, LookupTarget, PtrAttr, Visibility};
use retour_utils::collect::MacroError;
use retour_utils::tokens::{Delim, LitKind, Tok};

fn ident(s: &str, span: usize) -> Tok {
    Tok::Ident { text: s.chars().collect(), span }
}

fn punct(c: char, span: usize) -> Tok {
    Tok::Punct { ch: c, joint: false, span }
}

fn lit(kind: LitKind, s: &str, span: usize) -> Tok {
    Tok::Lit { kind, text: s.chars().collect(), span }
}

fn text(t: &Tok) -> String {
    match t {
        Tok::Ident { text, .. } => text.iter().collect(),
        Tok::Lit { text, .. } => text.iter().collect(),
        Tok::Punct { ch, .. } => ch.to_string(),
        Tok::Group { .. } => String::from("(..)"),
    }
}

fn texts(v: &[Tok]) -> Vec<String> {
    v.iter().map(text).collect()
}

#[test]
fn chained_hook_with_abi() {
    let toks = vec![
        ident("extern", 1),
        lit(LitKind::Str, "\"C\"", 2),
        ident("OriginalFnHook", 3),
        punct(',', 4),
        ident("offset", 5),
        punct('=', 6),
        lit(LitKind::Int, "0x0", 7),
        punct(',', 8),
        ident("chain", 9),
    ];
    let a = match HookAttr::parse(&toks) {
        Ok(a) => a,
        Err(_) => panic!("well-formed hook arguments"),
    };
    assert!(matches!(a.visibility, Visibility::Inherited));
    assert!(a.unsafety.is_none());
    let abi = a.abi.as_ref().expect("an ABI");
    assert_eq!(text(&abi.extern_token), "extern");
    assert_eq!(abi.name.as_ref().map(text), Some("\"C\"".to_string()));
    assert_eq!(text(&a.detour_name), "OriginalFnHook");
    assert!(a.chain);
    assert_eq!(texts(&a.chain_tokens), vec![",", "chain"]);
    match &a.target {
        LookupTarget::Offset { minus, value, .. } => {
            assert!(minus.is_none());
            assert_eq!(text(value), "0x0");
        },
        LookupTarget::Symbol { .. } => panic!("an offset target"),
    }
    assert_eq!(texts(&a.to_tokens()), vec!["OriginalFnHook", ",", "offset", "=", "0x0"]);
}

#[test]
fn restricted_unsafe_symbol_hook() {
    let toks = vec![
        ident("pub", 1),
        Tok::Group { delim: Delim::Paren, body: vec![ident("crate", 2)], span: 3 },
        ident("unsafe", 4),
        ident("extern", 5),
        lit(LitKind::Str, "\"system\"", 6),
        ident("MessageBoxWHook", 7),
        punct(',', 8),
        ident("symbol", 9),
        punct('=', 10),
        lit(LitKind::Str, "\"MessageBoxW\"", 11),
    ];
    let a = match HookAttr::parse(&toks) {
        Ok(a) => a,
        Err(_) => panic!("well-formed hook arguments"),
    };
    match &a.visibility {
        Visibility::Restricted { in_token, path, .. } => {
            assert!(in_token.is_none());
            assert_eq!(texts(path), vec!["crate"]);
        },
        _ => panic!("a restricted visibility"),
    }
    assert_eq!(a.unsafety.as_ref().map(text), Some("unsafe".to_string()));
    assert!(!a.chain);
    let vis = a.visibility.to_tokens();
    assert_eq!(vis.len(), 2);
    assert_eq!(text(&vis[0]), "pub");
    match &vis[1] {
        Tok::Group { delim, body, span } => {
            assert_eq!(*delim, Delim::Paren);
            assert_eq!(texts(body), vec!["crate"]);
            assert_eq!(*span, 3);
        },
        _ => panic!("a parenthesised group"),
    }
}

#[test]
fn negative_offset() {
    let toks = vec![ident("H", 1), punct(',', 2), ident("offset", 3), punct('=', 4), punct('-', 5), lit(LitKind::Int, "16", 6)];
    let a = match HookAttr::parse(&toks) {
        Ok(a) => a,
        Err(_) => panic!("well-formed hook arguments"),
    };
    assert_eq!(texts(&a.target.value_tokens()), vec!["-", "16"]);
}

fn expect_err(toks: Vec<Tok>, expected: Expected, at: Option<usize>) {
    match HookAttr::parse(&toks) {
        Ok(_) => panic!("malformed hook arguments are refused"),
        Err(e) => {
            assert_eq!(e.expected, expected);
            assert_eq!(e.at, at);
        },
    }
}

#[test]
fn malformed_hook_arguments() {
    expect_err(vec![ident("H", 1), ident("offset", 2), punct('=', 3), lit(LitKind::Int, "1", 4)], Expected::Comma, Some(2));
    expect_err(vec![ident("H", 1), punct(',', 2), ident("foo", 3), punct('=', 4), lit(LitKind::Int, "1", 5)], Expected::OffsetOrSymbol, Some(3));
    expect_err(vec![ident("H", 1), punct(',', 2), ident("offset", 3), lit(LitKind::Int, "1", 4)], Expected::Equals, Some(4));
    expect_err(vec![ident("H", 1), punct(',', 2), ident("symbol", 3), punct('=', 4), lit(LitKind::Int, "5", 5)], Expected::StringLiteral, Some(5));
    expect_err(vec![ident("H", 1), punct(',', 2), ident("offset", 3), punct('=', 4), lit(LitKind::Str, "\"x\"", 5)], Expected::IntegerLiteral, Some(5));
    expect_err(
        vec![ident("H", 1), punct(',', 2), ident("offset", 3), punct('=', 4), lit(LitKind::Int, "1", 5), punct(',', 6), ident("extra", 7)],
        Expected::EndOfArguments,
        Some(6),
    );
    expect_err(vec![ident("_", 1), punct(',', 2)], Expected::IdentifierNotKeyword, Some(1));
    expect_err(vec![ident("fn", 1), punct(',', 2)], Expected::IdentifierNotKeyword, Some(1));
    expect_err(vec![], Expected::Identifier, None);
    expect_err(vec![ident("H", 1), punct(',', 2)], Expected::OffsetOrSymbol, None);
}

#[test]
fn ptr_arguments() {
    let ok = vec![ident("symbol", 1), punct('=', 2), lit(LitKind::Str, "\"g_state\"", 3)];
    match PtrAttr::parse(&ok) {
        Ok(p) => assert_eq!(texts(&p.target.to_tokens()), vec!["symbol", "=", "\"g_state\""]),
        Err(_) => panic!("a well-formed target"),
    }
    let extra = vec![ident("offset", 1), punct('=', 2), lit(LitKind::Int, "8", 3), punct(',', 4), ident("chain", 5)];
    match PtrAttr::parse(&extra) {
        Ok(_) => panic!("a pointer takes a target only"),
        Err(e) => {
            assert_eq!(e.expected, Expected::EndOfArguments);
            assert_eq!(e.at, Some(4));
        },
    }
}

fn hook_after(vis: Vec<Tok>) -> Vec<Tok> {
    let mut v = vis;
    v.extend(vec![ident("H", 20), punct(',', 21), ident("offset", 22), punct('=', 23), lit(LitKind::Int, "1", 24)]);
    v
}

fn joint(c: char, span: usize) -> Tok {
    Tok::Punct { ch: c, joint: true, span }
}

#[test]
fn malformed_visibility_restrictions() {
    let paren = |body: Vec<Tok>| Tok::Group { delim: Delim::Paren, body, span: 9 };
    expect_err(hook_after(vec![ident("pub", 1), paren(vec![ident("foo", 2)])]), Expected::Identifier, Some(9));
    expect_err(hook_after(vec![ident("pub", 1), paren(vec![ident("crate", 2), ident("x", 3)])]), Expected::Identifier, Some(9));
    expect_err(hook_after(vec![ident("pub", 1), paren(vec![ident("in", 2)])]), Expected::PathSegment, Some(9));
    expect_err(
        hook_after(vec![ident("pub", 1), paren(vec![ident("in", 2), ident("a", 3), joint(':', 4), punct(':', 5)])]),
        Expected::PathSegment,
        Some(9),
    );
    expect_err(
        hook_after(vec![ident("pub", 1), paren(vec![ident("in", 2), ident("a", 3), joint(':', 4), punct(':', 5), punct('+', 6)])]),
        Expected::PathSegment,
        Some(6),
    );
}

#[test]
fn tokens_after_a_restriction_path_are_refused() {
    let body = vec![ident("in", 2), ident("crate", 3), joint(':', 4), punct(':', 5), ident("a", 6), ident("extra", 7)];
    let toks = hook_after(vec![ident("pub", 1), Tok::Group { delim: Delim::Paren, body, span: 9 }]);
    expect_err(toks, Expected::EndOfArguments, Some(7));
    let body = vec![ident("in", 2), ident("crate", 3), ident("extra", 7)];
    let mut toks = vec![ident("pub", 1), Tok::Group { delim: Delim::Paren, body, span: 9 }, ident("H", 20), punct(',', 21)];
    toks.push(ident("nowhere", 22));
    expect_err(toks, Expected::OffsetOrSymbol, Some(22));
    let body = vec![ident("in", 2), ident("crate", 3), joint(':', 4), punct(':', 5), ident("a", 6)];
    let toks = hook_after(vec![ident("pub", 1), Tok::Group { delim: Delim::Paren, body, span: 9 }]);
    match HookAttr::parse(&toks) {
        Ok(a) => match &a.visibility {
            Visibility::Restricted { in_token, path, .. } => {
                assert!(in_token.is_some());
                assert_eq!(texts(path), vec!["crate", ":", ":", "a"]);
            },
            _ => panic!("a restricted visibility"),
        },
        Err(_) => panic!("well-formed hook arguments"),
    }
}

#[test]
fn malformed_ptr_targets() {
    let err = |toks: Vec<Tok>| match PtrAttr::parse(&toks) {
        Ok(_) => panic!("malformed pointer arguments are refused"),
        Err(e) => (e.expected, e.at),
    };
    assert_eq!(err(vec![]), (Expected::OffsetOrSymbol, None));
    assert_eq!(err(vec![ident("symbol", 1)]), (Expected::Equals, None));
    assert_eq!(err(vec![ident("offset", 1), punct('=', 2), punct('-', 3), ident("x", 4)]), (Expected::IntegerLiteral, Some(3)));
    assert_eq!(err(vec![ident("symbol", 1), punct('=', 2)]), (Expected::StringLiteral, None));
}

#[test]
fn error_messages() {
    let msg = |e: MacroError| -> String { e.message().iter().collect() };
    assert_eq!(msg(MacroError::Attr(AttrError { expected: Expected::Comma, at: Some(3) })), "expected `,`");
    assert_eq!(msg(MacroError::Attr(AttrError { expected: Expected::Comma, at: None })), "unexpected end of input, expected `,`");
    assert_eq!(msg(MacroError::Attr(AttrError { expected: Expected::EndOfArguments, at: None })), "unexpected end of input");
    assert_eq!(
        msg(MacroError::ArgumentsNotInParentheses { span: 0, path: "hook".chars().collect() }),
        "expected attribute arguments in parentheses: #[hook(...)]"
    );
    assert_eq!(msg(MacroError::ExpectedParentheses { span: 0, path: "ptr".chars().collect() }), "expected parentheses: #[ptr(...)]");
    assert_eq!(msg(MacroError::NoModuleContent), "Could not get content inside `mod`");
}
