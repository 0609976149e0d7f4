use retour_utils::codegen::chain::AliasKind;
use retour_utils::codegen::detour::Forward;
use retour_utils::codegen::init::{InitAction, LookupCtor};
use retour_utils::collect::impl_block::SelfTy;
use retour_utils::codegen::module::{generate, ModuleEntry};
use retour_utils::collect::module::{CollectedModule, ModuleDecl};
use retour_utils::collect::{AttrMeta, Attribute, FnInfo, FnItem, Item, MacroError, PathModel, PathSegment};
use retour_utils::expand::{expand_impl, expand_module};
use retour_utils::model::{resolve_crate, CratePaths, FoundCrate};
use retour_utils::signature::{FnArg, PatType, Receiver, RefToken, ReturnType, Signature};
use retour_utils::attr::Expected;
use retour_utils::tokens::{Delim, LitKind, Tok};

fn ident(s: &str, span: usize) -> Tok {
    Tok::Ident { text: s.chars().collect(), span }
}

fn punct(c: char, span: usize) -> Tok {
    Tok::Punct { ch: c, joint: false, span }
}

fn lit(kind: LitKind, s: &str, span: usize) -> Tok {
    Tok::Lit { kind, text: s.chars().collect(), span }
}

fn text(t: &Tok) -> String {
    match t {
        Tok::Ident { text, .. } => text.iter().collect(),
        Tok::Lit { text, .. } => text.iter().collect(),
        Tok::Punct { ch, .. } => ch.to_string(),
        Tok::Group { delim, body, .. } => {
            let inner: Vec<String> = body.iter().map(text).collect();
            match delim {
                Delim::Paren => format!("({})", inner.join(" ")),
                Delim::Bracket => format!("[{}]", inner.join(" ")),
                Delim::Brace => format!("{{{}}}", inner.join(" ")),
            }
        },
    }
}

fn joined(v: &[Tok]) -> String {
    v.iter().map(text).collect::<Vec<_>>().join(" ")
}

fn path(name: &str, span: usize) -> PathModel {
    PathModel { leading_colon: false, segments: vec![PathSegment { ident: ident(name, span), has_args: false }] }
}

fn attr(id: usize, name: &str, tokens: Vec<Tok>) -> Attribute {
    Attribute { id, path: path(name, 50 + id), meta: AttrMeta::List { tokens } }
}

fn typed(name: &str, ty: Vec<Tok>, span: usize) -> FnArg {
    FnArg::Typed(PatType { attrs: vec![], pat: vec![ident(name, span)], colon: punct(':', span + 1), ty })
}

fn ret(ty: Vec<Tok>) -> Option<ReturnType> {
    Some(ReturnType { arrow: vec![Tok::Punct { ch: '-', joint: true, span: 90 }, punct('>', 90)], ty })
}

fn sig(name: &str, inputs: Vec<FnArg>, output: Option<ReturnType>) -> Signature {
    Signature { ident: ident(name, 30), fn_span: 31, paren_span: 32, inputs, variadic: None, output }
}

fn module(content: Option<Vec<Item>>) -> ModuleDecl {
    ModuleDecl {
        attrs: vec![],
        vis: vec![ident("pub", 95)],
        unsafety: None,
        mod_token: ident("mod", 96),
        name: ident("hooks", 97),
        brace_span: 98,
        content,
    }
}

fn paths() -> CratePaths {
    CratePaths::init(&FoundCrate::Name("retour-utils".chars().collect()), &FoundCrate::Name("retour".chars().collect()))
}

fn message_box_hook() -> Item {
    Item::Fn(FnItem {
        id: 1,
        attrs: vec![
            attr(0, "inline", vec![]),
            attr(
                1,
                "hook",
                vec![
                    ident("unsafe", 1),
                    ident("extern", 2),
                    lit(LitKind::Str, "\"system\"", 3),
                    ident("MessageBoxWHook", 4),
                    punct(',', 5),
                    ident("symbol", 6),
                    punct('=', 7),
                    lit(LitKind::Str, "\"MessageBoxW\"", 8),
                ],
            ),
        ],
        vis: vec![],
        sig: sig("messageboxw_detour", vec![typed("hwnd", vec![ident("HWND", 20)], 21)], ret(vec![ident("i32", 22)])),
    })
}

#[test]
fn module_with_symbol_hook() {
    let plain = Item::Fn(FnItem { id: 2, attrs: vec![], vis: vec![ident("pub", 40)], sig: sig("helper", vec![], None) });
    let content = vec![Item::Other { id: 0, nested: vec![] }, message_box_hook(), plain];
    let e = match expand_module(module(Some(content)), Some(lit(LitKind::Str, "\"user32.dll\"", 9)), &paths()) {
        Ok(e) => e,
        Err(_) => panic!("the module expands"),
    };
    assert_eq!(e.items.len(), 3);
    assert!(matches!(e.items[0], Item::Other { id: 0, .. }));
    match &e.items[1] {
        Item::Fn(f) => {
            assert_eq!(f.attrs.len(), 1);
            assert_eq!(f.attrs[0].id, 0);
            assert_eq!(text(&f.sig.ident), "messageboxw_detour");
        },
        _ => panic!("the hooked function stays"),
    }
    match &e.items[2] {
        Item::Fn(f) => {
            assert_eq!(text(&f.sig.ident), "helper");
            assert_eq!(joined(&f.vis), "pub");
        },
        _ => panic!("the plain function stays"),
    }
    assert_eq!(e.module_name.value.as_ref().map(text), Some("\"user32.dll\"".to_string()));
    assert_eq!(e.module_name.span, 9);

    assert_eq!(e.detours.len(), 1);
    let d = &e.detours[0].detour;
    assert!(e.detours[0].chain.is_none());
    assert_eq!(text(&d.name), "MessageBoxWHook");
    assert_eq!(d.static_detour.iter().map(|s| s.iter().collect::<String>()).collect::<Vec<_>>(), vec!["retour", "StaticDetour"]);
    assert!(matches!(&d.forward, Forward::Original { detour } if text(detour) == "MessageBoxWHook"));
    assert_eq!(d.args.iter().map(|a| joined(a)).collect::<Vec<_>>(), vec!["hwnd"]);
    assert_eq!(d.trampoline.params.iter().map(|a| joined(a)).collect::<Vec<_>>(), vec!["hwnd : HWND"]);
    assert_eq!(d.trampoline.unsafety.as_ref().map(text), Some("unsafe".to_string()));
    assert_eq!(d.fn_type.inputs.iter().map(|a| joined(a)).collect::<Vec<_>>(), vec!["HWND"]);
    assert_eq!(d.fn_type.output.as_ref().map(|o| joined(&o.ty)), Some("i32".to_string()));
    assert!(e.ptrs.is_empty());
    assert!(e.aliases.is_empty());

    assert_eq!(e.init.inits.len(), 1);
    let i = &e.init.inits[0];
    assert_eq!(i.lookup.ctor, LookupCtor::FromSymbol);
    assert_eq!(i.lookup.module.as_ref().map(text), Some("\"user32.dll\"".to_string()));
    assert_eq!(joined(&i.lookup.value), "\"MessageBoxW\"");
    assert_eq!(i.lookup.path.iter().map(|s| s.iter().collect::<String>()).collect::<Vec<_>>(), vec!["retour_utils", "LookupData"]);
    match &i.action {
        InitAction::Detour { detour_name, self_type, fn_name } => {
            assert_eq!(text(detour_name), "MessageBoxWHook");
            assert!(self_type.is_none());
            assert_eq!(text(fn_name), "messageboxw_detour");
        },
        _ => panic!("a detour initialisation"),
    }
}

#[test]
fn unnamed_module_looks_up_in_executable() {
    let e = match expand_module(module(Some(vec![message_box_hook()])), None, &paths()) {
        Ok(e) => e,
        Err(_) => panic!("the module expands"),
    };
    assert!(e.module_name.value.is_none());
    assert_eq!(e.module_name.span, 0);
    assert_eq!(e.init.inits[0].lookup.ctor, LookupCtor::FromSelfSymbol);
    assert!(e.init.inits[0].lookup.module.is_none());
}

#[test]
fn chained_method_hook() {
    let f = Item::Fn(FnItem {
        id: 0,
        attrs: vec![attr(
            0,
            "hook",
            vec![
                ident("extern", 1),
                lit(LitKind::Str, "\"C\"", 2),
                ident("OriginalFnHook", 3),
                punct(',', 4),
                ident("offset", 5),
                punct('=', 6),
                lit(LitKind::Int, "0x0", 7),
                punct(',', 8),
                ident("chain", 9),
            ],
        )],
        vis: vec![],
        sig: sig("original_fn", vec![typed("value", vec![ident("i32", 20)], 21)], ret(vec![ident("i32", 22)])),
    });
    let e = match expand_impl(&SelfTy::Path(path("Hooks", 60)), vec![f], None, &paths()) {
        Ok(e) => e,
        Err(_) => panic!("the impl block expands"),
    };
    match &e.items[0] {
        Item::Fn(g) => {
            assert_eq!(text(&g.sig.ident), "__original_fn_detour");
            assert!(g.attrs.is_empty());
        },
        _ => panic!("the method stays"),
    }
    let items = &e.detours[0];
    assert!(matches!(&items.detour.forward, Forward::Chain { chain } if text(chain) == "OriginalFnHook__chain"));
    let c = items.chain.as_ref().expect("a chain");
    assert_eq!(text(&c.ty_name), "OriginalFnHook__ChainType");
    assert_eq!(text(&c.static_name), "OriginalFnHook__chain");
    assert_eq!(text(&c.detour_name), "OriginalFnHook");
    assert!(!c.next_first);
    assert!(c.newest_first);
    assert!(!c.unsafe_call);
    assert_eq!(c.parts.arg_names.iter().map(|a| joined(a)).collect::<Vec<_>>(), vec!["value"]);
    assert_eq!(c.parts.typed_args.iter().map(|a| joined(a)).collect::<Vec<_>>(), vec!["value : i32"]);
    assert_eq!(joined(&c.parts.ret_ty), "- > i32");
    assert_eq!(c.private_mutex.iter().map(|s| s.iter().collect::<String>()).collect::<Vec<_>>(), vec!["retour_utils", "__private", "Mutex"]);

    assert_eq!(e.chain_consts.len(), 1);
    let k = &e.chain_consts[0];
    assert_eq!(k.kind, AliasKind::Const);
    assert_eq!(text(&k.name), "original_fn");
    assert_eq!(text(&k.target), "OriginalFnHook__chain");
    assert_eq!(text(&k.ty_name), "OriginalFnHook__ChainType");

    let i = &e.init.inits[0];
    assert_eq!(i.lookup.ctor, LookupCtor::FromSelfOffset);
    assert_eq!(joined(&i.lookup.value), "0x0");
    match &i.action {
        InitAction::Detour { self_type, fn_name, .. } => {
            assert_eq!(self_type.as_ref().map(text), Some("Hooks".to_string()));
            assert_eq!(text(fn_name), "__original_fn_detour");
        },
        _ => panic!("a detour initialisation"),
    }
}

#[test]
fn method_with_receiver_and_self_type() {
    let recv = FnArg::Receiver(Receiver { attrs: vec![], reference: Some(RefToken { and_span: 70 }), mutability: None, self_span: 71 });
    let other = typed("other", vec![punct('&', 72), ident("Self", 73)], 74);
    let f = Item::Fn(FnItem {
        id: 0,
        attrs: vec![attr(0, "hook", vec![ident("GetHook", 1), punct(',', 2), ident("offset", 3), punct('=', 4), lit(LitKind::Int, "0x10", 5)])],
        vis: vec![ident("pub", 6)],
        sig: sig("get", vec![recv, other], ret(vec![ident("u32", 75)])),
    });
    let e = match expand_impl(&SelfTy::Path(path("Foo", 60)), vec![f], Some(lit(LitKind::Str, "\"foo.dll\"", 61)), &paths()) {
        Ok(e) => e,
        Err(_) => panic!("the impl block expands"),
    };
    let d = &e.detours[0].detour;
    assert_eq!(d.trampoline.params.iter().map(|a| joined(a)).collect::<Vec<_>>(), vec!["self_ptr : * const Foo", "other : & Foo"]);
    assert_eq!(d.fn_type.inputs.iter().map(|a| joined(a)).collect::<Vec<_>>(), vec!["* const Foo", "& Foo"]);
    assert_eq!(d.args.iter().map(|a| joined(a)).collect::<Vec<_>>(), vec!["self_ptr", "other"]);
    assert_eq!(e.init.inits[0].lookup.ctor, LookupCtor::FromOffset);
}

#[test]
fn expansion_errors() {
    assert!(matches!(expand_module(module(None), None, &paths()), Err(MacroError::NoModuleContent)));
    assert!(matches!(expand_impl(&SelfTy::Other, vec![], None, &paths()), Err(MacroError::ExpectedSimpleStructName)));
    let two = PathModel {
        leading_colon: false,
        segments: vec![PathSegment { ident: ident("a", 1), has_args: false }, PathSegment { ident: ident("B", 2), has_args: false }],
    };
    assert!(matches!(expand_impl(&SelfTy::Path(two), vec![], None, &paths()), Err(MacroError::ExpectedSimpleStructName)));

    let recv = FnArg::Receiver(Receiver { attrs: vec![], reference: None, mutability: None, self_span: 71 });
    let f = Item::Fn(FnItem {
        id: 0,
        attrs: vec![attr(0, "hook", vec![ident("H", 1), punct(',', 2), ident("offset", 3), punct('=', 4), lit(LitKind::Int, "1", 5)])],
        vis: vec![],
        sig: sig("f", vec![recv], None),
    });
    match expand_module(module(Some(vec![f])), None, &paths()) {
        Err(MacroError::SelfNotSupported { spans }) => assert_eq!(spans, vec![71]),
        _ => panic!("a free function taking self is refused"),
    }

    let bad = Item::Fn(FnItem { id: 0, attrs: vec![attr(0, "hook", vec![ident("H", 1)])], vis: vec![], sig: sig("f", vec![], None) });
    match expand_module(module(Some(vec![bad])), None, &paths()) {
        Err(MacroError::Attr(e)) => assert_eq!(e.at, None),
        _ => panic!("malformed hook arguments are refused"),
    }

    let bare = Item::Fn(FnItem {
        id: 0,
        attrs: vec![Attribute { id: 0, path: path("hook", 80), meta: AttrMeta::Path }],
        vis: vec![],
        sig: sig("f", vec![], None),
    });
    match expand_module(module(Some(vec![bare])), None, &paths()) {
        Err(MacroError::ArgumentsNotInParentheses { span, path }) => {
            assert_eq!(span, 80);
            assert_eq!(path.iter().collect::<String>(), "hook");
        },
        _ => panic!("`#[hook]` without arguments is refused"),
    }
    let eq = Item::Fn(FnItem {
        id: 0,
        attrs: vec![Attribute { id: 0, path: path("hook", 80), meta: AttrMeta::NameValue { eq_span: 81 } }],
        vis: vec![],
        sig: sig("f", vec![], None),
    });
    assert!(matches!(expand_module(module(Some(vec![eq])), None, &paths()), Err(MacroError::ExpectedParentheses { span: 81, .. })));
}

#[test]
fn crate_names() {
    assert_eq!(resolve_crate(&FoundCrate::Name("retour-utils".chars().collect()), "retour_utils").iter().collect::<String>(), "retour_utils");
    assert_eq!(resolve_crate(&FoundCrate::Itself, "retour_utils").iter().collect::<String>(), "retour_utils");
    assert_eq!(resolve_crate(&FoundCrate::Name("my-hooks".chars().collect()), "x").iter().collect::<String>(), "my_hooks");
}

#[test]
fn module_content_in_order() {
    let plain = Item::Fn(FnItem { id: 0, attrs: vec![], vis: vec![], sig: sig("helper", vec![], None) });
    let chained = Item::Fn(FnItem {
        id: 1,
        attrs: vec![attr(
            0,
            "hook",
            vec![ident("H", 1), punct(',', 2), ident("offset", 3), punct('=', 4), lit(LitKind::Int, "0x8", 5), punct(',', 6), ident("chain", 7)],
        )],
        vis: vec![ident("pub", 8)],
        sig: sig("f", vec![typed("v", vec![ident("i32", 20)], 21)], ret(vec![ident("i32", 22)])),
    });
    let pointer = Item::Const(retour_utils::collect::ConstItem {
        id: 2,
        attrs: vec![attr(0, "ptr", vec![ident("symbol", 1), punct('=', 2), lit(LitKind::Str, "\"g\"", 3)])],
        vis: vec![],
        ident: ident("G", 4),
        ty: vec![ident("u32", 5)],
    });
    let e = match expand_module(module(Some(vec![plain, chained, pointer])), None, &paths()) {
        Ok(e) => e,
        Err(_) => panic!("the module expands"),
    };
    let m = e.into_module();
    assert_eq!(joined(&m.vis), "pub");
    assert_eq!(text(&m.name), "hooks");
    assert_eq!(text(&m.mod_token), "mod");
    assert_eq!(m.brace_span, 98);
    let kinds: Vec<&str> = m
        .content
        .iter()
        .map(|x| match x {
            ModuleEntry::Kept(_) => "kept",
            ModuleEntry::ModuleName(_) => "name",
            ModuleEntry::StaticDetour(_) => "static",
            ModuleEntry::Chain(_) => "chain",
            ModuleEntry::Accessor(_) => "accessor",
            ModuleEntry::PtrStatic(_) => "ptr",
            ModuleEntry::Alias(_) => "alias",
            ModuleEntry::Init(_) => "init",
        })
        .collect();
    assert_eq!(kinds, vec!["kept", "kept", "name", "static", "chain", "accessor", "ptr", "alias", "init"]);
}

#[test]
fn generate_needs_content() {
    let c = CollectedModule { module: module(None), detours: vec![], ptrs: vec![] };
    let ctx = retour_utils::model::ExpansionContext::Module { module_name: None };
    assert!(matches!(generate(c, &ctx, &paths()), Err(MacroError::NoModuleContent)));
}

#[test]
fn malformed_hook_leaves_function_as_it_was() {
    let mut info = FnInfo {
        attrs: vec![attr(0, "inline", vec![]), attr(1, "hook", vec![ident("H", 1)])],
        sig: sig("f", vec![], None),
        vis: vec![],
        self_type: None,
    };
    assert!(matches!(info.to_detour(), Err(MacroError::Attr(_))));
    assert_eq!(text(&info.sig.ident), "f");
    assert!(info.attrs.is_empty());
}

#[test]
fn first_malformed_attribute_is_reported() {
    let mut info = FnInfo {
        attrs: vec![
            attr(0, "hook", vec![ident("A", 1), punct(',', 2), ident("offset", 3), punct('=', 4), lit(LitKind::Int, "1", 5)]),
            attr(1, "hook", vec![ident("B", 11), punct(',', 12), ident("nowhere", 13)]),
            attr(2, "hook", vec![ident("C", 21)]),
        ],
        sig: sig("f", vec![], None),
        vis: vec![],
        self_type: None,
    };
    match info.to_detour() {
        Err(MacroError::Attr(e)) => {
            assert_eq!(e.expected, Expected::OffsetOrSymbol);
            assert_eq!(e.at, Some(13));
        },
        _ => panic!("the second hook attribute is malformed"),
    }
    let good = Item::Fn(FnItem {
        id: 0,
        attrs: vec![attr(0, "hook", vec![ident("G", 1), punct(',', 2), ident("offset", 3), punct('=', 4), lit(LitKind::Int, "1", 5)])],
        vis: vec![],
        sig: sig("g", vec![], None),
    });
    let first_bad = Item::Fn(FnItem { id: 1, attrs: vec![attr(0, "hook", vec![ident("H", 31), ident("x", 32)])], vis: vec![], sig: sig("h", vec![], None) });
    let second_bad = Item::Fn(FnItem { id: 2, attrs: vec![attr(0, "hook", vec![])], vis: vec![], sig: sig("k", vec![], None) });
    match expand_module(module(Some(vec![good, first_bad, second_bad])), None, &paths()) {
        Err(MacroError::Attr(e)) => {
            assert_eq!(e.expected, Expected::Comma);
            assert_eq!(e.at, Some(32));
        },
        _ => panic!("the first malformed item is reported"),
    }
}
