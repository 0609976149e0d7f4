use retour_utils::codegen::init::{InitAction, LookupCtor};
use retour_utils::collect::impl_block::SelfTy;
use retour_utils::collect::module::ModuleDecl;
use retour_utils::collect::{AttrMeta, Attribute, ConstItem, FnItem, Item, MacroError, ModItem, PathModel, PathSegment};
use retour_utils::fold::expand::{expand, expand_impl};
use retour_utils::fold::Detours;
use retour_utils::model::{CratePaths, FoundCrate};
use retour_utils::signature::{FnArg, PatType, Signature};
use retour_utils::tokens::{LitKind, Tok};

fn ident(s: &str, span: usize) -> Tok {
    Tok::Ident { text: s.chars().collect(), span }
}

fn punct(c: char, span: usize) -> Tok {
    Tok::Punct { ch: c, joint: false, span }
}

fn lit(kind: LitKind, s: &str, span: usize) -> Tok {
    Tok::Lit { kind, text: s.chars().collect(), span }
}

fn text(t: &Tok) -> String {
    match t {
        Tok::Ident { text, .. } => text.iter().collect(),
        Tok::Lit { text, .. } => text.iter().collect(),
        Tok::Punct { ch, .. } => ch.to_string(),
        Tok::Group { .. } => String::from("(..)"),
    }
}

fn path(name: &str, span: usize) -> PathModel {
    PathModel { leading_colon: false, segments: vec![PathSegment { ident: ident(name, span), has_args: false }] }
}

fn attr(id: usize, name: &str, tokens: Vec<Tok>) -> Attribute {
    Attribute { id, path: path(name, 50 + id), meta: AttrMeta::List { tokens } }
}

fn hook_args(name: &str, offset: &str, chain: bool) -> Vec<Tok> {
    let mut v = vec![ident(name, 1), punct(',', 2), ident("offset", 3), punct('=', 4), lit(LitKind::Int, offset, 5)];
    if chain {
        v.push(punct(',', 6));
        v.push(ident("chain", 7));
    }
    v
}

fn hooked_fn(id: usize, name: &str, attrs: Vec<Attribute>) -> Item {
    Item::Fn(FnItem {
        id,
        attrs,
        vis: vec![],
        sig: Signature {
            ident: ident(name, 30),
            fn_span: 31,
            paren_span: 32,
            inputs: vec![FnArg::Typed(PatType { attrs: vec![], pat: vec![ident("v", 33)], colon: punct(':', 34), ty: vec![ident("i32", 35)] })],
            variadic: None,
            output: None,
        },
    })
}

fn module(content: Option<Vec<Item>>) -> ModuleDecl {
    ModuleDecl {
        attrs: vec![],
        vis: vec![ident("pub", 95)],
        unsafety: None,
        mod_token: ident("mod", 96),
        name: ident("hooks", 97),
        brace_span: 98,
        content,
    }
}

fn paths() -> CratePaths {
    CratePaths::init(&FoundCrate::Itself, &FoundCrate::Name("retour".chars().collect()))
}

#[test]
fn unreadable_hooks_are_passed_over() {
    let f = hooked_fn(0, "f", vec![attr(0, "hook", vec![ident("Broken", 1)]), attr(1, "hook", hook_args("Good", "0x10", false))]);
    let mut d = Detours::new(None);
    let g = match d.fold_item(f) {
        Some(Item::Fn(g)) => g,
        _ => panic!("the function stays"),
    };
    assert!(g.attrs.is_empty());
    assert_eq!(d.detours.len(), 1);
    assert_eq!(text(&d.detours[0].attr.detour_name), "Good");
}

#[test]
fn every_readable_hook_is_recorded() {
    let f = hooked_fn(0, "f", vec![attr(0, "hook", hook_args("A", "1", false)), attr(1, "hook", hook_args("B", "2", true))]);
    let mut d = Detours::new(None);
    match d.fold_item(f) {
        Some(Item::Fn(g)) => assert_eq!(text(&g.sig.ident), "__f_detour"),
        _ => panic!("the function stays"),
    }
    assert_eq!(d.detours.len(), 2);
    assert_eq!(text(&d.detours[0].fn_sig.ident), "f");
    assert_eq!(text(&d.detours[1].fn_sig.ident), "__f_detour");
    assert_eq!(text(&d.detours[1].original_fn_name), "f");
}

#[test]
fn folded_module() {
    let good_ptr = Item::Const(ConstItem {
        id: 1,
        attrs: vec![attr(0, "ptr", vec![ident("symbol", 1), punct('=', 2), lit(LitKind::Str, "\"g\"", 3)])],
        vis: vec![],
        ident: ident("G", 4),
        ty: vec![ident("u32", 5)],
    });
    let bad_ptr = Item::Const(ConstItem { id: 2, attrs: vec![attr(0, "ptr", vec![ident("nonsense", 1)])], vis: vec![], ident: ident("B", 4), ty: vec![] });
    let f = hooked_fn(3, "f", vec![attr(0, "hook", hook_args("H", "0x20", true))]);
    let content = vec![Item::Other { id: 0, nested: vec![] }, good_ptr, bad_ptr, f];
    let e = match expand(module(Some(content)), Some(lit(LitKind::Str, "\"game.dll\"", 9)), &paths()) {
        Ok(e) => e,
        Err(_) => panic!("the module folds"),
    };
    assert_eq!(e.items.len(), 2);
    assert!(matches!(e.items[0], Item::Other { id: 0, .. }));
    assert!(matches!(&e.items[1], Item::Fn(g) if text(&g.sig.ident) == "__f_detour"));
    let c = e.detours[0].chain.as_ref().expect("a chain");
    assert!(!c.next_first);
    assert_eq!(e.aliases.len(), 1);
    assert_eq!(text(&e.aliases[0].name), "f");
    assert_eq!(e.init.inits.len(), 2);
    assert_eq!(e.init.inits[0].lookup.ctor, LookupCtor::FromOffset);
    match &e.init.inits[1].action {
        InitAction::Ptr { accessor } => assert_eq!(text(accessor), "G"),
        _ => panic!("the pointer's initialisation comes last"),
    }
    assert_eq!(e.init.inits[1].lookup.ctor, LookupCtor::FromSymbol);
    assert_eq!(e.init.error.iter().map(|s| s.iter().collect::<String>()).collect::<Vec<_>>(), vec!["retour_utils", "Error"]);
    assert!(matches!(expand(module(None), None, &paths()), Err(MacroError::NoModuleContent)));
}

#[test]
fn folded_impl_keeps_constants() {
    let k = Item::Const(ConstItem {
        id: 0,
        attrs: vec![attr(0, "ptr", vec![ident("offset", 1), punct('=', 2), lit(LitKind::Int, "8", 3)])],
        vis: vec![],
        ident: ident("P", 4),
        ty: vec![ident("u8", 5)],
    });
    let f = hooked_fn(1, "m", vec![attr(0, "hook", hook_args("M", "4", false))]);
    let e = match expand_impl(&SelfTy::Path(path("S", 60)), vec![k, f], None, &paths()) {
        Ok(e) => e,
        Err(_) => panic!("the impl block folds"),
    };
    assert_eq!(e.items.len(), 2);
    assert!(matches!(&e.items[0], Item::Const(c) if c.attrs.len() == 1));
    assert_eq!(e.init.inits.len(), 1);
    match &e.init.inits[0].action {
        InitAction::Detour { self_type, fn_name, .. } => {
            assert_eq!(self_type.as_ref().map(text), Some("S".to_string()));
            assert_eq!(text(fn_name), "m");
        },
        _ => panic!("a detour initialisation"),
    }
    assert!(e.chain_consts.is_empty());
    assert!(matches!(expand_impl(&SelfTy::Other, vec![], None, &paths()), Err(MacroError::ExpectedSimpleStructName)));
}

#[test]
fn impl_constants_with_readable_ptr_attributes_go() {
    let mut d = Detours::new(None);
    let keep = ConstItem { id: 0, attrs: vec![attr(0, "ptr", vec![ident("x", 1)])], vis: vec![], ident: ident("K", 2), ty: vec![] };
    assert!(d.collect_impl_item_const(keep).is_some());
    let go = ConstItem {
        id: 1,
        attrs: vec![attr(0, "ptr", vec![ident("offset", 1), punct('=', 2), lit(LitKind::Int, "3", 3)])],
        vis: vec![],
        ident: ident("P", 4),
        ty: vec![ident("u8", 5)],
    };
    assert!(d.collect_impl_item_const(go).is_none());
    assert_eq!(d.ptrs.len(), 1);
    assert_eq!(text(&d.ptrs[0].name), "P");
}

#[test]
fn inner_modules_are_folded() {
    let inner_ptr = Item::Const(ConstItem {
        id: 1,
        attrs: vec![attr(0, "ptr", vec![ident("offset", 1), punct('=', 2), lit(LitKind::Int, "4", 3)])],
        vis: vec![],
        ident: ident("P", 4),
        ty: vec![ident("u8", 5)],
    });
    let inner = Item::Mod(ModItem { id: 0, content: Some(vec![hooked_fn(0, "g", vec![attr(0, "hook", hook_args("G", "0x30", false))]), inner_ptr]) });
    let e = match expand(module(Some(vec![inner, Item::Other { id: 1, nested: vec![] }])), None, &paths()) {
        Ok(e) => e,
        Err(_) => panic!("the module folds"),
    };
    assert_eq!(e.items.len(), 2);
    match &e.items[0] {
        Item::Mod(m) => {
            let c = m.content.as_ref().expect("content");
            assert_eq!(c.len(), 1);
            assert!(matches!(&c[0], Item::Fn(g) if g.attrs.is_empty()));
        },
        _ => panic!("the inner module stays"),
    }
    assert_eq!(e.detours.len(), 1);
    assert_eq!(text(&e.detours[0].detour.name), "G");
    assert_eq!(e.init.inits.len(), 2);
    match &e.init.inits[1].action {
        InitAction::Ptr { accessor } => assert_eq!(text(accessor), "P"),
        _ => panic!("the inner pointer is initialised"),
    }
}

#[test]
fn items_nested_in_other_items_are_folded() {
    let nested_ptr = Item::Const(ConstItem {
        id: 1,
        attrs: vec![attr(0, "ptr", vec![ident("symbol", 1), punct('=', 2), lit(LitKind::Str, "\"q\"", 3)])],
        vis: vec![],
        ident: ident("Q", 4),
        ty: vec![ident("u8", 5)],
    });
    let nested = vec![hooked_fn(0, "h", vec![attr(0, "hook", hook_args("H", "0x40", true))]), nested_ptr];
    let e = match expand(module(Some(vec![Item::Other { id: 0, nested }])), None, &paths()) {
        Ok(e) => e,
        Err(_) => panic!("the module folds"),
    };
    assert_eq!(e.items.len(), 1);
    match &e.items[0] {
        Item::Other { id, nested } => {
            assert_eq!(*id, 0);
            assert_eq!(nested.len(), 1);
            match &nested[0] {
                Item::Fn(g) => {
                    assert!(g.attrs.is_empty());
                    assert_eq!(text(&g.sig.ident), "__h_detour");
                },
                _ => panic!("the nested function stays"),
            }
        },
        _ => panic!("the item stays"),
    }
    assert_eq!(e.detours.len(), 1);
    assert_eq!(text(&e.detours[0].detour.name), "H");
    assert_eq!(e.init.inits.len(), 2);
    match &e.init.inits[1].action {
        InitAction::Ptr { accessor } => assert_eq!(text(accessor), "Q"),
        _ => panic!("the nested pointer is initialised"),
    }
}
