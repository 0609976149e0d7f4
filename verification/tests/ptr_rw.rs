//! `#[hook_impl("foo.dll")]` on `impl Foo` with two `#[ptr(offset = ...)]`
//! constants: the accessor each pointer gets, the static its address is
//! stored into, and the constant that reads it. The reads and writes through
//! the stored address are raw memory accesses in the written code; these
//! tests check the expansion that writes them.
use retour_utils::codegen::chain::AliasKind;
use retour_utils::codegen::init::{InitAction, LookupCtor};
use retour_utils::collect::impl_block::SelfTy;
use retour_utils::collect::{AttrMeta, Attribute, ConstItem, Item, PathModel, PathSegment};
use retour_utils::expand::expand_impl;
use retour_utils::model::{CratePaths, FoundCrate};
use retour_utils::tokens::{LitKind, Tok};

fn ident(s: &str, span: usize) -> Tok {
    Tok::Ident { text: s.chars().collect(), span }
}

fn punct(c: char, span: usize) -> Tok {
    Tok::Punct { ch: c, joint: false, span }
}

fn lit(kind: LitKind, s: &str, span: usize) -> Tok {
    Tok::Lit { kind, text: s.chars().collect(), span }
}

fn text(t: &Tok) -> String {
    match t {
        Tok::Ident { text, .. } => text.iter().collect(),
        Tok::Lit { text, .. } => text.iter().collect(),
        Tok::Punct { ch, .. } => ch.to_string(),
        Tok::Group { .. } => String::from("(..)"),
    }
}

fn path(name: &str, span: usize) -> PathModel {
    PathModel { leading_colon: false, segments: vec![PathSegment { ident: ident(name, span), has_args: false }] }
}

fn ptr_const(id: usize, name: &str, ty: &str, offset: &str) -> Item {
    Item::Const(ConstItem {
        id,
        attrs: vec![Attribute {
            id: 0,
            path: path("ptr", 10),
            meta: AttrMeta::List { tokens: vec![ident("offset", 11), punct('=', 12), lit(LitKind::Int, offset, 13)] },
        }],
        vis: vec![ident("pub", 14)],
        ident: ident(name, 15),
        ty: vec![ident(ty, 16)],
    })
}

fn paths() -> CratePaths {
    CratePaths::init(&FoundCrate::Name("retour-utils".chars().collect()), &FoundCrate::Name("retour".chars().collect()))
}

fn check_pointer(name: &str, ty: &str, offset: &str) {
    let items = vec![ptr_const(0, "SOME_FLOAT", "f32", "0x1234"), ptr_const(1, "SOME_INT", "i32", "0x5678")];
    let e = match expand_impl(&SelfTy::Path(path("Foo", 1)), items, Some(lit(LitKind::Str, "\"foo.dll\"", 2)), &paths()) {
        Ok(e) => e,
        Err(_) => panic!("the impl block expands"),
    };
    assert_eq!(e.items.len(), 0);
    assert_eq!(e.ptrs.len(), 2);
    assert_eq!(e.ptr_consts.len(), 2);
    assert_eq!(e.init.inits.len(), 2);
    let k = if name == "SOME_FLOAT" { 0 } else { 1 };

    let acc = &e.ptrs[k].accessor;
    assert_eq!(text(&acc.name), format!("{}_PtrAccessor", name));
    assert_eq!(acc.ty.iter().map(text).collect::<Vec<_>>(), vec![ty.to_string()]);
    assert!(acc.addr_public);
    let backing = &e.ptrs[k].backing;
    assert_eq!(text(&backing.name), format!("__PTR_{}", name));
    assert_eq!(text(&backing.ty_name), format!("{}_PtrAccessor", name));
    assert!(backing.vis.is_empty());

    let c = &e.ptr_consts[k];
    assert_eq!(c.kind, AliasKind::Const);
    assert_eq!(text(&c.name), name);
    assert_eq!(text(&c.target), format!("__PTR_{}", name));
    assert_eq!(c.vis.iter().map(text).collect::<Vec<_>>(), vec!["pub".to_string()]);

    let init = &e.init.inits[k];
    assert_eq!(init.lookup.ctor, LookupCtor::FromOffset);
    assert_eq!(init.lookup.module.as_ref().map(text), Some("\"foo.dll\"".to_string()));
    assert_eq!(init.lookup.value.iter().map(text).collect::<Vec<_>>(), vec![offset.to_string()]);
    match &init.action {
        InitAction::Ptr { accessor } => assert_eq!(text(accessor), format!("__PTR_{}", name)),
        InitAction::Detour { .. } => panic!("a pointer is initialised by storing its address"),
    }
}

#[test]
fn ptr_read_write_float() {
    check_pointer("SOME_FLOAT", "f32", "0x1234");
}

#[test]
fn ptr_read_write_int() {
    check_pointer("SOME_INT", "i32", "0x5678");
}
