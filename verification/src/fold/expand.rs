//! The fold-based expansion of a module and of an impl block.
use vstd::prelude::*;
use crate::codegen::chain::{chain_alias_of, chained, Alias, AliasKind};
use crate::codegen::detour::{detour_items_of, free_with_receiver, DetourItems};
use crate::codegen::init::{init_fn_of, InitFn};
use crate::codegen::module::{module_content, module_entries, module_name_decl_of, ExpandedModule, ModuleNameDecl, ModulePtrItems};
use crate::collect::module::ModuleDecl;
use crate::collect::impl_block::{extract_self_type, SelfTy};
use crate::collect::{
    opt_view_of, const_info_of, detour_from, is_kept_item, kept_positions, last_ptr, lemma_positions_step, positions, ptr_from, Item, MacroError};
use crate::fold::{
    added, extends, folded_detours, folded_items, folded_ptrs, good_hooks, hooked_receiver_in, hooks_recorded, lemma_folded_detour_facts,
    lenient_fn_after, Detours};
use crate::model::{CratePaths, Detour, ExpansionContext, Ptr};
use crate::signature::{has_receiver, lemma_same_receivers};
use crate::tokens::{toks_view, Tok, TokV};

verus! {

/// How many detours the fold records from impl items `s`: only methods count.
pub open spec fn n_impl_hooks(s: Seq<Item>) -> nat
    decreases s.len(),
{
    if s.len() == 0 {
        0
    } else {
        n_impl_hooks(s.drop_last()) + match s[s.len() - 1] {
            Item::Fn(f) => good_hooks(f.attrs@).len(),
            _ => 0,
        }
    }
}

/// Whether `ds` are the detours the fold records from impl items `s` with
/// self type `st`: those of each method in order.
pub open spec fn impl_detours(ds: Seq<Detour>, s: Seq<Item>, st: Option<TokV>) -> bool
    decreases s.len(),
{
    &&& ds.len() == n_impl_hooks(s)
    &&& (s.len() > 0 ==> {
        let m = n_impl_hooks(s.drop_last());
        &&& m <= ds.len()
        &&& impl_detours(ds.subrange(0, m as int), s.drop_last(), st)
        &&& match s[s.len() - 1] {
            Item::Fn(f) => hooks_recorded(ds.subrange(m as int, ds.len() as int), f, st),
            _ => m == ds.len(),
        }
    })
}

/// Whether `y` is what the impl fold makes of item `x`: a method loses its
/// hook attributes (see [`lenient_fn_after`]); anything else stays as it was.
pub open spec fn impl_item_after(x: Item, y: Item) -> bool {
    match x {
        Item::Fn(f) => y matches Item::Fn(g) && lenient_fn_after(f, g),
        _ => y == x,
    }
}

proof fn lemma_impl_detours_self_type(ds: Seq<Detour>, s: Seq<Item>, st: Option<TokV>)
    requires
        impl_detours(ds, s, st),
    ensures
        forall|k: int| 0 <= k < ds.len() ==> opt_view_of(#[trigger] ds[k].self_type) == st,
    decreases s.len(),
{
    if s.len() > 0 {
        let m = n_impl_hooks(s.drop_last()) as int;
        lemma_impl_detours_self_type(ds.subrange(0, m), s.drop_last(), st);
        assert forall|k: int| 0 <= k < ds.len() implies opt_view_of(#[trigger] ds[k].self_type) == st by {
            if k < m {
                assert(ds[k] == ds.subrange(0, m)[k]);
            } else {
                assert(ds[k] == ds.subrange(m, ds.len() as int)[k - m]);
            }
        }
    }
}

/// Folds impl items `items` (methods of `self_ty`) into `d`, which starts
/// empty; every item stays, constants included.
fn fold_impl_items(d: &mut Detours, items: Vec<Item>, self_ty: &Tok) -> (r: Vec<Item>)
    requires
        old(d).detours@.len() == 0,
        old(d).ptrs@.len() == 0,
    ensures
        final(d).module_name == old(d).module_name,
        final(d).ptrs@.len() == 0,
        r@.len() == items@.len(),
        forall|k: int| 0 <= k < items@.len() ==> impl_item_after(#[trigger] items@[k], r@[k]),
        impl_detours(final(d).detours@, items@, Some(self_ty@)),
{
    let ghost c0 = items@;
    let ghost st = Some(self_ty@);
    let mut items = items;
    let mut out: Vec<Item> = Vec::new();
    let ghost mut i: int = 0;
    let ghost empty_ptrs = d.ptrs@;
    proof {
        assert(c0.subrange(0, 0) =~= Seq::<Item>::empty());
    }
    while items.len() > 0
        invariant
            0 <= i <= c0.len(),
            st == Some(self_ty@),
            items@ == c0.subrange(i, c0.len() as int),
            d.module_name == old(d).module_name,
            d.ptrs@.len() == 0,
            out@.len() == i,
            forall|k: int| 0 <= k < i ==> impl_item_after(#[trigger] c0[k], out@[k]),
            impl_detours(d.detours@, c0.subrange(0, i), st),
        decreases items@.len(),
    {
        let item = items.remove(0);
        assert(item == c0[i]);
        let ghost d0 = d.detours@;
        let ghost p0 = d.ptrs@;
        let y = match item {
            Item::Fn(f) => Item::Fn(d.collect_impl_item_fn(f, self_ty)),
            other => {
                proof {
                    assert(d.detours@.subrange(0, d.detours@.len() as int) =~= d.detours@);
                }
                other
            },
        };
        proof {
            assert(d.ptrs@.subrange(0, 0) =~= d.ptrs@);
            lemma_fold_step_impl(c0, i, d0, d.detours@, st);
        }
        out.push(y);
        proof {
            i = i + 1;
        }
    }
    proof {
        assert(c0.subrange(0, i) =~= c0);
    }
    out
}

proof fn lemma_fold_step_impl(s: Seq<Item>, i: int, d0: Seq<Detour>, d1: Seq<Detour>, st: Option<TokV>)
    requires
        0 <= i < s.len(),
        impl_detours(d0, s.subrange(0, i), st),
        extends(d0, d1),
        match s[i] {
            Item::Fn(f) => hooks_recorded(added(d0, d1), f, st),
            _ => d1 == d0,
        },
    ensures
        impl_detours(d1, s.subrange(0, i + 1), st),
{
    let a = s.subrange(0, i);
    let b = s.subrange(0, i + 1);
    assert(b.drop_last() =~= a);
    assert(b[b.len() - 1] == s[i]);
    assert(d1.subrange(0, d0.len() as int) == d0);
    assert(d1.subrange(d0.len() as int, d1.len() as int) == added(d0, d1));
}

/// The folded module's parts: its head as it was, the folded items,
/// `MODULE_NAME`, each detour's items, the chain aliases and `init_detours()`.
pub struct FoldedModule {
    pub attrs: Vec<Tok>,
    pub vis: Vec<Tok>,
    pub unsafety: Option<Tok>,
    pub mod_token: Tok,
    pub name: Tok,
    pub brace_span: usize,
    pub items: Vec<Item>,
    pub module_name: ModuleNameDecl,
    pub detours: Vec<DetourItems>,
    pub aliases: Vec<Alias>,
    pub init: InitFn,
}

/// Whether `e` is the folded module `m` with items `s`, with `ds` and `ps`
/// the detours and pointers recorded from them.
pub open spec fn folded_module_of(
    e: FoldedModule,
    m: ModuleDecl,
    s: Seq<Item>,
    ds: Seq<Detour>,
    ps: Seq<Ptr>,
    module_name: Option<Tok>,
    paths: CratePaths,
) -> bool {
    &&& e.attrs == m.attrs
    &&& e.vis == m.vis
    &&& e.unsafety == m.unsafety
    &&& e.mod_token == m.mod_token
    &&& e.name == m.name
    &&& e.brace_span == m.brace_span
    &&& folded_items(e.items@, s)
    &&& module_name_decl_of(e.module_name, ExpansionContext::Module { module_name })
    &&& e.detours@.len() == ds.len()
    &&& forall|k: int| 0 <= k < ds.len() ==> detour_items_of(#[trigger] e.detours@[k], ds[k], paths, false)
    &&& e.aliases@.len() == chained(ds).len()
    &&& forall|k: int| 0 <= k < e.aliases@.len() ==> chain_alias_of(#[trigger] e.aliases@[k], ds[chained(ds)[k]], AliasKind::Static)
    &&& init_fn_of(e.init, ds, ps, ExpansionContext::Module { module_name }, paths)
}

/// Folds `module` for module literal `module_name`. Fails without content,
/// or when a hooked free function takes `self`.
pub fn expand(module: ModuleDecl, module_name: Option<Tok>, paths: &CratePaths) -> (r: Result<FoldedModule, MacroError>)
    ensures
        r is Ok <==> (module.content matches Some(c) && !hooked_receiver_in(c@)),
        module.content is None ==> r matches Err(MacroError::NoModuleContent),
        r matches Err(e) ==> (e is NoModuleContent || e is SelfNotSupported),
        r matches Ok(e) ==> exists|ds: Seq<Detour>, ps: Seq<Ptr>| folded_detours(ds, module.content.unwrap()@, None)
            && folded_ptrs(ps, module.content.unwrap()@)
            && folded_module_of(e, module, module.content.unwrap()@, ds, ps, module_name, *paths),
{
    let ghost md = module;
    let ghost m0 = module_name;
    let mut d = Detours::new(module_name);
    let ModuleDecl { attrs, vis, unsafety, mod_token, name, brace_span, content } = module;
    let content = match content {
        Some(c) => c,
        None => {
            return Err(MacroError::NoModuleContent);
        },
    };
    let ghost c0 = content@;
    let items = d.fold_items(content);
    proof {
        assert(d.detours@.subrange(0, 0) =~= Seq::<Detour>::empty());
        assert(added(Seq::<Detour>::empty(), d.detours@) =~= d.detours@);
        assert(added(Seq::<Ptr>::empty(), d.ptrs@) =~= d.ptrs@);
        lemma_folded_detour_facts(d.detours@, c0, None);
        assert(forall|k: int| 0 <= k < d.detours@.len() ==> (#[trigger] free_with_receiver(d.detours@[k])
            <==> has_receiver(d.detours@[k].fn_sig.inputs@)));
    }
    let module_name_decl = d.get_module_name_decl();
    let detours = match d.generate_detour_decls(paths) {
        Ok(v) => v,
        Err(e) => {
            return Err(e);
        },
    };
    let aliases = d.generate_chain_aliases_for_mod();
    let init = d.generate_init_detours(paths);
    let e = FoldedModule { attrs, vis, unsafety, mod_token, name, brace_span, items, module_name: module_name_decl, detours, aliases, init };
    assert(folded_module_of(e, md, c0, d.detours@, d.ptrs@, m0, *paths));
    Ok(e)
}

impl FoldedModule {
    /// The folded module as it is written out: the same head, and the parts
    /// as its content, in the order of [`module_entries`] (with no pointer items).
    pub fn into_module(self) -> (r: ExpandedModule)
        ensures
            r.attrs == self.attrs,
            r.vis == self.vis,
            r.unsafety == self.unsafety,
            r.mod_token == self.mod_token,
            r.name == self.name,
            r.brace_span == self.brace_span,
            r.content@ == module_entries(self.items@, self.module_name, self.detours@, Seq::empty(), self.aliases@, self.init),
    {
        let FoldedModule { attrs, vis, unsafety, mod_token, name, brace_span, items, module_name, detours, aliases, init } = self;
        let no_ptrs: Vec<ModulePtrItems> = Vec::new();
        let content = module_content(items, module_name, detours, no_ptrs, aliases, init);
        ExpandedModule { attrs, vis, unsafety, mod_token, name, brace_span, content }
    }
}

/// The folded impl block, in the order it is written: each detour's items
/// before the impl block; then the impl block with its folded items
/// followed by `init_detours()` and the chain constants.
pub struct FoldedImpl {
    pub detours: Vec<DetourItems>,
    pub items: Vec<Item>,
    pub init: InitFn,
    pub chain_consts: Vec<Alias>,
}

/// Whether `e` is the folded impl block of items `s` for type `st`, with
/// `ds` the detours recorded from them.
pub open spec fn folded_impl_of(e: FoldedImpl, s: Seq<Item>, ds: Seq<Detour>, module_name: Option<Tok>, st: Tok, paths: CratePaths) -> bool {
    &&& e.detours@.len() == ds.len()
    &&& forall|k: int| 0 <= k < ds.len() ==> detour_items_of(#[trigger] e.detours@[k], ds[k], paths, false)
    &&& e.items@.len() == s.len()
    &&& forall|k: int| 0 <= k < s.len() ==> impl_item_after(#[trigger] s[k], e.items@[k])
    &&& init_fn_of(e.init, ds, Seq::empty(), ExpansionContext::Impl { module_name, self_type: st }, paths)
    &&& e.chain_consts@.len() == chained(ds).len()
    &&& forall|k: int| 0 <= k < e.chain_consts@.len() ==> chain_alias_of(#[trigger] e.chain_consts@[k], ds[chained(ds)[k]], AliasKind::Const)
}

/// The name of the type an impl block is for, when it is a plain name.
pub open spec fn self_type_name(s: SelfTy) -> Option<TokV> {
    match s {
        SelfTy::Path(p) => match p.spec_ident() {
            Some(t) => Some(t@),
            None => None,
        },
        SelfTy::Other => None,
    }
}

/// Whether `e` is the folded impl block for `self_ty` with items `s`: the
/// type is a plain name, and `e` is what folding `s` for it records and writes.
pub open spec fn folded_impl_result(e: FoldedImpl, self_ty: SelfTy, s: Seq<Item>, module_name: Option<Tok>, paths: CratePaths) -> bool {
    exists|st: Tok, ds: Seq<Detour>| #![trigger folded_impl_of(e, s, ds, module_name, st, paths)]
        self_type_name(self_ty) == Some(st@) && impl_detours(ds, s, Some(st@)) && folded_impl_of(e, s, ds, module_name, st, paths)
}

/// Folds an impl block for `self_ty` whose items are `items`, for module
/// literal `module_name`. Fails when the type is not a plain name.
pub fn expand_impl(self_ty: &SelfTy, items: Vec<Item>, module_name: Option<Tok>, paths: &CratePaths) -> (r: Result<FoldedImpl, MacroError>)
    ensures
        r is Ok <==> (self_ty matches SelfTy::Path(p) && p.spec_ident() is Some),
        r matches Err(e) ==> e is ExpectedSimpleStructName,
        r matches Ok(e) ==> folded_impl_result(e, *self_ty, items@, module_name, *paths),
{
    let ghost m0 = module_name;
    let struct_name = match extract_self_type(self_ty) {
        Ok(t) => t,
        Err(e) => {
            return Err(e);
        },
    };
    let ghost c0 = items@;
    let mut d = Detours::new(module_name);
    let new_items = fold_impl_items(&mut d, items, &struct_name);
    let init = d.generate_init_detours_for_impl(&struct_name, paths);
    let chain_consts = d.generate_chain_consts_for_impl();
    proof {
        lemma_impl_detours_self_type(d.detours@, c0, Some(struct_name@));
        assert forall|k: int| 0 <= k < d.detours@.len() implies !free_with_receiver(#[trigger] d.detours@[k]) by {
            assert(opt_view_of(d.detours@[k].self_type) == Some(struct_name@));
        }
        assert(d.ptrs@ =~= Seq::<Ptr>::empty());
    }
    let detours = match d.generate_detour_decls(paths) {
        Ok(v) => v,
        Err(e) => {
            return Err(e);
        },
    };
    let e = FoldedImpl { detours, items: new_items, init, chain_consts };
    assert(folded_impl_of(e, c0, d.detours@, m0, struct_name, *paths));
    assert(impl_detours(d.detours@, c0, Some(struct_name@)));
    assert(self_type_name(*self_ty) == Some(struct_name@));
    assert(folded_impl_result(e, *self_ty, c0, m0, *paths));
    Ok(e)
}

} // verus!
